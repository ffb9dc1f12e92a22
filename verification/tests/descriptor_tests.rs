use jaust::class_file::jaustp::parse_method_descriptor::{
    describe_type, missing_parenthesis_message, parse_method_descriptor, parse_type_descriptor,
    unknown_type_message, DescriptorError, MethodSignature, Pchars,
};

fn method_sig(name: &str, args: Vec<&str>, return_type: &str) -> MethodSignature {
    MethodSignature {
        name: name.to_string(),
        args: args.iter().map(|s| s.to_string()).collect(),
        return_type: return_type.to_string(),
    }
}

fn method_descriptor_cases() -> Vec<(&'static str, MethodSignature)> {
    vec![
        ("()V", method_sig("f", vec![], "void")),
        ("(II)I", method_sig("f", vec!["int", "int"], "int")),
        (
            "(Ljava/lang/String;)V",
            method_sig("f", vec!["java.lang.String"], "void"),
        ),
        (
            "(Ljava/lang/String;I)V",
            method_sig("f", vec!["java.lang.String", "int"], "void"),
        ),
        (
            "(Ljava/lang/String;I)I",
            method_sig("f", vec!["java.lang.String", "int"], "int"),
        ),
        (
            "(Ljava/lang/String;I)[I",
            method_sig("f", vec!["java.lang.String", "int"], "int[]"),
        ),
        (
            "(Ljava/lang/String;I)[[I",
            method_sig("f", vec!["java.lang.String", "int"], "int[][]"),
        ),
    ]
}

fn type_descriptor_cases() -> Vec<(&'static str, &'static str)> {
    vec![
        ("I", "int"),
        ("J", "long"),
        ("F", "float"),
        ("D", "double"),
        ("S", "short"),
        ("B", "byte"),
        ("C", "char"),
        ("Z", "boolean"),
        ("V", "void"),
        ("Lcom/example/Class;", "com.example.Class"),
        ("[Lcom/example/Class;", "com.example.Class[]"),
    ]
}

#[test]
fn parse_method_descriptor_test_parse_method_descriptor() {
    for (descriptor, expected) in method_descriptor_cases() {
        let signature = parse_method_descriptor(descriptor, "f".to_string());
        assert_eq!(signature, expected);
    }
}

#[test]
fn parse_method_descriptor_test_parse_type_descriptor() {
    for (descriptor, expected) in type_descriptor_cases() {
        let mut descriptor = Pchars::new(descriptor);
        let type_ = parse_type_descriptor(&mut descriptor).unwrap();
        assert_eq!(type_, expected);
    }
}

#[test]
fn javap_printer_test_parse_method_descriptor() {
    for (descriptor, expected) in method_descriptor_cases() {
        let signature = parse_method_descriptor(descriptor, "f".to_string());
        assert_eq!(signature, expected);
    }
}

#[test]
fn javap_printer_test_parse_type_descriptor() {
    for (descriptor, expected) in type_descriptor_cases() {
        let mut descriptor = Pchars::new(descriptor);
        let type_ = parse_type_descriptor(&mut descriptor).unwrap();
        assert_eq!(type_, expected);
    }
}

fn name_of_type(descriptor: &str) -> Result<String, DescriptorError> {
    let mut chars = Pchars::new(descriptor);
    parse_type_descriptor(&mut chars)
}

#[test]
fn type_descriptor_primitives_and_classes() {
    assert_eq!(name_of_type("I").unwrap(), "int");
    assert_eq!(name_of_type("J").unwrap(), "long");
    assert_eq!(name_of_type("Lcom/example/Foo;").unwrap(), "com.example.Foo");
    assert_eq!(name_of_type("[I").unwrap(), "int[]");
    assert_eq!(name_of_type("[[Lcom/example/Foo;").unwrap(), "com.example.Foo[][]");
}

#[test]
fn method_descriptor_of_a_string_and_an_int() {
    let signature = parse_method_descriptor("(Ljava/lang/String;I)I", "f".to_string());
    assert_eq!(signature.name, "f");
    assert_eq!(signature.args, vec!["java.lang.String".to_string(), "int".to_string()]);
    assert_eq!(signature.return_type, "int");
}

#[test]
fn type_descriptor_reads_one_type_and_stops() {
    let mut chars = Pchars::new("ILjava/lang/String;[J");
    assert_eq!(parse_type_descriptor(&mut chars).unwrap(), "int");
    assert_eq!(parse_type_descriptor(&mut chars).unwrap(), "java.lang.String");
    assert_eq!(parse_type_descriptor(&mut chars).unwrap(), "long[]");
    assert_eq!(chars.peek(), None);
}

#[test]
fn class_name_ends_at_the_semicolon_only() {
    assert_eq!(name_of_type("La/b)c;").unwrap(), "a.b)c");
}

#[test]
fn unterminated_class_name_is_an_error() {
    assert_eq!(name_of_type("Ljava/lang/String"), Err(DescriptorError::UnexpectedEnd));
    assert_eq!(
        DescriptorError::UnexpectedEnd.to_string(),
        "Unexpected end of method descriptor"
    );
}

#[test]
fn unknown_leading_character_is_an_error() {
    assert_eq!(name_of_type("X"), Err(DescriptorError::UnknownType(Some('X'))));
    assert_eq!(
        DescriptorError::UnknownType(Some('X')).to_string(),
        "Unknown type in method descriptor: Some('X')"
    );
    assert_eq!(
        DescriptorError::UnknownType(Some('\n')).to_string(),
        "Unknown type in method descriptor: Some('\\n')"
    );
}

#[test]
fn missing_type_is_an_error() {
    assert_eq!(name_of_type(""), Err(DescriptorError::UnknownType(None)));
    assert_eq!(name_of_type("["), Err(DescriptorError::UnknownType(None)));
    assert_eq!(
        DescriptorError::UnknownType(None).to_string(),
        "Unknown type in method descriptor: None"
    );
}

#[test]
fn unknown_type_message_takes_the_written_character() {
    assert_eq!(
        unknown_type_message(Some("'q'")),
        "Unknown type in method descriptor: Some('q')"
    );
    assert_eq!(unknown_type_message(None), "Unknown type in method descriptor: None");
}

#[test]
fn describe_type_gives_the_type_or_the_message() {
    assert_eq!(describe_type("[Z"), "boolean[]");
    assert_eq!(describe_type("?"), "Unknown type in method descriptor: Some('?')");
}

#[test]
fn malformed_argument_gives_its_message_in_its_place() {
    let signature = parse_method_descriptor("(IXJ)V", "g".to_string());
    assert_eq!(
        signature.args,
        vec![
            "int".to_string(),
            "Unknown type in method descriptor: Some('X')".to_string(),
            "long".to_string()
        ]
    );
    assert_eq!(signature.return_type, "void");
}

#[test]
fn method_descriptor_without_closing_parenthesis() {
    let signature = parse_method_descriptor("(I", "g".to_string());
    assert_eq!(signature.args, vec!["int".to_string()]);
    assert_eq!(signature.return_type, "Unknown type in method descriptor: None");
}

#[test]
fn method_descriptor_without_opening_parenthesis() {
    let signature = parse_method_descriptor("I", "g".to_string());
    assert_eq!(signature.name, "g");
    assert!(signature.args.is_empty());
    assert_eq!(
        signature.return_type,
        "Expected ( at the start of method descriptor: Some('I')"
    );
    let closing = parse_method_descriptor(")V", "g".to_string());
    assert!(closing.args.is_empty());
    assert_eq!(
        closing.return_type,
        "Expected ( at the start of method descriptor: Some(')')"
    );
    let empty = parse_method_descriptor("", "g".to_string());
    assert!(empty.args.is_empty());
    assert_eq!(empty.return_type, "Expected ( at the start of method descriptor: None");
}

#[test]
fn missing_parenthesis_message_takes_the_written_character() {
    assert_eq!(
        missing_parenthesis_message(Some("'q'")),
        "Expected ( at the start of method descriptor: Some('q')"
    );
    assert_eq!(
        missing_parenthesis_message(None),
        "Expected ( at the start of method descriptor: None"
    );
    assert_eq!(
        DescriptorError::MissingParenthesis(Some('I')).to_string(),
        "Expected ( at the start of method descriptor: Some('I')"
    );
}

#[test]
fn method_descriptor_without_arguments_or_return_type() {
    let signature = parse_method_descriptor("(", "g".to_string());
    assert!(signature.args.is_empty());
    assert_eq!(signature.return_type, "Unknown type in method descriptor: None");
    let no_return = parse_method_descriptor("(I)", "g".to_string());
    assert_eq!(no_return.args, vec!["int".to_string()]);
    assert_eq!(no_return.return_type, "Unknown type in method descriptor: None");
}

#[test]
fn method_descriptor_with_unterminated_class() {
    let signature = parse_method_descriptor("(Ljava/lang", "g".to_string());
    assert_eq!(signature.args, vec!["Unexpected end of method descriptor".to_string()]);
    assert_eq!(signature.return_type, "Unknown type in method descriptor: None");
}

#[test]
fn pchars_peeks_and_reads() {
    let mut chars = Pchars::new("ab");
    assert_eq!(chars.peek(), Some('a'));
    assert!(chars.is_at('a'));
    assert!(!chars.is_at('b'));
    assert_eq!(chars.next(), Some('a'));
    assert_eq!(chars.next(), Some('b'));
    assert_eq!(chars.next(), None);
    assert_eq!(chars.peek(), None);
    assert!(!chars.is_at('a'));
}
