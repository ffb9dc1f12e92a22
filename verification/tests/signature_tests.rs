use jaust::class_file::jaustp::parse_method_descriptor::Pchars;
use jaust::class_file::jaustp::signature::{
    expect_char, parse_base_type_signature, parse_identifier, parse_package_specifiers,
    parse_signature, JavaTypeSignature,
    ReferenceTypeSignature, SignatureError,
};

fn rendered(signature: &str) -> String {
    parse_signature(signature).unwrap().to_string()
}

fn error(signature: &str) -> SignatureError {
    match parse_signature(signature) {
        Ok(t) => panic!("{} parsed as {:?}", signature, t),
        Err(e) => e,
    }
}

#[test]
fn enum_sig() {
    let signature = parse_signature("Ljava/lang/Enum<LEnumTest;>;").unwrap();
    assert_eq!(signature.to_string(), "java.lang.Enum<EnumTest>");
}

#[test]
fn base_types() {
    assert_eq!(rendered("I"), "int");
    assert_eq!(rendered("J"), "long");
    assert_eq!(rendered("F"), "float");
    assert_eq!(rendered("D"), "double");
    assert_eq!(rendered("S"), "short");
    assert_eq!(rendered("B"), "byte");
    assert_eq!(rendered("C"), "char");
    assert_eq!(rendered("Z"), "boolean");
    assert_eq!(rendered("V"), "void");
}

#[test]
fn class_without_package() {
    assert_eq!(rendered("LFoo;"), "Foo");
}

#[test]
fn class_tree_of_a_generic_class() {
    match parse_signature("Ljava/util/Map<Ljava/lang/String;TV;>;").unwrap() {
        JavaTypeSignature::ReferenceTypeSignature(ReferenceTypeSignature::ClassTypeSignature(
            c,
        )) => {
            assert_eq!(c.package_specifiers, vec!["java".to_string(), "util".to_string()]);
            assert_eq!(c.simple_class_type_signature.identifier, "Map");
            assert_eq!(c.simple_class_type_signature.type_arguments.len(), 2);
            assert!(c.class_type_signature_suffix.is_empty());
            assert_eq!(c.to_string(), "java.util.Map<java.lang.StringV>");
        }
        other => panic!("unexpected tree {:?}", other),
    }
}

#[test]
fn type_variable() {
    assert_eq!(rendered("TT;"), "T");
    assert_eq!(rendered("TElement;"), "Element");
}

#[test]
fn array_is_written_as_its_element() {
    assert_eq!(rendered("[I"), "int");
    assert_eq!(rendered("[[Ljava/lang/String;"), "java.lang.String");
}

#[test]
fn wildcards_and_bounds() {
    assert_eq!(rendered("Ljava/util/List<*>;"), "java.util.List<*>");
    assert_eq!(
        rendered("Ljava/util/List<+Ljava/lang/Number;>;"),
        "java.util.List<java.lang.Number>"
    );
    assert_eq!(
        rendered("Ljava/util/List<-Ljava/lang/Integer;>;"),
        "java.util.List<java.lang.Integer>"
    );
}

#[test]
fn nested_arguments() {
    assert_eq!(
        rendered("Ljava/util/Map<Ljava/lang/String;Ljava/util/List<Ljava/lang/Integer;>;>;"),
        "java.util.Map<java.lang.Stringjava.util.List<java.lang.Integer>>"
    );
}

#[test]
fn nested_classes() {
    assert_eq!(rendered("Lcom/Outer<TT;>.Inner;"), "com.Outer<T>.Inner");
    assert_eq!(rendered("Lcom/Outer<TT;>.Inner<TU;>.Deep;"), "com.Outer<T>.Inner<U>.Deep");
}

#[test]
fn what_follows_the_type_is_not_looked_at() {
    assert_eq!(rendered("Ijunk"), "int");
    assert_eq!(rendered("LFoo;LBar;"), "Foo");
}

#[test]
fn empty_signature_is_an_error() {
    assert_eq!(error(""), SignatureError::UnexpectedEnd);
}

#[test]
fn invalid_base_type_is_an_error() {
    assert_eq!(error("X"), SignatureError::InvalidBaseType);
    assert_eq!(error("(I)V"), SignatureError::InvalidBaseType);
}

#[test]
fn invalid_reference_type_is_an_error() {
    assert_eq!(error("LFoo<I>;"), SignatureError::InvalidReferenceType);
    assert_eq!(error("LFoo<>;"), SignatureError::InvalidReferenceType);
}

#[test]
fn unterminated_signatures_are_errors() {
    assert_eq!(error("LFoo"), SignatureError::UnexpectedEnd);
    assert_eq!(error("Ljava/lang/Enum<LEnumTest;"), SignatureError::UnexpectedEnd);
    assert_eq!(error("TT"), SignatureError::UnexpectedEnd);
    assert_eq!(error("["), SignatureError::UnexpectedEnd);
    assert_eq!(error("LFoo<+"), SignatureError::UnexpectedEnd);
}

#[test]
fn unexpected_character_is_an_error() {
    assert_eq!(error("LFoo:"), SignatureError::Expected { expected: ';', got: ':' });
    assert_eq!(error("TT<"), SignatureError::Expected { expected: ';', got: '<' });
}

#[test]
fn expect_char_reads_the_character() {
    let mut chars = Pchars::new("ab");
    assert_eq!(expect_char(&mut chars, 'a'), Ok(()));
    assert_eq!(
        expect_char(&mut chars, 'a'),
        Err(SignatureError::Expected { expected: 'a', got: 'b' })
    );
    assert_eq!(expect_char(&mut chars, 'a'), Err(SignatureError::UnexpectedEnd));
}

#[test]
fn identifier_ends_at_a_terminator_or_at_the_end() {
    for terminator in ['/', ';', '<', '>', ':', '['] {
        let text = format!("name{}rest", terminator);
        let mut chars = Pchars::new(&text);
        assert_eq!(parse_identifier(&mut chars), "name");
        assert_eq!(chars.peek(), Some(terminator));
    }
    let mut chars = Pchars::new("a.b$c");
    assert_eq!(parse_identifier(&mut chars), "a.b$c");
    assert_eq!(chars.peek(), None);
}

#[test]
fn package_specifiers_are_separated_by_slashes() {
    let mut chars = Pchars::new("java/lang/String;");
    assert_eq!(
        parse_package_specifiers(&mut chars),
        vec!["java".to_string(), "lang".to_string(), "String".to_string()]
    );
    assert_eq!(chars.peek(), Some(';'));
    let mut empty = Pchars::new("");
    assert_eq!(parse_package_specifiers(&mut empty), vec![String::new()]);
}

#[test]
fn base_type_at_the_end_of_the_text_is_an_error() {
    let mut chars = Pchars::new("I");
    assert_eq!(parse_base_type_signature(&mut chars), Ok("int".to_string()));
    assert_eq!(parse_base_type_signature(&mut chars), Err(SignatureError::UnexpectedEnd));
    let mut other = Pchars::new("Q");
    assert_eq!(parse_base_type_signature(&mut other), Err(SignatureError::InvalidBaseType));
}
