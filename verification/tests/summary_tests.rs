use jaust::class_file::jaustp::jaustp_summary::{
    add_class_line, add_class_modifiers, add_fields, add_methods, jaustp_summary, Options,
};
use jaust::class_file::{raw_string, read_class_file, ClassFile};

fn u2(v: u16) -> Vec<u8> {
    v.to_be_bytes().to_vec()
}

fn u4(v: u32) -> Vec<u8> {
    v.to_be_bytes().to_vec()
}

fn utf8(text: &str) -> Vec<u8> {
    let mut out = vec![1u8];
    out.extend(u2(text.len() as u16));
    out.extend(text.as_bytes());
    out
}

fn class_entry(name_index: u16) -> Vec<u8> {
    let mut out = vec![7u8];
    out.extend(u2(name_index));
    out
}

fn attribute(name_index: u16, content: Vec<u8>) -> Vec<u8> {
    let mut out = u2(name_index);
    out.extend(u4(content.len() as u32));
    out.extend(content);
    out
}

fn code(instructions: Vec<u8>) -> Vec<u8> {
    let mut out = u2(1);
    out.extend(u2(1));
    out.extend(u4(instructions.len() as u32));
    out.extend(instructions);
    out.extend(u2(0));
    out.extend(u2(0));
    out
}

fn member(flags: u16, name_index: u16, descriptor_index: u16, attributes: Vec<Vec<u8>>) -> Vec<u8> {
    let mut out = u2(flags);
    out.extend(u2(name_index));
    out.extend(u2(descriptor_index));
    out.extend(u2(attributes.len() as u16));
    for a in attributes {
        out.extend(a);
    }
    out
}

fn class_bytes(
    pool: Vec<Vec<u8>>,
    flags: u16,
    this_class: u16,
    super_class: u16,
    interfaces: Vec<u16>,
    fields: Vec<Vec<u8>>,
    methods: Vec<Vec<u8>>,
    attributes: Vec<Vec<u8>>,
) -> Vec<u8> {
    let mut out = vec![0xCA, 0xFE, 0xBA, 0xBE];
    out.extend(u2(0));
    out.extend(u2(65));
    out.extend(u2(pool.len() as u16 + 1));
    for entry in pool {
        out.extend(entry);
    }
    out.extend(u2(flags));
    out.extend(u2(this_class));
    out.extend(u2(super_class));
    out.extend(u2(interfaces.len() as u16));
    for i in interfaces {
        out.extend(u2(i));
    }
    out.extend(u2(fields.len() as u16));
    for f in fields {
        out.extend(f);
    }
    out.extend(u2(methods.len() as u16));
    for m in methods {
        out.extend(m);
    }
    out.extend(u2(attributes.len() as u16));
    for a in attributes {
        out.extend(a);
    }
    out
}

/// A class `Hello` with a private int field `value` and a public
/// constructor without arguments.
fn hello_pool() -> Vec<Vec<u8>> {
    vec![
        utf8("Hello"),            // 1
        class_entry(1),           // 2
        utf8("java/lang/Object"), // 3
        class_entry(3),           // 4
        utf8("value"),            // 5
        utf8("I"),                // 6
        utf8("<init>"),           // 7
        utf8("()V"),              // 8
        utf8("Code"),             // 9
        utf8("SourceFile"),       // 10
        utf8("Hello.java"),       // 11
    ]
}

fn hello_bytes() -> Vec<u8> {
    class_bytes(
        hello_pool(),
        0x0021,
        2,
        4,
        vec![],
        vec![member(0x0002, 5, 6, vec![])],
        vec![member(0x0001, 7, 8, vec![attribute(9, code(vec![0x2a, 0xb1]))])],
        vec![attribute(10, u2(11))],
    )
}

fn hello() -> ClassFile {
    read_class_file(&hello_bytes()).unwrap()
}

/// A pool for classes with a richer set of members.
fn rich_pool() -> Vec<Vec<u8>> {
    vec![
        utf8("com/example/Shape"),          // 1
        class_entry(1),                     // 2
        utf8("java/lang/Object"),           // 3
        class_entry(3),                     // 4
        utf8("java/lang/Runnable"),         // 5
        class_entry(5),                     // 6
        utf8("java/io/Serializable"),       // 7
        class_entry(7),                     // 8
        utf8("name"),                       // 9
        utf8("Ljava/lang/String;"),         // 10
        utf8("run"),                        // 11
        utf8("(I[Ljava/lang/String;)J"),    // 12
        utf8("Exceptions"),                 // 13
        utf8("java/io/IOException"),        // 14
        class_entry(14),                    // 15
        utf8("java/lang/Exception"),        // 16
        class_entry(16),                    // 17
        utf8("<clinit>"),                   // 18
        utf8("()V"),                        // 19
        utf8("Code"),                       // 20
        utf8("com/example/Base"),           // 21
        class_entry(21),                    // 22
        utf8("Q"),                          // 23
        utf8("<init>"),                     // 24
    ]
}

const DEFAULT: Options = Options { private: false, code: false };
const PRIVATE: Options = Options { private: true, code: false };

#[test]
fn minimal_class_in_default_mode() {
    assert_eq!(
        jaustp_summary(&hello(), &DEFAULT),
        "Compiled from \"Hello.java\"\npublic class Hello {\n  public Hello();\n}\n"
    );
}

#[test]
fn minimal_class_in_private_mode() {
    assert_eq!(
        jaustp_summary(&hello(), &PRIVATE),
        "Compiled from \"Hello.java\"\npublic class Hello {\n  private int value;\n  public Hello();\n}\n"
    );
}

#[test]
fn summary_with_code_lists_the_instructions() {
    let opts = Options { private: false, code: true };
    assert_eq!(
        jaustp_summary(&hello(), &opts),
        "Compiled from \"Hello.java\"\npublic class Hello {\n  public Hello();\n\t- ALoad(0)\n\t- Return void (return)\n\n}\n"
    );
}

#[test]
fn rendering_twice_gives_the_same_text() {
    let cf = hello();
    assert_eq!(jaustp_summary(&cf, &PRIVATE), jaustp_summary(&cf, &PRIVATE));
    assert_eq!(raw_string(&cf), raw_string(&cf));
}

#[test]
fn class_without_source_file_extends_and_implements() {
    let bytes = class_bytes(rich_pool(), 0x0431, 2, 22, vec![6, 8], vec![], vec![], vec![]);
    let cf = read_class_file(&bytes).unwrap();
    assert_eq!(
        jaustp_summary(&cf, &DEFAULT),
        "public final abstract class com.example.Shape extends com.example.Base implements java.lang.Runnable, java.io.Serializable {\n}\n"
    );
}

#[test]
fn interface_is_never_called_abstract() {
    let bytes = class_bytes(rich_pool(), 0x0601, 2, 4, vec![], vec![], vec![], vec![]);
    let cf = read_class_file(&bytes).unwrap();
    assert_eq!(jaustp_summary(&cf, &DEFAULT), "public interface com.example.Shape {\n}\n");
}

#[test]
fn enum_is_called_enum() {
    let bytes = class_bytes(rich_pool(), 0x4030, 2, 4, vec![], vec![], vec![], vec![]);
    let cf = read_class_file(&bytes).unwrap();
    assert_eq!(jaustp_summary(&cf, &DEFAULT), "final enum com.example.Shape {\n}\n");
}

#[test]
fn class_without_super_class() {
    let bytes = class_bytes(rich_pool(), 0x0000, 2, 0, vec![], vec![], vec![], vec![]);
    let cf = read_class_file(&bytes).unwrap();
    assert_eq!(jaustp_summary(&cf, &DEFAULT), "class com.example.Shape {\n}\n");
}

#[test]
fn field_modifiers_come_in_a_fixed_order() {
    // protected static final volatile transient synthetic enum
    let bytes = class_bytes(
        rich_pool(),
        0x0001,
        2,
        4,
        vec![],
        vec![member(0x50dc, 9, 10, vec![]), member(0x0000, 9, 23, vec![])],
        vec![],
        vec![],
    );
    let cf = read_class_file(&bytes).unwrap();
    assert_eq!(
        jaustp_summary(&cf, &DEFAULT),
        "public class com.example.Shape {\n  protected static final volatile transient java.lang.String name;\n  Unknown type in method descriptor: Some('Q') name;\n}\n"
    );
}

#[test]
fn private_members_are_hidden_unless_asked_for() {
    let bytes = class_bytes(
        rich_pool(),
        0x0001,
        2,
        4,
        vec![],
        vec![member(0x0002, 9, 10, vec![]), member(0x0001, 9, 10, vec![])],
        vec![member(0x0002, 11, 19, vec![]), member(0x0004, 11, 19, vec![])],
        vec![],
    );
    let cf = read_class_file(&bytes).unwrap();
    assert_eq!(
        jaustp_summary(&cf, &DEFAULT),
        "public class com.example.Shape {\n  public java.lang.String name;\n  protected void run();\n}\n"
    );
    assert_eq!(
        jaustp_summary(&cf, &PRIVATE),
        "public class com.example.Shape {\n  private java.lang.String name;\n  public java.lang.String name;\n  private void run();\n  protected void run();\n}\n"
    );
}

#[test]
fn synthetic_is_never_shown_on_a_method() {
    let bytes = class_bytes(
        rich_pool(),
        0x0001,
        2,
        4,
        vec![],
        vec![],
        vec![member(0x1009, 11, 19, vec![]), member(0x1000, 11, 19, vec![])],
        vec![],
    );
    let cf = read_class_file(&bytes).unwrap();
    assert_eq!(
        jaustp_summary(&cf, &DEFAULT),
        "public class com.example.Shape {\n  public static void run();\n  void run();\n}\n"
    );
}

#[test]
fn method_with_arguments_and_exceptions() {
    let mut exceptions = u2(2);
    exceptions.extend(u2(15));
    exceptions.extend(u2(17));
    let bytes = class_bytes(
        rich_pool(),
        0x0001,
        2,
        4,
        vec![],
        vec![],
        vec![member(0x0431, 11, 12, vec![attribute(13, exceptions)])],
        vec![],
    );
    let cf = read_class_file(&bytes).unwrap();
    assert_eq!(
        jaustp_summary(&cf, &DEFAULT),
        "public class com.example.Shape {\n  public final synchronized abstract long run(int, java.lang.String[]) throws java.io.IOException, java.lang.Exception;\n}\n"
    );
}

#[test]
fn static_initializer_and_constructor() {
    let bytes = class_bytes(
        rich_pool(),
        0x0001,
        2,
        4,
        vec![],
        vec![],
        vec![member(0x0008, 18, 19, vec![]), member(0x0001, 24, 12, vec![])],
        vec![],
    );
    let cf = read_class_file(&bytes).unwrap();
    assert_eq!(
        jaustp_summary(&cf, &DEFAULT),
        "public class com.example.Shape {\n  static {};\n  public com.example.Shape(int, java.lang.String[]);\n}\n"
    );
}

#[test]
fn code_of_a_method_without_code_is_empty() {
    let bytes = class_bytes(
        rich_pool(),
        0x0001,
        2,
        4,
        vec![],
        vec![],
        vec![member(0x0401, 11, 19, vec![])],
        vec![],
    );
    let cf = read_class_file(&bytes).unwrap();
    let opts = Options { private: false, code: true };
    assert_eq!(
        jaustp_summary(&cf, &opts),
        "public class com.example.Shape {\n  public abstract void run();\n\n}\n"
    );
}

#[test]
fn raw_dump_of_the_minimal_class() {
    let expected = "minor_version: 0\n\
major_version: 65\n\
0: Hello\n\
1: Hello\n\
2: java/lang/Object\n\
3: java/lang/Object\n\
4: value\n\
5: I\n\
6: <init>\n\
7: ()V\n\
8: Code\n\
9: SourceFile\n\
10: Hello.java\n\
access_flags: [Public, Super]\n\
this_class: Hello\n\
super_class: java/lang/Object\n\
Interfaces:\n\
value: I [Attributes\n] [Private]\n\
Methods:\n\
\n\n- access_flags: [Public]\n\
- name: <init>\n\
- descriptor: ()V\n\
Attributes\n\
name Code\n\
length 14\n\
Code: max_stack: 1, max_locals: 1, code_length: 2\n\
Code: 2\n\
- ALoad(0)\n\
- Return void (return)\n\
Exception table: 0\n\
Attributes\n\
\n\
Attributes\n\
SourceFile Hello.java\n";
    assert_eq!(raw_string(&hello()), expected);
}

#[test]
fn damaged_class_files_decode_or_fail_cleanly() {
    let good = hello_bytes();
    let opts = Options { private: true, code: true };
    let mut decoded = 0;
    for position in 0..good.len() {
        for change in [1u8, 2, 7, 0x40, 0x80, 0xff] {
            let mut bytes = good.clone();
            bytes[position] = bytes[position].wrapping_add(change);
            if let Ok(cf) = read_class_file(&bytes) {
                decoded += 1;
                assert!(jaustp_summary(&cf, &opts).ends_with("}\n"));
                assert!(raw_string(&cf).starts_with("minor_version: "));
            }
        }
    }
    assert!(decoded > 0);
}

#[test]
fn arbitrary_bytes_decode_or_fail_cleanly() {
    let mut state: u32 = 0x2545_f491;
    for round in 0..3000 {
        let length = (round % 97) as usize;
        let mut bytes = vec![0xCA, 0xFE, 0xBA, 0xBE];
        for _ in 0..length {
            state = state.wrapping_mul(1_664_525).wrapping_add(1_013_904_223);
            bytes.push((state >> 24) as u8);
        }
        if let Ok(cf) = read_class_file(&bytes) {
            let _ = jaustp_summary(&cf, &DEFAULT);
            let _ = raw_string(&cf);
        }
    }
}

fn small_pool() -> Vec<Vec<u8>> {
    vec![
        utf8("T"),                // 1
        class_entry(1),           // 2
        utf8("x"),                // 3
        utf8("I"),                // 4
        utf8("m"),                // 5
        utf8("()V"),              // 6
        utf8("y"),                // 7
        utf8("java/lang/Object"), // 8
        class_entry(8),           // 9
    ]
}

fn small_class(flags: u16, fields: Vec<Vec<u8>>, methods: Vec<Vec<u8>>) -> ClassFile {
    read_class_file(&class_bytes(small_pool(), flags, 2, 9, vec![], fields, methods, vec![]))
        .unwrap()
}

#[test]
fn add_fields_leaves_out_private_fields() {
    let cf = small_class(
        0x0001,
        vec![member(0x0001, 3, 4, vec![]), member(0x0002, 7, 4, vec![]), member(0x0008, 7, 4, vec![])],
        vec![],
    );
    let mut out = String::new();
    add_fields(&cf, &mut out, &DEFAULT);
    assert_eq!(out, "  public int x;\n  static int y;\n");
}

#[test]
fn add_fields_shows_a_private_field_when_asked() {
    let cf = small_class(0x0001, vec![member(0x0002, 3, 4, vec![])], vec![]);
    let mut out = String::new();
    add_fields(&cf, &mut out, &PRIVATE);
    assert_eq!(out, "  private int x;\n");
    let mut hidden = String::from("kept");
    add_fields(&cf, &mut hidden, &DEFAULT);
    assert_eq!(hidden, "kept");
}

#[test]
fn add_methods_leaves_out_private_methods() {
    let cf = small_class(
        0x0001,
        vec![],
        vec![member(0x0001, 5, 6, vec![]), member(0x0002, 5, 6, vec![]), member(0x0008, 5, 6, vec![])],
    );
    let mut out = String::new();
    add_methods(&cf, &mut out, &DEFAULT);
    assert_eq!(out, "  public void m();\n  static void m();\n");
}

#[test]
fn add_methods_shows_a_private_method_when_asked() {
    let cf = small_class(0x0001, vec![], vec![member(0x0002, 5, 6, vec![])]);
    let mut out = String::new();
    add_methods(&cf, &mut out, &PRIVATE);
    assert_eq!(out, "  private void m();\n");
}

#[test]
fn add_methods_never_writes_synthetic() {
    let cf = small_class(0x0001, vec![], vec![member(0x1009, 5, 6, vec![])]);
    for opts in [DEFAULT, PRIVATE] {
        let mut out = String::new();
        add_methods(&cf, &mut out, &opts);
        assert_eq!(out, "  public static void m();\n");
        assert!(!out.contains("synthetic"));
    }
}

#[test]
fn add_class_modifiers_of_an_interface() {
    let cf = small_class(0x0601, vec![], vec![]);
    let mut out = String::new();
    add_class_modifiers(&cf, &mut out);
    assert_eq!(out, "public interface");
    let mut line = String::new();
    add_class_line(&cf, &mut line);
    assert_eq!(line, "public interface T {\n");
}

#[test]
fn add_class_modifiers_of_classes() {
    let mut out = String::new();
    add_class_modifiers(&small_class(0x0411, vec![], vec![]), &mut out);
    assert_eq!(out, "public final abstract class");
    let mut plain = String::new();
    add_class_modifiers(&small_class(0x0000, vec![], vec![]), &mut plain);
    assert_eq!(plain, "class");
    let mut an_enum = String::new();
    add_class_modifiers(&small_class(0x4000, vec![], vec![]), &mut an_enum);
    assert_eq!(an_enum, "enum");
}
