use jaust::class_file::access_flags::{AccessFlag, AccessFlags};
use jaust::class_file::error::DecodeError;
use jaust::class_file::file_reader::FileReader;
use jaust::class_file::text::{
    add_flag, chars_of, debug_list_string, dotted_name, push_decimal, push_dotted, push_hex,
    push_hex4, push_joined, push_signed, str_eq,
};

fn decimal(n: u64) -> String {
    let mut s = String::from("n=");
    push_decimal(&mut s, n);
    s
}

fn signed(i: i64) -> String {
    let mut s = String::from("i=");
    push_signed(&mut s, i);
    s
}

fn hex(n: u64) -> String {
    let mut s = String::from("0x");
    push_hex(&mut s, n);
    s
}

#[test]
fn decimal_digits() {
    assert_eq!(decimal(0), "n=0");
    assert_eq!(decimal(9), "n=9");
    assert_eq!(decimal(10), "n=10");
    assert_eq!(decimal(65535), "n=65535");
    assert_eq!(decimal(u64::MAX), "n=18446744073709551615");
}

#[test]
fn signed_decimal_digits() {
    assert_eq!(signed(0), "i=0");
    assert_eq!(signed(-1), "i=-1");
    assert_eq!(signed(-32768), "i=-32768");
    assert_eq!(signed(32767), "i=32767");
}

#[test]
fn hexadecimal_digits() {
    assert_eq!(hex(0), "0x0");
    assert_eq!(hex(15), "0xf");
    assert_eq!(hex(16), "0x10");
    assert_eq!(hex(0xcafe), "0xcafe");
}

#[test]
fn four_hexadecimal_digits() {
    let mut s = String::from("flags: ");
    push_hex4(&mut s, 0x0019);
    assert_eq!(s, "flags: 0019");
    let mut t = String::new();
    push_hex4(&mut t, 0xffff);
    assert_eq!(t, "ffff");
    let mut z = String::new();
    push_hex4(&mut z, 0);
    assert_eq!(z, "0000");
}

#[test]
fn dots_for_slashes() {
    assert_eq!(dotted_name("java/lang/Object"), "java.lang.Object");
    assert_eq!(dotted_name("NoPackage"), "NoPackage");
    assert_eq!(dotted_name(""), "");
    let mut s = String::from("extends ");
    push_dotted(&mut s, "a/b");
    assert_eq!(s, "extends a.b");
}

#[test]
fn characters_of_a_text() {
    assert_eq!(chars_of("a/é"), vec!['a', '/', 'é']);
    assert!(chars_of("").is_empty());
}

#[test]
fn texts_are_equal_when_their_characters_are() {
    assert!(str_eq("Code", "Code"));
    assert!(!str_eq("Code", "code"));
    assert!(!str_eq("Code", "Codes"));
    assert!(str_eq("", ""));
}

#[test]
fn joined_parts() {
    let mut s = String::from("(");
    push_joined(&mut s, &vec!["int".to_string(), "long".to_string()], ", ");
    assert_eq!(s, "(int, long");
    let mut one = String::new();
    push_joined(&mut one, &vec!["int".to_string()], ", ");
    assert_eq!(one, "int");
    let mut none = String::from("x");
    push_joined(&mut none, &vec![], ", ");
    assert_eq!(none, "x");
}

#[test]
fn flags_are_added_when_their_bits_are_set() {
    let mut flags = Vec::new();
    add_flag(&mut flags, 0x0011, 0x0001, AccessFlag::Public);
    add_flag(&mut flags, 0x0011, 0x0020, AccessFlag::Super);
    add_flag(&mut flags, 0x0011, 0x0010, AccessFlag::Final);
    assert_eq!(flags, vec![AccessFlag::Public, AccessFlag::Final]);
}

#[test]
fn class_flags_in_the_order_of_their_bits() {
    let flags = AccessFlags::new(0xffff);
    assert_eq!(
        flags.flag_vector(),
        vec![
            AccessFlag::Public,
            AccessFlag::Final,
            AccessFlag::Super,
            AccessFlag::Interface,
            AccessFlag::Abstract,
            AccessFlag::Synthetic,
            AccessFlag::Annotation,
            AccessFlag::Enum
        ]
    );
    assert!(AccessFlags::new(0).flag_vector().is_empty());
    assert!(AccessFlags::new(0x0200).contains(AccessFlag::Interface));
    assert!(!AccessFlags::new(0x0200).contains(AccessFlag::Abstract));
    assert_eq!(AccessFlag::Enum.bit(), 0x4000);
}

#[test]
fn flags_as_a_bracketed_list() {
    assert_eq!(debug_list_string(&AccessFlags::new(0x0021).flag_vector()), "[Public, Super]");
    assert_eq!(debug_list_string(&AccessFlags::new(0x0001).flag_vector()), "[Public]");
    assert_eq!(debug_list_string(&AccessFlags::new(0).flag_vector()), "[]");
}

#[test]
fn reader_reads_big_endian_numbers() {
    let bytes = [0x7f, 0x12, 0x34, 0xff, 0xfe, 0xCA, 0xFE, 0xBA, 0xBE];
    let mut file = FileReader::new(&bytes);
    assert_eq!(file.left(), 9);
    assert_eq!(file.read_u1(), Ok(0x7f));
    assert_eq!(file.read_u2_to_u16(), Ok(0x1234));
    assert_eq!(file.read_i16(), Ok(-2));
    assert_eq!(file.read_u4_to_u32(), Ok(0xCAFEBABE));
    assert!(file.is_at_end());
    assert_eq!(file.read_u1(), Err(DecodeError::TruncatedInput));
}

#[test]
fn reader_reads_signed_numbers() {
    let bytes = [0x80, 0x00, 0x7f, 0xff, 0x00, 0x00];
    let mut file = FileReader::new(&bytes);
    assert_eq!(file.read_i16(), Ok(-32768));
    assert_eq!(file.read_i16(), Ok(32767));
    assert_eq!(file.read_i16(), Ok(0));
    assert_eq!(file.read_i16(), Err(DecodeError::TruncatedInput));
}

#[test]
fn reader_fails_on_short_input() {
    let bytes = [1u8, 2, 3];
    let mut file = FileReader::new(&bytes);
    assert_eq!(file.read_u4_to_u32(), Err(DecodeError::TruncatedInput));
    assert_eq!(file.need(3), Ok(()));
    assert_eq!(file.need(4), Err(DecodeError::TruncatedInput));
    assert_eq!(file.read_u2_to_u16(), Ok(0x0102));
    assert_eq!(file.read_u2_to_u16(), Err(DecodeError::TruncatedInput));
    assert_eq!(file.read_bytes(2), Err(DecodeError::TruncatedInput));
    assert_eq!(file.read_bytes(1), Ok(vec![3]));
    assert_eq!(file.read_bytes(0), Ok(vec![]));
}

#[test]
fn reader_reads_length_prefixed_text() {
    let bytes = [0, 5, b'h', b'e', b'l', b'l', b'o', 0, 2, 0xc3, 0xa9, 0, 0];
    let mut file = FileReader::new(&bytes);
    assert_eq!(file.read_string(), Ok("hello".to_string()));
    assert_eq!(file.read_string(), Ok("é".to_string()));
    assert_eq!(file.read_string(), Ok(String::new()));
    assert_eq!(file.read_string(), Err(DecodeError::TruncatedInput));
}

#[test]
fn reader_rejects_text_that_is_not_utf8() {
    let bytes = [0, 2, b'a', 0xff];
    let mut file = FileReader::new(&bytes);
    assert_eq!(file.read_string(), Err(DecodeError::InvalidUtf8));
    let short = [0, 3, b'a', b'b'];
    let mut cut = FileReader::new(&short);
    assert_eq!(cut.read_string(), Err(DecodeError::TruncatedInput));
}

#[test]
fn sub_reader_sees_its_window_only() {
    let bytes = [1u8, 2, 3, 4, 5];
    let mut file = FileReader::new(&bytes);
    assert_eq!(file.read_u1(), Ok(1));
    let mut window = file.sub_reader(2).unwrap();
    assert_eq!(window.left(), 2);
    assert_eq!(window.read_u2_to_u16(), Ok(0x0203));
    assert_eq!(window.read_u1(), Err(DecodeError::TruncatedInput));
    assert_eq!(file.read_u1(), Ok(4));
    assert!(file.sub_reader(2).is_err());
    assert!(file.sub_reader(1).is_ok());
    assert!(file.is_at_end());
}

#[test]
fn reader_reads_bytes_as_they_are() {
    let bytes = [0xCA, 0xFE, 0xBA, 0xBE, 0x00, 0x34, 0x01];
    let mut file = FileReader::new(&bytes);
    assert_eq!(file.read_u4(), Ok([0xCA, 0xFE, 0xBA, 0xBE]));
    assert_eq!(file.read_u2(), Ok([0x00, 0x34]));
    assert_eq!(file.read_u2(), Err(DecodeError::TruncatedInput));
    assert_eq!(file.read_u4(), Err(DecodeError::TruncatedInput));
    assert_eq!(file.read_u1(), Ok(1));
}
