use jaust::class_file::attributes::attributes::{AttStart, Attribute, Attributes};
use jaust::class_file::bytecode::ByteCode;
use jaust::class_file::constant_pool::{ConstantPool, Info, MethodHandleReferenceKind};
use jaust::class_file::error::DecodeError;
use jaust::class_file::fields;
use jaust::class_file::file_reader::FileReader;
use jaust::class_file::interfaces::Interfaces;
use jaust::class_file::methods;
use jaust::class_file::read_class_file;

fn u2(v: u16) -> Vec<u8> {
    v.to_be_bytes().to_vec()
}

fn u4(v: u32) -> Vec<u8> {
    v.to_be_bytes().to_vec()
}

fn utf8(text: &str) -> Vec<u8> {
    let mut out = vec![1u8];
    out.extend(u2(text.len() as u16));
    out.extend(text.as_bytes());
    out
}

fn one(tag: u8, a: u16) -> Vec<u8> {
    let mut out = vec![tag];
    out.extend(u2(a));
    out
}

fn two(tag: u8, a: u16, b: u16) -> Vec<u8> {
    let mut out = vec![tag];
    out.extend(u2(a));
    out.extend(u2(b));
    out
}

fn handle(kind: u8, reference: u16) -> Vec<u8> {
    let mut out = vec![15, kind];
    out.extend(u2(reference));
    out
}

fn pool_bytes(entries: Vec<Vec<u8>>) -> Vec<u8> {
    let mut out = u2(entries.len() as u16 + 1);
    for e in entries {
        out.extend(e);
    }
    out
}

fn pool_of(entries: Vec<Vec<u8>>) -> Result<ConstantPool, DecodeError> {
    let bytes = pool_bytes(entries);
    let mut file = FileReader::new(&bytes);
    ConstantPool::from(&mut file)
}

fn entries() -> Vec<Vec<u8>> {
    vec![
        utf8("Code"),                      // 1
        utf8("SourceFile"),                // 2
        utf8("LineNumberTable"),           // 3
        utf8("StackMapTable"),             // 4
        utf8("Deprecated"),                // 5
        utf8("Exceptions"),                // 6
        utf8("RuntimeVisibleAnnotations"), // 7
        utf8("Record"),                    // 8
        utf8("InnerClasses"),              // 9
        utf8("MethodParameters"),          // 10
        utf8("BootstrapMethods"),          // 11
        utf8("Signature"),                 // 12
        utf8("Mystery"),                   // 13
        utf8("Foo"),                       // 14
        one(7, 14),                        // 15 class Foo
        utf8("bar"),                       // 16
        utf8("I"),                         // 17
        two(12, 16, 17),                   // 18 name and type
        two(9, 15, 18),                    // 19 field
        two(10, 15, 18),                   // 20 method
        two(11, 15, 18),                   // 21 interface method
        one(8, 14),                        // 22 string
        one(16, 17),                       // 23 method type
        two(18, 7, 18),                    // 24 invoke dynamic
        handle(6, 20),                     // 25 method handle
    ]
}

fn pool() -> ConstantPool {
    pool_of(entries()).unwrap()
}

fn attribute(name_index: u16, content: Vec<u8>) -> Vec<u8> {
    let mut out = u2(name_index);
    out.extend(u4(content.len() as u32));
    out.extend(content);
    out
}

fn attribute_set(attributes: Vec<Vec<u8>>) -> Vec<u8> {
    let mut out = u2(attributes.len() as u16);
    for a in attributes {
        out.extend(a);
    }
    out
}

fn decode_attributes(attributes: Vec<Vec<u8>>) -> Result<Attributes, DecodeError> {
    let bytes = attribute_set(attributes);
    let mut file = FileReader::new(&bytes);
    let decoded = Attributes::from(&mut file, &pool());
    if decoded.is_ok() {
        assert!(file.is_at_end());
    }
    decoded
}

fn listing(name_index: u16, content: Vec<u8>) -> String {
    let attributes = decode_attributes(vec![attribute(name_index, content)]).unwrap();
    assert_eq!(attributes.attributes.len(), 1);
    attributes.attributes[0].to_string(&pool())
}

fn failure(name_index: u16, content: Vec<u8>) -> DecodeError {
    match decode_attributes(vec![attribute(name_index, content)]) {
        Ok(a) => panic!("decoded {:?}", a),
        Err(e) => e,
    }
}

fn cat(parts: Vec<Vec<u8>>) -> Vec<u8> {
    parts.into_iter().flatten().collect()
}

#[test]
fn constant_pool_texts() {
    let cp = pool();
    assert_eq!(cp.len(), 25);
    assert_eq!(cp.get_to_string(14), "Foo");
    assert_eq!(cp.get_to_string(15), "Foo");
    assert_eq!(cp.get_to_string(18), "bar[I]");
    assert_eq!(cp.get_to_string(19), "Foo.bar[I]");
    assert_eq!(cp.get_to_string(20), "Foo.bar[I]");
    assert_eq!(cp.get_to_string(21), "Foo.bar[I]");
    assert_eq!(cp.get_to_string(22), "Foo");
    assert_eq!(cp.get_to_string(23), "MethodType(I)");
    assert_eq!(cp.get_to_string(24), "InvokeDynamic(bootstrap_index7)[bar[I]]");
    assert_eq!(cp.get_to_string(25), "MethodHandle(invokeStatic)[Foo.bar[I]]");
    assert_eq!(cp.get_to_string_or(0, "<none>"), "<none>");
    assert_eq!(cp.get_to_string_or(16, "<none>"), "bar");
}

#[test]
fn every_index_of_a_decoded_pool_has_a_text() {
    let cp = pool();
    for index in 1..=25u16 {
        assert!(cp.is_valid_index(index));
        let text = cp.get_to_string(index);
        assert_eq!(text, cp.info_to_string(cp.get(index)));
    }
    assert!(!cp.is_valid_index(0));
    assert!(!cp.is_valid_index(26));
}

#[test]
fn constant_pool_entries() {
    let cp = pool();
    match cp.get(1) {
        Info::Utf8Info(s) => assert_eq!(s, "Code"),
        other => panic!("unexpected entry {:?}", other),
    }
    match cp.get(25) {
        Info::MethodHandleInfo(m) => {
            assert_eq!(m.reference_kind, MethodHandleReferenceKind::RefInvokeStatic);
            assert_eq!(m.reference_index, 20);
        }
        other => panic!("unexpected entry {:?}", other),
    }
    match cp.get(24) {
        Info::InvokeDynamicInfo(i) => {
            assert_eq!(i.bootstrap_method_attr_index, 7);
            assert_eq!(i.name_and_type_index, 18);
        }
        other => panic!("unexpected entry {:?}", other),
    }
}

#[test]
fn constant_pool_listing() {
    let cp = pool_of(vec![utf8("A"), one(7, 1)]).unwrap();
    assert_eq!(cp.to_string(), "0: A\n1: A\n");
    assert_eq!(pool_of(vec![]).unwrap().to_string(), "");
}

#[test]
fn constant_pool_with_count_zero_is_an_error() {
    let bytes = u2(0);
    let mut file = FileReader::new(&bytes);
    assert_eq!(ConstantPool::from(&mut file).err(), Some(DecodeError::MalformedHeader));
    let one_bytes = u2(1);
    let mut one_file = FileReader::new(&one_bytes);
    assert_eq!(ConstantPool::from(&mut one_file).unwrap().len(), 0);
}

#[test]
fn method_reference_is_class_dot_name_and_type() {
    let cp = pool_of(vec![
        utf8("A"),
        one(7, 1),
        utf8("m"),
        utf8("()V"),
        two(12, 3, 4),
        two(10, 2, 5),
        two(9, 2, 5),
        two(11, 2, 5),
    ])
    .unwrap();
    assert_eq!(cp.get_to_string(2), "A");
    assert_eq!(cp.get_to_string(5), "m[()V]");
    assert_eq!(cp.get_to_string(6), "A.m[()V]");
    assert_eq!(cp.get_to_string(7), "A.m[()V]");
    assert_eq!(cp.get_to_string(8), "A.m[()V]");
}

#[test]
fn method_handle_kinds() {
    let names = [
        "getField",
        "getStatic",
        "putField",
        "putStatic",
        "invokeVirtual",
        "invokeStatic",
        "invokeSpecial",
        "newInvokeSpecial",
        "invokeInterface",
    ];
    for kind in 1..=9u8 {
        assert_eq!(
            MethodHandleReferenceKind::from_u8(kind).unwrap().to_string(),
            names[kind as usize - 1]
        );
    }
    assert_eq!(
        MethodHandleReferenceKind::from_u8(1),
        Ok(MethodHandleReferenceKind::RefGetField)
    );
    assert_eq!(
        MethodHandleReferenceKind::from_u8(9),
        Ok(MethodHandleReferenceKind::RefInvokeInterface)
    );
}

#[test]
fn numbers_that_stand_for_no_method_handle_kind() {
    assert_eq!(MethodHandleReferenceKind::from_u8(0), Err(DecodeError::UnknownTag));
    for value in 10..=255u8 {
        assert_eq!(MethodHandleReferenceKind::from_u8(value), Err(DecodeError::UnknownTag));
    }
}

#[test]
fn unknown_constant_pool_tag() {
    assert_eq!(pool_of(vec![vec![5, 0, 0, 0, 0, 0, 0, 0, 0]]).err(), Some(DecodeError::UnknownTag));
    assert_eq!(pool_of(vec![vec![0]]).err(), Some(DecodeError::UnknownTag));
    assert_eq!(pool_of(vec![vec![3, 0, 0, 0, 1]]).err(), Some(DecodeError::UnknownTag));
}

#[test]
fn unknown_method_handle_kind() {
    assert_eq!(
        pool_of(vec![utf8("x"), handle(0, 1)]).err(),
        Some(DecodeError::UnknownTag)
    );
    assert_eq!(
        pool_of(vec![utf8("x"), handle(10, 1)]).err(),
        Some(DecodeError::UnknownTag)
    );
}

#[test]
fn reference_out_of_the_pool() {
    assert_eq!(pool_of(vec![one(7, 2)]).err(), Some(DecodeError::InvalidIndex));
    assert_eq!(pool_of(vec![one(7, 0)]).err(), Some(DecodeError::InvalidIndex));
}

#[test]
fn references_that_come_back_to_where_they_began() {
    // a class that names itself, and two classes that name each other
    assert_eq!(pool_of(vec![one(7, 1)]).err(), Some(DecodeError::InvalidIndex));
    assert_eq!(pool_of(vec![one(7, 2), one(7, 1)]).err(), Some(DecodeError::InvalidIndex));
    // a cycle of three, reached from an entry outside it
    assert_eq!(
        pool_of(vec![utf8("x"), one(7, 3), one(7, 4), one(7, 5), one(7, 3)]).err(),
        Some(DecodeError::InvalidIndex)
    );
    // a name and type of which one half is sound and the other names itself
    assert_eq!(
        pool_of(vec![utf8("x"), two(12, 1, 2)]).err(),
        Some(DecodeError::InvalidIndex)
    );
}

#[test]
fn references_of_any_kind_that_end_in_text() {
    let cp = pool_of(vec![utf8("A"), one(7, 1), one(7, 2)]).unwrap();
    assert_eq!(cp.get_to_string(3), "A");
    // entries may refer forward as well as back
    let forward = pool_of(vec![one(8, 2), one(7, 3), utf8("B")]).unwrap();
    assert_eq!(forward.get_to_string(1), "B");
    let handles = pool_of(vec![utf8("x"), handle(1, 1), handle(1, 2)]).unwrap();
    assert_eq!(handles.get_to_string(3), "MethodHandle(getField)[MethodHandle(getField)[x]]");
}

#[test]
fn chain_as_long_as_the_pool() {
    // entry i names entry i + 1, and the last one is text
    let length: u16 = 300;
    let mut forward: Vec<Vec<u8>> = (1..length).map(|i| one(7, i + 1)).collect();
    forward.push(utf8("end"));
    let cp = pool_of(forward).unwrap();
    assert_eq!(cp.len(), length as usize);
    assert_eq!(cp.get_to_string(1), "end");
    // the same chain the other way round
    let mut backward = vec![utf8("end")];
    backward.extend((1..length).map(|i| one(7, i)));
    let cp = pool_of(backward).unwrap();
    assert_eq!(cp.get_to_string(length), "end");
}

#[test]
fn text_that_is_not_utf8() {
    assert_eq!(pool_of(vec![vec![1, 0, 1, 0xff]]).err(), Some(DecodeError::InvalidUtf8));
}

#[test]
fn truncated_constant_pool() {
    let mut bytes = pool_bytes(entries());
    bytes.pop();
    let mut file = FileReader::new(&bytes);
    assert_eq!(ConstantPool::from(&mut file).err(), Some(DecodeError::TruncatedInput));
    let empty: [u8; 0] = [];
    let mut nothing = FileReader::new(&empty);
    assert_eq!(ConstantPool::from(&mut nothing).err(), Some(DecodeError::TruncatedInput));
}

#[test]
fn instructions_and_their_widths() {
    let cases: Vec<(Vec<u8>, ByteCode, u32)> = vec![
        (vec![0x02], ByteCode::IConstn(0), 1),
        (vec![0x03], ByteCode::IConstn(1), 1),
        (vec![0x0a], ByteCode::IConstn(8), 1),
        (vec![0x12, 0x07], ByteCode::Ldc(7), 2),
        (vec![0x16, 0x09], ByteCode::Lload(9), 2),
        (vec![0x1a], ByteCode::ILoad(0), 1),
        (vec![0x1d], ByteCode::ILoad(3), 1),
        (vec![0x1e], ByteCode::Lload(0), 1),
        (vec![0x21], ByteCode::Lload(3), 1),
        (vec![0x2a], ByteCode::ALoad(0), 1),
        (vec![0x2d], ByteCode::ALoad(3), 1),
        (vec![0x37, 0x05], ByteCode::LStore(5), 2),
        (vec![0x4b], ByteCode::AStore(0), 1),
        (vec![0x4e], ByteCode::AStore(3), 1),
        (vec![0x59], ByteCode::Duplicate, 1),
        (vec![0x61], ByteCode::LAdd, 1),
        (vec![0x85], ByteCode::I2L, 1),
        (vec![0x88], ByteCode::L2i, 1),
        (vec![0x94], ByteCode::Lcmp, 1),
        (vec![0x99, 0x00, 0x05], ByteCode::Ifeq(5), 3),
        (vec![0x9a, 0xff, 0xfd], ByteCode::Ifne(-3), 3),
        (vec![0x9b, 0x80, 0x00], ByteCode::Iflt(-32768), 3),
        (vec![0x9c, 0x7f, 0xff], ByteCode::Ifge(32767), 3),
        (vec![0x9d, 0x00, 0x00], ByteCode::Ifgt(0), 3),
        (vec![0x9e, 0x01, 0x00], ByteCode::Ifle(256), 3),
        (vec![0xac], ByteCode::IReturn, 1),
        (vec![0xad], ByteCode::LReturn, 1),
        (vec![0xb0], ByteCode::AReturn, 1),
        (vec![0xb1], ByteCode::Return, 1),
        (vec![0xb3, 0x12, 0x34], ByteCode::PutStatic(0x1234), 3),
        (vec![0xb4, 0x00, 0x02], ByteCode::GetField(2), 3),
        (vec![0xb5, 0x00, 0x03], ByteCode::PutField(3), 3),
        (vec![0xb6, 0x00, 0x04], ByteCode::InvokeVirtual(4), 3),
        (vec![0xb7, 0x00, 0x01], ByteCode::InvokeSpecial(1), 3),
        (vec![0xba, 0x00, 0x09, 0x00, 0x00], ByteCode::InvokeDynamic(9), 5),
        (vec![0xbb, 0xff, 0xff], ByteCode::New(0xffff), 3),
        (vec![0xbf], ByteCode::Athrow, 1),
        (vec![0x00], ByteCode::Generic(0x00), 1),
        (vec![0x01], ByteCode::Generic(0x01), 1),
        (vec![0x0b], ByteCode::Generic(0x0b), 1),
        (vec![0xca], ByteCode::Generic(0xca), 1),
        (vec![0xff], ByteCode::Generic(0xff), 1),
    ];
    for (bytes, expected, width) in cases {
        let mut file = FileReader::new(&bytes);
        assert_eq!(ByteCode::parse(&mut file), Ok((expected, width)));
        assert!(file.is_at_end());
    }
}

#[test]
fn instruction_texts() {
    assert_eq!(ByteCode::IConstn(1).to_string(), "IConst(1)");
    assert_eq!(ByteCode::LConstn(0).to_string(), "LConst(0)");
    assert_eq!(ByteCode::Lcmp.to_string(), "Lcmp");
    assert_eq!(ByteCode::IReturn.to_string(), "IReturn");
    assert_eq!(ByteCode::New(0x1234).to_string(), "New(0x1234)");
    assert_eq!(ByteCode::InvokeSpecial(1).to_string(), "InvokeSpecial(0x1)");
    assert_eq!(ByteCode::InvokeVirtual(255).to_string(), "InvokeVirtual(0xff)");
    assert_eq!(ByteCode::InvokeDynamic(16).to_string(), "InvokeDynamic(0x10)");
    assert_eq!(ByteCode::Duplicate.to_string(), "Duplicate");
    assert_eq!(ByteCode::AReturn.to_string(), "Reference Return (areturn)");
    assert_eq!(ByteCode::Return.to_string(), "Return void (return)");
    assert_eq!(ByteCode::LReturn.to_string(), "Long Return (lreturn)");
    assert_eq!(ByteCode::Ldc(200).to_string(), "Ldc(200)");
    assert_eq!(ByteCode::ALoad(0).to_string(), "ALoad(0)");
    assert_eq!(ByteCode::Lload(3).to_string(), "Lload(3)");
    assert_eq!(ByteCode::ILoad(2).to_string(), "ILoad(2)");
    assert_eq!(ByteCode::AStore(1).to_string(), "AStore(1)");
    assert_eq!(ByteCode::LStore(255).to_string(), "LStore(255)");
    assert_eq!(ByteCode::PutStatic(0).to_string(), "PutStatic(0x0)");
    assert_eq!(ByteCode::LAdd.to_string(), "LAdd");
    assert_eq!(ByteCode::L2i.to_string(), "L2i");
    assert_eq!(ByteCode::I2L.to_string(), "I2L");
    assert_eq!(ByteCode::Athrow.to_string(), "Athrow");
    assert_eq!(ByteCode::Ifeq(5).to_string(), "Ifeq(5)");
    assert_eq!(ByteCode::Ifne(-3).to_string(), "Ifne(-3)");
    assert_eq!(ByteCode::Iflt(-32768).to_string(), "Iflt(-32768)");
    assert_eq!(ByteCode::Ifge(32767).to_string(), "Ifge(32767)");
    assert_eq!(ByteCode::Ifgt(0).to_string(), "Ifgt(0)");
    assert_eq!(ByteCode::Ifle(1).to_string(), "Ifle(1)");
    assert_eq!(ByteCode::PutField(0xabc).to_string(), "PutField(0xabc)");
    assert_eq!(ByteCode::GetField(0xffff).to_string(), "GetField(0xffff)");
    assert_eq!(ByteCode::Generic(0xca).to_string(), "Generic(0xca)");
}

#[test]
fn instruction_with_missing_operand() {
    for bytes in [vec![0xbb, 0x00], vec![0x12], vec![0x99], vec![0xba, 0, 1, 0], vec![]] {
        let mut file = FileReader::new(&bytes);
        assert_eq!(ByteCode::parse(&mut file), Err(DecodeError::TruncatedInput));
    }
}

#[test]
fn invokedynamic_must_be_followed_by_zeros() {
    for bytes in [vec![0xba, 0, 1, 1, 0], vec![0xba, 0, 1, 0, 1]] {
        let mut file = FileReader::new(&bytes);
        assert_eq!(ByteCode::parse(&mut file), Err(DecodeError::MalformedInstruction));
    }
}

fn code_content(instructions: Vec<u8>, handlers: Vec<[u16; 4]>, nested: Vec<Vec<u8>>) -> Vec<u8> {
    let mut out = u2(2);
    out.extend(u2(3));
    out.extend(u4(instructions.len() as u32));
    out.extend(instructions);
    out.extend(u2(handlers.len() as u16));
    for h in handlers {
        for v in h {
            out.extend(u2(v));
        }
    }
    out.extend(attribute_set(nested));
    out
}

#[test]
fn code_fills_its_length_exactly() {
    let instructions = vec![0x2a, 0xb7, 0x00, 0x14, 0x12, 0x16, 0xba, 0x00, 0x18, 0x00, 0x00, 0xb1];
    let attributes =
        decode_attributes(vec![attribute(1, code_content(instructions.clone(), vec![], vec![]))])
            .unwrap();
    match &attributes.attributes[0] {
        Attribute::Code(code) => {
            assert_eq!(code.code_length as usize, instructions.len());
            assert_eq!(
                code.code,
                vec![
                    ByteCode::ALoad(0),
                    ByteCode::InvokeSpecial(0x14),
                    ByteCode::Ldc(0x16),
                    ByteCode::InvokeDynamic(0x18),
                    ByteCode::Return
                ]
            );
            let mut widths = 0;
            let mut file = FileReader::new(&instructions);
            while !file.is_at_end() {
                widths += ByteCode::parse(&mut file).unwrap().1;
            }
            assert_eq!(widths, code.code_length);
        }
        other => panic!("unexpected attribute {:?}", other),
    }
}

#[test]
fn instruction_may_not_reach_past_the_code() {
    // the operand of `new` would lie in the exception table
    assert_eq!(
        failure(1, code_content(vec![0xb1, 0xbb], vec![], vec![])),
        DecodeError::TruncatedInput
    );
}

#[test]
fn code_listing() {
    let nested = attribute(3, cat(vec![u2(1), u2(0), u2(42)]));
    let text = listing(1, code_content(vec![0x03, 0xac], vec![[0, 2, 2, 15], [1, 2, 3, 0]], vec![nested]));
    assert_eq!(
        text,
        "name Code\nlength 42\nCode: max_stack: 2, max_locals: 3, code_length: 2\nCode: 2\n- IConst(1)\n- IReturn\nException table: 2\nstart_pc: 0, end_pc: 2, handler_pc: 2, catch_type: 15\nstart_pc: 1, end_pc: 2, handler_pc: 3, catch_type: 0\nAttributes\nLineNumberTable\n\t- start_pc 0 line_number 42\n"
    );
}

#[test]
fn simple_attribute_listings() {
    assert_eq!(listing(2, u2(14)), "SourceFile Foo\n");
    assert_eq!(listing(5, vec![]), "Deprecated\n");
    assert_eq!(listing(12, u2(14)), "Signature: Foo\n");
    assert_eq!(listing(13, vec![1, 2, 3]), "GenericAttribute: (Mystery) length: 3\n");
    assert_eq!(listing(13, vec![]), "GenericAttribute: (Mystery) length: 0\n");
    assert_eq!(
        listing(3, cat(vec![u2(2), u2(0), u2(10), u2(5), u2(11)])),
        "LineNumberTable\n\t- start_pc 0 line_number 10\n\t- start_pc 5 line_number 11\n"
    );
    assert_eq!(listing(6, cat(vec![u2(2), u2(15), u2(14)])), "Exceptions\n\t- Foo\n\t- Foo\n");
}

#[test]
fn generic_attribute_keeps_its_bytes() {
    let attributes = decode_attributes(vec![attribute(13, vec![9, 8, 7])]).unwrap();
    match &attributes.attributes[0] {
        Attribute::GenericAttribute(a) => {
            assert_eq!(a.info, vec![9, 8, 7]);
            assert_eq!(a.attribute_name_index, 13);
            assert_eq!(a.attribute_length, 3);
        }
        other => panic!("unexpected attribute {:?}", other),
    }
}

#[test]
fn inner_classes_listing() {
    let content = cat(vec![u2(2), u2(15), u2(0), u2(16), u2(0x0019), u2(15), u2(15), u2(0), u2(0)]);
    assert_eq!(
        listing(9, content),
        "InnerClasses: (2)\n\t - Foo, <none>, bar, flags: 0019 ([Public, Final]), \n\t - Foo, Foo, <none>, flags: 0000 ([]), \n"
    );
}

#[test]
fn method_parameters_listing() {
    let content = cat(vec![vec![2], u2(16), u2(0x0010), u2(0), u2(0x9000)]);
    assert_eq!(
        listing(10, content),
        "MethodParameters:\n\t-bar (AccessFlags(16), [FINAL])\n\t-<no name> (AccessFlags(36864), [SYNTHETIC, MANDATED])"
    );
}

#[test]
fn bootstrap_methods_listing() {
    let content = cat(vec![u2(2), u2(25), u2(2), u2(22), u2(23), u2(25), u2(0)]);
    assert_eq!(
        listing(11, content),
        "BootstrapMethods:\n\t- MethodHandle(invokeStatic)[Foo.bar[I]](\n\t\t- Foo, \n\t\t- MethodType(I), )\n\t- MethodHandle(invokeStatic)[Foo.bar[I]]()\n"
    );
}

#[test]
fn stack_map_table_listing() {
    let content = cat(vec![
        u2(7),
        vec![3],
        vec![66, 1],
        vec![247],
        u2(300),
        vec![7],
        u2(15),
        vec![249],
        u2(7),
        vec![251],
        u2(9),
        vec![253],
        u2(4),
        vec![0, 8],
        u2(12),
        vec![255],
        u2(1),
        u2(1),
        vec![4],
        u2(2),
        vec![3, 5],
    ]);
    assert_eq!(
        listing(4, content),
        "StackMapTable\n\t- Same: 3\n\t- SameLocals1StackItem: 2 Integer\n\t- SameLocals1StackItemExtended: 300 Object: Foo\n\t- Chop: 7 (2 locals removed)\n\t- SameExtended: 9\n\t- Append: 4 Top, Uninitialized: 12\n\t- Full: 1 locals: Long stack: Double, Null\n"
    );
}

#[test]
fn stack_map_verification_types() {
    let content = cat(vec![u2(1), vec![255], u2(0), u2(3), vec![2, 6, 1], u2(0)]);
    assert_eq!(
        listing(4, content),
        "StackMapTable\n\t- Full: 0 locals: Float, UninitializedThis, Integer stack: \n"
    );
}

#[test]
fn unknown_frame_type_and_verification_type() {
    assert_eq!(failure(4, cat(vec![u2(1), vec![128]])), DecodeError::UnknownTag);
    assert_eq!(failure(4, cat(vec![u2(1), vec![246]])), DecodeError::UnknownTag);
    assert_eq!(failure(4, cat(vec![u2(1), vec![64, 9]])), DecodeError::UnknownTag);
    assert_eq!(failure(4, cat(vec![u2(1), vec![64, 7], u2(99)])), DecodeError::InvalidIndex);
}

#[test]
fn annotations_listing() {
    let content = cat(vec![
        u2(1),
        u2(14),
        u2(4),
        u2(16),
        vec![b's'],
        u2(14),
        u2(16),
        vec![b'e'],
        u2(14),
        u2(16),
        u2(16),
        vec![b'['],
        u2(2),
        vec![b'I'],
        u2(17),
        vec![b'c'],
        u2(14),
        u2(16),
        vec![b'@'],
        u2(14),
        u2(0),
    ]);
    assert_eq!(
        listing(7, content),
        "RuntimeVisibleAnnotations: @Foo(bar = Foo, bar = Foo::bar, bar = {I, Foo, }, bar = @Foo(), ), "
    );
}

#[test]
fn deeply_nested_annotation_values() {
    let mut value = cat(vec![vec![b'Z'], u2(17)]);
    let mut expected = "I".to_string();
    for _ in 0..50 {
        value = cat(vec![vec![b'['], u2(1), value]);
        expected = format!("{{{}, }}", expected);
    }
    let content = cat(vec![u2(1), u2(14), u2(1), u2(16), value]);
    assert_eq!(
        listing(7, content),
        format!("RuntimeVisibleAnnotations: @Foo(bar = {}, ), ", expected)
    );
}

#[test]
fn unknown_element_value_tag() {
    let content = cat(vec![u2(1), u2(14), u2(1), u2(16), vec![b'x'], u2(14)]);
    assert_eq!(failure(7, content), DecodeError::UnknownTag);
}

#[test]
fn record_listing() {
    let content = cat(vec![
        u2(2),
        u2(16),
        u2(17),
        attribute_set(vec![attribute(12, u2(14))]),
        u2(14),
        u2(17),
        attribute_set(vec![]),
    ]);
    assert_eq!(listing(8, content), "Record: bar: I, Foo: I, \n");
}

#[test]
fn attributes_in_file_order() {
    let attributes = decode_attributes(vec![
        attribute(5, vec![]),
        attribute(2, u2(14)),
        attribute(6, cat(vec![u2(1), u2(15)])),
        attribute(2, u2(16)),
        attribute(6, cat(vec![u2(2), u2(16), u2(17)])),
    ])
    .unwrap();
    assert_eq!(attributes.attributes.len(), 5);
    assert_eq!(
        attributes.to_string(&pool()),
        "Attributes\nDeprecated\nSourceFile Foo\nExceptions\n\t- Foo\nSourceFile bar\nExceptions\n\t- bar\n\t- I\n"
    );
    assert_eq!(attributes.get_source_file(&pool()), Some("Foo".to_string()));
    assert_eq!(
        attributes.get_checked_exceptions(&pool()),
        vec!["Foo".to_string(), "bar".to_string(), "I".to_string()]
    );
    let none = decode_attributes(vec![]).unwrap();
    assert_eq!(none.get_source_file(&pool()), None);
    assert!(none.get_checked_exceptions(&pool()).is_empty());
    assert_eq!(none.to_string(&pool()), "Attributes\n");
}

#[test]
fn attribute_must_fill_its_length() {
    assert_eq!(failure(5, vec![0]), DecodeError::LengthMismatch);
    assert_eq!(failure(2, cat(vec![u2(14), vec![0]])), DecodeError::LengthMismatch);
    assert_eq!(
        failure(3, cat(vec![u2(1), u2(0), u2(10), u2(5), u2(11)])),
        DecodeError::LengthMismatch
    );
}

#[test]
fn attribute_may_not_read_past_its_length() {
    // a source file index needs two bytes, the attribute gives one.
    let bytes = cat(vec![u2(2), u2(2), u4(1), u2(14), attribute(5, vec![])]);
    let mut file = FileReader::new(&bytes);
    assert_eq!(Attributes::from(&mut file, &pool()).err(), Some(DecodeError::TruncatedInput));
    assert_eq!(failure(6, cat(vec![u2(2), u2(15)])), DecodeError::TruncatedInput);
}

#[test]
fn attribute_with_invalid_name_or_index() {
    assert_eq!(
        decode_attributes(vec![attribute(0, vec![])]).err(),
        Some(DecodeError::InvalidIndex)
    );
    assert_eq!(
        decode_attributes(vec![attribute(26, vec![])]).err(),
        Some(DecodeError::InvalidIndex)
    );
    assert_eq!(failure(2, u2(0)), DecodeError::InvalidIndex);
    assert_eq!(failure(6, cat(vec![u2(1), u2(99)])), DecodeError::InvalidIndex);
    assert_eq!(failure(12, u2(26)), DecodeError::InvalidIndex);
}

#[test]
fn attribute_longer_than_the_input() {
    let bytes = cat(vec![u2(1), u2(13), u4(10), vec![1, 2, 3]]);
    let mut file = FileReader::new(&bytes);
    assert_eq!(Attributes::from(&mut file, &pool()).err(), Some(DecodeError::TruncatedInput));
}

#[test]
fn attribute_start() {
    let bytes = cat(vec![u2(13), u4(2), vec![7, 7]]);
    let mut file = FileReader::new(&bytes);
    let start = AttStart::parse(&mut file, &pool()).unwrap();
    assert_eq!(start, AttStart { attribute_name_index: 13, attribute_length: 2 });
    assert_eq!(file.left(), 2);
}

#[test]
fn signature_attribute_gives_its_type() {
    let cp = pool_of(vec![utf8("Signature"), utf8("Ljava/util/List<TT;>;"), utf8("(TT;)V")]).unwrap();
    let bytes = attribute_set(vec![attribute(1, u2(2)), attribute(1, u2(3))]);
    let mut file = FileReader::new(&bytes);
    let attributes = Attributes::from(&mut file, &cp).unwrap();
    match (&attributes.attributes[0], &attributes.attributes[1]) {
        (Attribute::SignatureAttribute(a), Attribute::SignatureAttribute(b)) => {
            assert_eq!(a.signature(&cp).unwrap().to_string(), "java.util.List<T>");
            assert!(b.signature(&cp).is_err());
            assert_eq!(b.to_string(&cp), "Signature: (TT;)V\n");
        }
        other => panic!("unexpected attributes {:?}", other),
    }
}

#[test]
fn interfaces_are_indices_of_the_pool() {
    let bytes = cat(vec![u2(2), u2(15), u2(14)]);
    let mut file = FileReader::new(&bytes);
    let interfaces = Interfaces::from(&mut file, &pool()).unwrap();
    assert_eq!(interfaces.interfaces, vec![15, 14]);
    assert_eq!(interfaces.to_string(&pool()), "Interfaces:\n- Foo\n- Foo\n");
    let bad = cat(vec![u2(1), u2(0)]);
    let mut file = FileReader::new(&bad);
    assert_eq!(Interfaces::from(&mut file, &pool()).err(), Some(DecodeError::InvalidIndex));
}

#[test]
fn field_and_method_flags() {
    assert_eq!(
        fields::AccessFlags::new(0xffff).flag_vector(),
        vec![
            fields::AccessFlag::Public,
            fields::AccessFlag::Private,
            fields::AccessFlag::Protected,
            fields::AccessFlag::Static,
            fields::AccessFlag::Final,
            fields::AccessFlag::Volatile,
            fields::AccessFlag::Transient,
            fields::AccessFlag::Synthetic,
            fields::AccessFlag::Enum
        ]
    );
    assert_eq!(
        methods::AccessFlags::new(0xffff).flag_vector(),
        vec![
            methods::AccessFlag::Public,
            methods::AccessFlag::Private,
            methods::AccessFlag::Protected,
            methods::AccessFlag::Static,
            methods::AccessFlag::Final,
            methods::AccessFlag::Synchronized,
            methods::AccessFlag::Bridge,
            methods::AccessFlag::Varargs,
            methods::AccessFlag::Native,
            methods::AccessFlag::Abstract,
            methods::AccessFlag::Strict,
            methods::AccessFlag::Synthetic
        ]
    );
    assert_eq!(methods::AccessFlag::Synchronized.to_str(), "synchronized");
    assert_eq!(methods::AccessFlag::Strict.to_str(), "strict");
    assert!(methods::AccessFlags::new(0x0002).contains(methods::AccessFlag::Private));
    assert!(!fields::AccessFlags::new(0x0001).contains(fields::AccessFlag::Private));
}

fn class_file(magic: [u8; 4], this_class: u16, super_class: u16) -> Vec<u8> {
    let mut out = magic.to_vec();
    out.extend(u2(3));
    out.extend(u2(52));
    out.extend(pool_bytes(vec![utf8("A"), one(7, 1)]));
    out.extend(u2(0x0021));
    out.extend(u2(this_class));
    out.extend(u2(super_class));
    out.extend(u2(0));
    out.extend(u2(0));
    out.extend(u2(0));
    out.extend(u2(0));
    out
}

#[test]
fn smallest_class_file() {
    let cf = read_class_file(&class_file([0xCA, 0xFE, 0xBA, 0xBE], 2, 0)).unwrap();
    assert_eq!(cf.minor_version, 3);
    assert_eq!(cf.major_version, 52);
    assert_eq!(cf.this_class, 2);
    assert_eq!(cf.super_class, 0);
    assert_eq!(cf.constant_pool.len(), 2);
    assert!(cf.interfaces.interfaces.is_empty());
    assert!(cf.fields.fields.is_empty());
    assert!(cf.methods.methods.is_empty());
    assert!(cf.attributes.attributes.is_empty());
}

#[test]
fn bytes_after_the_class_are_left_unread() {
    let mut bytes = class_file([0xCA, 0xFE, 0xBA, 0xBE], 2, 0);
    bytes.extend([1, 2, 3]);
    assert!(read_class_file(&bytes).is_ok());
}

#[test]
fn bad_magic_number() {
    assert_eq!(
        read_class_file(&class_file([0xCA, 0xFE, 0xBA, 0xBF], 2, 0)).err(),
        Some(DecodeError::MalformedHeader)
    );
    assert_eq!(read_class_file(&[0, 0, 0, 0]).err(), Some(DecodeError::MalformedHeader));
}

#[test]
fn every_proper_prefix_of_a_class_file_is_truncated() {
    let bytes = class_file([0xCA, 0xFE, 0xBA, 0xBE], 2, 2);
    for cut in 0..bytes.len() {
        assert_eq!(read_class_file(&bytes[..cut]).err(), Some(DecodeError::TruncatedInput));
    }
}

#[test]
fn class_indices_must_name_entries() {
    let magic = [0xCA, 0xFE, 0xBA, 0xBE];
    assert_eq!(read_class_file(&class_file(magic, 0, 0)).err(), Some(DecodeError::InvalidIndex));
    assert_eq!(read_class_file(&class_file(magic, 3, 0)).err(), Some(DecodeError::InvalidIndex));
    assert_eq!(read_class_file(&class_file(magic, 2, 3)).err(), Some(DecodeError::InvalidIndex));
}

#[test]
fn decoding_twice_gives_the_same_model() {
    let bytes = class_file([0xCA, 0xFE, 0xBA, 0xBE], 2, 2);
    let first = read_class_file(&bytes).unwrap();
    let second = read_class_file(&bytes).unwrap();
    assert_eq!(first.minor_version, second.minor_version);
    assert_eq!(first.major_version, second.major_version);
    assert_eq!(first.this_class, second.this_class);
    assert_eq!(first.super_class, second.super_class);
    assert_eq!(first.constant_pool.to_string(), second.constant_pool.to_string());
    assert_eq!(jaust::class_file::raw_string(&first), jaust::class_file::raw_string(&second));
}
