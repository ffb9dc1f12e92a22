use vstd::prelude::*;
use vstd::string::*;

use crate::class_file::error::DecodeError;
use crate::class_file::file_reader::{avail, decoded, i16_at, u16_at, FileReader, Parsed};
use crate::class_file::text::{decimal, hex, push_decimal, push_hex, push_signed, signed_decimal};

verus! {

/// One decoded instruction with its operand.
#[derive(Clone, Copy, Debug, PartialEq, Eq, Structural)]
pub enum ByteCode {
    /// Push a small int constant.
    IConstn(u8),
    /// Push a long constant.
    LConstn(u8),
    /// Compare long.
    Lcmp,
    /// Return int from method.
    IReturn,
    /// Create new object.
    New(u16),
    /// Invoke instance method, with special handling for superclass,
    /// private and instance initialization methods.
    InvokeSpecial(u16),
    /// Invoke instance method, dispatched on the class.
    InvokeVirtual(u16),
    /// Invoke dynamic method.
    InvokeDynamic(u16),
    /// Duplicate the top operand stack value.
    Duplicate,
    /// Return reference from method.
    AReturn,
    /// Load reference from local variable.
    ALoad(u8),
    /// Load long from local variable.
    Lload(u8),
    /// Load int from local variable.
    ILoad(u8),
    /// Store reference into local variable.
    AStore(u8),
    /// Store long into local variable.
    LStore(u8),
    /// Set static field in class.
    PutStatic(u16),
    /// Push item from run-time constant pool.
    Ldc(u8),
    /// Return void.
    Return,
    /// Return long.
    LReturn,
    /// Add long.
    LAdd,
    /// Convert long to int.
    L2i,
    /// Convert int to long.
    I2L,
    /// Throw exception or error.
    Athrow,
    /// Branch if int value = 0.
    Ifeq(i16),
    /// Branch if int value != 0.
    Ifne(i16),
    /// Branch if int value < 0.
    Iflt(i16),
    /// Branch if int value >= 0.
    Ifge(i16),
    /// Branch if int value > 0.
    Ifgt(i16),
    /// Branch if int value <= 0.
    Ifle(i16),
    /// Set field in object.
    PutField(u16),
    /// Fetch field from object.
    GetField(u16),
    /// Any other opcode, taken to stand alone.
    Generic(u8),
}

impl View for ByteCode {
    type V = ByteCode;

    open spec fn view(&self) -> ByteCode {
        *self
    }
}

/// How many bytes the instruction with this opcode takes, opcode included.
pub open spec fn instruction_width(opcode: u8) -> int {
    if opcode == 0x12 || opcode == 0x16 || opcode == 0x37 {
        2
    } else if opcode == 0xbb || opcode == 0xb7 || opcode == 0xb6 || opcode == 0xb3 || opcode
        == 0xb5 || opcode == 0xb4 || (0x99 <= opcode <= 0x9e) {
        3
    } else if opcode == 0xba {
        5
    } else {
        1
    }
}

/// How far `opcode` lies above `base`, the first opcode of its family.
pub open spec fn offset(opcode: u8, base: u8) -> u8 {
    (opcode - base) as u8
}

/// The same number in sixteen bits.
pub open spec fn widen(v: u8) -> u16 {
    v as u16
}

/// An instruction's name with a small operand in decimal.
pub open spec fn with_operand(name: Seq<char>, v: u8) -> Seq<char> {
    name + decimal(v as nat) + ")"@
}

/// An instruction's name with a branch offset in decimal.
pub open spec fn with_branch(name: Seq<char>, v: i16) -> Seq<char> {
    name + signed_decimal(v as int) + ")"@
}

/// An instruction's name with an index in hexadecimal.
pub open spec fn with_index(name: Seq<char>, v: u16) -> Seq<char> {
    name + hex(v as nat) + ")"@
}

/// The instruction that starts at `pos`, where its bytes are all there.
pub open spec fn instruction_at(bytes: Seq<u8>, pos: int) -> ByteCode {
    let opcode = bytes[pos];
    if 0x02 <= opcode <= 0x0a {
        ByteCode::IConstn(offset(opcode, 0x02))
    } else if opcode == 0x12 {
        ByteCode::Ldc(bytes[pos + 1])
    } else if opcode == 0x16 {
        ByteCode::Lload(bytes[pos + 1])
    } else if 0x1a <= opcode <= 0x1d {
        ByteCode::ILoad(offset(opcode, 0x1a))
    } else if 0x1e <= opcode <= 0x21 {
        ByteCode::Lload(offset(opcode, 0x1e))
    } else if 0x2a <= opcode <= 0x2d {
        ByteCode::ALoad(offset(opcode, 0x2a))
    } else if opcode == 0x37 {
        ByteCode::LStore(bytes[pos + 1])
    } else if 0x4b <= opcode <= 0x4e {
        ByteCode::AStore(offset(opcode, 0x4b))
    } else if opcode == 0x59 {
        ByteCode::Duplicate
    } else if opcode == 0x61 {
        ByteCode::LAdd
    } else if opcode == 0x85 {
        ByteCode::I2L
    } else if opcode == 0x88 {
        ByteCode::L2i
    } else if opcode == 0x94 {
        ByteCode::Lcmp
    } else if opcode == 0x99 {
        ByteCode::Ifeq(i16_at(bytes, pos + 1))
    } else if opcode == 0x9a {
        ByteCode::Ifne(i16_at(bytes, pos + 1))
    } else if opcode == 0x9b {
        ByteCode::Iflt(i16_at(bytes, pos + 1))
    } else if opcode == 0x9c {
        ByteCode::Ifge(i16_at(bytes, pos + 1))
    } else if opcode == 0x9d {
        ByteCode::Ifgt(i16_at(bytes, pos + 1))
    } else if opcode == 0x9e {
        ByteCode::Ifle(i16_at(bytes, pos + 1))
    } else if opcode == 0xac {
        ByteCode::IReturn
    } else if opcode == 0xad {
        ByteCode::LReturn
    } else if opcode == 0xb0 {
        ByteCode::AReturn
    } else if opcode == 0xb1 {
        ByteCode::Return
    } else if opcode == 0xb3 {
        ByteCode::PutStatic(u16_at(bytes, pos + 1))
    } else if opcode == 0xb4 {
        ByteCode::GetField(u16_at(bytes, pos + 1))
    } else if opcode == 0xb5 {
        ByteCode::PutField(u16_at(bytes, pos + 1))
    } else if opcode == 0xb6 {
        ByteCode::InvokeVirtual(u16_at(bytes, pos + 1))
    } else if opcode == 0xb7 {
        ByteCode::InvokeSpecial(u16_at(bytes, pos + 1))
    } else if opcode == 0xba {
        ByteCode::InvokeDynamic(u16_at(bytes, pos + 1))
    } else if opcode == 0xbb {
        ByteCode::New(u16_at(bytes, pos + 1))
    } else if opcode == 0xbf {
        ByteCode::Athrow
    } else {
        ByteCode::Generic(opcode)
    }
}

/// One instruction: the instruction at `pos` and its width. The two bytes
/// after the operand of `invokedynamic` must be zero.
pub open spec fn parse_instruction(bytes: Seq<u8>, pos: int) -> Parsed<(ByteCode, u32)> {
    if !avail(bytes, pos, 1) {
        Err(DecodeError::TruncatedInput)
    } else if !avail(bytes, pos, instruction_width(bytes[pos])) {
        Err(DecodeError::TruncatedInput)
    } else if bytes[pos] == 0xba && (bytes[pos + 3] != 0 || bytes[pos + 4] != 0) {
        Err(DecodeError::MalformedInstruction)
    } else {
        Ok(
            (
                (instruction_at(bytes, pos), instruction_width(bytes[pos]) as u32),
                pos + instruction_width(bytes[pos]),
            ),
        )
    }
}

/// The instructions of a code array from `pos` to its end, added to `acc`.
pub open spec fn parse_code(code: Seq<u8>, pos: int, acc: Seq<ByteCode>) -> Parsed<Seq<ByteCode>>
    decreases code.len() - pos,
{
    if pos >= code.len() {
        Ok((acc, pos))
    } else {
        match parse_instruction(code, pos) {
            Ok(((instruction, _), next)) => parse_code(code, next, acc.push(instruction)),
            Err(e) => Err(e),
        }
    }
}

/// The sum of the widths of the instructions that start at `pos` and follow
/// one another for as long as the code array holds them whole.
pub open spec fn widths_from(code: Seq<u8>, pos: int) -> int
    decreases code.len() - pos,
{
    if avail(code, pos, 1) && avail(code, pos, instruction_width(code[pos])) {
        instruction_width(code[pos]) + widths_from(code, pos + instruction_width(code[pos]))
    } else {
        0
    }
}

/// Where a code array decodes from a position within it, the decoder stops
/// exactly at the array's end and has read nothing beyond it, one
/// instruction was decoded for each step, and the widths of the decoded
/// instructions add up to the number of bytes that were left.
pub proof fn lemma_code_is_consumed_exactly(code: Seq<u8>, pos: int, acc: Seq<ByteCode>)
    requires
        0 <= pos <= code.len(),
        parse_code(code, pos, acc) is Ok,
    ensures
        parse_code(code, pos, acc)->Ok_0.1 == code.len(),
        widths_from(code, pos) == code.len() - pos,
        parse_code(code, pos, acc)->Ok_0.0.len() >= acc.len(),
        parse_code(code, pos, acc)->Ok_0.0.len() - acc.len() <= code.len() - pos,
    decreases code.len() - pos,
{
    if pos < code.len() {
        let (pair, next) = parse_instruction(code, pos)->Ok_0;
        lemma_code_is_consumed_exactly(code, next, acc.push(pair.0));
    }
}

impl ByteCode {
    /// The text of the instruction.
    pub open spec fn text(self) -> Seq<char> {
        match self {
            ByteCode::IConstn(v) => with_operand("IConst("@, v),
            ByteCode::LConstn(v) => with_operand("LConst("@, v),
            ByteCode::Lcmp => "Lcmp"@,
            ByteCode::IReturn => "IReturn"@,
            ByteCode::New(v) => with_index("New(0x"@, v),
            ByteCode::Duplicate => "Duplicate"@,
            ByteCode::InvokeSpecial(v) => with_index("InvokeSpecial(0x"@, v),
            ByteCode::InvokeVirtual(v) => with_index("InvokeVirtual(0x"@, v),
            ByteCode::InvokeDynamic(v) => with_index("InvokeDynamic(0x"@, v),
            ByteCode::AReturn => "Reference Return (areturn)"@,
            ByteCode::Return => "Return void (return)"@,
            ByteCode::LReturn => "Long Return (lreturn)"@,
            ByteCode::Ldc(v) => with_operand("Ldc("@, v),
            ByteCode::ALoad(v) => with_operand("ALoad("@, v),
            ByteCode::Lload(v) => with_operand("Lload("@, v),
            ByteCode::ILoad(v) => with_operand("ILoad("@, v),
            ByteCode::AStore(v) => with_operand("AStore("@, v),
            ByteCode::LStore(v) => with_operand("LStore("@, v),
            ByteCode::PutStatic(v) => with_index("PutStatic(0x"@, v),
            ByteCode::LAdd => "LAdd"@,
            ByteCode::L2i => "L2i"@,
            ByteCode::I2L => "I2L"@,
            ByteCode::Athrow => "Athrow"@,
            ByteCode::Ifeq(v) => with_branch("Ifeq("@, v),
            ByteCode::Ifne(v) => with_branch("Ifne("@, v),
            ByteCode::Iflt(v) => with_branch("Iflt("@, v),
            ByteCode::Ifge(v) => with_branch("Ifge("@, v),
            ByteCode::Ifgt(v) => with_branch("Ifgt("@, v),
            ByteCode::Ifle(v) => with_branch("Ifle("@, v),
            ByteCode::PutField(v) => with_index("PutField(0x"@, v),
            ByteCode::GetField(v) => with_index("GetField(0x"@, v),
            ByteCode::Generic(v) => with_index("Generic(0x"@, widen(v)),
        }
    }

    fn width_of(opcode: u8) -> (w: u32)
        ensures
            w == instruction_width(opcode),
    {
        if opcode == 0x12 || opcode == 0x16 || opcode == 0x37 {
            2
        } else if opcode == 0xbb || opcode == 0xb7 || opcode == 0xb6 || opcode == 0xb3 || opcode
            == 0xb5 || opcode == 0xb4 || (0x99 <= opcode && opcode <= 0x9e) {
            3
        } else if opcode == 0xba {
            5
        } else {
            1
        }
    }

    fn need_operands(file: &FileReader, width: u32) -> (r: Result<(), DecodeError>)
        requires
            width >= 1,
        ensures
            avail(file.bytes(), file.pos(), width - 1) ==> r is Ok,
            !avail(file.bytes(), file.pos(), width - 1) ==> r == Err::<(), DecodeError>(
                DecodeError::TruncatedInput,
            ),
    {
        file.need((width - 1) as usize)
    }

    fn widened(v: u8) -> (r: u16)
        ensures
            r == widen(v),
    {
        v as u16
    }

    /// Reads one instruction and says how many bytes it took.
    #[verifier::rlimit(40)]
    pub fn parse(file: &mut FileReader) -> (r: Result<(ByteCode, u32), DecodeError>)
        ensures
            decoded(*old(file), *final(file), r, parse_instruction(old(file).bytes(), old(file).pos())),
    {
        let opcode = file.read_u1()?;
        let len = Self::width_of(opcode);
        Self::need_operands(file, len)?;
        let code = if 0x02 <= opcode && opcode <= 0x0a {
            ByteCode::IConstn(opcode - 0x02)
        } else if opcode == 0x12 {
            ByteCode::Ldc(file.read_u1()?)
        } else if opcode == 0x16 {
            ByteCode::Lload(file.read_u1()?)
        } else if 0x1a <= opcode && opcode <= 0x1d {
            ByteCode::ILoad(opcode - 0x1a)
        } else if 0x1e <= opcode && opcode <= 0x21 {
            ByteCode::Lload(opcode - 0x1e)
        } else if 0x2a <= opcode && opcode <= 0x2d {
            ByteCode::ALoad(opcode - 0x2a)
        } else if opcode == 0x37 {
            ByteCode::LStore(file.read_u1()?)
        } else if 0x4b <= opcode && opcode <= 0x4e {
            ByteCode::AStore(opcode - 0x4b)
        } else if opcode == 0x59 {
            ByteCode::Duplicate
        } else if opcode == 0x61 {
            ByteCode::LAdd
        } else if opcode == 0x85 {
            ByteCode::I2L
        } else if opcode == 0x88 {
            ByteCode::L2i
        } else if opcode == 0x94 {
            ByteCode::Lcmp
        } else if opcode == 0x99 {
            ByteCode::Ifeq(file.read_i16()?)
        } else if opcode == 0x9a {
            ByteCode::Ifne(file.read_i16()?)
        } else if opcode == 0x9b {
            ByteCode::Iflt(file.read_i16()?)
        } else if opcode == 0x9c {
            ByteCode::Ifge(file.read_i16()?)
        } else if opcode == 0x9d {
            ByteCode::Ifgt(file.read_i16()?)
        } else if opcode == 0x9e {
            ByteCode::Ifle(file.read_i16()?)
        } else if opcode == 0xac {
            ByteCode::IReturn
        } else if opcode == 0xad {
            ByteCode::LReturn
        } else if opcode == 0xb0 {
            ByteCode::AReturn
        } else if opcode == 0xb1 {
            ByteCode::Return
        } else if opcode == 0xb3 {
            ByteCode::PutStatic(file.read_u2_to_u16()?)
        } else if opcode == 0xb4 {
            ByteCode::GetField(file.read_u2_to_u16()?)
        } else if opcode == 0xb5 {
            ByteCode::PutField(file.read_u2_to_u16()?)
        } else if opcode == 0xb6 {
            ByteCode::InvokeVirtual(file.read_u2_to_u16()?)
        } else if opcode == 0xb7 {
            ByteCode::InvokeSpecial(file.read_u2_to_u16()?)
        } else if opcode == 0xba {
            let method_index = file.read_u2_to_u16()?;
            let first = file.read_u1()?;
            let second = file.read_u1()?;
            if first != 0 || second != 0 {
                return Err(DecodeError::MalformedInstruction);
            }
            ByteCode::InvokeDynamic(method_index)
        } else if opcode == 0xbb {
            ByteCode::New(file.read_u2_to_u16()?)
        } else if opcode == 0xbf {
            ByteCode::Athrow
        } else {
            ByteCode::Generic(opcode)
        };
        Ok((code, len))
    }

    /// The text of the instruction.
    pub fn to_string(&self) -> (r: String)
        ensures
            r@ == self.text(),
    {
        match self {
            ByteCode::IConstn(v) => Self::with_decimal("IConst(", *v),
            ByteCode::LConstn(v) => Self::with_decimal("LConst(", *v),
            ByteCode::Lcmp => String::from_str("Lcmp"),
            ByteCode::IReturn => String::from_str("IReturn"),
            ByteCode::New(v) => Self::with_hex("New(0x", *v),
            ByteCode::Duplicate => String::from_str("Duplicate"),
            ByteCode::InvokeSpecial(v) => Self::with_hex("InvokeSpecial(0x", *v),
            ByteCode::InvokeVirtual(v) => Self::with_hex("InvokeVirtual(0x", *v),
            ByteCode::InvokeDynamic(v) => Self::with_hex("InvokeDynamic(0x", *v),
            ByteCode::AReturn => String::from_str("Reference Return (areturn)"),
            ByteCode::Return => String::from_str("Return void (return)"),
            ByteCode::LReturn => String::from_str("Long Return (lreturn)"),
            ByteCode::Ldc(v) => Self::with_decimal("Ldc(", *v),
            ByteCode::ALoad(v) => Self::with_decimal("ALoad(", *v),
            ByteCode::Lload(v) => Self::with_decimal("Lload(", *v),
            ByteCode::ILoad(v) => Self::with_decimal("ILoad(", *v),
            ByteCode::AStore(v) => Self::with_decimal("AStore(", *v),
            ByteCode::LStore(v) => Self::with_decimal("LStore(", *v),
            ByteCode::PutStatic(v) => Self::with_hex("PutStatic(0x", *v),
            ByteCode::LAdd => String::from_str("LAdd"),
            ByteCode::L2i => String::from_str("L2i"),
            ByteCode::I2L => String::from_str("I2L"),
            ByteCode::Athrow => String::from_str("Athrow"),
            ByteCode::Ifeq(v) => Self::with_signed("Ifeq(", *v),
            ByteCode::Ifne(v) => Self::with_signed("Ifne(", *v),
            ByteCode::Iflt(v) => Self::with_signed("Iflt(", *v),
            ByteCode::Ifge(v) => Self::with_signed("Ifge(", *v),
            ByteCode::Ifgt(v) => Self::with_signed("Ifgt(", *v),
            ByteCode::Ifle(v) => Self::with_signed("Ifle(", *v),
            ByteCode::PutField(v) => Self::with_hex("PutField(0x", *v),
            ByteCode::GetField(v) => Self::with_hex("GetField(0x", *v),
            ByteCode::Generic(v) => Self::with_hex("Generic(0x", Self::widened(*v)),
        }
    }

    fn with_decimal(name: &str, v: u8) -> (r: String)
        ensures
            r@ == with_operand(name@, v),
    {
        let mut s = String::from_str(name);
        push_decimal(&mut s, v as u64);
        s.append(")");
        s
    }

    fn with_signed(name: &str, v: i16) -> (r: String)
        ensures
            r@ == with_branch(name@, v),
    {
        let mut s = String::from_str(name);
        push_signed(&mut s, v as i64);
        s.append(")");
        s
    }

    fn with_hex(name: &str, v: u16) -> (r: String)
        ensures
            r@ == with_index(name@, v),
    {
        let mut s = String::from_str(name);
        push_hex(&mut s, v as u64);
        s.append(")");
        s
    }
}

} // verus!
