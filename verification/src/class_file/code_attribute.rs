use vstd::prelude::*;
use vstd::string::*;

use crate::class_file::attributes::attributes::{AttStart, Attributes, AttributesView};
use crate::class_file::bytecode::{parse_code, ByteCode};
use crate::class_file::constant_pool::{resolve, valid_index, pool_wf, ConstantPool, InfoView};
use crate::class_file::error::DecodeError;
use crate::class_file::file_reader::{
    avail, decoded, lemma_parse_each_within, mapped, parse_counted, parse_each, stays_within, u16_at,
    u32_at, FileReader, Parsed,
};
use crate::class_file::text::{concat_each, decimal, push_decimal};

verus! {

broadcast use FileReader::lemma_in_bounds;

/// The code of a method: its instructions, the handlers of its exceptions
/// and attributes of its own.
#[derive(Debug)]
pub struct CodeAttribute {
    pub attribute_name_index: u16,
    pub attribute_length: u32,
    pub max_stack: u16,
    pub max_locals: u16,
    pub code_length: u32,
    pub code: Vec<ByteCode>,
    pub exception_table: Vec<ExceptionTable>,
    pub attributes: Attributes,
}

/// One handler: the range of instructions that it covers, where it
/// begins, and the class of what it catches, or 0 for everything.
#[derive(Clone, Copy, Debug, PartialEq, Eq, Structural)]
pub struct ExceptionTable {
    pub start_pc: u16,
    pub end_pc: u16,
    pub handler_pc: u16,
    pub catch_type: u16,
}

/// The model of [`CodeAttribute`].
pub ghost struct CodeAttributeView {
    pub attribute_name_index: u16,
    pub attribute_length: u32,
    pub max_stack: u16,
    pub max_locals: u16,
    pub code_length: u32,
    pub code: Seq<ByteCode>,
    pub exception_table: Seq<ExceptionTable>,
    pub attributes: AttributesView,
}

impl View for ExceptionTable {
    type V = ExceptionTable;

    open spec fn view(&self) -> ExceptionTable {
        *self
    }
}

impl View for CodeAttribute {
    type V = CodeAttributeView;

    open spec fn view(&self) -> CodeAttributeView
        decreases self,
    {
        CodeAttributeView {
            attribute_name_index: self.attribute_name_index,
            attribute_length: self.attribute_length,
            max_stack: self.max_stack,
            max_locals: self.max_locals,
            code_length: self.code_length,
            code: self.code@,
            exception_table: self.exception_table@,
            attributes: self.attributes@,
        }
    }
}

impl ExceptionTable {
    /// One handler: four 16-bit numbers.
    pub open spec fn spec_parse(bytes: Seq<u8>, pos: int) -> Parsed<ExceptionTable> {
        if avail(bytes, pos, 8) {
            Ok(
                (
                    ExceptionTable {
                        start_pc: u16_at(bytes, pos),
                        end_pc: u16_at(bytes, pos + 2),
                        handler_pc: u16_at(bytes, pos + 4),
                        catch_type: u16_at(bytes, pos + 6),
                    },
                    pos + 8,
                ),
            )
        } else {
            Err(DecodeError::TruncatedInput)
        }
    }

    /// The decoder of one handler.
    pub open spec fn item() -> spec_fn(Seq<u8>, int) -> Parsed<ExceptionTable> {
        |bytes: Seq<u8>, pos: int| Self::spec_parse(bytes, pos)
    }

    /// The line of a listing for the handler.
    pub open spec fn text(self) -> Seq<char> {
        "start_pc: "@ + decimal(self.start_pc as nat) + ", end_pc: "@ + decimal(self.end_pc as nat)
            + ", handler_pc: "@ + decimal(self.handler_pc as nat) + ", catch_type: "@ + decimal(
            self.catch_type as nat,
        ) + "\n"@
    }

    /// The text of one item in a listing.
    pub open spec fn line() -> spec_fn(ExceptionTable) -> Seq<char> {
        |handler: ExceptionTable| handler.text()
    }

    /// Reads one handler.
    pub fn parse(file: &mut FileReader) -> (r: Result<ExceptionTable, DecodeError>)
        ensures
            decoded(
                *old(file),
                *final(file),
                r,
                Self::spec_parse(old(file).bytes(), old(file).pos()),
            ),
    {
        file.need(8)?;
        let start_pc = file.read_u2_to_u16()?;
        let end_pc = file.read_u2_to_u16()?;
        let handler_pc = file.read_u2_to_u16()?;
        let catch_type = file.read_u2_to_u16()?;
        Ok(ExceptionTable { start_pc, end_pc, handler_pc, catch_type })
    }

    /// The text of this, as a dump shows it.
    pub fn to_string(&self) -> (r: String)
        ensures
            r@ == self.text(),
    {
        let mut s = String::from_str("start_pc: ");
        push_decimal(&mut s, self.start_pc as u64);
        s.append(", end_pc: ");
        push_decimal(&mut s, self.end_pc as u64);
        s.append(", handler_pc: ");
        push_decimal(&mut s, self.handler_pc as u64);
        s.append(", catch_type: ");
        push_decimal(&mut s, self.catch_type as u64);
        s.append("\n");
        s
    }
}

/// The line of a listing for one instruction.
pub open spec fn code_line() -> spec_fn(ByteCode) -> Seq<char> {
    |instruction: ByteCode| "- "@ + instruction.text() + "\n"@
}

/// Handlers that decode end within the bytes, after where they began.
pub proof fn lemma_handlers_within(bytes: Seq<u8>, pos: int)
    requires
        parse_counted(ExceptionTable::item(), bytes, pos) is Ok,
    ensures
        pos + 2 <= parse_counted(ExceptionTable::item(), bytes, pos)->Ok_0.1 <= bytes.len(),
{
    assert(stays_within(ExceptionTable::item(), bytes));
    lemma_parse_each_within(
        ExceptionTable::item(),
        bytes,
        pos + 2,
        u16_at(bytes, pos) as nat,
        Seq::empty(),
    );
}

impl CodeAttributeView {
    /// Whether every index that this holds names an entry of the pool.
    pub open spec fn wf(self, pool: Seq<InfoView>) -> bool
        decreases self,
    {
        valid_index(pool, self.attribute_name_index as int) && self.attributes.wf(pool)
    }

    /// The content: the sizes of the stack and of the locals, the length
    /// of the code, the instructions, which fill that length exactly, a
    /// count and that many handlers, and a set of attributes.
    pub open spec fn parse(bytes: Seq<u8>, pos: int, start: AttStart, pool: Seq<InfoView>) -> Parsed<
        CodeAttributeView,
    >
        decreases bytes.len() - pos, 0nat,
    {
        if !avail(bytes, pos, 8) {
            Err(DecodeError::TruncatedInput)
        } else if !avail(bytes, pos + 8, u32_at(bytes, pos + 4) as int) {
            Err(DecodeError::TruncatedInput)
        } else {
            let code_length = u32_at(bytes, pos + 4);
            let code_end = pos + 8 + code_length;
            match parse_code(bytes.subrange(pos + 8, code_end), 0, Seq::empty()) {
                Err(e) => Err(e),
                Ok((code, _)) => match parse_counted(ExceptionTable::item(), bytes, code_end) {
                    Err(e) => Err(e),
                    Ok((exception_table, p)) => {
                        proof {
                            lemma_handlers_within(bytes, code_end);
                        }
                        mapped(
                            AttributesView::parse(bytes, p, pool),
                            |attributes: AttributesView|
                                CodeAttributeView {
                                    attribute_name_index: start.attribute_name_index,
                                    attribute_length: start.attribute_length,
                                    max_stack: u16_at(bytes, pos),
                                    max_locals: u16_at(bytes, pos + 2),
                                    code_length,
                                    code,
                                    exception_table,
                                    attributes,
                                },
                        )
                    },
                },
            }
        }
    }

    /// The listing of the code.
    pub open spec fn text(self, pool: Seq<InfoView>) -> Seq<char>
        decreases self, 0nat,
    {
        concat_each(
            concat_each(
                "name "@ + resolve(pool, self.attribute_name_index as int) + "\n"@ + "length "@
                    + decimal(self.attribute_length as nat) + "\n"@ + "Code: max_stack: "@
                    + decimal(self.max_stack as nat) + ", max_locals: "@ + decimal(
                    self.max_locals as nat,
                ) + ", code_length: "@ + decimal(self.code_length as nat) + "\n"@ + "Code: "@
                    + decimal(self.code.len()) + "\n"@,
                self.code,
                0,
                code_line(),
            ) + "Exception table: "@ + decimal(self.exception_table.len()) + "\n"@,
            self.exception_table,
            0,
            ExceptionTable::line(),
        ) + self.attributes.text(pool)
    }
}

impl CodeAttribute {
    /// The instructions.
    pub fn code(&self) -> (r: &Vec<ByteCode>)
        ensures
            r@ == self@.code,
    {
        &self.code
    }

    /// Reads the instructions of a code array of `code_length` bytes.
    #[verifier::loop_isolation(false)]
    fn read_code(file: &mut FileReader, code_length: u32) -> (r: Result<Vec<ByteCode>, DecodeError>)
        ensures
            final(file).bytes() == old(file).bytes(),
            !avail(old(file).bytes(), old(file).pos(), code_length as int) ==> r is Err && r->Err_0
                == DecodeError::TruncatedInput,
            avail(old(file).bytes(), old(file).pos(), code_length as int) ==> match parse_code(
                old(file).bytes().subrange(old(file).pos(), old(file).pos() + code_length),
                0,
                Seq::empty(),
            ) {
                Ok((code, _)) => r is Ok && r->Ok_0@ == code && final(file).pos() == old(file).pos()
                    + code_length,
                Err(e) => r is Err && r->Err_0 == e,
            },
    {
        let mut code_reader = file.sub_reader(code_length as usize)?;
        let mut code: Vec<ByteCode> = Vec::new();
        while !code_reader.is_at_end()
            invariant
                code_reader.bytes() == old(file).bytes().subrange(
                    old(file).pos(),
                    old(file).pos() + code_length,
                ),
                file.bytes() == old(file).bytes(),
                file.pos() == old(file).pos() + code_length,
                0 <= code_reader.pos() <= code_reader.bytes().len(),
                parse_code(code_reader.bytes(), code_reader.pos(), code@) == parse_code(
                    code_reader.bytes(),
                    0,
                    Seq::empty(),
                ),
            decreases code_reader.remaining(),
        {
            let (byte_code, _) = ByteCode::parse(&mut code_reader)?;
            code.push(byte_code);
        }
        Ok(code)
    }

    /// Reads the handlers: a count, then that many.
    fn read_handlers(file: &mut FileReader) -> (r: Result<Vec<ExceptionTable>, DecodeError>)
        ensures
            decoded(
                *old(file),
                *final(file),
                r,
                parse_counted(ExceptionTable::item(), old(file).bytes(), old(file).pos()),
            ),
    {
        let exception_table_length = file.read_u2_to_u16()?;
        let mut exception_table: Vec<ExceptionTable> = Vec::new();
        let mut i: u16 = 0;
        while i < exception_table_length
            invariant
                i <= exception_table_length,
                file.bytes() == old(file).bytes(),
                avail(old(file).bytes(), old(file).pos(), 2),
                exception_table_length == u16_at(old(file).bytes(), old(file).pos()),
                old(file).pos() + 2 <= file.pos() <= file.bytes().len(),
                parse_each(
                    ExceptionTable::item(),
                    file.bytes(),
                    file.pos(),
                    (exception_table_length - i) as nat,
                    exception_table@,
                ) == parse_each(
                    ExceptionTable::item(),
                    old(file).bytes(),
                    old(file).pos() + 2,
                    exception_table_length as nat,
                    Seq::empty(),
                ),
            decreases exception_table_length - i,
        {
            let handler = ExceptionTable::parse(file)?;
            exception_table.push(handler);
            i += 1;
        }
        Ok(exception_table)
    }

    /// Reads the content of the attribute.
    #[verifier::rlimit(40)]
    pub fn parse(file: &mut FileReader, att_start: &AttStart, cp: &ConstantPool) -> (r: Result<
        CodeAttribute,
        DecodeError,
    >)
        requires
            pool_wf(cp@),
            valid_index(cp@, att_start.attribute_name_index as int),
        ensures
            decoded(
                *old(file),
                *final(file),
                r,
                CodeAttributeView::parse(old(file).bytes(), old(file).pos(), *att_start, cp@),
            ),
            r is Ok ==> r->Ok_0@.wf(cp@),
        decreases old(file).remaining(), 0nat,
    {
        file.need(8)?;
        let max_stack = file.read_u2_to_u16()?;
        let max_locals = file.read_u2_to_u16()?;
        let code_length = file.read_u4_to_u32()?;
        let code = Self::read_code(file, code_length)?;
        let exception_table = Self::read_handlers(file)?;
        let attributes = Attributes::from(file, cp)?;

        Ok(
            CodeAttribute {
                attribute_name_index: att_start.attribute_name_index,
                attribute_length: att_start.attribute_length,
                max_stack,
                max_locals,
                code_length,
                code,
                exception_table,
                attributes,
            },
        )
    }

    /// The text of this, as a dump shows it.
    #[verifier::loop_isolation(false)]
    pub fn to_string(&self, cp: &ConstantPool) -> (r: String)
        requires
            pool_wf(cp@),
            self@.wf(cp@),
        ensures
            r@ == self@.text(cp@),
        decreases self, 0nat,
    {
        let mut s = String::from_str("name ");
        s.append(cp.get_to_string(self.attribute_name_index).as_str());
        s.append("\n");
        s.append("length ");
        push_decimal(&mut s, self.attribute_length as u64);
        s.append("\n");
        s.append("Code: max_stack: ");
        push_decimal(&mut s, self.max_stack as u64);
        s.append(", max_locals: ");
        push_decimal(&mut s, self.max_locals as u64);
        s.append(", code_length: ");
        push_decimal(&mut s, self.code_length as u64);
        s.append("\n");
        s.append("Code: ");
        push_decimal(&mut s, self.code.len() as u64);
        s.append("\n");
        let ghost head = s@;
        let mut i: usize = 0;
        while i < self.code.len()
            invariant
                i <= self.code.len(),
                concat_each(s@, self.code@, i as int, code_line()) == concat_each(
                    head,
                    self.code@,
                    0,
                    code_line(),
                ),
            decreases self.code.len() - i,
        {
            let mut line = String::from_str("- ");
            line.append(self.code[i].to_string().as_str());
            line.append("\n");
            s.append(line.as_str());
            i += 1;
        }
        s.append("Exception table: ");
        push_decimal(&mut s, self.exception_table.len() as u64);
        s.append("\n");
        let ghost middle = s@;
        let mut j: usize = 0;
        while j < self.exception_table.len()
            invariant
                j <= self.exception_table.len(),
                concat_each(s@, self.exception_table@, j as int, ExceptionTable::line())
                    == concat_each(middle, self.exception_table@, 0, ExceptionTable::line()),
            decreases self.exception_table.len() - j,
        {
            s.append(self.exception_table[j].to_string().as_str());
            j += 1;
        }
        s.append(self.attributes.to_string(cp).as_str());
        s
    }
}

} // verus!
