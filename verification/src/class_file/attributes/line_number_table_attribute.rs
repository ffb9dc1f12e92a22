use vstd::prelude::*;
use vstd::string::*;

use crate::class_file::attributes::attributes::AttStart;
use crate::class_file::constant_pool::{valid_index, ConstantPool, InfoView};
use crate::class_file::error::DecodeError;
use crate::class_file::file_reader::{
    avail, decoded, parse_counted, parse_each, u16_at, FileReader, Parsed,
};
use crate::class_file::text::{concat_each, decimal, push_decimal};

verus! {

/// Maps instructions to the lines of the source file.
#[derive(Debug)]
pub struct LineNumberTableAttribute {
    pub attribute_name_index: u16,
    pub attribute_length: u32,
    pub line_number_table: Vec<LineNumberTable>,
}

/// One entry of the table.
#[derive(Clone, Copy, Debug, PartialEq, Eq, Structural)]
pub struct LineNumberTable {
    /// The offset in the code array at which the line begins.
    pub start_pc: u16,
    /// The line in the source file.
    pub line_number: u16,
}

/// The model of [`LineNumberTableAttribute`].
pub ghost struct LineNumberTableAttributeView {
    pub attribute_name_index: u16,
    pub attribute_length: u32,
    pub line_number_table: Seq<LineNumberTable>,
}

impl View for LineNumberTable {
    type V = LineNumberTable;

    open spec fn view(&self) -> LineNumberTable {
        *self
    }
}

impl View for LineNumberTableAttribute {
    type V = LineNumberTableAttributeView;

    open spec fn view(&self) -> LineNumberTableAttributeView {
        LineNumberTableAttributeView {
            attribute_name_index: self.attribute_name_index,
            attribute_length: self.attribute_length,
            line_number_table: self.line_number_table@,
        }
    }
}

impl LineNumberTable {
    /// One entry: two 16-bit numbers.
    pub open spec fn spec_parse(bytes: Seq<u8>, pos: int) -> Parsed<LineNumberTable> {
        if avail(bytes, pos, 4) {
            Ok(
                (
                    LineNumberTable {
                        start_pc: u16_at(bytes, pos),
                        line_number: u16_at(bytes, pos + 2),
                    },
                    pos + 4,
                ),
            )
        } else {
            Err(DecodeError::TruncatedInput)
        }
    }

    /// The decoder of one entry.
    pub open spec fn item() -> spec_fn(Seq<u8>, int) -> Parsed<LineNumberTable> {
        |bytes: Seq<u8>, pos: int| Self::spec_parse(bytes, pos)
    }

    /// The line of a listing for the entry.
    pub open spec fn text(self) -> Seq<char> {
        "\t- start_pc "@ + decimal(self.start_pc as nat) + " line_number "@ + decimal(
            self.line_number as nat,
        ) + "\n"@
    }

    /// The text of one item in a listing.
    pub open spec fn line() -> spec_fn(LineNumberTable) -> Seq<char> {
        |entry: LineNumberTable| entry.text()
    }

    /// Reads one entry.
    pub fn parse(file: &mut FileReader) -> (r: Result<LineNumberTable, DecodeError>)
        ensures
            decoded(
                *old(file),
                *final(file),
                r,
                Self::spec_parse(old(file).bytes(), old(file).pos()),
            ),
    {
        file.need(4)?;
        let start_pc = file.read_u2_to_u16()?;
        let line_number = file.read_u2_to_u16()?;
        Ok(LineNumberTable { start_pc, line_number })
    }

    /// The text of this, as a dump shows it.
    pub fn to_string(&self) -> (r: String)
        ensures
            r@ == self.text(),
    {
        let mut s = String::from_str("\t- start_pc ");
        push_decimal(&mut s, self.start_pc as u64);
        s.append(" line_number ");
        push_decimal(&mut s, self.line_number as u64);
        s.append("\n");
        s
    }
}

impl LineNumberTableAttributeView {
    /// The content: a count, then that many entries.
    pub open spec fn parse(bytes: Seq<u8>, pos: int, start: AttStart) -> Parsed<
        LineNumberTableAttributeView,
    > {
        match parse_counted(LineNumberTable::item(), bytes, pos) {
            Ok((table, next)) => Ok(
                (
                    LineNumberTableAttributeView {
                        attribute_name_index: start.attribute_name_index,
                        attribute_length: start.attribute_length,
                        line_number_table: table,
                    },
                    next,
                ),
            ),
            Err(e) => Err(e),
        }
    }

    /// Whether every index that this holds names an entry of the pool.
    pub open spec fn wf(self, pool: Seq<InfoView>) -> bool {
        valid_index(pool, self.attribute_name_index as int)
    }

    /// The text that `to_string` gives.
    pub open spec fn text(self) -> Seq<char> {
        concat_each("LineNumberTable\n"@, self.line_number_table, 0, LineNumberTable::line())
    }
}

impl LineNumberTableAttribute {
    /// Reads the content of the attribute.
    #[verifier::loop_isolation(false)]
    pub fn parse(file: &mut FileReader, att_start: &AttStart) -> (r: Result<
        LineNumberTableAttribute,
        DecodeError,
    >)
        ensures
            decoded(
                *old(file),
                *final(file),
                r,
                LineNumberTableAttributeView::parse(old(file).bytes(), old(file).pos(), *att_start),
            ),
    {
        let line_number_table_length = file.read_u2_to_u16()?;
        let mut line_number_table: Vec<LineNumberTable> = Vec::new();
        let mut i: u16 = 0;
        while i < line_number_table_length
            invariant
                i <= line_number_table_length,
                file.bytes() == old(file).bytes(),
                old(file).pos() <= file.pos() <= file.bytes().len(),
                parse_each(
                    LineNumberTable::item(),
                    file.bytes(),
                    file.pos(),
                    (line_number_table_length - i) as nat,
                    line_number_table@,
                ) == parse_each(
                    LineNumberTable::item(),
                    old(file).bytes(),
                    old(file).pos() + 2,
                    line_number_table_length as nat,
                    Seq::empty(),
                ),
            decreases line_number_table_length - i,
        {
            let entry = LineNumberTable::parse(file)?;
            line_number_table.push(entry);
            i += 1;
        }
        Ok(
            LineNumberTableAttribute {
                attribute_name_index: att_start.attribute_name_index,
                attribute_length: att_start.attribute_length,
                line_number_table,
            },
        )
    }

    /// The text of this, as a dump shows it.
    #[verifier::loop_isolation(false)]
    pub fn to_string(&self, _cp: &ConstantPool) -> (r: String)
        ensures
            r@ == self@.text(),
    {
        let mut s = String::from_str("LineNumberTable\n");
        let mut i: usize = 0;
        while i < self.line_number_table.len()
            invariant
                i <= self.line_number_table.len(),
                concat_each(s@, self.line_number_table@, i as int, LineNumberTable::line())
                    == self@.text(),
            decreases self.line_number_table.len() - i,
        {
            s.append(self.line_number_table[i].to_string().as_str());
            i += 1;
        }
        s
    }
}

} // verus!
