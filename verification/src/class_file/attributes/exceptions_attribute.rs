use vstd::prelude::*;
use vstd::string::*;

use crate::class_file::attributes::attributes::AttStart;
use crate::class_file::constant_pool::{
    index_item, resolve, valid_index, valid_indices, pool_wf, ConstantPool, InfoView,
};
use crate::class_file::error::DecodeError;
use crate::class_file::file_reader::{decoded, parse_counted, parse_each, FileReader, Parsed};
use crate::class_file::text::concat_each;

verus! {

/// The checked exceptions that a method may throw.
#[derive(Debug)]
pub struct ExceptionsAttribute {
    pub attribute_name_index: u16,
    pub attribute_length: u32,
    pub exception_index_table: Vec<u16>,
}

/// The model of [`ExceptionsAttribute`].
pub ghost struct ExceptionsAttributeView {
    pub attribute_name_index: u16,
    pub attribute_length: u32,
    pub exception_index_table: Seq<u16>,
}

impl View for ExceptionsAttribute {
    type V = ExceptionsAttributeView;

    open spec fn view(&self) -> ExceptionsAttributeView {
        ExceptionsAttributeView {
            attribute_name_index: self.attribute_name_index,
            attribute_length: self.attribute_length,
            exception_index_table: self.exception_index_table@,
        }
    }
}

impl ExceptionsAttributeView {
    /// The content: a count, then that many indices of exception classes.
    pub open spec fn parse(bytes: Seq<u8>, pos: int, start: AttStart, pool: Seq<InfoView>) -> Parsed<
        ExceptionsAttributeView,
    > {
        match parse_counted(index_item(pool), bytes, pos) {
            Ok((table, next)) => Ok(
                (
                    ExceptionsAttributeView {
                        attribute_name_index: start.attribute_name_index,
                        attribute_length: start.attribute_length,
                        exception_index_table: table,
                    },
                    next,
                ),
            ),
            Err(e) => Err(e),
        }
    }

    /// Whether the indices name entries of the pool.
    pub open spec fn wf(self, pool: Seq<InfoView>) -> bool {
        valid_index(pool, self.attribute_name_index as int) && valid_indices(
            pool,
            self.exception_index_table,
        )
    }

    /// The line of a listing for one exception.
    pub open spec fn line(pool: Seq<InfoView>) -> spec_fn(u16) -> Seq<char> {
        |index: u16| "\t- "@ + resolve(pool, index as int) + "\n"@
    }

    /// The text that `to_string` gives.
    pub open spec fn text(self, pool: Seq<InfoView>) -> Seq<char> {
        concat_each("Exceptions\n"@, self.exception_index_table, 0, Self::line(pool))
    }
}

impl ExceptionsAttribute {
    /// Reads the content of the attribute.
    #[verifier::loop_isolation(false)]
    pub fn parse(file: &mut FileReader, att_start: &AttStart, cp: &ConstantPool) -> (r: Result<
        ExceptionsAttribute,
        DecodeError,
    >)
        requires
            valid_index(cp@, att_start.attribute_name_index as int),
        ensures
            decoded(
                *old(file),
                *final(file),
                r,
                ExceptionsAttributeView::parse(old(file).bytes(), old(file).pos(), *att_start, cp@),
            ),
            r is Ok ==> r->Ok_0@.wf(cp@),
    {
        let number_of_exceptions = file.read_u2_to_u16()?;
        let mut exception_index_table: Vec<u16> = Vec::new();
        let mut i: u16 = 0;
        while i < number_of_exceptions
            invariant
                i <= number_of_exceptions,
                file.bytes() == old(file).bytes(),
                old(file).pos() <= file.pos() <= file.bytes().len(),
                parse_each(
                    index_item(cp@),
                    file.bytes(),
                    file.pos(),
                    (number_of_exceptions - i) as nat,
                    exception_index_table@,
                ) == parse_each(
                    index_item(cp@),
                    old(file).bytes(),
                    old(file).pos() + 2,
                    number_of_exceptions as nat,
                    Seq::empty(),
                ),
                valid_indices(cp@, exception_index_table@),
            decreases number_of_exceptions - i,
        {
            let exception_index = cp.read_index(file)?;
            exception_index_table.push(exception_index);
            i += 1;
        }
        Ok(
            ExceptionsAttribute {
                attribute_name_index: att_start.attribute_name_index,
                attribute_length: att_start.attribute_length,
                exception_index_table,
            },
        )
    }

    /// The text of this, as a dump shows it.
    #[verifier::loop_isolation(false)]
    pub fn to_string(&self, cp: &ConstantPool) -> (r: String)
        requires
            pool_wf(cp@),
            self@.wf(cp@),
        ensures
            r@ == self@.text(cp@),
    {
        let mut s = String::from_str("Exceptions\n");
        let mut i: usize = 0;
        while i < self.exception_index_table.len()
            invariant
                i <= self.exception_index_table.len(),
                concat_each(
                    s@,
                    self.exception_index_table@,
                    i as int,
                    ExceptionsAttributeView::line(cp@),
                ) == self@.text(cp@),
            decreases self.exception_index_table.len() - i,
        {
            assert(valid_index(cp@, self.exception_index_table@[i as int] as int));
            let mut line = String::from_str("\t- ");
            line.append(cp.get_to_string(self.exception_index_table[i]).as_str());
            line.append("\n");
            s.append(line.as_str());
            i += 1;
        }
        s
    }
}

} // verus!
