use vstd::prelude::*;

use crate::class_file::attributes::attributes::AttStart;
use crate::class_file::constant_pool::{resolve, spec_index, valid_index, pool_wf, ConstantPool, InfoView};
use crate::class_file::error::DecodeError;
use crate::class_file::file_reader::{decoded, FileReader, Parsed};

verus! {

/// Names the source file that the class was compiled from.
#[derive(Clone, Copy, Debug, PartialEq, Eq, Structural)]
pub struct SourceFileAttribute {
    pub attribute_name_index: u16,
    pub attribute_length: u32,
    pub sourcefile_index: u16,
}

impl View for SourceFileAttribute {
    type V = SourceFileAttribute;

    open spec fn view(&self) -> SourceFileAttribute {
        *self
    }
}

impl SourceFileAttribute {
    /// The content: the index of the file's name.
    pub open spec fn spec_parse(bytes: Seq<u8>, pos: int, start: AttStart, pool: Seq<InfoView>) -> Parsed<
        SourceFileAttribute,
    > {
        match spec_index(bytes, pos, pool) {
            Ok((index, next)) => Ok(
                (
                    SourceFileAttribute {
                        attribute_name_index: start.attribute_name_index,
                        attribute_length: start.attribute_length,
                        sourcefile_index: index,
                    },
                    next,
                ),
            ),
            Err(e) => Err(e),
        }
    }

    /// Whether the indices name entries of the pool.
    pub open spec fn wf(self, pool: Seq<InfoView>) -> bool {
        valid_index(pool, self.attribute_name_index as int) && valid_index(
            pool,
            self.sourcefile_index as int,
        )
    }

    /// The name of the source file.
    pub open spec fn text(self, pool: Seq<InfoView>) -> Seq<char> {
        resolve(pool, self.sourcefile_index as int)
    }

    /// Reads the content of the attribute.
    pub fn parse(file: &mut FileReader, att_start: &AttStart, cp: &ConstantPool) -> (r: Result<
        SourceFileAttribute,
        DecodeError,
    >)
        requires
            valid_index(cp@, att_start.attribute_name_index as int),
        ensures
            decoded(
                *old(file),
                *final(file),
                r,
                Self::spec_parse(old(file).bytes(), old(file).pos(), *att_start, cp@),
            ),
            r is Ok ==> r->Ok_0.wf(cp@),
    {
        let sourcefile_index = cp.read_index(file)?;
        Ok(
            SourceFileAttribute {
                attribute_name_index: att_start.attribute_name_index,
                attribute_length: att_start.attribute_length,
                sourcefile_index,
            },
        )
    }

    /// The text of this, as a dump shows it.
    pub fn to_string(&self, cp: &ConstantPool) -> (r: String)
        requires
            pool_wf(cp@),
            self.wf(cp@),
        ensures
            r@ == self.text(cp@),
    {
        cp.get_to_string(self.sourcefile_index)
    }
}

} // verus!
