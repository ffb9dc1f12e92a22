use vstd::prelude::*;
use vstd::string::*;

use crate::class_file::attributes::attributes::AttStart;
use crate::class_file::constant_pool::{valid_index, ConstantPool, InfoView};
use crate::class_file::error::DecodeError;
use crate::class_file::file_reader::{decoded, FileReader, Parsed};

verus! {

broadcast use FileReader::lemma_in_bounds;

/// Marks what it is attached to as deprecated.
#[derive(Clone, Copy, Debug, PartialEq, Eq, Structural)]
pub struct DeprecatedAttribute {
    pub attribute_name_index: u16,
    pub attribute_length: u32,
}

impl View for DeprecatedAttribute {
    type V = DeprecatedAttribute;

    open spec fn view(&self) -> DeprecatedAttribute {
        *self
    }
}

impl DeprecatedAttribute {
    /// The attribute has no content.
    pub open spec fn spec_parse(bytes: Seq<u8>, pos: int, start: AttStart) -> Parsed<
        DeprecatedAttribute,
    > {
        Ok(
            (
                DeprecatedAttribute {
                    attribute_name_index: start.attribute_name_index,
                    attribute_length: start.attribute_length,
                },
                pos,
            ),
        )
    }

    /// Whether every index that this holds names an entry of the pool.
    pub open spec fn wf(self, pool: Seq<InfoView>) -> bool {
        valid_index(pool, self.attribute_name_index as int)
    }

    /// The text that `to_string` gives.
    pub open spec fn text(self) -> Seq<char> {
        "Deprecated\n"@
    }

    /// Reads the content of the attribute.
    pub fn parse(file: &mut FileReader, att_start: &AttStart) -> (r: Result<
        DeprecatedAttribute,
        DecodeError,
    >)
        ensures
            decoded(
                *old(file),
                *final(file),
                r,
                Self::spec_parse(old(file).bytes(), old(file).pos(), *att_start),
            ),
    {
        proof {
            use_type_invariant(&*file);
        }
        Ok(
            DeprecatedAttribute {
                attribute_name_index: att_start.attribute_name_index,
                attribute_length: att_start.attribute_length,
            },
        )
    }

    /// The text of this, as a dump shows it.
    pub fn to_string(&self, _cp: &ConstantPool) -> (r: String)
        ensures
            r@ == self.text(),
    {
        String::from_str("Deprecated\n")
    }
}

} // verus!
