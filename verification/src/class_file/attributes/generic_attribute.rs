use vstd::prelude::*;
use vstd::string::*;

use crate::class_file::attributes::attributes::AttStart;
use crate::class_file::constant_pool::{resolve, valid_index, pool_wf, ConstantPool, InfoView};
use crate::class_file::error::DecodeError;
use crate::class_file::file_reader::{decoded, spec_bytes, FileReader, Parsed};
use crate::class_file::text::{decimal, push_decimal};

verus! {

/// An attribute that the decoder does not know: its content as it is.
#[derive(Debug)]
pub struct GenericAttribute {
    pub attribute_name_index: u16,
    pub attribute_length: u32,
    pub info: Vec<u8>,
}

/// The model of [`GenericAttribute`].
pub ghost struct GenericAttributeView {
    pub attribute_name_index: u16,
    pub attribute_length: u32,
    pub info: Seq<u8>,
}

impl View for GenericAttribute {
    type V = GenericAttributeView;

    open spec fn view(&self) -> GenericAttributeView {
        GenericAttributeView {
            attribute_name_index: self.attribute_name_index,
            attribute_length: self.attribute_length,
            info: self.info@,
        }
    }
}

impl GenericAttributeView {
    /// The content: as many bytes as the attribute's length says.
    pub open spec fn parse(bytes: Seq<u8>, pos: int, start: AttStart) -> Parsed<GenericAttributeView> {
        match spec_bytes(bytes, pos, start.attribute_length as int) {
            Ok((info, next)) => Ok(
                (
                    GenericAttributeView {
                        attribute_name_index: start.attribute_name_index,
                        attribute_length: start.attribute_length,
                        info,
                    },
                    next,
                ),
            ),
            Err(e) => Err(e),
        }
    }

    /// Whether every index that this holds names an entry of the pool.
    pub open spec fn wf(self, pool: Seq<InfoView>) -> bool {
        valid_index(pool, self.attribute_name_index as int)
    }

    /// The text that `to_string` gives.
    pub open spec fn text(self, pool: Seq<InfoView>) -> Seq<char> {
        "GenericAttribute: ("@ + resolve(pool, self.attribute_name_index as int) + ") length: "@
            + decimal(self.attribute_length as nat) + "\n"@
    }
}

impl GenericAttribute {
    /// Reads the content of the attribute.
    pub fn parse(file: &mut FileReader, att_start: &AttStart) -> (r: Result<
        GenericAttribute,
        DecodeError,
    >)
        ensures
            decoded(
                *old(file),
                *final(file),
                r,
                GenericAttributeView::parse(old(file).bytes(), old(file).pos(), *att_start),
            ),
    {
        let info = file.read_bytes(att_start.attribute_length as usize)?;
        Ok(
            GenericAttribute {
                attribute_name_index: att_start.attribute_name_index,
                attribute_length: att_start.attribute_length,
                info,
            },
        )
    }

    /// The text of this, as a dump shows it.
    pub fn to_string(&self, cp: &ConstantPool) -> (r: String)
        requires
            pool_wf(cp@),
            self@.wf(cp@),
        ensures
            r@ == self@.text(cp@),
    {
        let mut s = String::from_str("GenericAttribute: (");
        s.append(cp.get_to_string(self.attribute_name_index).as_str());
        s.append(") length: ");
        push_decimal(&mut s, self.attribute_length as u64);
        s.append("\n");
        s
    }
}

} // verus!
