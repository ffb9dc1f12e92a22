use vstd::prelude::*;
use vstd::string::*;

use crate::class_file::attributes::attributes::AttStart;
use crate::class_file::constant_pool::{resolve, spec_index, valid_index, pool_wf, ConstantPool, InfoView};
use crate::class_file::error::DecodeError;
use crate::class_file::file_reader::{decoded, FileReader, Parsed};
use crate::class_file::jaustp::signature::{
    parse_signature, spec_signature, JavaTypeSignature, SignatureError,
};

verus! {

/// Holds the generic signature of what it is attached to.
#[derive(Clone, Copy, Debug, PartialEq, Eq, Structural)]
pub struct SignatureAttribute {
    pub attribute_name_index: u16,
    pub attribute_length: u32,
    pub signature_index: u16,
}

impl View for SignatureAttribute {
    type V = SignatureAttribute;

    open spec fn view(&self) -> SignatureAttribute {
        *self
    }
}

impl SignatureAttribute {
    /// The content: the index of the signature's text.
    pub open spec fn spec_parse(bytes: Seq<u8>, pos: int, start: AttStart, pool: Seq<InfoView>) -> Parsed<
        SignatureAttribute,
    > {
        match spec_index(bytes, pos, pool) {
            Ok((index, next)) => Ok(
                (
                    SignatureAttribute {
                        attribute_name_index: start.attribute_name_index,
                        attribute_length: start.attribute_length,
                        signature_index: index,
                    },
                    next,
                ),
            ),
            Err(e) => Err(e),
        }
    }

    /// Whether the indices name entries of the pool.
    pub open spec fn wf(self, pool: Seq<InfoView>) -> bool {
        valid_index(pool, self.attribute_name_index as int) && valid_index(
            pool,
            self.signature_index as int,
        )
    }

    /// The text that `to_string` gives.
    pub open spec fn text(self, pool: Seq<InfoView>) -> Seq<char> {
        "Signature: "@ + resolve(pool, self.signature_index as int) + "\n"@
    }

    /// Reads the content of the attribute.
    pub fn parse(file: &mut FileReader, att_start: &AttStart, cp: &ConstantPool) -> (r: Result<
        SignatureAttribute,
        DecodeError,
    >)
        requires
            valid_index(cp@, att_start.attribute_name_index as int),
        ensures
            decoded(
                *old(file),
                *final(file),
                r,
                Self::spec_parse(old(file).bytes(), old(file).pos(), *att_start, cp@),
            ),
            r is Ok ==> r->Ok_0.wf(cp@),
    {
        let signature_index = cp.read_index(file)?;
        Ok(
            SignatureAttribute {
                attribute_name_index: att_start.attribute_name_index,
                attribute_length: att_start.attribute_length,
                signature_index,
            },
        )
    }

    /// The type that the signature stands for.
    pub fn signature(&self, cp: &ConstantPool) -> (r: Result<JavaTypeSignature, SignatureError>)
        requires
            pool_wf(cp@),
            self.wf(cp@),
        ensures
            match spec_signature(resolve(cp@, self.signature_index as int)) {
                Ok(v) => r is Ok && r->Ok_0@ == v,
                Err(e) => r is Err && r->Err_0 == e,
            },
    {
        parse_signature(cp.get_to_string(self.signature_index).as_str())
    }

    /// The text of this, as a dump shows it.
    pub fn to_string(&self, cp: &ConstantPool) -> (r: String)
        requires
            pool_wf(cp@),
            self.wf(cp@),
        ensures
            r@ == self.text(cp@),
    {
        let mut s = String::from_str("Signature: ");
        s.append(cp.get_to_string(self.signature_index).as_str());
        s.append("\n");
        s
    }
}

} // verus!
