use vstd::prelude::*;
use vstd::string::*;

use crate::class_file::attributes::attributes::AttStart;
use crate::class_file::constant_pool::{
    optional_index, resolve_or, valid_index, pool_wf, ConstantPool, InfoView,
};
use crate::class_file::error::DecodeError;
use crate::class_file::file_reader::{avail, decoded, parse_each, u16_at, FileReader, Parsed};
use crate::class_file::text::{
    add_flag, concat_each, debug_list, debug_list_string, decimal, lemma_views_empty,
    lemma_views_push, push_decimal, views, with_flag, Named,
};

verus! {

broadcast use {lemma_views_push, lemma_views_empty};

/// The names and flags of a method's formal parameters.
#[derive(Debug)]
pub struct MethodParametersAttribute {
    pub attribute_name_index: u16,
    pub attribute_length: u32,
    pub parameters: Vec<MethodParameter>,
}

/// One parameter. A parameter without a name has name index 0.
#[derive(Clone, Copy, Debug)]
pub struct MethodParameter {
    pub name_index: u16,
    pub access_flags: AccessFlags,
}

/// The flags of a parameter, as the class file holds them.
#[derive(Clone, Copy, Debug)]
pub struct AccessFlags(pub u16);

#[derive(Clone, Copy, Debug, PartialEq, Eq, Structural)]
pub enum AccessFlag {
    /// The parameter was declared final.
    FINAL,
    /// The parameter was not declared in source code, neither explicitly
    /// nor implicitly.
    SYNTHETIC,
    /// The parameter was implicitly declared in source code.
    MANDATED,
}

/// The model of [`MethodParameter`].
pub ghost struct MethodParameterView {
    pub name_index: u16,
    pub access_flags: u16,
}

/// The model of [`MethodParametersAttribute`].
pub ghost struct MethodParametersAttributeView {
    pub attribute_name_index: u16,
    pub attribute_length: u32,
    pub parameters: Seq<MethodParameterView>,
}

impl View for AccessFlags {
    type V = u16;

    open spec fn view(&self) -> u16 {
        self.0
    }
}

impl View for MethodParameter {
    type V = MethodParameterView;

    open spec fn view(&self) -> MethodParameterView {
        MethodParameterView { name_index: self.name_index, access_flags: self.access_flags@ }
    }
}

impl View for MethodParametersAttribute {
    type V = MethodParametersAttributeView;

    open spec fn view(&self) -> MethodParametersAttributeView {
        MethodParametersAttributeView {
            attribute_name_index: self.attribute_name_index,
            attribute_length: self.attribute_length,
            parameters: views(self.parameters@),
        }
    }
}

impl Named for AccessFlag {
    open spec fn name(&self) -> Seq<char> {
        match self {
            AccessFlag::FINAL => "FINAL"@,
            AccessFlag::SYNTHETIC => "SYNTHETIC"@,
            AccessFlag::MANDATED => "MANDATED"@,
        }
    }

    fn name_str(&self) -> (r: &'static str) {
        match self {
            AccessFlag::FINAL => "FINAL",
            AccessFlag::SYNTHETIC => "SYNTHETIC",
            AccessFlag::MANDATED => "MANDATED",
        }
    }
}

/// The flags that are set in `bits`, in the order of their bits.
pub open spec fn flag_seq(bits: u16) -> Seq<AccessFlag> {
    let s0 = with_flag(Seq::empty(), bits, 0x0010, AccessFlag::FINAL);
    let s1 = with_flag(s0, bits, 0x1000, AccessFlag::SYNTHETIC);
    with_flag(s1, bits, 0x8000, AccessFlag::MANDATED)
}

impl AccessFlags {
    /// The flags that are set, in the order of their bits.
    pub fn flag_vector(&self) -> (flags: Vec<AccessFlag>)
        ensures
            flags@ == flag_seq(self@),
    {
        let mut flags = Vec::new();
        add_flag(&mut flags, self.0, 0x0010, AccessFlag::FINAL);
        add_flag(&mut flags, self.0, 0x1000, AccessFlag::SYNTHETIC);
        add_flag(&mut flags, self.0, 0x8000, AccessFlag::MANDATED);
        flags
    }
}

impl MethodParameterView {
    /// Whether every index that this holds names an entry of the pool, or is
    /// 0 where it may be.
    pub open spec fn wf(self, pool: Seq<InfoView>) -> bool {
        optional_index(pool, self.name_index as int)
    }

    /// One parameter: the name's index, which may be 0, and the flags.
    pub open spec fn parse(bytes: Seq<u8>, pos: int, pool: Seq<InfoView>) -> Parsed<
        MethodParameterView,
    > {
        if !avail(bytes, pos, 4) {
            Err(DecodeError::TruncatedInput)
        } else if !optional_index(pool, u16_at(bytes, pos) as int) {
            Err(DecodeError::InvalidIndex)
        } else {
            Ok(
                (
                    MethodParameterView {
                        name_index: u16_at(bytes, pos),
                        access_flags: u16_at(bytes, pos + 2),
                    },
                    pos + 4,
                ),
            )
        }
    }

    /// The decoder of one parameter.
    pub open spec fn item(pool: Seq<InfoView>) -> spec_fn(Seq<u8>, int) -> Parsed<
        MethodParameterView,
    > {
        |bytes: Seq<u8>, pos: int| Self::parse(bytes, pos, pool)
    }

    /// The text that `to_string` gives.
    pub open spec fn text(self, pool: Seq<InfoView>) -> Seq<char> {
        resolve_or(pool, self.name_index as int, "<no name>"@) + " ("@ + "AccessFlags("@ + decimal(
            self.access_flags as nat,
        ) + ")"@ + ", "@ + debug_list(flag_seq(self.access_flags)) + ")"@
    }

    /// The part of a listing for one parameter.
    pub open spec fn line(pool: Seq<InfoView>) -> spec_fn(MethodParameterView) -> Seq<char> {
        |parameter: MethodParameterView| "\n\t-"@ + parameter.text(pool)
    }
}

impl MethodParametersAttributeView {
    /// The content: a count in one byte, then that many parameters.
    pub open spec fn parse(bytes: Seq<u8>, pos: int, start: AttStart, pool: Seq<InfoView>) -> Parsed<
        MethodParametersAttributeView,
    > {
        if !avail(bytes, pos, 1) {
            Err(DecodeError::TruncatedInput)
        } else {
            match parse_each(
                MethodParameterView::item(pool),
                bytes,
                pos + 1,
                bytes[pos] as nat,
                Seq::empty(),
            ) {
                Ok((parameters, next)) => Ok(
                    (
                        MethodParametersAttributeView {
                            attribute_name_index: start.attribute_name_index,
                            attribute_length: start.attribute_length,
                            parameters,
                        },
                        next,
                    ),
                ),
                Err(e) => Err(e),
            }
        }
    }

    /// Whether every index that this holds names an entry of the pool, or is
    /// 0 where it may be.
    pub open spec fn wf(self, pool: Seq<InfoView>) -> bool {
        &&& valid_index(pool, self.attribute_name_index as int)
        &&& forall|i: int|
            0 <= i < self.parameters.len() ==> (#[trigger] self.parameters[i]).wf(pool)
    }

    /// The text that `to_string` gives.
    pub open spec fn text(self, pool: Seq<InfoView>) -> Seq<char> {
        concat_each("MethodParameters:"@, self.parameters, 0, MethodParameterView::line(pool))
    }
}

impl MethodParameter {
    /// Reads one parameter.
    pub fn parse(file: &mut FileReader, cp: &ConstantPool) -> (r: Result<
        MethodParameter,
        DecodeError,
    >)
        ensures
            decoded(
                *old(file),
                *final(file),
                r,
                MethodParameterView::parse(old(file).bytes(), old(file).pos(), cp@),
            ),
            r is Ok ==> r->Ok_0@.wf(cp@),
    {
        file.need(4)?;
        let name_index = cp.read_optional_index(file)?;
        let access_flags = AccessFlags(file.read_u2_to_u16()?);
        Ok(MethodParameter { name_index, access_flags })
    }

    /// The text of this, as a dump shows it.
    pub fn to_string(&self, cp: &ConstantPool) -> (r: String)
        requires
            pool_wf(cp@),
            self@.wf(cp@),
        ensures
            r@ == self@.text(cp@),
    {
        let mut s = cp.get_to_string_or(self.name_index, "<no name>");
        s.append(" (");
        s.append("AccessFlags(");
        push_decimal(&mut s, self.access_flags.0 as u64);
        s.append(")");
        s.append(", ");
        s.append(debug_list_string(&self.access_flags.flag_vector()).as_str());
        s.append(")");
        s
    }
}

impl MethodParametersAttribute {
    /// Reads the content of the attribute.
    #[verifier::loop_isolation(false)]
    pub fn parse(file: &mut FileReader, att_start: &AttStart, cp: &ConstantPool) -> (r: Result<
        MethodParametersAttribute,
        DecodeError,
    >)
        requires
            valid_index(cp@, att_start.attribute_name_index as int),
        ensures
            decoded(
                *old(file),
                *final(file),
                r,
                MethodParametersAttributeView::parse(
                    old(file).bytes(),
                    old(file).pos(),
                    *att_start,
                    cp@,
                ),
            ),
            r is Ok ==> r->Ok_0@.wf(cp@),
    {
        let mut parameters: Vec<MethodParameter> = Vec::new();
        let parameters_count = file.read_u1()?;
        let mut i: u8 = 0;
        while i < parameters_count
            invariant
                i <= parameters_count,
                file.bytes() == old(file).bytes(),
                old(file).pos() <= file.pos() <= file.bytes().len(),
                parse_each(
                    MethodParameterView::item(cp@),
                    file.bytes(),
                    file.pos(),
                    (parameters_count - i) as nat,
                    views(parameters@),
                ) == parse_each(
                    MethodParameterView::item(cp@),
                    old(file).bytes(),
                    old(file).pos() + 1,
                    parameters_count as nat,
                    Seq::empty(),
                ),
                forall|j: int| 0 <= j < parameters@.len() ==> (#[trigger] parameters@[j])@.wf(cp@),
            decreases parameters_count - i,
        {
            let parameter = MethodParameter::parse(file, cp)?;
            parameters.push(parameter);
            i += 1;
        }
        Ok(
            MethodParametersAttribute {
                attribute_name_index: att_start.attribute_name_index,
                attribute_length: att_start.attribute_length,
                parameters,
            },
        )
    }

    /// The text of this, as a dump shows it.
    #[verifier::loop_isolation(false)]
    pub fn to_string(&self, cp: &ConstantPool) -> (r: String)
        requires
            pool_wf(cp@),
            self@.wf(cp@),
        ensures
            r@ == self@.text(cp@),
    {
        let mut s = String::from_str("MethodParameters:");
        let mut i: usize = 0;
        while i < self.parameters.len()
            invariant
                i <= self.parameters.len(),
                concat_each(s@, self@.parameters, i as int, MethodParameterView::line(cp@))
                    == self@.text(cp@),
            decreases self.parameters.len() - i,
        {
            assert(self@.parameters[i as int].wf(cp@));
            let mut line = String::from_str("\n\t-");
            line.append(self.parameters[i].to_string(cp).as_str());
            s.append(line.as_str());
            i += 1;
        }
        s
    }
}

} // verus!
