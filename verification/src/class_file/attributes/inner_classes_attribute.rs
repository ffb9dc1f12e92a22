use vstd::prelude::*;
use vstd::string::*;

use crate::class_file::access_flags::{flag_seq, AccessFlags};
use crate::class_file::attributes::attributes::AttStart;
use crate::class_file::constant_pool::{
    optional_index, resolve, resolve_or, valid_index, pool_wf, ConstantPool, InfoView,
};
use crate::class_file::error::DecodeError;
use crate::class_file::file_reader::{
    avail, decoded, parse_counted, parse_each, u16_at, FileReader, Parsed,
};
use crate::class_file::text::{
    concat_each, debug_list, debug_list_string, decimal, hex4, push_decimal, push_hex4,
};

verus! {

/// The classes that are nested in one another and have to do with this
/// class.
#[derive(Debug)]
pub struct InnerClassesAttribute {
    pub attribute_name_index: u16,
    pub attribute_length: u32,
    pub classes: Vec<InnerClassInfo>,
}

/// One nested class. The outer class and the name may be absent, which
/// index 0 says.
#[derive(Clone, Copy, Debug, PartialEq, Eq, Structural)]
pub struct InnerClassInfo {
    pub inner_class_info_index: u16,
    pub outer_class_info_index: u16,
    pub inner_name_index: u16,
    pub inner_class_access_flags: u16,
}

/// The model of [`InnerClassesAttribute`].
pub ghost struct InnerClassesAttributeView {
    pub attribute_name_index: u16,
    pub attribute_length: u32,
    pub classes: Seq<InnerClassInfo>,
}

impl View for InnerClassInfo {
    type V = InnerClassInfo;

    open spec fn view(&self) -> InnerClassInfo {
        *self
    }
}

impl View for InnerClassesAttribute {
    type V = InnerClassesAttributeView;

    open spec fn view(&self) -> InnerClassesAttributeView {
        InnerClassesAttributeView {
            attribute_name_index: self.attribute_name_index,
            attribute_length: self.attribute_length,
            classes: self.classes@,
        }
    }
}

impl InnerClassInfo {
    /// Whether the indices name entries of the pool, or are 0 where they
    /// may.
    pub open spec fn wf(self, pool: Seq<InfoView>) -> bool {
        &&& valid_index(pool, self.inner_class_info_index as int)
        &&& optional_index(pool, self.outer_class_info_index as int)
        &&& optional_index(pool, self.inner_name_index as int)
    }

    /// One nested class: three indices and the flags.
    pub open spec fn spec_parse(bytes: Seq<u8>, pos: int, pool: Seq<InfoView>) -> Parsed<
        InnerClassInfo,
    > {
        let info = InnerClassInfo {
            inner_class_info_index: u16_at(bytes, pos),
            outer_class_info_index: u16_at(bytes, pos + 2),
            inner_name_index: u16_at(bytes, pos + 4),
            inner_class_access_flags: u16_at(bytes, pos + 6),
        };
        if !avail(bytes, pos, 8) {
            Err(DecodeError::TruncatedInput)
        } else if !info.wf(pool) {
            Err(DecodeError::InvalidIndex)
        } else {
            Ok((info, pos + 8))
        }
    }

    /// The decoder of one nested class.
    pub open spec fn item(pool: Seq<InfoView>) -> spec_fn(Seq<u8>, int) -> Parsed<InnerClassInfo> {
        |bytes: Seq<u8>, pos: int| Self::spec_parse(bytes, pos, pool)
    }

    /// The text that `to_string` gives.
    pub open spec fn text(self, pool: Seq<InfoView>) -> Seq<char> {
        resolve(pool, self.inner_class_info_index as int) + ", "@ + resolve_or(
            pool,
            self.outer_class_info_index as int,
            "<none>"@,
        ) + ", "@ + resolve_or(pool, self.inner_name_index as int, "<none>"@) + ", "@ + "flags: "@
            + hex4(self.inner_class_access_flags) + " ("@ + debug_list(
            flag_seq(self.inner_class_access_flags),
        ) + ")"@
    }

    /// The part of a listing for one nested class.
    pub open spec fn line(pool: Seq<InfoView>) -> spec_fn(InnerClassInfo) -> Seq<char> {
        |info: InnerClassInfo| "\n\t - "@ + info.text(pool) + ", "@
    }

    /// Reads one nested class.
    pub fn parse(file: &mut FileReader, cp: &ConstantPool) -> (r: Result<InnerClassInfo, DecodeError>)
        ensures
            decoded(
                *old(file),
                *final(file),
                r,
                Self::spec_parse(old(file).bytes(), old(file).pos(), cp@),
            ),
            r is Ok ==> r->Ok_0.wf(cp@),
    {
        file.need(8)?;
        let inner_class_info_index = cp.read_index(file)?;
        let outer_class_info_index = cp.read_optional_index(file)?;
        let inner_name_index = cp.read_optional_index(file)?;
        let inner_class_access_flags = file.read_u2_to_u16()?;
        Ok(
            InnerClassInfo {
                inner_class_info_index,
                outer_class_info_index,
                inner_name_index,
                inner_class_access_flags,
            },
        )
    }

    /// The text of this, as a dump shows it.
    pub fn to_string(&self, cp: &ConstantPool) -> (r: String)
        requires
            pool_wf(cp@),
            self.wf(cp@),
        ensures
            r@ == self.text(cp@),
    {
        let mut s = cp.get_to_string(self.inner_class_info_index);
        s.append(", ");
        s.append(cp.get_to_string_or(self.outer_class_info_index, "<none>").as_str());
        s.append(", ");
        s.append(cp.get_to_string_or(self.inner_name_index, "<none>").as_str());
        s.append(", ");
        s.append("flags: ");
        push_hex4(&mut s, self.inner_class_access_flags);
        s.append(" (");
        let flags = AccessFlags::new(self.inner_class_access_flags);
        s.append(debug_list_string(&flags.flag_vector()).as_str());
        s.append(")");
        s
    }
}

impl InnerClassesAttributeView {
    /// The content: a count, then that many nested classes.
    pub open spec fn parse(bytes: Seq<u8>, pos: int, start: AttStart, pool: Seq<InfoView>) -> Parsed<
        InnerClassesAttributeView,
    > {
        match parse_counted(InnerClassInfo::item(pool), bytes, pos) {
            Ok((classes, next)) => Ok(
                (
                    InnerClassesAttributeView {
                        attribute_name_index: start.attribute_name_index,
                        attribute_length: start.attribute_length,
                        classes,
                    },
                    next,
                ),
            ),
            Err(e) => Err(e),
        }
    }

    /// Whether every index that this holds names an entry of the pool, or is
    /// 0 where it may be.
    pub open spec fn wf(self, pool: Seq<InfoView>) -> bool {
        &&& valid_index(pool, self.attribute_name_index as int)
        &&& forall|i: int| 0 <= i < self.classes.len() ==> (#[trigger] self.classes[i]).wf(pool)
    }

    /// The text that `to_string` gives.
    pub open spec fn text(self, pool: Seq<InfoView>) -> Seq<char> {
        concat_each(
            "InnerClasses: "@ + "("@ + decimal(self.classes.len()) + ")"@,
            self.classes,
            0,
            InnerClassInfo::line(pool),
        ) + "\n"@
    }
}

impl InnerClassesAttribute {
    /// Reads the content of the attribute.
    #[verifier::loop_isolation(false)]
    pub fn parse(file: &mut FileReader, att_start: &AttStart, cp: &ConstantPool) -> (r: Result<
        InnerClassesAttribute,
        DecodeError,
    >)
        requires
            valid_index(cp@, att_start.attribute_name_index as int),
        ensures
            decoded(
                *old(file),
                *final(file),
                r,
                InnerClassesAttributeView::parse(old(file).bytes(), old(file).pos(), *att_start, cp@),
            ),
            r is Ok ==> r->Ok_0@.wf(cp@),
    {
        let inner_class_count = file.read_u2_to_u16()?;
        let mut classes: Vec<InnerClassInfo> = Vec::new();
        let mut i: u16 = 0;
        while i < inner_class_count
            invariant
                i <= inner_class_count,
                file.bytes() == old(file).bytes(),
                old(file).pos() <= file.pos() <= file.bytes().len(),
                parse_each(
                    InnerClassInfo::item(cp@),
                    file.bytes(),
                    file.pos(),
                    (inner_class_count - i) as nat,
                    classes@,
                ) == parse_each(
                    InnerClassInfo::item(cp@),
                    old(file).bytes(),
                    old(file).pos() + 2,
                    inner_class_count as nat,
                    Seq::empty(),
                ),
                forall|j: int| 0 <= j < classes@.len() ==> (#[trigger] classes@[j]).wf(cp@),
            decreases inner_class_count - i,
        {
            let class = InnerClassInfo::parse(file, cp)?;
            classes.push(class);
            i += 1;
        }
        Ok(
            InnerClassesAttribute {
                attribute_name_index: att_start.attribute_name_index,
                attribute_length: att_start.attribute_length,
                classes,
            },
        )
    }

    /// The text of this, as a dump shows it.
    #[verifier::loop_isolation(false)]
    pub fn to_string(&self, cp: &ConstantPool) -> (r: String)
        requires
            pool_wf(cp@),
            self@.wf(cp@),
        ensures
            r@ == self@.text(cp@),
    {
        let mut s = String::from_str("InnerClasses: ");
        s.append("(");
        push_decimal(&mut s, self.classes.len() as u64);
        s.append(")");
        let mut i: usize = 0;
        while i < self.classes.len()
            invariant
                i <= self.classes.len(),
                concat_each(s@, self.classes@, i as int, InnerClassInfo::line(cp@)) + "\n"@
                    == self@.text(cp@),
            decreases self.classes.len() - i,
        {
            assert(self@.classes[i as int].wf(cp@));
            let mut line = String::from_str("\n\t - ");
            line.append(self.classes[i].to_string(cp).as_str());
            line.append(", ");
            s.append(line.as_str());
            i += 1;
        }
        s.append("\n");
        s
    }
}

} // verus!
