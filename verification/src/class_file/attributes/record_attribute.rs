use vstd::prelude::*;
use vstd::string::*;

use crate::class_file::attributes::attributes::{AttStart, Attributes, AttributesView};
use crate::class_file::constant_pool::{resolve, valid_index, pool_wf, ConstantPool, InfoView};
use crate::class_file::error::DecodeError;
use crate::class_file::file_reader::{avail, decoded, mapped, u16_at, FileReader, Parsed};
use crate::class_file::text::{concat_each, lemma_views_empty, lemma_views_push, views};

verus! {

broadcast use {lemma_views_push, lemma_views_empty, FileReader::lemma_in_bounds};

/// The components of a record class.
#[derive(Debug)]
pub struct RecordAttribute {
    pub attribute_name_index: u16,
    pub attribute_length: u32,
    pub components: Vec<RecordComponentInfo>,
}

/// One component: its name, its descriptor and attributes of its own.
#[derive(Debug)]
pub struct RecordComponentInfo {
    pub name_index: u16,
    pub descriptor_index: u16,
    pub attributes: Attributes,
}

/// The model of [`RecordAttribute`].
pub ghost struct RecordAttributeView {
    pub attribute_name_index: u16,
    pub attribute_length: u32,
    pub components: Seq<RecordComponentInfoView>,
}

/// The model of [`RecordComponentInfo`].
pub ghost struct RecordComponentInfoView {
    pub name_index: u16,
    pub descriptor_index: u16,
    pub attributes: AttributesView,
}

/// The models of the components, in order.
pub open spec fn component_views(components: Seq<RecordComponentInfo>) -> Seq<
    RecordComponentInfoView,
>
    decreases components,
{
    if components.len() == 0 {
        Seq::empty()
    } else {
        component_views(components.drop_last()).push(components.last()@)
    }
}

/// The models of the components are their views, one for one.
pub proof fn lemma_component_views(components: Seq<RecordComponentInfo>)
    ensures
        component_views(components) == views(components),
    decreases components.len(),
{
    if components.len() > 0 {
        let d = components.drop_last();
        lemma_component_views(d);
        assert(component_views(components) == component_views(d).push(components.last()@));
        assert forall|i: int| 0 <= i < components.len() implies component_views(components)[i]
            == views(components)[i] by {
            if i < components.len() - 1 {
                assert(d[i] == components[i]);
                assert(views(d)[i] == d[i]@);
            }
        }
    }
    assert(component_views(components) =~= views(components));
}

impl View for RecordComponentInfo {
    type V = RecordComponentInfoView;

    open spec fn view(&self) -> RecordComponentInfoView
        decreases self,
    {
        RecordComponentInfoView {
            name_index: self.name_index,
            descriptor_index: self.descriptor_index,
            attributes: self.attributes@,
        }
    }
}

impl View for RecordAttribute {
    type V = RecordAttributeView;

    open spec fn view(&self) -> RecordAttributeView
        decreases self,
    {
        RecordAttributeView {
            attribute_name_index: self.attribute_name_index,
            attribute_length: self.attribute_length,
            components: component_views(self.components@),
        }
    }
}

impl RecordComponentInfoView {
    /// Whether every index that this holds names an entry of the pool.
    pub open spec fn wf(self, pool: Seq<InfoView>) -> bool
        decreases self,
    {
        &&& valid_index(pool, self.name_index as int)
        &&& valid_index(pool, self.descriptor_index as int)
        &&& self.attributes.wf(pool)
    }

    /// One component: the indices of its name and of its descriptor, then
    /// a set of attributes.
    pub open spec fn parse(bytes: Seq<u8>, pos: int, pool: Seq<InfoView>) -> Parsed<
        RecordComponentInfoView,
    >
        decreases bytes.len() - pos, 0nat,
    {
        if !avail(bytes, pos, 4) {
            Err(DecodeError::TruncatedInput)
        } else if !valid_index(pool, u16_at(bytes, pos) as int) || !valid_index(
            pool,
            u16_at(bytes, pos + 2) as int,
        ) {
            Err(DecodeError::InvalidIndex)
        } else {
            mapped(
                AttributesView::parse(bytes, pos + 4, pool),
                |attributes: AttributesView|
                    RecordComponentInfoView {
                        name_index: u16_at(bytes, pos),
                        descriptor_index: u16_at(bytes, pos + 2),
                        attributes,
                    },
            )
        }
    }

    /// The text that `to_string` gives.
    pub open spec fn text(self, pool: Seq<InfoView>) -> Seq<char> {
        resolve(pool, self.name_index as int) + ": "@ + resolve(pool, self.descriptor_index as int)
    }

    /// The part of a listing for one component.
    pub open spec fn line(pool: Seq<InfoView>) -> spec_fn(RecordComponentInfoView) -> Seq<char> {
        |component: RecordComponentInfoView| component.text(pool) + ", "@
    }
}

impl RecordAttributeView {
    /// Whether every index that this holds names an entry of the pool.
    pub open spec fn wf(self, pool: Seq<InfoView>) -> bool
        decreases self,
    {
        &&& valid_index(pool, self.attribute_name_index as int)
        &&& forall|i: int|
            0 <= i < self.components.len() ==> (#[trigger] self.components[i]).wf(pool)
    }

    /// The content: a count, then that many components.
    pub open spec fn parse(bytes: Seq<u8>, pos: int, start: AttStart, pool: Seq<InfoView>) -> Parsed<
        RecordAttributeView,
    >
        decreases bytes.len() - pos, 0nat,
    {
        if !avail(bytes, pos, 2) {
            Err(DecodeError::TruncatedInput)
        } else {
            mapped(
                Self::parse_components(
                    bytes,
                    pos + 2,
                    u16_at(bytes, pos) as nat,
                    Seq::empty(),
                    pool,
                ),
                |components: Seq<RecordComponentInfoView>|
                    RecordAttributeView {
                        attribute_name_index: start.attribute_name_index,
                        attribute_length: start.attribute_length,
                        components,
                    },
            )
        }
    }

    /// `n` components one after the other, added to `acc`. Each must end
    /// within the bytes, no earlier than it began.
    pub open spec fn parse_components(
        bytes: Seq<u8>,
        pos: int,
        n: nat,
        acc: Seq<RecordComponentInfoView>,
        pool: Seq<InfoView>,
    ) -> Parsed<Seq<RecordComponentInfoView>>
        decreases bytes.len() - pos, n,
    {
        if n == 0 {
            Ok((acc, pos))
        } else {
            match RecordComponentInfoView::parse(bytes, pos, pool) {
                Ok((component, next)) => if pos <= next <= bytes.len() {
                    Self::parse_components(bytes, next, (n - 1) as nat, acc.push(component), pool)
                } else {
                    Err(DecodeError::TruncatedInput)
                },
                Err(e) => Err(e),
            }
        }
    }

    /// The text that `to_string` gives.
    pub open spec fn text(self, pool: Seq<InfoView>) -> Seq<char> {
        concat_each("Record: "@, self.components, 0, RecordComponentInfoView::line(pool)) + "\n"@
    }
}

impl RecordComponentInfo {
    /// Reads one component.
    pub fn parse(file: &mut FileReader, cp: &ConstantPool) -> (r: Result<
        RecordComponentInfo,
        DecodeError,
    >)
        requires
            pool_wf(cp@),
        ensures
            decoded(
                *old(file),
                *final(file),
                r,
                RecordComponentInfoView::parse(old(file).bytes(), old(file).pos(), cp@),
            ),
            r is Ok ==> r->Ok_0@.wf(cp@),
        decreases old(file).remaining(), 0nat,
    {
        file.need(4)?;
        let name_index = cp.read_index(file)?;
        let descriptor_index = cp.read_index(file)?;
        let attributes = Attributes::from(file, cp)?;
        Ok(RecordComponentInfo { name_index, descriptor_index, attributes })
    }

    /// The text of this, as a dump shows it.
    pub fn to_string(&self, cp: &ConstantPool) -> (r: String)
        requires
            pool_wf(cp@),
            self@.wf(cp@),
        ensures
            r@ == self@.text(cp@),
    {
        let mut s = cp.get_to_string(self.name_index);
        s.append(": ");
        s.append(cp.get_to_string(self.descriptor_index).as_str());
        s
    }
}

impl RecordAttribute {
    /// Reads the content of the attribute.
    #[verifier::loop_isolation(false)]
    pub fn parse(file: &mut FileReader, att_start: &AttStart, cp: &ConstantPool) -> (r: Result<
        RecordAttribute,
        DecodeError,
    >)
        requires
            pool_wf(cp@),
            valid_index(cp@, att_start.attribute_name_index as int),
        ensures
            decoded(
                *old(file),
                *final(file),
                r,
                RecordAttributeView::parse(old(file).bytes(), old(file).pos(), *att_start, cp@),
            ),
            r is Ok ==> r->Ok_0@.wf(cp@),
        decreases old(file).remaining(), 0nat,
    {
        let component_count = file.read_u2_to_u16()?;
        let mut components: Vec<RecordComponentInfo> = Vec::new();
        let mut i: u16 = 0;
        while i < component_count
            invariant
                i <= component_count,
                file.bytes() == old(file).bytes(),
                old(file).pos() + 2 <= file.pos() <= file.bytes().len(),
                RecordAttributeView::parse_components(
                    file.bytes(),
                    file.pos(),
                    (component_count - i) as nat,
                    views(components@),
                    cp@,
                ) == RecordAttributeView::parse_components(
                    old(file).bytes(),
                    old(file).pos() + 2,
                    component_count as nat,
                    Seq::empty(),
                    cp@,
                ),
                forall|j: int| 0 <= j < components@.len() ==> (#[trigger] components@[j])@.wf(cp@),
            decreases component_count - i,
        {
            let component = RecordComponentInfo::parse(file, cp)?;
            components.push(component);
            i += 1;
        }
        proof {
            lemma_component_views(components@);
        }
        Ok(
            RecordAttribute {
                attribute_name_index: att_start.attribute_name_index,
                attribute_length: att_start.attribute_length,
                components,
            },
        )
    }

    /// The text of this, as a dump shows it.
    #[verifier::loop_isolation(false)]
    pub fn to_string(&self, cp: &ConstantPool) -> (r: String)
        requires
            pool_wf(cp@),
            self@.wf(cp@),
        ensures
            r@ == self@.text(cp@),
    {
        proof {
            lemma_component_views(self.components@);
        }
        let mut s = String::from_str("Record: ");
        let mut i: usize = 0;
        while i < self.components.len()
            invariant
                i <= self.components.len(),
                concat_each(s@, self@.components, i as int, RecordComponentInfoView::line(cp@))
                    + "\n"@ == self@.text(cp@),
            decreases self.components.len() - i,
        {
            assert(self@.components[i as int].wf(cp@));
            let mut line = self.components[i].to_string(cp);
            line.append(", ");
            s.append(line.as_str());
            i += 1;
        }
        s.append("\n");
        s
    }
}

} // verus!
