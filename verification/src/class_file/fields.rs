use vstd::prelude::*;
use vstd::string::*;

use crate::class_file::attributes::attributes::{Attributes, AttributesView};
use crate::class_file::constant_pool::{resolve, valid_index, pool_wf, ConstantPool, InfoView};
use crate::class_file::error::DecodeError;
use crate::class_file::file_reader::{
    avail, decoded, mapped, parse_counted, parse_each, u16_at, FileReader, Parsed,
};
use crate::class_file::text::{
    add_flag, concat_each, debug_list, debug_list_string, lemma_views_empty, lemma_views_push,
    lemma_with_flag_contains, views, with_flag, Named,
};

verus! {

broadcast use {lemma_views_push, lemma_views_empty, FileReader::lemma_in_bounds};

/// The fields of a class, in file order.
#[derive(Debug)]
pub struct Fields {
    pub fields: Vec<Field>,
}

#[derive(Debug)]
pub struct Field {
    pub access_flags: AccessFlags,
    pub name_index: u16,
    pub descriptor_index: u16,
    pub attributes: Attributes,
}

/// The access flags of a field, as the class file holds them.
#[derive(Clone, Copy, Debug)]
pub struct AccessFlags(pub u16);

#[derive(Clone, Copy, Debug, PartialEq, Eq, Structural)]
pub enum AccessFlag {
    Public,
    Private,
    Protected,
    Static,
    Final,
    Volatile,
    Transient,
    Synthetic,
    Enum,
}

/// The model of [`Field`].
pub ghost struct FieldView {
    pub access_flags: u16,
    pub name_index: u16,
    pub descriptor_index: u16,
    pub attributes: AttributesView,
}

/// The model of [`Fields`].
pub ghost struct FieldsView {
    pub fields: Seq<FieldView>,
}

impl View for AccessFlags {
    type V = u16;

    open spec fn view(&self) -> u16 {
        self.0
    }
}

impl View for Field {
    type V = FieldView;

    open spec fn view(&self) -> FieldView {
        FieldView {
            access_flags: self.access_flags@,
            name_index: self.name_index,
            descriptor_index: self.descriptor_index,
            attributes: self.attributes@,
        }
    }
}

impl View for Fields {
    type V = FieldsView;

    open spec fn view(&self) -> FieldsView {
        FieldsView { fields: views(self.fields@) }
    }
}

impl AccessFlag {
    /// The bit that stands for the flag.
    pub open spec fn mask(self) -> u16 {
        match self {
            AccessFlag::Public => 0x0001,
            AccessFlag::Private => 0x0002,
            AccessFlag::Protected => 0x0004,
            AccessFlag::Static => 0x0008,
            AccessFlag::Final => 0x0010,
            AccessFlag::Volatile => 0x0040,
            AccessFlag::Transient => 0x0080,
            AccessFlag::Synthetic => 0x1000,
            AccessFlag::Enum => 0x4000,
        }
    }

    /// The bit that stands for the flag.
    pub fn bit(&self) -> (r: u16)
        ensures
            r == self.mask(),
    {
        match self {
            AccessFlag::Public => 0x0001,
            AccessFlag::Private => 0x0002,
            AccessFlag::Protected => 0x0004,
            AccessFlag::Static => 0x0008,
            AccessFlag::Final => 0x0010,
            AccessFlag::Volatile => 0x0040,
            AccessFlag::Transient => 0x0080,
            AccessFlag::Synthetic => 0x1000,
            AccessFlag::Enum => 0x4000,
        }
    }
}

impl Named for AccessFlag {
    open spec fn name(&self) -> Seq<char> {
        match self {
            AccessFlag::Public => "Public"@,
            AccessFlag::Private => "Private"@,
            AccessFlag::Protected => "Protected"@,
            AccessFlag::Static => "Static"@,
            AccessFlag::Final => "Final"@,
            AccessFlag::Volatile => "Volatile"@,
            AccessFlag::Transient => "Transient"@,
            AccessFlag::Synthetic => "Synthetic"@,
            AccessFlag::Enum => "Enum"@,
        }
    }

    fn name_str(&self) -> (r: &'static str) {
        match self {
            AccessFlag::Public => "Public",
            AccessFlag::Private => "Private",
            AccessFlag::Protected => "Protected",
            AccessFlag::Static => "Static",
            AccessFlag::Final => "Final",
            AccessFlag::Volatile => "Volatile",
            AccessFlag::Transient => "Transient",
            AccessFlag::Synthetic => "Synthetic",
            AccessFlag::Enum => "Enum",
        }
    }
}

/// Whether the flag is set in `bits`.
pub open spec fn is_set(bits: u16, flag: AccessFlag) -> bool {
    bits & flag.mask() == flag.mask()
}

/// The flags that are set in `bits`, in the order of their bits.
pub open spec fn flag_seq(bits: u16) -> Seq<AccessFlag> {
    let s0 = with_flag(Seq::empty(), bits, 0x0001, AccessFlag::Public);
    let s1 = with_flag(s0, bits, 0x0002, AccessFlag::Private);
    let s2 = with_flag(s1, bits, 0x0004, AccessFlag::Protected);
    let s3 = with_flag(s2, bits, 0x0008, AccessFlag::Static);
    let s4 = with_flag(s3, bits, 0x0010, AccessFlag::Final);
    let s5 = with_flag(s4, bits, 0x0040, AccessFlag::Volatile);
    let s6 = with_flag(s5, bits, 0x0080, AccessFlag::Transient);
    let s7 = with_flag(s6, bits, 0x1000, AccessFlag::Synthetic);
    with_flag(s7, bits, 0x4000, AccessFlag::Enum)
}

/// A flag is among the flags of `bits` exactly when its bit is set.
pub proof fn lemma_flag_seq_contains(bits: u16, flag: AccessFlag)
    ensures
        flag_seq(bits).contains(flag) <==> is_set(bits, flag),
{
    let s0 = with_flag(Seq::empty(), bits, 0x0001, AccessFlag::Public);
    let s1 = with_flag(s0, bits, 0x0002, AccessFlag::Private);
    let s2 = with_flag(s1, bits, 0x0004, AccessFlag::Protected);
    let s3 = with_flag(s2, bits, 0x0008, AccessFlag::Static);
    let s4 = with_flag(s3, bits, 0x0010, AccessFlag::Final);
    let s5 = with_flag(s4, bits, 0x0040, AccessFlag::Volatile);
    let s6 = with_flag(s5, bits, 0x0080, AccessFlag::Transient);
    let s7 = with_flag(s6, bits, 0x1000, AccessFlag::Synthetic);
    let s8 = with_flag(s7, bits, 0x4000, AccessFlag::Enum);
    lemma_with_flag_contains(Seq::empty(), bits, 0x0001, AccessFlag::Public, flag);
    lemma_with_flag_contains(s0, bits, 0x0002, AccessFlag::Private, flag);
    lemma_with_flag_contains(s1, bits, 0x0004, AccessFlag::Protected, flag);
    lemma_with_flag_contains(s2, bits, 0x0008, AccessFlag::Static, flag);
    lemma_with_flag_contains(s3, bits, 0x0010, AccessFlag::Final, flag);
    lemma_with_flag_contains(s4, bits, 0x0040, AccessFlag::Volatile, flag);
    lemma_with_flag_contains(s5, bits, 0x0080, AccessFlag::Transient, flag);
    lemma_with_flag_contains(s6, bits, 0x1000, AccessFlag::Synthetic, flag);
    lemma_with_flag_contains(s7, bits, 0x4000, AccessFlag::Enum, flag);
    assert(!Seq::<AccessFlag>::empty().contains(flag));
}

impl AccessFlags {
    /// The flags that these bits stand for.
    pub fn new(flags: u16) -> (r: AccessFlags)
        ensures
            r@ == flags,
    {
        AccessFlags(flags)
    }

    /// Whether the flag is set: whether it is among the flags that
    /// `flag_vector` gives.
    pub fn contains(&self, flag: AccessFlag) -> (b: bool)
        ensures
            b == is_set(self@, flag),
            b == flag_seq(self@).contains(flag),
    {
        proof {
            lemma_flag_seq_contains(self@, flag);
        }
        let mask = flag.bit();
        self.0 & mask == mask
    }

    /// The flags that are set, in the order of their bits.
    pub fn flag_vector(&self) -> (flags: Vec<AccessFlag>)
        ensures
            flags@ == flag_seq(self@),
    {
        let mut flags = Vec::new();
        add_flag(&mut flags, self.0, 0x0001, AccessFlag::Public);
        add_flag(&mut flags, self.0, 0x0002, AccessFlag::Private);
        add_flag(&mut flags, self.0, 0x0004, AccessFlag::Protected);
        add_flag(&mut flags, self.0, 0x0008, AccessFlag::Static);
        add_flag(&mut flags, self.0, 0x0010, AccessFlag::Final);
        add_flag(&mut flags, self.0, 0x0040, AccessFlag::Volatile);
        add_flag(&mut flags, self.0, 0x0080, AccessFlag::Transient);
        add_flag(&mut flags, self.0, 0x1000, AccessFlag::Synthetic);
        add_flag(&mut flags, self.0, 0x4000, AccessFlag::Enum);
        flags
    }
}

impl FieldView {
    /// Whether every index that this holds names an entry of the pool.
    pub open spec fn wf(self, pool: Seq<InfoView>) -> bool {
        &&& valid_index(pool, self.name_index as int)
        &&& valid_index(pool, self.descriptor_index as int)
        &&& self.attributes.wf(pool)
    }

    /// One field: the flags, the indices of its name and of its
    /// descriptor, then a set of attributes.
    pub open spec fn parse(bytes: Seq<u8>, pos: int, pool: Seq<InfoView>) -> Parsed<FieldView> {
        if !avail(bytes, pos, 6) {
            Err(DecodeError::TruncatedInput)
        } else if !valid_index(pool, u16_at(bytes, pos + 2) as int) || !valid_index(
            pool,
            u16_at(bytes, pos + 4) as int,
        ) {
            Err(DecodeError::InvalidIndex)
        } else {
            mapped(
                AttributesView::parse(bytes, pos + 6, pool),
                |attributes: AttributesView|
                    FieldView {
                        access_flags: u16_at(bytes, pos),
                        name_index: u16_at(bytes, pos + 2),
                        descriptor_index: u16_at(bytes, pos + 4),
                        attributes,
                    },
            )
        }
    }

    /// The decoder of one field.
    pub open spec fn item(pool: Seq<InfoView>) -> spec_fn(Seq<u8>, int) -> Parsed<FieldView> {
        |bytes: Seq<u8>, pos: int| Self::parse(bytes, pos, pool)
    }

    /// The line of a listing for the field.
    pub open spec fn text(self, pool: Seq<InfoView>) -> Seq<char> {
        resolve(pool, self.name_index as int) + ": "@ + resolve(pool, self.descriptor_index as int)
            + " ["@ + self.attributes.text(pool) + "] "@ + debug_list(flag_seq(self.access_flags))
            + "\n"@
    }

    /// The text of one item in a listing.
    pub open spec fn line(pool: Seq<InfoView>) -> spec_fn(FieldView) -> Seq<char> {
        |field: FieldView| field.text(pool)
    }
}

impl FieldsView {
    /// Whether every index that this holds names an entry of the pool.
    pub open spec fn wf(self, pool: Seq<InfoView>) -> bool {
        forall|i: int| 0 <= i < self.fields.len() ==> (#[trigger] self.fields[i]).wf(pool)
    }

    /// A count, then that many fields.
    pub open spec fn parse(bytes: Seq<u8>, pos: int, pool: Seq<InfoView>) -> Parsed<FieldsView> {
        mapped(
            parse_counted(FieldView::item(pool), bytes, pos),
            |fields: Seq<FieldView>| FieldsView { fields },
        )
    }

    /// The text that `to_string` gives.
    pub open spec fn text(self, pool: Seq<InfoView>) -> Seq<char> {
        concat_each(Seq::empty(), self.fields, 0, FieldView::line(pool))
    }
}

impl Field {
    /// Reads one field.
    pub fn parse(file: &mut FileReader, cp: &ConstantPool) -> (r: Result<Field, DecodeError>)
        requires
            pool_wf(cp@),
        ensures
            decoded(
                *old(file),
                *final(file),
                r,
                FieldView::parse(old(file).bytes(), old(file).pos(), cp@),
            ),
            r is Ok ==> r->Ok_0@.wf(cp@),
    {
        file.need(6)?;
        let access_flags = AccessFlags::new(file.read_u2_to_u16()?);
        let name_index = cp.read_index(file)?;
        let descriptor_index = cp.read_index(file)?;
        let attributes = Attributes::from(file, cp)?;
        Ok(Field { access_flags, name_index, descriptor_index, attributes })
    }

    /// The text of this, as a dump shows it.
    pub fn to_string(&self, cp: &ConstantPool) -> (r: String)
        requires
            pool_wf(cp@),
            self@.wf(cp@),
        ensures
            r@ == self@.text(cp@),
    {
        let mut s = cp.get_to_string(self.name_index);
        s.append(": ");
        s.append(cp.get_to_string(self.descriptor_index).as_str());
        s.append(" [");
        s.append(self.attributes.to_string(cp).as_str());
        s.append("] ");
        s.append(debug_list_string(&self.access_flags.flag_vector()).as_str());
        s.append("\n");
        s
    }
}

impl Fields {
    /// Reads them: a count, then that many.
    #[verifier::loop_isolation(false)]
    pub fn from(file: &mut FileReader, cp: &ConstantPool) -> (r: Result<Fields, DecodeError>)
        requires
            pool_wf(cp@),
        ensures
            decoded(
                *old(file),
                *final(file),
                r,
                FieldsView::parse(old(file).bytes(), old(file).pos(), cp@),
            ),
            r is Ok ==> r->Ok_0@.wf(cp@),
    {
        let mut fields: Vec<Field> = Vec::new();
        let fields_count = file.read_u2_to_u16()?;
        let mut i: u16 = 0;
        while i < fields_count
            invariant
                i <= fields_count,
                file.bytes() == old(file).bytes(),
                old(file).pos() <= file.pos() <= file.bytes().len(),
                parse_each(
                    FieldView::item(cp@),
                    file.bytes(),
                    file.pos(),
                    (fields_count - i) as nat,
                    views(fields@),
                ) == parse_each(
                    FieldView::item(cp@),
                    old(file).bytes(),
                    old(file).pos() + 2,
                    fields_count as nat,
                    Seq::empty(),
                ),
                forall|j: int| 0 <= j < fields@.len() ==> (#[trigger] fields@[j])@.wf(cp@),
            decreases fields_count - i,
        {
            let field = Field::parse(file, cp)?;
            fields.push(field);
            i += 1;
        }
        Ok(Fields { fields })
    }

    /// The text of this, as a dump shows it.
    #[verifier::loop_isolation(false)]
    pub fn to_string(&self, cp: &ConstantPool) -> (r: String)
        requires
            pool_wf(cp@),
            self@.wf(cp@),
        ensures
            r@ == self@.text(cp@),
    {
        let mut s = String::new();
        let mut i: usize = 0;
        while i < self.fields.len()
            invariant
                i <= self.fields.len(),
                concat_each(s@, self@.fields, i as int, FieldView::line(cp@)) == self@.text(cp@),
            decreases self.fields.len() - i,
        {
            assert(self@.fields[i as int].wf(cp@));
            s.append(self.fields[i].to_string(cp).as_str());
            i += 1;
        }
        s
    }
}

} // verus!
