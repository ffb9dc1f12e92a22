use vstd::prelude::*;
use vstd::string::*;

use crate::class_file::attributes::attributes::{
    lemma_attribute_views, Attribute, AttributeView, Attributes, AttributesView,
};
use crate::class_file::code_attribute::{CodeAttribute, CodeAttributeView};
use crate::class_file::constant_pool::{resolve, valid_index, pool_wf, ConstantPool, InfoView};
use crate::class_file::error::DecodeError;
use crate::class_file::file_reader::{
    avail, decoded, mapped, parse_counted, parse_each, u16_at, FileReader, Parsed,
};
use crate::class_file::text::{
    add_flag, concat_each, debug_list, debug_list_string, lemma_views_empty, lemma_views_push,
    lemma_with_flag_contains, views, with_flag, Named,
};

verus! {

broadcast use {lemma_views_push, lemma_views_empty, FileReader::lemma_in_bounds};

/// The methods of a class, in file order.
#[derive(Debug)]
pub struct Methods {
    pub methods: Vec<Method>,
}

#[derive(Debug)]
pub struct Method {
    pub access_flags: AccessFlags,
    pub name_index: u16,
    pub descriptor_index: u16,
    pub attributes: Attributes,
}

/// The access flags of a method, as the class file holds them.
#[derive(Clone, Copy, Debug)]
pub struct AccessFlags(pub u16);

#[derive(Clone, Copy, Debug, PartialEq, Eq, Structural)]
pub enum AccessFlag {
    Public,
    Private,
    Protected,
    Static,
    Final,
    Synchronized,
    Bridge,
    Varargs,
    Native,
    Abstract,
    Strict,
    Synthetic,
}

/// The model of [`Method`].
pub ghost struct MethodView {
    pub access_flags: u16,
    pub name_index: u16,
    pub descriptor_index: u16,
    pub attributes: AttributesView,
}

/// The model of [`Methods`].
pub ghost struct MethodsView {
    pub methods: Seq<MethodView>,
}

impl View for AccessFlags {
    type V = u16;

    open spec fn view(&self) -> u16 {
        self.0
    }
}

impl View for Method {
    type V = MethodView;

    open spec fn view(&self) -> MethodView {
        MethodView {
            access_flags: self.access_flags@,
            name_index: self.name_index,
            descriptor_index: self.descriptor_index,
            attributes: self.attributes@,
        }
    }
}

impl View for Methods {
    type V = MethodsView;

    open spec fn view(&self) -> MethodsView {
        MethodsView { methods: views(self.methods@) }
    }
}

impl AccessFlag {
    /// The bit that stands for the flag.
    pub open spec fn mask(self) -> u16 {
        match self {
            AccessFlag::Public => 0x0001,
            AccessFlag::Private => 0x0002,
            AccessFlag::Protected => 0x0004,
            AccessFlag::Static => 0x0008,
            AccessFlag::Final => 0x0010,
            AccessFlag::Synchronized => 0x0020,
            AccessFlag::Bridge => 0x0040,
            AccessFlag::Varargs => 0x0080,
            AccessFlag::Native => 0x0100,
            AccessFlag::Abstract => 0x0400,
            AccessFlag::Strict => 0x0800,
            AccessFlag::Synthetic => 0x1000,
        }
    }

    /// The word that a declaration uses for the flag.
    pub open spec fn keyword(self) -> Seq<char> {
        match self {
            AccessFlag::Public => "public"@,
            AccessFlag::Private => "private"@,
            AccessFlag::Protected => "protected"@,
            AccessFlag::Static => "static"@,
            AccessFlag::Final => "final"@,
            AccessFlag::Synchronized => "synchronized"@,
            AccessFlag::Bridge => "bridge"@,
            AccessFlag::Varargs => "varargs"@,
            AccessFlag::Native => "native"@,
            AccessFlag::Abstract => "abstract"@,
            AccessFlag::Strict => "strict"@,
            AccessFlag::Synthetic => "synthetic"@,
        }
    }

    /// The bit that stands for the flag.
    pub fn bit(&self) -> (r: u16)
        ensures
            r == self.mask(),
    {
        match self {
            AccessFlag::Public => 0x0001,
            AccessFlag::Private => 0x0002,
            AccessFlag::Protected => 0x0004,
            AccessFlag::Static => 0x0008,
            AccessFlag::Final => 0x0010,
            AccessFlag::Synchronized => 0x0020,
            AccessFlag::Bridge => 0x0040,
            AccessFlag::Varargs => 0x0080,
            AccessFlag::Native => 0x0100,
            AccessFlag::Abstract => 0x0400,
            AccessFlag::Strict => 0x0800,
            AccessFlag::Synthetic => 0x1000,
        }
    }

    /// The word that a declaration uses for the flag.
    pub fn to_str(&self) -> (r: &'static str)
        ensures
            r@ == self.keyword(),
    {
        match self {
            AccessFlag::Public => "public",
            AccessFlag::Private => "private",
            AccessFlag::Protected => "protected",
            AccessFlag::Static => "static",
            AccessFlag::Final => "final",
            AccessFlag::Synchronized => "synchronized",
            AccessFlag::Bridge => "bridge",
            AccessFlag::Varargs => "varargs",
            AccessFlag::Native => "native",
            AccessFlag::Abstract => "abstract",
            AccessFlag::Strict => "strict",
            AccessFlag::Synthetic => "synthetic",
        }
    }
}

impl Named for AccessFlag {
    open spec fn name(&self) -> Seq<char> {
        match self {
            AccessFlag::Public => "Public"@,
            AccessFlag::Private => "Private"@,
            AccessFlag::Protected => "Protected"@,
            AccessFlag::Static => "Static"@,
            AccessFlag::Final => "Final"@,
            AccessFlag::Synchronized => "Synchronized"@,
            AccessFlag::Bridge => "Bridge"@,
            AccessFlag::Varargs => "Varargs"@,
            AccessFlag::Native => "Native"@,
            AccessFlag::Abstract => "Abstract"@,
            AccessFlag::Strict => "Strict"@,
            AccessFlag::Synthetic => "Synthetic"@,
        }
    }

    fn name_str(&self) -> (r: &'static str) {
        match self {
            AccessFlag::Public => "Public",
            AccessFlag::Private => "Private",
            AccessFlag::Protected => "Protected",
            AccessFlag::Static => "Static",
            AccessFlag::Final => "Final",
            AccessFlag::Synchronized => "Synchronized",
            AccessFlag::Bridge => "Bridge",
            AccessFlag::Varargs => "Varargs",
            AccessFlag::Native => "Native",
            AccessFlag::Abstract => "Abstract",
            AccessFlag::Strict => "Strict",
            AccessFlag::Synthetic => "Synthetic",
        }
    }
}

/// Whether the flag is set in `bits`.
pub open spec fn is_set(bits: u16, flag: AccessFlag) -> bool {
    bits & flag.mask() == flag.mask()
}

/// The flags that are set in `bits`, in the order of their bits.
pub open spec fn flag_seq(bits: u16) -> Seq<AccessFlag> {
    let s0 = with_flag(Seq::empty(), bits, 0x0001, AccessFlag::Public);
    let s1 = with_flag(s0, bits, 0x0002, AccessFlag::Private);
    let s2 = with_flag(s1, bits, 0x0004, AccessFlag::Protected);
    let s3 = with_flag(s2, bits, 0x0008, AccessFlag::Static);
    let s4 = with_flag(s3, bits, 0x0010, AccessFlag::Final);
    let s5 = with_flag(s4, bits, 0x0020, AccessFlag::Synchronized);
    let s6 = with_flag(s5, bits, 0x0040, AccessFlag::Bridge);
    let s7 = with_flag(s6, bits, 0x0080, AccessFlag::Varargs);
    let s8 = with_flag(s7, bits, 0x0100, AccessFlag::Native);
    let s9 = with_flag(s8, bits, 0x0400, AccessFlag::Abstract);
    let s10 = with_flag(s9, bits, 0x0800, AccessFlag::Strict);
    with_flag(s10, bits, 0x1000, AccessFlag::Synthetic)
}

/// A flag is among the flags of `bits` exactly when its bit is set.
pub proof fn lemma_flag_seq_contains(bits: u16, flag: AccessFlag)
    ensures
        flag_seq(bits).contains(flag) <==> is_set(bits, flag),
{
    let s0 = with_flag(Seq::empty(), bits, 0x0001, AccessFlag::Public);
    let s1 = with_flag(s0, bits, 0x0002, AccessFlag::Private);
    let s2 = with_flag(s1, bits, 0x0004, AccessFlag::Protected);
    let s3 = with_flag(s2, bits, 0x0008, AccessFlag::Static);
    let s4 = with_flag(s3, bits, 0x0010, AccessFlag::Final);
    let s5 = with_flag(s4, bits, 0x0020, AccessFlag::Synchronized);
    let s6 = with_flag(s5, bits, 0x0040, AccessFlag::Bridge);
    let s7 = with_flag(s6, bits, 0x0080, AccessFlag::Varargs);
    let s8 = with_flag(s7, bits, 0x0100, AccessFlag::Native);
    let s9 = with_flag(s8, bits, 0x0400, AccessFlag::Abstract);
    let s10 = with_flag(s9, bits, 0x0800, AccessFlag::Strict);
    let s11 = with_flag(s10, bits, 0x1000, AccessFlag::Synthetic);
    lemma_with_flag_contains(Seq::empty(), bits, 0x0001, AccessFlag::Public, flag);
    lemma_with_flag_contains(s0, bits, 0x0002, AccessFlag::Private, flag);
    lemma_with_flag_contains(s1, bits, 0x0004, AccessFlag::Protected, flag);
    lemma_with_flag_contains(s2, bits, 0x0008, AccessFlag::Static, flag);
    lemma_with_flag_contains(s3, bits, 0x0010, AccessFlag::Final, flag);
    lemma_with_flag_contains(s4, bits, 0x0020, AccessFlag::Synchronized, flag);
    lemma_with_flag_contains(s5, bits, 0x0040, AccessFlag::Bridge, flag);
    lemma_with_flag_contains(s6, bits, 0x0080, AccessFlag::Varargs, flag);
    lemma_with_flag_contains(s7, bits, 0x0100, AccessFlag::Native, flag);
    lemma_with_flag_contains(s8, bits, 0x0400, AccessFlag::Abstract, flag);
    lemma_with_flag_contains(s9, bits, 0x0800, AccessFlag::Strict, flag);
    lemma_with_flag_contains(s10, bits, 0x1000, AccessFlag::Synthetic, flag);
    assert(!Seq::<AccessFlag>::empty().contains(flag));
}

impl AccessFlags {
    /// The flags that these bits stand for.
    pub fn new(flags: u16) -> (r: AccessFlags)
        ensures
            r@ == flags,
    {
        AccessFlags(flags)
    }

    /// Whether the flag is set: whether it is among the flags that
    /// `flag_vector` gives.
    pub fn contains(&self, flag: AccessFlag) -> (b: bool)
        ensures
            b == is_set(self@, flag),
            b == flag_seq(self@).contains(flag),
    {
        proof {
            lemma_flag_seq_contains(self@, flag);
        }
        let mask = flag.bit();
        self.0 & mask == mask
    }

    /// The flags that are set, in the order of their bits.
    pub fn flag_vector(&self) -> (flags: Vec<AccessFlag>)
        ensures
            flags@ == flag_seq(self@),
    {
        let mut flags = Vec::new();
        add_flag(&mut flags, self.0, 0x0001, AccessFlag::Public);
        add_flag(&mut flags, self.0, 0x0002, AccessFlag::Private);
        add_flag(&mut flags, self.0, 0x0004, AccessFlag::Protected);
        add_flag(&mut flags, self.0, 0x0008, AccessFlag::Static);
        add_flag(&mut flags, self.0, 0x0010, AccessFlag::Final);
        add_flag(&mut flags, self.0, 0x0020, AccessFlag::Synchronized);
        add_flag(&mut flags, self.0, 0x0040, AccessFlag::Bridge);
        add_flag(&mut flags, self.0, 0x0080, AccessFlag::Varargs);
        add_flag(&mut flags, self.0, 0x0100, AccessFlag::Native);
        add_flag(&mut flags, self.0, 0x0400, AccessFlag::Abstract);
        add_flag(&mut flags, self.0, 0x0800, AccessFlag::Strict);
        add_flag(&mut flags, self.0, 0x1000, AccessFlag::Synthetic);
        flags
    }
}

impl MethodView {
    /// Whether every index that this holds names an entry of the pool.
    pub open spec fn wf(self, pool: Seq<InfoView>) -> bool {
        &&& valid_index(pool, self.name_index as int)
        &&& valid_index(pool, self.descriptor_index as int)
        &&& self.attributes.wf(pool)
    }

    /// One method: the flags, the indices of its name and of its
    /// descriptor, then a set of attributes.
    pub open spec fn parse(bytes: Seq<u8>, pos: int, pool: Seq<InfoView>) -> Parsed<MethodView> {
        if !avail(bytes, pos, 6) {
            Err(DecodeError::TruncatedInput)
        } else if !valid_index(pool, u16_at(bytes, pos + 2) as int) || !valid_index(
            pool,
            u16_at(bytes, pos + 4) as int,
        ) {
            Err(DecodeError::InvalidIndex)
        } else {
            mapped(
                AttributesView::parse(bytes, pos + 6, pool),
                |attributes: AttributesView|
                    MethodView {
                        access_flags: u16_at(bytes, pos),
                        name_index: u16_at(bytes, pos + 2),
                        descriptor_index: u16_at(bytes, pos + 4),
                        attributes,
                    },
            )
        }
    }

    /// The decoder of one method.
    pub open spec fn item(pool: Seq<InfoView>) -> spec_fn(Seq<u8>, int) -> Parsed<MethodView> {
        |bytes: Seq<u8>, pos: int| Self::parse(bytes, pos, pool)
    }

    /// The code of the method: that of the first attribute from index `i`
    /// on that holds code, if there is one.
    pub open spec fn code(self, i: int) -> Option<CodeAttributeView>
        decreases self.attributes.attributes.len() - i,
    {
        if 0 <= i < self.attributes.attributes.len() {
            match self.attributes.attributes[i] {
                AttributeView::Code(c) => Some(c),
                _ => self.code(i + 1),
            }
        } else {
            None
        }
    }

    /// The part of a listing for the method.
    pub open spec fn text(self, pool: Seq<InfoView>) -> Seq<char> {
        "\n\n- access_flags: "@ + debug_list(flag_seq(self.access_flags)) + "\n"@ + "- name: "@
            + resolve(pool, self.name_index as int) + "\n"@ + "- descriptor: "@ + resolve(
            pool,
            self.descriptor_index as int,
        ) + "\n"@ + self.attributes.text(pool) + "\n"@
    }

    /// The text of one item in a listing.
    pub open spec fn line(pool: Seq<InfoView>) -> spec_fn(MethodView) -> Seq<char> {
        |method: MethodView| method.text(pool)
    }
}

impl MethodsView {
    /// Whether every index that this holds names an entry of the pool.
    pub open spec fn wf(self, pool: Seq<InfoView>) -> bool {
        forall|i: int| 0 <= i < self.methods.len() ==> (#[trigger] self.methods[i]).wf(pool)
    }

    /// A count, then that many methods.
    pub open spec fn parse(bytes: Seq<u8>, pos: int, pool: Seq<InfoView>) -> Parsed<MethodsView> {
        mapped(
            parse_counted(MethodView::item(pool), bytes, pos),
            |methods: Seq<MethodView>| MethodsView { methods },
        )
    }

    /// The text that `to_string` gives.
    pub open spec fn text(self, pool: Seq<InfoView>) -> Seq<char> {
        concat_each("Methods:\n"@, self.methods, 0, MethodView::line(pool))
    }
}

impl Method {
    /// Reads one method.
    pub fn parse(file: &mut FileReader, cp: &ConstantPool) -> (r: Result<Method, DecodeError>)
        requires
            pool_wf(cp@),
        ensures
            decoded(
                *old(file),
                *final(file),
                r,
                MethodView::parse(old(file).bytes(), old(file).pos(), cp@),
            ),
            r is Ok ==> r->Ok_0@.wf(cp@),
    {
        file.need(6)?;
        let access_flags = AccessFlags::new(file.read_u2_to_u16()?);
        let name_index = cp.read_index(file)?;
        let descriptor_index = cp.read_index(file)?;
        let attributes = Attributes::from(file, cp)?;
        Ok(Method { access_flags, name_index, descriptor_index, attributes })
    }

    /// The code of the method, if it has any.
    #[verifier::loop_isolation(false)]
    pub fn get_code(&self) -> (r: Option<&CodeAttribute>)
        ensures
            r is Some == self@.code(0) is Some,
            r is Some ==> r->Some_0@ == self@.code(0)->Some_0,
    {
        proof {
            lemma_attribute_views(self.attributes.attributes@);
        }
        let mut i: usize = 0;
        while i < self.attributes.attributes.len()
            invariant
                i <= self.attributes.attributes.len(),
                self@.code(i as int) == self@.code(0),
            decreases self.attributes.attributes.len() - i,
        {
            match &self.attributes.attributes[i] {
                Attribute::Code(c) => {
                    return Some(c);
                },
                _ => {},
            }
            i += 1;
        }
        None
    }

    /// The text of this, as a dump shows it.
    pub fn to_string(&self, cp: &ConstantPool) -> (r: String)
        requires
            pool_wf(cp@),
            self@.wf(cp@),
        ensures
            r@ == self@.text(cp@),
    {
        let mut s = String::from_str("\n\n- access_flags: ");
        s.append(debug_list_string(&self.access_flags.flag_vector()).as_str());
        s.append("\n");
        s.append("- name: ");
        s.append(cp.get_to_string(self.name_index).as_str());
        s.append("\n");
        s.append("- descriptor: ");
        s.append(cp.get_to_string(self.descriptor_index).as_str());
        s.append("\n");
        s.append(self.attributes.to_string(cp).as_str());
        s.append("\n");
        s
    }
}

impl Methods {
    /// Reads them: a count, then that many.
    #[verifier::loop_isolation(false)]
    pub fn from(file: &mut FileReader, cp: &ConstantPool) -> (r: Result<Methods, DecodeError>)
        requires
            pool_wf(cp@),
        ensures
            decoded(
                *old(file),
                *final(file),
                r,
                MethodsView::parse(old(file).bytes(), old(file).pos(), cp@),
            ),
            r is Ok ==> r->Ok_0@.wf(cp@),
    {
        let mut methods: Vec<Method> = Vec::new();
        let methods_count = file.read_u2_to_u16()?;
        let mut i: u16 = 0;
        while i < methods_count
            invariant
                i <= methods_count,
                file.bytes() == old(file).bytes(),
                old(file).pos() <= file.pos() <= file.bytes().len(),
                parse_each(
                    MethodView::item(cp@),
                    file.bytes(),
                    file.pos(),
                    (methods_count - i) as nat,
                    views(methods@),
                ) == parse_each(
                    MethodView::item(cp@),
                    old(file).bytes(),
                    old(file).pos() + 2,
                    methods_count as nat,
                    Seq::empty(),
                ),
                forall|j: int| 0 <= j < methods@.len() ==> (#[trigger] methods@[j])@.wf(cp@),
            decreases methods_count - i,
        {
            let method = Method::parse(file, cp)?;
            methods.push(method);
            i += 1;
        }
        Ok(Methods { methods })
    }

    /// The text of this, as a dump shows it.
    #[verifier::loop_isolation(false)]
    pub fn to_string(&self, cp: &ConstantPool) -> (r: String)
        requires
            pool_wf(cp@),
            self@.wf(cp@),
        ensures
            r@ == self@.text(cp@),
    {
        let mut s = String::from_str("Methods:\n");
        let mut i: usize = 0;
        while i < self.methods.len()
            invariant
                i <= self.methods.len(),
                concat_each(s@, self@.methods, i as int, MethodView::line(cp@)) == self@.text(cp@),
            decreases self.methods.len() - i,
        {
            assert(self@.methods[i as int].wf(cp@));
            s.append(self.methods[i].to_string(cp).as_str());
            i += 1;
        }
        s
    }
}

} // verus!
