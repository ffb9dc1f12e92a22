use vstd::prelude::*;

use crate::class_file::text::{add_flag, lemma_with_flag_contains, with_flag, Named};

verus! {

/// The access flags of a class, as the class file holds them.
#[derive(Clone, Copy, Debug)]
pub struct AccessFlags(pub u16);

#[derive(Clone, Copy, Debug, PartialEq, Eq, Structural)]
pub enum AccessFlag {
    Public,
    Final,
    Super,
    Interface,
    Abstract,
    Synthetic,
    Annotation,
    Enum,
}

impl View for AccessFlags {
    type V = u16;

    open spec fn view(&self) -> u16 {
        self.0
    }
}

impl AccessFlag {
    /// The bit that stands for the flag.
    pub open spec fn mask(self) -> u16 {
        match self {
            AccessFlag::Public => 0x0001,
            AccessFlag::Final => 0x0010,
            AccessFlag::Super => 0x0020,
            AccessFlag::Interface => 0x0200,
            AccessFlag::Abstract => 0x0400,
            AccessFlag::Synthetic => 0x1000,
            AccessFlag::Annotation => 0x2000,
            AccessFlag::Enum => 0x4000,
        }
    }

    /// The bit that stands for the flag.
    pub fn bit(&self) -> (r: u16)
        ensures
            r == self.mask(),
    {
        match self {
            AccessFlag::Public => 0x0001,
            AccessFlag::Final => 0x0010,
            AccessFlag::Super => 0x0020,
            AccessFlag::Interface => 0x0200,
            AccessFlag::Abstract => 0x0400,
            AccessFlag::Synthetic => 0x1000,
            AccessFlag::Annotation => 0x2000,
            AccessFlag::Enum => 0x4000,
        }
    }
}

impl Named for AccessFlag {
    open spec fn name(&self) -> Seq<char> {
        match self {
            AccessFlag::Public => "Public"@,
            AccessFlag::Final => "Final"@,
            AccessFlag::Super => "Super"@,
            AccessFlag::Interface => "Interface"@,
            AccessFlag::Abstract => "Abstract"@,
            AccessFlag::Synthetic => "Synthetic"@,
            AccessFlag::Annotation => "Annotation"@,
            AccessFlag::Enum => "Enum"@,
        }
    }

    fn name_str(&self) -> (r: &'static str) {
        match self {
            AccessFlag::Public => "Public",
            AccessFlag::Final => "Final",
            AccessFlag::Super => "Super",
            AccessFlag::Interface => "Interface",
            AccessFlag::Abstract => "Abstract",
            AccessFlag::Synthetic => "Synthetic",
            AccessFlag::Annotation => "Annotation",
            AccessFlag::Enum => "Enum",
        }
    }
}

/// Whether the flag is set in `bits`.
pub open spec fn is_set(bits: u16, flag: AccessFlag) -> bool {
    bits & flag.mask() == flag.mask()
}

/// The flags that are set in `bits`, in the order of their bits.
pub open spec fn flag_seq(bits: u16) -> Seq<AccessFlag> {
    let s0 = with_flag(Seq::empty(), bits, 0x0001, AccessFlag::Public);
    let s1 = with_flag(s0, bits, 0x0010, AccessFlag::Final);
    let s2 = with_flag(s1, bits, 0x0020, AccessFlag::Super);
    let s3 = with_flag(s2, bits, 0x0200, AccessFlag::Interface);
    let s4 = with_flag(s3, bits, 0x0400, AccessFlag::Abstract);
    let s5 = with_flag(s4, bits, 0x1000, AccessFlag::Synthetic);
    let s6 = with_flag(s5, bits, 0x2000, AccessFlag::Annotation);
    with_flag(s6, bits, 0x4000, AccessFlag::Enum)
}

/// A flag is among the flags of `bits` exactly when its bit is set.
pub proof fn lemma_flag_seq_contains(bits: u16, flag: AccessFlag)
    ensures
        flag_seq(bits).contains(flag) <==> is_set(bits, flag),
{
    let s0 = with_flag(Seq::empty(), bits, 0x0001, AccessFlag::Public);
    let s1 = with_flag(s0, bits, 0x0010, AccessFlag::Final);
    let s2 = with_flag(s1, bits, 0x0020, AccessFlag::Super);
    let s3 = with_flag(s2, bits, 0x0200, AccessFlag::Interface);
    let s4 = with_flag(s3, bits, 0x0400, AccessFlag::Abstract);
    let s5 = with_flag(s4, bits, 0x1000, AccessFlag::Synthetic);
    let s6 = with_flag(s5, bits, 0x2000, AccessFlag::Annotation);
    let s7 = with_flag(s6, bits, 0x4000, AccessFlag::Enum);
    lemma_with_flag_contains(Seq::empty(), bits, 0x0001, AccessFlag::Public, flag);
    lemma_with_flag_contains(s0, bits, 0x0010, AccessFlag::Final, flag);
    lemma_with_flag_contains(s1, bits, 0x0020, AccessFlag::Super, flag);
    lemma_with_flag_contains(s2, bits, 0x0200, AccessFlag::Interface, flag);
    lemma_with_flag_contains(s3, bits, 0x0400, AccessFlag::Abstract, flag);
    lemma_with_flag_contains(s4, bits, 0x1000, AccessFlag::Synthetic, flag);
    lemma_with_flag_contains(s5, bits, 0x2000, AccessFlag::Annotation, flag);
    lemma_with_flag_contains(s6, bits, 0x4000, AccessFlag::Enum, flag);
    assert(!Seq::<AccessFlag>::empty().contains(flag));
}

impl AccessFlags {
    /// The flags that these bits stand for.
    pub fn new(flags: u16) -> (r: AccessFlags)
        ensures
            r@ == flags,
    {
        AccessFlags(flags)
    }

    /// Whether the flag is set: whether it is among the flags that
    /// `flag_vector` gives.
    pub fn contains(&self, flag: AccessFlag) -> (b: bool)
        ensures
            b == is_set(self@, flag),
            b == flag_seq(self@).contains(flag),
    {
        proof {
            lemma_flag_seq_contains(self@, flag);
        }
        let mask = flag.bit();
        self.0 & mask == mask
    }

    /// The flags that are set, in the order of their bits.
    pub fn flag_vector(&self) -> (flags: Vec<AccessFlag>)
        ensures
            flags@ == flag_seq(self@),
    {
        let mut flags = Vec::new();
        add_flag(&mut flags, self.0, 0x0001, AccessFlag::Public);
        add_flag(&mut flags, self.0, 0x0010, AccessFlag::Final);
        add_flag(&mut flags, self.0, 0x0020, AccessFlag::Super);
        add_flag(&mut flags, self.0, 0x0200, AccessFlag::Interface);
        add_flag(&mut flags, self.0, 0x0400, AccessFlag::Abstract);
        add_flag(&mut flags, self.0, 0x1000, AccessFlag::Synthetic);
        add_flag(&mut flags, self.0, 0x2000, AccessFlag::Annotation);
        add_flag(&mut flags, self.0, 0x4000, AccessFlag::Enum);
        flags
    }
}

} // verus!
