use vstd::prelude::*;
use vstd::string::*;

use crate::class_file::error::DecodeError;
use crate::class_file::file_reader::{
    avail, decoded, spec_string, spec_u2, u16_at, FileReader, Parsed,
};
use crate::class_file::text::{decimal, lemma_views_empty, lemma_views_push, push_decimal, views};

verus! {

broadcast use {lemma_views_push, lemma_views_empty};

pub const UTF8: u8 = 1;

pub const CLASS: u8 = 7;

pub const STRING: u8 = 8;

pub const FIELD_REF: u8 = 9;

pub const METHOD_REF: u8 = 10;

pub const INTERFACE_METHOD_REF: u8 = 11;

pub const NAME_AND_TYPE: u8 = 12;

pub const METHOD_HANDLE: u8 = 15;

pub const METHOD_TYPE: u8 = 16;

pub const INVOKEDYNAMIC: u8 = 18;

/// The type of a method: the index of its descriptor.
#[derive(Clone, Copy, Debug, PartialEq, Eq, Structural)]
pub struct MethodTypeInfo {
    pub descriptor_index: u16,
}

/// A method of a class: the indices of the class and of the method's name
/// and type.
#[derive(Clone, Copy, Debug, PartialEq, Eq, Structural)]
pub struct MethodRefInfo {
    pub class_index: u16,
    pub name_and_type_index: u16,
}

/// A method of an interface: the indices of the interface and of the
/// method's name and type.
#[derive(Clone, Copy, Debug, PartialEq, Eq, Structural)]
pub struct InterfaceMethodRefInfo {
    pub class_index: u16,
    pub name_and_type_index: u16,
}

/// A class: the index of its name.
#[derive(Clone, Copy, Debug, PartialEq, Eq, Structural)]
pub struct ClassInfo {
    pub name_index: u16,
}

/// A name and a type: the indices of the name and of the descriptor.
#[derive(Clone, Copy, Debug, PartialEq, Eq, Structural)]
pub struct NameAndTypeInfo {
    pub name_index: u16,
    pub descriptor_index: u16,
}

/// A field of a class: the indices of the class and of the field's name
/// and type.
#[derive(Clone, Copy, Debug, PartialEq, Eq, Structural)]
pub struct FieldRefInfo {
    pub class_index: u16,
    pub name_and_type_index: u16,
}

/// A string constant: the index of its text.
#[derive(Clone, Copy, Debug, PartialEq, Eq, Structural)]
pub struct StringInfo {
    pub string_index: u16,
}

/// A dynamic call site: the index of its bootstrap method among the
/// bootstrap methods of the class, and the index of its name and type.
#[derive(Clone, Copy, Debug, PartialEq, Eq, Structural)]
pub struct InvokeDynamicInfo {
    pub bootstrap_method_attr_index: u16,
    pub name_and_type_index: u16,
}

/// A method handle: what it does, and the index of the member it does it
/// with.
#[derive(Clone, Copy, Debug, PartialEq, Eq, Structural)]
pub struct MethodHandleInfo {
    pub reference_kind: MethodHandleReferenceKind,
    pub reference_index: u16,
}

/// What a method handle does with the member it refers to.
#[derive(Clone, Copy, Debug, PartialEq, Eq, Structural)]
pub enum MethodHandleReferenceKind {
    RefGetField,
    RefGetStatic,
    RefPutField,
    RefPutStatic,
    RefInvokeVirtual,
    RefInvokeStatic,
    RefInvokeSpecial,
    RefNewInvokeSpecial,
    RefInvokeInterface,
}

/// One entry of the constant pool.
#[derive(Debug)]
pub enum Info {
    Utf8Info(String),
    NameAndTypeInfo(NameAndTypeInfo),
    ClassInfo(ClassInfo),
    MethodRefInfo(MethodRefInfo),
    FieldRefInfo(FieldRefInfo),
    StringInfo(StringInfo),
    InvokeDynamicInfo(InvokeDynamicInfo),
    MethodHandleInfo(MethodHandleInfo),
    InterfaceMethodRefInfo(InterfaceMethodRefInfo),
    MethodTypeInfo(MethodTypeInfo),
}

/// The model of an entry: the entry with its text as a sequence of
/// characters.
pub ghost enum InfoView {
    Utf8Info(Seq<char>),
    NameAndTypeInfo(NameAndTypeInfo),
    ClassInfo(ClassInfo),
    MethodRefInfo(MethodRefInfo),
    FieldRefInfo(FieldRefInfo),
    StringInfo(StringInfo),
    InvokeDynamicInfo(InvokeDynamicInfo),
    MethodHandleInfo(MethodHandleInfo),
    InterfaceMethodRefInfo(InterfaceMethodRefInfo),
    MethodTypeInfo(MethodTypeInfo),
}

impl View for Info {
    type V = InfoView;

    open spec fn view(&self) -> InfoView {
        match self {
            Info::Utf8Info(s) => InfoView::Utf8Info(s@),
            Info::NameAndTypeInfo(n) => InfoView::NameAndTypeInfo(*n),
            Info::ClassInfo(c) => InfoView::ClassInfo(*c),
            Info::MethodRefInfo(m) => InfoView::MethodRefInfo(*m),
            Info::FieldRefInfo(f) => InfoView::FieldRefInfo(*f),
            Info::StringInfo(s) => InfoView::StringInfo(*s),
            Info::InvokeDynamicInfo(i) => InfoView::InvokeDynamicInfo(*i),
            Info::MethodHandleInfo(m) => InfoView::MethodHandleInfo(*m),
            Info::InterfaceMethodRefInfo(i) => InfoView::InterfaceMethodRefInfo(*i),
            Info::MethodTypeInfo(m) => InfoView::MethodTypeInfo(*m),
        }
    }
}

/// The constant pool: the entries in file order. Entry `i` of the sequence
/// has index `i + 1` in the class file.
pub struct ConstantPool {
    constants: Vec<Info>,
}

impl View for ConstantPool {
    type V = Seq<InfoView>;

    closed spec fn view(&self) -> Seq<InfoView> {
        views(self.constants@)
    }
}

/// Whether `index` names an entry of the pool.
pub open spec fn valid_index(pool: Seq<InfoView>, index: int) -> bool {
    1 <= index <= pool.len()
}

/// Whether `index` is zero, for "none", or names an entry of the pool.
pub open spec fn optional_index(pool: Seq<InfoView>, index: int) -> bool {
    0 <= index <= pool.len()
}

/// Whether the text of the entry at `index` can be had by following at
/// most `steps` references, one after the other: the index names an
/// entry, and so does every index on the way.
pub open spec fn resolves(pool: Seq<InfoView>, index: int, steps: nat) -> bool
    decreases steps,
{
    &&& valid_index(pool, index)
    &&& pool[index - 1].first_reference() is Some ==> steps > 0 && resolves(
        pool,
        pool[index - 1].first_reference()->Some_0 as int,
        (steps - 1) as nat,
    )
    &&& pool[index - 1].second_reference() is Some ==> steps > 0 && resolves(
        pool,
        pool[index - 1].second_reference()->Some_0 as int,
        (steps - 1) as nat,
    )
}

/// Whether every reference between entries names an entry and no chain of
/// references comes back to where it began: the text of every entry can be
/// had by following no more references than the pool has entries.
pub open spec fn pool_wf(pool: Seq<InfoView>) -> bool {
    forall|index: int|
        valid_index(pool, index) ==> #[trigger] resolves(pool, index, pool.len())
}

/// What can be had by following some number of references can be had by
/// following more.
pub proof fn lemma_resolves_more(pool: Seq<InfoView>, index: int, steps: nat, more: nat)
    requires
        resolves(pool, index, steps),
        steps <= more,
    ensures
        resolves(pool, index, more),
    decreases steps,
{
    let info = pool[index - 1];
    if info.first_reference() is Some {
        lemma_resolves_more(
            pool,
            info.first_reference()->Some_0 as int,
            (steps - 1) as nat,
            (more - 1) as nat,
        );
    }
    if info.second_reference() is Some {
        lemma_resolves_more(
            pool,
            info.second_reference()->Some_0 as int,
            (steps - 1) as nat,
            (more - 1) as nat,
        );
    }
}

/// The text of the entry at `index`, where it can be had by following at
/// most `steps` references; no text otherwise.
pub open spec fn text_at(pool: Seq<InfoView>, index: u16, steps: nat) -> Seq<char>
    decreases steps, 0nat,
{
    if steps > 0 && valid_index(pool, index as int) {
        pool[index - 1].text_within(pool, (steps - 1) as nat)
    } else {
        Seq::empty()
    }
}

/// Whether `index` names an entry that has been found in one of the first
/// `passes` passes.
pub open spec fn is_found(found: Seq<usize>, index: u16, passes: int) -> bool {
    1 <= index <= found.len() && 1 <= found[index - 1] <= passes
}

/// What holds after `passes` passes over the entries: an entry has been
/// found exactly if its text can be had by following fewer than `passes`
/// references, and the number of its pass says how many it takes at most.
pub open spec fn found_so_far(pool: Seq<InfoView>, found: Seq<usize>, passes: int) -> bool {
    &&& found.len() == pool.len()
    &&& forall|j: int|
        0 <= j < found.len() && #[trigger] found[j] != 0 ==> found[j] <= passes && resolves(
            pool,
            j + 1,
            (found[j] - 1) as nat,
        )
    &&& forall|j: int|
        0 <= j < found.len() && passes >= 1 && resolves(pool, j + 1, (passes - 1) as nat)
            ==> #[trigger] found[j] != 0
}

/// An entry whose references have all been found in the first `passes`
/// passes resolves by following at most `passes` references.
proof fn lemma_found_refs_resolve(
    pool: Seq<InfoView>,
    found: Seq<usize>,
    passes: int,
    info: InfoView,
)
    requires
        0 <= passes,
        found_so_far(pool, found, passes),
        info.refs_found(found, passes),
    ensures
        info.refs_resolve(pool, passes as nat),
{
    if info.first_reference() is Some {
        let index = info.first_reference()->Some_0 as int;
        assert(found[index - 1] != 0);
        lemma_resolves_more(pool, index, (found[index - 1] - 1) as nat, (passes - 1) as nat);
    }
    if info.second_reference() is Some {
        let index = info.second_reference()->Some_0 as int;
        assert(found[index - 1] != 0);
        lemma_resolves_more(pool, index, (found[index - 1] - 1) as nat, (passes - 1) as nat);
    }
}

/// An entry that resolves by following at most `passes` references refers
/// only to entries found in the first `passes` passes.
proof fn lemma_resolved_refs_are_found(
    pool: Seq<InfoView>,
    found: Seq<usize>,
    passes: int,
    index: int,
)
    requires
        0 <= passes,
        found_so_far(pool, found, passes),
        resolves(pool, index, passes as nat),
    ensures
        pool[index - 1].refs_found(found, passes),
{
    let info = pool[index - 1];
    if info.first_reference() is Some {
        let j = info.first_reference()->Some_0 - 1;
        assert(resolves(pool, j + 1, (passes - 1) as nat));
        assert(found[j] != 0);
    }
    if info.second_reference() is Some {
        let j = info.second_reference()->Some_0 - 1;
        assert(resolves(pool, j + 1, (passes - 1) as nat));
        assert(found[j] != 0);
    }
}

/// Once a pass finds nothing, nothing more resolves: an entry that has not
/// been found refers to what is no entry or has not been found either, and
/// so on without end.
proof fn lemma_nothing_more_resolves(
    pool: Seq<InfoView>,
    found: Seq<usize>,
    passes: int,
    index: int,
    steps: nat,
)
    requires
        found_so_far(pool, found, passes),
        forall|j: int|
            0 <= j < pool.len() && found[j] == 0 ==> !(#[trigger] pool[j]).refs_found(
                found,
                passes,
            ),
        resolves(pool, index, steps),
    ensures
        found[index - 1] != 0,
    decreases steps,
{
    let info = pool[index - 1];
    if found[index - 1] == 0 {
        assert(!info.refs_found(found, passes));
        assert(info.refs_resolve(pool, steps));
        if info.first_reference() is Some {
            let first = info.first_reference()->Some_0 as int;
            assert(resolves(pool, first, (steps - 1) as nat));
            assert(valid_index(pool, first));
            lemma_nothing_more_resolves(pool, found, passes, first, (steps - 1) as nat);
            let j = first - 1;
            assert(found[j] != 0);
        }
        if info.second_reference() is Some {
            let second = info.second_reference()->Some_0 as int;
            assert(resolves(pool, second, (steps - 1) as nat));
            assert(valid_index(pool, second));
            lemma_nothing_more_resolves(pool, found, passes, second, (steps - 1) as nat);
            let j = second - 1;
            assert(found[j] != 0);
        }
    }
}

/// The text of the entry at `index`.
pub open spec fn resolve(pool: Seq<InfoView>, index: int) -> Seq<char> {
    pool[index - 1].text(pool)
}

/// A 16-bit index that must name an entry of the pool.
pub open spec fn spec_index(bytes: Seq<u8>, pos: int, pool: Seq<InfoView>) -> Parsed<u16> {
    match spec_u2(bytes, pos) {
        Ok((index, next)) => if valid_index(pool, index as int) {
            Ok((index, next))
        } else {
            Err(DecodeError::InvalidIndex)
        },
        Err(e) => Err(e),
    }
}

/// A 16-bit index that must be zero or name an entry of the pool.
pub open spec fn spec_optional_index(bytes: Seq<u8>, pos: int, pool: Seq<InfoView>) -> Parsed<u16> {
    match spec_u2(bytes, pos) {
        Ok((index, next)) => if optional_index(pool, index as int) {
            Ok((index, next))
        } else {
            Err(DecodeError::InvalidIndex)
        },
        Err(e) => Err(e),
    }
}

/// The decoder of one index into `pool`.
pub open spec fn index_item(pool: Seq<InfoView>) -> spec_fn(Seq<u8>, int) -> Parsed<u16> {
    |bytes: Seq<u8>, pos: int| spec_index(bytes, pos, pool)
}

/// The text of the entry at `index`, or a placeholder where the index is
/// zero.
pub open spec fn resolve_or(pool: Seq<InfoView>, index: int, placeholder: Seq<char>) -> Seq<char> {
    if index == 0 {
        placeholder
    } else {
        resolve(pool, index)
    }
}

/// Whether all of the indices name entries of the pool.
pub open spec fn valid_indices(pool: Seq<InfoView>, indices: Seq<u16>) -> bool {
    forall|i: int| 0 <= i < indices.len() ==> valid_index(pool, #[trigger] indices[i] as int)
}

/// The kind that the number stands for, where it stands for one: the
/// numbers 1 to 9 do.
pub open spec fn spec_kind(value: u8) -> Result<MethodHandleReferenceKind, DecodeError> {
    if 1 <= value <= 9 {
        Ok(kind_of(value))
    } else {
        Err(DecodeError::UnknownTag)
    }
}

/// The kind that a number from 1 to 9 stands for.
pub open spec fn kind_of(value: u8) -> MethodHandleReferenceKind {
    if value == 1 {
        MethodHandleReferenceKind::RefGetField
    } else if value == 2 {
        MethodHandleReferenceKind::RefGetStatic
    } else if value == 3 {
        MethodHandleReferenceKind::RefPutField
    } else if value == 4 {
        MethodHandleReferenceKind::RefPutStatic
    } else if value == 5 {
        MethodHandleReferenceKind::RefInvokeVirtual
    } else if value == 6 {
        MethodHandleReferenceKind::RefInvokeStatic
    } else if value == 7 {
        MethodHandleReferenceKind::RefInvokeSpecial
    } else if value == 8 {
        MethodHandleReferenceKind::RefNewInvokeSpecial
    } else {
        MethodHandleReferenceKind::RefInvokeInterface
    }
}

impl MethodHandleReferenceKind {
    /// The name of the kind.
    pub open spec fn name(self) -> Seq<char> {
        match self {
            MethodHandleReferenceKind::RefGetField => "getField"@,
            MethodHandleReferenceKind::RefGetStatic => "getStatic"@,
            MethodHandleReferenceKind::RefPutField => "putField"@,
            MethodHandleReferenceKind::RefPutStatic => "putStatic"@,
            MethodHandleReferenceKind::RefInvokeVirtual => "invokeVirtual"@,
            MethodHandleReferenceKind::RefInvokeStatic => "invokeStatic"@,
            MethodHandleReferenceKind::RefInvokeSpecial => "invokeSpecial"@,
            MethodHandleReferenceKind::RefNewInvokeSpecial => "newInvokeSpecial"@,
            MethodHandleReferenceKind::RefInvokeInterface => "invokeInterface"@,
        }
    }

    /// The kind that the number stands for; an error for a number that
    /// stands for none.
    pub fn from_u8(value: u8) -> (r: Result<MethodHandleReferenceKind, DecodeError>)
        ensures
            r == spec_kind(value),
    {
        match value {
            1 => Ok(MethodHandleReferenceKind::RefGetField),
            2 => Ok(MethodHandleReferenceKind::RefGetStatic),
            3 => Ok(MethodHandleReferenceKind::RefPutField),
            4 => Ok(MethodHandleReferenceKind::RefPutStatic),
            5 => Ok(MethodHandleReferenceKind::RefInvokeVirtual),
            6 => Ok(MethodHandleReferenceKind::RefInvokeStatic),
            7 => Ok(MethodHandleReferenceKind::RefInvokeSpecial),
            8 => Ok(MethodHandleReferenceKind::RefNewInvokeSpecial),
            9 => Ok(MethodHandleReferenceKind::RefInvokeInterface),
            _ => Err(DecodeError::UnknownTag),
        }
    }

    /// The name of the kind.
    pub fn to_string(&self) -> (r: String)
        ensures
            r@ == self.name(),
    {
        let out = match self {
            MethodHandleReferenceKind::RefGetField => "getField",
            MethodHandleReferenceKind::RefGetStatic => "getStatic",
            MethodHandleReferenceKind::RefPutField => "putField",
            MethodHandleReferenceKind::RefPutStatic => "putStatic",
            MethodHandleReferenceKind::RefInvokeVirtual => "invokeVirtual",
            MethodHandleReferenceKind::RefInvokeStatic => "invokeStatic",
            MethodHandleReferenceKind::RefInvokeSpecial => "invokeSpecial",
            MethodHandleReferenceKind::RefNewInvokeSpecial => "newInvokeSpecial",
            MethodHandleReferenceKind::RefInvokeInterface => "invokeInterface",
        };
        String::from_str(out)
    }
}

impl InfoView {
    /// The first index that the entry refers to, where it refers to any.
    pub open spec fn first_reference(self) -> Option<u16> {
        match self {
            InfoView::Utf8Info(_) => None,
            InfoView::ClassInfo(c) => Some(c.name_index),
            InfoView::StringInfo(s) => Some(s.string_index),
            InfoView::MethodTypeInfo(m) => Some(m.descriptor_index),
            InfoView::NameAndTypeInfo(n) => Some(n.name_index),
            InfoView::FieldRefInfo(f) => Some(f.class_index),
            InfoView::MethodRefInfo(m) => Some(m.class_index),
            InfoView::InterfaceMethodRefInfo(i) => Some(i.class_index),
            InfoView::InvokeDynamicInfo(i) => Some(i.name_and_type_index),
            InfoView::MethodHandleInfo(m) => Some(m.reference_index),
        }
    }

    /// The second index that the entry refers to, where it refers to two.
    pub open spec fn second_reference(self) -> Option<u16> {
        match self {
            InfoView::NameAndTypeInfo(n) => Some(n.descriptor_index),
            InfoView::FieldRefInfo(f) => Some(f.name_and_type_index),
            InfoView::MethodRefInfo(m) => Some(m.name_and_type_index),
            InfoView::InterfaceMethodRefInfo(i) => Some(i.name_and_type_index),
            _ => None,
        }
    }

    /// Whether the texts of the entries that this one refers to can be had
    /// by following at most `steps` references, the one to them counted.
    pub open spec fn refs_resolve(self, pool: Seq<InfoView>, steps: nat) -> bool {
        &&& self.first_reference() is Some ==> steps > 0 && resolves(
            pool,
            self.first_reference()->Some_0 as int,
            (steps - 1) as nat,
        )
        &&& self.second_reference() is Some ==> steps > 0 && resolves(
            pool,
            self.second_reference()->Some_0 as int,
            (steps - 1) as nat,
        )
    }

    /// Whether the text of the entry can be had in `pool`: by following no
    /// more references than the pool has entries.
    pub open spec fn refs_ok(self, pool: Seq<InfoView>) -> bool {
        self.refs_resolve(pool, pool.len())
    }

    /// The readable text of the entry, had by following at most `steps`
    /// references; what lies further away has no text.
    pub open spec fn text_within(self, pool: Seq<InfoView>, steps: nat) -> Seq<char>
        decreases steps, 1nat,
    {
        match self {
            InfoView::Utf8Info(s) => s,
            InfoView::ClassInfo(c) => text_at(pool, c.name_index, steps),
            InfoView::StringInfo(s) => text_at(pool, s.string_index, steps),
            InfoView::MethodTypeInfo(m) => "MethodType("@ + text_at(
                pool,
                m.descriptor_index,
                steps,
            ) + ")"@,
            InfoView::NameAndTypeInfo(n) => text_at(pool, n.name_index, steps) + "["@ + text_at(
                pool,
                n.descriptor_index,
                steps,
            ) + "]"@,
            InfoView::FieldRefInfo(f) => text_at(pool, f.class_index, steps) + "."@ + text_at(
                pool,
                f.name_and_type_index,
                steps,
            ),
            InfoView::MethodRefInfo(m) => text_at(pool, m.class_index, steps) + "."@ + text_at(
                pool,
                m.name_and_type_index,
                steps,
            ),
            InfoView::InterfaceMethodRefInfo(i) => text_at(pool, i.class_index, steps) + "."@
                + text_at(pool, i.name_and_type_index, steps),
            InfoView::InvokeDynamicInfo(i) => "InvokeDynamic(bootstrap_index"@ + decimal(
                i.bootstrap_method_attr_index as nat,
            ) + ")["@ + text_at(pool, i.name_and_type_index, steps) + "]"@,
            InfoView::MethodHandleInfo(m) => "MethodHandle("@ + m.reference_kind.name() + ")["@
                + text_at(pool, m.reference_index, steps) + "]"@,
        }
    }

    /// The readable text of the entry: text is itself, a class or a string
    /// is the text it names, a name and type is `name[descriptor]`, a
    /// field or a method is `class.name[descriptor]`, and the others are
    /// labels around what they refer to.
    pub open spec fn text(self, pool: Seq<InfoView>) -> Seq<char> {
        self.text_within(pool, pool.len())
    }

    /// Whether each entry that this one refers to has been found in one of
    /// the first `passes` passes.
    pub open spec fn refs_found(self, found: Seq<usize>, passes: int) -> bool {
        &&& self.first_reference() is Some ==> is_found(
            found,
            self.first_reference()->Some_0,
            passes,
        )
        &&& self.second_reference() is Some ==> is_found(
            found,
            self.second_reference()->Some_0,
            passes,
        )
    }

    /// One entry: a tag byte, then what the tag calls for.
    pub open spec fn parse(bytes: Seq<u8>, pos: int) -> Parsed<InfoView> {
        if !avail(bytes, pos, 1) {
            Err(DecodeError::TruncatedInput)
        } else {
            let tag = bytes[pos];
            let p = pos + 1;
            if tag == UTF8 {
                match spec_string(bytes, p) {
                    Ok((s, next)) => Ok((InfoView::Utf8Info(s), next)),
                    Err(e) => Err(e),
                }
            } else if tag == CLASS || tag == STRING || tag == METHOD_TYPE {
                if !avail(bytes, p, 2) {
                    Err(DecodeError::TruncatedInput)
                } else {
                    let a = u16_at(bytes, p);
                    Ok(
                        (
                            if tag == CLASS {
                                InfoView::ClassInfo(ClassInfo { name_index: a })
                            } else if tag == STRING {
                                InfoView::StringInfo(StringInfo { string_index: a })
                            } else {
                                InfoView::MethodTypeInfo(MethodTypeInfo { descriptor_index: a })
                            },
                            p + 2,
                        ),
                    )
                }
            } else if tag == FIELD_REF || tag == METHOD_REF || tag == INTERFACE_METHOD_REF || tag
                == NAME_AND_TYPE || tag == INVOKEDYNAMIC {
                if !avail(bytes, p, 4) {
                    Err(DecodeError::TruncatedInput)
                } else {
                    let a = u16_at(bytes, p);
                    let b = u16_at(bytes, p + 2);
                    Ok(
                        (
                            if tag == FIELD_REF {
                                InfoView::FieldRefInfo(
                                    FieldRefInfo { class_index: a, name_and_type_index: b },
                                )
                            } else if tag == METHOD_REF {
                                InfoView::MethodRefInfo(
                                    MethodRefInfo { class_index: a, name_and_type_index: b },
                                )
                            } else if tag == INTERFACE_METHOD_REF {
                                InfoView::InterfaceMethodRefInfo(
                                    InterfaceMethodRefInfo {
                                        class_index: a,
                                        name_and_type_index: b,
                                    },
                                )
                            } else if tag == NAME_AND_TYPE {
                                InfoView::NameAndTypeInfo(
                                    NameAndTypeInfo { name_index: a, descriptor_index: b },
                                )
                            } else {
                                InfoView::InvokeDynamicInfo(
                                    InvokeDynamicInfo {
                                        bootstrap_method_attr_index: a,
                                        name_and_type_index: b,
                                    },
                                )
                            },
                            p + 4,
                        ),
                    )
                }
            } else if tag == METHOD_HANDLE {
                if !avail(bytes, p, 3) {
                    Err(DecodeError::TruncatedInput)
                } else if spec_kind(bytes[p]) is Err {
                    Err(DecodeError::UnknownTag)
                } else {
                    Ok(
                        (
                            InfoView::MethodHandleInfo(
                                MethodHandleInfo {
                                    reference_kind: kind_of(bytes[p]),
                                    reference_index: u16_at(bytes, p + 1),
                                },
                            ),
                            p + 3,
                        ),
                    )
                }
            } else {
                Err(DecodeError::UnknownTag)
            }
        }
    }

    /// `n` entries one after the other, added to `acc`.
    pub open spec fn parse_entries(bytes: Seq<u8>, pos: int, n: nat, acc: Seq<InfoView>) -> Parsed<
        Seq<InfoView>,
    >
        decreases n,
    {
        if n == 0 {
            Ok((acc, pos))
        } else {
            match Self::parse(bytes, pos) {
                Ok((info, next)) => Self::parse_entries(bytes, next, (n - 1) as nat, acc.push(info)),
                Err(e) => Err(e),
            }
        }
    }

    /// The whole pool: a 16-bit count, which is not 0, then one entry fewer
    /// than the count says. Every reference between the entries must name
    /// an entry, and no chain of references may come back to where it
    /// began.
    pub open spec fn parse_pool(bytes: Seq<u8>, pos: int) -> Parsed<Seq<InfoView>> {
        if !avail(bytes, pos, 2) {
            Err(DecodeError::TruncatedInput)
        } else if u16_at(bytes, pos) == 0 {
            Err(DecodeError::MalformedHeader)
        } else {
            match Self::parse_entries(
                bytes,
                pos + 2,
                (u16_at(bytes, pos) - 1) as nat,
                Seq::empty(),
            ) {
                Ok((pool, next)) => if pool_wf(pool) {
                    Ok((pool, next))
                } else {
                    Err(DecodeError::InvalidIndex)
                },
                Err(e) => Err(e),
            }
        }
    }

    /// The lines of a listing of the pool from entry `i` on, added to `acc`:
    /// the entry's position, a colon, its text.
    pub open spec fn listing(pool: Seq<InfoView>, acc: Seq<char>, i: int) -> Seq<char>
        decreases pool.len() - i,
    {
        if 0 <= i < pool.len() {
            Self::listing(
                pool,
                acc + decimal(i as nat) + ": "@ + pool[i].text(pool) + "\n"@,
                i + 1,
            )
        } else {
            acc
        }
    }
}

impl Info {
    /// The indices that the entry refers to.
    fn references(&self) -> (r: (Option<u16>, Option<u16>))
        ensures
            r.0 == self@.first_reference(),
            r.1 == self@.second_reference(),
    {
        match self {
            Info::Utf8Info(_) => (None, None),
            Info::ClassInfo(c) => (Some(c.name_index), None),
            Info::StringInfo(s) => (Some(s.string_index), None),
            Info::MethodTypeInfo(m) => (Some(m.descriptor_index), None),
            Info::NameAndTypeInfo(n) => (Some(n.name_index), Some(n.descriptor_index)),
            Info::FieldRefInfo(f) => (Some(f.class_index), Some(f.name_and_type_index)),
            Info::MethodRefInfo(m) => (Some(m.class_index), Some(m.name_and_type_index)),
            Info::InterfaceMethodRefInfo(i) => (Some(i.class_index), Some(i.name_and_type_index)),
            Info::InvokeDynamicInfo(i) => (Some(i.name_and_type_index), None),
            Info::MethodHandleInfo(m) => (Some(m.reference_index), None),
        }
    }

    /// Reads one entry.
    #[verifier::rlimit(40)]
    pub fn parse(file: &mut FileReader) -> (r: Result<Info, DecodeError>)
        ensures
            decoded(*old(file), *final(file), r, InfoView::parse(old(file).bytes(), old(file).pos())),
    {
        let tag = file.read_u1()?;
        if tag == UTF8 {
            let s = file.read_string()?;
            Ok(Info::Utf8Info(s))
        } else if tag == CLASS || tag == STRING || tag == METHOD_TYPE {
            let a = file.read_u2_to_u16()?;
            if tag == CLASS {
                Ok(Info::ClassInfo(ClassInfo { name_index: a }))
            } else if tag == STRING {
                Ok(Info::StringInfo(StringInfo { string_index: a }))
            } else {
                Ok(Info::MethodTypeInfo(MethodTypeInfo { descriptor_index: a }))
            }
        } else if tag == FIELD_REF || tag == METHOD_REF || tag == INTERFACE_METHOD_REF || tag
            == NAME_AND_TYPE || tag == INVOKEDYNAMIC {
            file.need(4)?;
            let a = file.read_u2_to_u16()?;
            let b = file.read_u2_to_u16()?;
            if tag == FIELD_REF {
                Ok(Info::FieldRefInfo(FieldRefInfo { class_index: a, name_and_type_index: b }))
            } else if tag == METHOD_REF {
                Ok(Info::MethodRefInfo(MethodRefInfo { class_index: a, name_and_type_index: b }))
            } else if tag == INTERFACE_METHOD_REF {
                Ok(
                    Info::InterfaceMethodRefInfo(
                        InterfaceMethodRefInfo { class_index: a, name_and_type_index: b },
                    ),
                )
            } else if tag == NAME_AND_TYPE {
                Ok(Info::NameAndTypeInfo(NameAndTypeInfo { name_index: a, descriptor_index: b }))
            } else {
                Ok(
                    Info::InvokeDynamicInfo(
                        InvokeDynamicInfo { bootstrap_method_attr_index: a, name_and_type_index: b },
                    ),
                )
            }
        } else if tag == METHOD_HANDLE {
            file.need(3)?;
            let reference_kind = MethodHandleReferenceKind::from_u8(file.read_u1()?)?;
            let reference_index = file.read_u2_to_u16()?;
            Ok(Info::MethodHandleInfo(MethodHandleInfo { reference_kind, reference_index }))
        } else {
            Err(DecodeError::UnknownTag)
        }
    }
}

impl ConstantPool {
    /// The number of entries.
    pub fn len(&self) -> (n: usize)
        ensures
            n == self@.len(),
    {
        self.constants.len()
    }

    /// Whether `index` names an entry.
    pub fn is_valid_index(&self, index: u16) -> (b: bool)
        ensures
            b == valid_index(self@, index as int),
    {
        1 <= index && index as usize <= self.constants.len()
    }

    /// Reads an index that must name an entry.
    pub fn read_index(&self, file: &mut FileReader) -> (r: Result<u16, DecodeError>)
        ensures
            decoded(
                *old(file),
                *final(file),
                r,
                spec_index(old(file).bytes(), old(file).pos(), self@),
            ),
    {
        let index = file.read_u2_to_u16()?;
        if self.is_valid_index(index) {
            Ok(index)
        } else {
            Err(DecodeError::InvalidIndex)
        }
    }

    /// Reads an index that must be zero or name an entry.
    pub fn read_optional_index(&self, file: &mut FileReader) -> (r: Result<u16, DecodeError>)
        ensures
            decoded(
                *old(file),
                *final(file),
                r,
                spec_optional_index(old(file).bytes(), old(file).pos(), self@),
            ),
    {
        let index = file.read_u2_to_u16()?;
        if index == 0 || self.is_valid_index(index) {
            Ok(index)
        } else {
            Err(DecodeError::InvalidIndex)
        }
    }

    /// The text of the entry at `index`, or the placeholder where the index
    /// is zero.
    pub fn get_to_string_or(&self, index: u16, placeholder: &str) -> (r: String)
        requires
            pool_wf(self@),
            optional_index(self@, index as int),
        ensures
            r@ == resolve_or(self@, index as int, placeholder@),
    {
        if index == 0 {
            String::from_str(placeholder)
        } else {
            self.get_to_string(index)
        }
    }

    /// Whether each entry that `info` refers to has been found in one of
    /// the first `passes` passes.
    fn refs_found(info: &Info, found: &Vec<usize>, passes: usize) -> (b: bool)
        ensures
            b == info@.refs_found(found@, passes as int),
    {
        let (first, second) = info.references();
        let first_found = match first {
            Some(index) => Self::is_found(index, found, passes),
            None => true,
        };
        let second_found = match second {
            Some(index) => Self::is_found(index, found, passes),
            None => true,
        };
        first_found && second_found
    }

    fn is_found(index: u16, found: &Vec<usize>, passes: usize) -> (b: bool)
        ensures
            b == is_found(found@, index, passes as int),
    {
        1 <= index && index as usize <= found.len() && 1 <= found[index as usize - 1]
            && found[index as usize - 1] <= passes
    }

    /// One pass over the entries: every entry that is not yet found and
    /// refers only to entries found in earlier passes is found in this
    /// one. Says whether any was.
    #[verifier::rlimit(40)]
    fn pass(&self, found: &mut Vec<usize>, passes: usize) -> (changed: bool)
        requires
            old(found)@.len() == self@.len(),
            passes <= self@.len() <= 65535,
            found_so_far(self@, old(found)@, passes as int),
        ensures
            final(found)@.len() == self@.len(),
            found_so_far(self@, final(found)@, passes + 1),
            !changed ==> final(found)@ == old(found)@,
            !changed ==> forall|j: int|
                0 <= j < self@.len() && final(found)@[j] == 0 ==> !(#[trigger] self@[j]).refs_found(
                    final(found)@,
                    passes as int,
                ),
    {
        let mut changed = false;
        let mut i: usize = 0;
        while i < self.constants.len()
            invariant
                i <= self.constants.len(),
                found@.len() == self@.len(),
                passes <= self@.len() <= 65535,
                found_so_far(self@, old(found)@, passes as int),
                forall|j: int|
                    0 <= j < found@.len() && old(found)@[j] != 0 ==> #[trigger] found@[j] == old(
                        found,
                    )@[j],
                forall|j: int|
                    0 <= j < found@.len() && old(found)@[j] == 0 && #[trigger] found@[j] != 0
                        ==> found@[j] == passes + 1 && resolves(self@, j + 1, passes as nat),
                forall|j: int|
                    0 <= j < i && #[trigger] found@[j] == 0 ==> !self@[j].refs_found(
                        old(found)@,
                        passes as int,
                    ),
                !changed ==> found@ == old(found)@,
            decreases self.constants.len() - i,
        {
            if found[i] == 0 {
                let ghost before = found@;
                if Self::refs_found(&self.constants[i], found, passes) {
                    proof {
                        assert(forall|j: int|
                            0 <= j < before.len() && 1 <= #[trigger] before[j] <= passes
                                ==> old(found)@[j] == before[j]);
                        assert(self@[i as int].refs_found(old(found)@, passes as int));
                        lemma_found_refs_resolve(
                            self@,
                            old(found)@,
                            passes as int,
                            self@[i as int],
                        );
                    }
                    found.set(i, passes + 1);
                    changed = true;
                } else {
                    assert(!self@[i as int].refs_found(old(found)@, passes as int)) by {
                        assert(forall|j: int|
                            0 <= j < before.len() && 1 <= #[trigger] old(found)@[j] <= passes
                                ==> before[j] == old(found)@[j]);
                    }
                }
            }
            i += 1;
        }
        proof {
            assert forall|j: int|
                0 <= j < found@.len() && resolves(self@, j + 1, passes as nat) implies #[trigger] found@[j]
                != 0 by {
                if found@[j] == 0 {
                    lemma_resolved_refs_are_found(self@, old(found)@, passes as int, j + 1);
                }
            }
        }
        changed
    }

    /// Whether every reference between the entries names an entry and no
    /// chain of references comes back to where it began.
    #[verifier::rlimit(40)]
    fn check(&self) -> (b: bool)
        requires
            self@.len() <= 65535,
        ensures
            b == pool_wf(self@),
    {
        let n = self.constants.len();
        let mut found: Vec<usize> = Vec::new();
        while found.len() < n
            invariant
                found@.len() <= n,
                n == self@.len(),
                forall|j: int| 0 <= j < found@.len() ==> #[trigger] found@[j] == 0,
            decreases n - found@.len(),
        {
            found.push(0);
        }
        let mut passes: usize = 0;
        let mut changed = true;
        while changed && passes <= n
            invariant
                n == self@.len(),
                found@.len() == n,
                n <= 65535,
                passes <= n + 1,
                found_so_far(self@, found@, passes as int),
                !changed ==> passes >= 1 && found_so_far(self@, found@, passes - 1) && forall|j: int|
                    0 <= j < n && found@[j] == 0 ==> !(#[trigger] self@[j]).refs_found(
                        found@,
                        passes - 1,
                    ),
            decreases n + 1 - passes,
        {
            changed = self.pass(&mut found, passes);
            passes += 1;
        }
        proof {
            assert forall|j: int| 0 <= j < n && resolves(self@, j + 1, n as nat) implies #[trigger] found@[j]
                != 0 by {
                if !changed {
                    lemma_nothing_more_resolves(self@, found@, passes - 1, j + 1, n as nat);
                }
            }
        }
        let mut i: usize = 0;
        while i < n
            invariant
                i <= n,
                n == self@.len(),
                found@.len() == n,
                forall|j: int| 0 <= j < i ==> #[trigger] found@[j] != 0,
                forall|j: int| 0 <= j < n && resolves(self@, j + 1, n as nat) ==> #[trigger] found@[j] != 0,
            decreases n - i,
        {
            if found[i] == 0 {
                assert(!resolves(self@, i + 1, n as nat));
                assert(valid_index(self@, i + 1));
                return false;
            }
            i += 1;
        }
        proof {
            assert forall|index: int| valid_index(self@, index) implies #[trigger] resolves(
                self@,
                index,
                n as nat,
            ) by {
                let j = index - 1;
                assert(found@[j] != 0);
                lemma_resolves_more(self@, j + 1, (found@[j] - 1) as nat, n as nat);
            }
        }
        true
    }

    /// Reads the constant pool.
    pub fn from(file: &mut FileReader) -> (r: Result<ConstantPool, DecodeError>)
        ensures
            decoded(
                *old(file),
                *final(file),
                r,
                InfoView::parse_pool(old(file).bytes(), old(file).pos()),
            ),
            r is Ok ==> pool_wf(r->Ok_0@),
    {
        let constant_pool_count = file.read_u2_to_u16()?;
        if constant_pool_count == 0 {
            return Err(DecodeError::MalformedHeader);
        }
        let n: u16 = constant_pool_count - 1;
        let mut constants: Vec<Info> = Vec::new();
        let mut i: u16 = 0;
        while i < n
            invariant
                i <= n,
                file.bytes() == old(file).bytes(),
                avail(old(file).bytes(), old(file).pos(), 2),
                n == u16_at(old(file).bytes(), old(file).pos()) - 1,
                constants@.len() == i,
                old(file).pos() + 2 <= file.pos() <= file.bytes().len(),
                InfoView::parse_entries(
                    file.bytes(),
                    file.pos(),
                    (n - i) as nat,
                    views(constants@),
                ) == InfoView::parse_entries(
                    old(file).bytes(),
                    old(file).pos() + 2,
                    n as nat,
                    Seq::empty(),
                ),
            decreases n - i,
        {
            let constant = Info::parse(file)?;
            constants.push(constant);
            i += 1;
        }
        let pool = ConstantPool { constants };
        if pool.check() {
            Ok(pool)
        } else {
            Err(DecodeError::InvalidIndex)
        }
    }

    /// The entry at `index`.
    pub fn get(&self, index: u16) -> (r: &Info)
        requires
            valid_index(self@, index as int),
        ensures
            r@ == self@[index - 1],
    {
        &self.constants[index as usize - 1]
    }

    /// The text of the entry at `index`.
    pub fn get_to_string(&self, index: u16) -> (r: String)
        requires
            pool_wf(self@),
            valid_index(self@, index as int),
        ensures
            r@ == resolve(self@, index as int),
    {
        assert(resolves(self@, index as int, self@.len()));
        self.info_to_string(self.get(index))
    }

    /// The text of the entry at `index`, had by following at most `steps`
    /// references.
    fn text_at(&self, index: u16, Ghost(steps): Ghost<nat>) -> (r: String)
        requires
            steps > 0,
            resolves(self@, index as int, (steps - 1) as nat),
        ensures
            r@ == text_at(self@, index, steps),
        decreases steps, 0nat,
    {
        self.text_within(self.get(index), Ghost((steps - 1) as nat))
    }

    /// The text of an entry, had by following at most `steps` references.
    fn text_within(&self, info: &Info, Ghost(steps): Ghost<nat>) -> (r: String)
        requires
            info@.refs_resolve(self@, steps),
        ensures
            r@ == info@.text_within(self@, steps),
        decreases steps, 1nat,
    {
        match info {
            Info::Utf8Info(s) => s.clone(),
            Info::NameAndTypeInfo(n) => {
                let mut s = self.text_at(n.name_index, Ghost(steps));
                s.append("[");
                s.append(self.text_at(n.descriptor_index, Ghost(steps)).as_str());
                s.append("]");
                s
            },
            Info::ClassInfo(c) => self.text_at(c.name_index, Ghost(steps)),
            Info::MethodRefInfo(m) => {
                let mut s = self.text_at(m.class_index, Ghost(steps));
                s.append(".");
                s.append(self.text_at(m.name_and_type_index, Ghost(steps)).as_str());
                s
            },
            Info::FieldRefInfo(f) => {
                let mut s = self.text_at(f.class_index, Ghost(steps));
                s.append(".");
                s.append(self.text_at(f.name_and_type_index, Ghost(steps)).as_str());
                s
            },
            Info::StringInfo(s) => self.text_at(s.string_index, Ghost(steps)),
            Info::InvokeDynamicInfo(i) => {
                let mut s = String::from_str("InvokeDynamic(bootstrap_index");
                push_decimal(&mut s, i.bootstrap_method_attr_index as u64);
                s.append(")[");
                s.append(self.text_at(i.name_and_type_index, Ghost(steps)).as_str());
                s.append("]");
                s
            },
            Info::MethodHandleInfo(m) => {
                let mut s = String::from_str("MethodHandle(");
                s.append(m.reference_kind.to_string().as_str());
                s.append(")[");
                s.append(self.text_at(m.reference_index, Ghost(steps)).as_str());
                s.append("]");
                s
            },
            Info::InterfaceMethodRefInfo(i) => {
                let mut s = self.text_at(i.class_index, Ghost(steps));
                s.append(".");
                s.append(self.text_at(i.name_and_type_index, Ghost(steps)).as_str());
                s
            },
            Info::MethodTypeInfo(m) => {
                let mut s = String::from_str("MethodType(");
                s.append(self.text_at(m.descriptor_index, Ghost(steps)).as_str());
                s.append(")");
                s
            },
        }
    }

    /// The text of an entry of this pool.
    pub fn info_to_string(&self, info: &Info) -> (r: String)
        requires
            info@.refs_ok(self@),
        ensures
            r@ == info@.text(self@),
    {
        self.text_within(info, Ghost(self@.len()))
    }

    /// A listing of the pool, one line for each entry.
    pub fn to_string(&self) -> (r: String)
        requires
            pool_wf(self@),
        ensures
            r@ == InfoView::listing(self@, Seq::empty(), 0),
    {
        let mut s = String::new();
        let mut i: usize = 0;
        while i < self.constants.len()
            invariant
                i <= self.constants.len(),
                pool_wf(self@),
                InfoView::listing(self@, s@, i as int) == InfoView::listing(self@, Seq::empty(), 0),
            decreases self.constants.len() - i,
        {
            assert(resolves(self@, i + 1, self@.len()));
            push_decimal(&mut s, i as u64);
            s.append(": ");
            s.append(self.info_to_string(&self.constants[i]).as_str());
            s.append("\n");
            i += 1;
        }
        s
    }
}

} // verus!
