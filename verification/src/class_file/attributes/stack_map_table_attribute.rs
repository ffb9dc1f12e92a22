use vstd::prelude::*;
use vstd::string::*;

use crate::class_file::attributes::attributes::AttStart;
use crate::class_file::constant_pool::{
    resolve, spec_index, valid_index, pool_wf, ConstantPool, InfoView,
};
use crate::class_file::error::DecodeError;
use crate::class_file::file_reader::{
    avail, decoded, parse_counted, parse_each, spec_u2, u16_at, FileReader, Parsed,
};
use crate::class_file::text::{
    concat_each, decimal, join_onto, lemma_views_empty, lemma_views_push, push_decimal, views,
};

verus! {

broadcast use {lemma_views_push, lemma_views_empty, FileReader::lemma_in_bounds};

/// The frames that a verifier checks a method's code against.
#[derive(Debug)]
pub struct StackMapTableAttribute {
    pub attribute_name_index: u16,
    pub attribute_length: u32,
    pub entries: Vec<StackMapFrame>,
}

#[derive(Debug)]
pub enum StackMapFrame {
    Same(SameFrame),
    SameLocals1StackItem(SameLocals1StackItemFrame),
    SameLocals1StackItemExtended(SameLocals1StackItemFrameExtended),
    Chop(ChopFrame),
    SameExtended(SameFrameExtended),
    Append(AppendFrame),
    Full(FullFrame),
}

/// Frame types 0 to 63.
#[derive(Clone, Copy, Debug, PartialEq, Eq, Structural)]
pub struct SameFrame {
    pub offset_delta: u8,
}

/// Frame types 64 to 127.
#[derive(Clone, Copy, Debug, PartialEq, Eq, Structural)]
pub struct SameLocals1StackItemFrame {
    pub offset_delta: u8,
    pub stack: VerificationTypeInfo,
}

/// Frame type 247.
#[derive(Clone, Copy, Debug, PartialEq, Eq, Structural)]
pub struct SameLocals1StackItemFrameExtended {
    pub offset_delta: u16,
    pub stack: VerificationTypeInfo,
}

/// Frame types 248 to 250.
#[derive(Clone, Copy, Debug, PartialEq, Eq, Structural)]
pub struct ChopFrame {
    /// How many locals are gone: 251 less the frame type.
    pub k_absent: u8,
    pub offset_delta: u16,
}

/// Frame type 251.
#[derive(Clone, Copy, Debug, PartialEq, Eq, Structural)]
pub struct SameFrameExtended {
    pub offset_delta: u16,
}

/// Frame types 252 to 254, with as many locals as the frame type is above
/// 251.
#[derive(Debug)]
pub struct AppendFrame {
    pub offset_delta: u16,
    pub locals: Vec<VerificationTypeInfo>,
}

/// Frame type 255.
#[derive(Debug)]
pub struct FullFrame {
    pub offset_delta: u16,
    pub locals: Vec<VerificationTypeInfo>,
    pub stack: Vec<VerificationTypeInfo>,
}

#[derive(Clone, Copy, Debug, PartialEq, Eq, Structural)]
pub enum VerificationTypeInfo {
    TopVaiableInfo,
    IntegerVariableInfo,
    FloatVariableInfo,
    LongVariableInfo,
    DoubleVariableInfo,
    NullVariableInfo,
    UninitializedThisVariableInfo,
    ObjectVariableInfo { cpool_index: u16 },
    UninitializedVariableInfo { offset: u16 },
}

/// The model of [`AppendFrame`].
pub ghost struct AppendFrameView {
    pub offset_delta: u16,
    pub locals: Seq<VerificationTypeInfo>,
}

/// The model of [`FullFrame`].
pub ghost struct FullFrameView {
    pub offset_delta: u16,
    pub locals: Seq<VerificationTypeInfo>,
    pub stack: Seq<VerificationTypeInfo>,
}

/// The model of [`StackMapFrame`].
pub ghost enum StackMapFrameView {
    Same(SameFrame),
    SameLocals1StackItem(SameLocals1StackItemFrame),
    SameLocals1StackItemExtended(SameLocals1StackItemFrameExtended),
    Chop(ChopFrame),
    SameExtended(SameFrameExtended),
    Append(AppendFrameView),
    Full(FullFrameView),
}

/// The model of [`StackMapTableAttribute`].
pub ghost struct StackMapTableAttributeView {
    pub attribute_name_index: u16,
    pub attribute_length: u32,
    pub entries: Seq<StackMapFrameView>,
}

impl View for VerificationTypeInfo {
    type V = VerificationTypeInfo;

    open spec fn view(&self) -> VerificationTypeInfo {
        *self
    }
}

impl View for StackMapFrame {
    type V = StackMapFrameView;

    open spec fn view(&self) -> StackMapFrameView {
        match self {
            StackMapFrame::Same(f) => StackMapFrameView::Same(*f),
            StackMapFrame::SameLocals1StackItem(f) => StackMapFrameView::SameLocals1StackItem(*f),
            StackMapFrame::SameLocals1StackItemExtended(f) => {
                StackMapFrameView::SameLocals1StackItemExtended(*f)
            },
            StackMapFrame::Chop(f) => StackMapFrameView::Chop(*f),
            StackMapFrame::SameExtended(f) => StackMapFrameView::SameExtended(*f),
            StackMapFrame::Append(f) => StackMapFrameView::Append(
                AppendFrameView { offset_delta: f.offset_delta, locals: f.locals@ },
            ),
            StackMapFrame::Full(f) => StackMapFrameView::Full(
                FullFrameView { offset_delta: f.offset_delta, locals: f.locals@, stack: f.stack@ },
            ),
        }
    }
}

impl View for StackMapTableAttribute {
    type V = StackMapTableAttributeView;

    open spec fn view(&self) -> StackMapTableAttributeView {
        StackMapTableAttributeView {
            attribute_name_index: self.attribute_name_index,
            attribute_length: self.attribute_length,
            entries: views(self.entries@),
        }
    }
}

/// Whether each of the types that names a class names an entry of the pool.
pub open spec fn types_wf(types: Seq<VerificationTypeInfo>, pool: Seq<InfoView>) -> bool {
    forall|i: int| 0 <= i < types.len() ==> (#[trigger] types[i]).wf(pool)
}

/// The texts of the types, in order.
pub open spec fn type_texts(types: Seq<VerificationTypeInfo>, pool: Seq<InfoView>) -> Seq<Seq<char>> {
    Seq::new(types.len(), |i: int| types[i].text(pool))
}

impl VerificationTypeInfo {
    /// Whether every index that this holds names an entry of the pool.
    pub open spec fn wf(self, pool: Seq<InfoView>) -> bool {
        match self {
            VerificationTypeInfo::ObjectVariableInfo { cpool_index } => valid_index(
                pool,
                cpool_index as int,
            ),
            _ => true,
        }
    }

    /// The type that a tag without content stands for.
    pub open spec fn simple(tag: u8) -> VerificationTypeInfo {
        if tag == 0 {
            VerificationTypeInfo::TopVaiableInfo
        } else if tag == 1 {
            VerificationTypeInfo::IntegerVariableInfo
        } else if tag == 2 {
            VerificationTypeInfo::FloatVariableInfo
        } else if tag == 3 {
            VerificationTypeInfo::DoubleVariableInfo
        } else if tag == 4 {
            VerificationTypeInfo::LongVariableInfo
        } else if tag == 5 {
            VerificationTypeInfo::NullVariableInfo
        } else {
            VerificationTypeInfo::UninitializedThisVariableInfo
        }
    }

    /// One type: a tag, then for an object the index of its class, and for
    /// an uninitialized object the offset of the instruction that makes it.
    pub open spec fn spec_parse(bytes: Seq<u8>, pos: int, pool: Seq<InfoView>) -> Parsed<
        VerificationTypeInfo,
    > {
        if !avail(bytes, pos, 1) {
            Err(DecodeError::TruncatedInput)
        } else if bytes[pos] <= 6 {
            Ok((Self::simple(bytes[pos]), pos + 1))
        } else if bytes[pos] == 7 {
            match spec_index(bytes, pos + 1, pool) {
                Ok((cpool_index, next)) => Ok(
                    (VerificationTypeInfo::ObjectVariableInfo { cpool_index }, next),
                ),
                Err(e) => Err(e),
            }
        } else if bytes[pos] == 8 {
            match spec_u2(bytes, pos + 1) {
                Ok((offset, next)) => Ok(
                    (VerificationTypeInfo::UninitializedVariableInfo { offset }, next),
                ),
                Err(e) => Err(e),
            }
        } else {
            Err(DecodeError::UnknownTag)
        }
    }

    /// The decoder of one type.
    pub open spec fn item(pool: Seq<InfoView>) -> spec_fn(Seq<u8>, int) -> Parsed<
        VerificationTypeInfo,
    > {
        |bytes: Seq<u8>, pos: int| Self::spec_parse(bytes, pos, pool)
    }

    /// The text that `to_string` gives.
    pub open spec fn text(self, pool: Seq<InfoView>) -> Seq<char> {
        match self {
            VerificationTypeInfo::TopVaiableInfo => "Top"@,
            VerificationTypeInfo::IntegerVariableInfo => "Integer"@,
            VerificationTypeInfo::FloatVariableInfo => "Float"@,
            VerificationTypeInfo::LongVariableInfo => "Long"@,
            VerificationTypeInfo::DoubleVariableInfo => "Double"@,
            VerificationTypeInfo::NullVariableInfo => "Null"@,
            VerificationTypeInfo::UninitializedThisVariableInfo => "UninitializedThis"@,
            VerificationTypeInfo::ObjectVariableInfo { cpool_index } => "Object: "@ + resolve(
                pool,
                cpool_index as int,
            ),
            VerificationTypeInfo::UninitializedVariableInfo { offset } => "Uninitialized: "@
                + decimal(offset as nat),
        }
    }

    /// Reads one verification type.
    pub fn parse(file: &mut FileReader, cp: &ConstantPool) -> (r: Result<
        VerificationTypeInfo,
        DecodeError,
    >)
        ensures
            decoded(
                *old(file),
                *final(file),
                r,
                Self::spec_parse(old(file).bytes(), old(file).pos(), cp@),
            ),
            r is Ok ==> r->Ok_0.wf(cp@),
    {
        let tag = file.read_u1()?;
        match tag {
            0 => Ok(VerificationTypeInfo::TopVaiableInfo),
            1 => Ok(VerificationTypeInfo::IntegerVariableInfo),
            2 => Ok(VerificationTypeInfo::FloatVariableInfo),
            3 => Ok(VerificationTypeInfo::DoubleVariableInfo),
            4 => Ok(VerificationTypeInfo::LongVariableInfo),
            5 => Ok(VerificationTypeInfo::NullVariableInfo),
            6 => Ok(VerificationTypeInfo::UninitializedThisVariableInfo),
            7 => Ok(VerificationTypeInfo::ObjectVariableInfo { cpool_index: cp.read_index(file)? }),
            8 => Ok(
                VerificationTypeInfo::UninitializedVariableInfo { offset: file.read_u2_to_u16()? },
            ),
            _ => Err(DecodeError::UnknownTag),
        }
    }

    /// The text of this, as a dump shows it.
    pub fn to_string(&self, cp: &ConstantPool) -> (r: String)
        requires
            pool_wf(cp@),
            self.wf(cp@),
        ensures
            r@ == self.text(cp@),
    {
        match self {
            VerificationTypeInfo::TopVaiableInfo => String::from_str("Top"),
            VerificationTypeInfo::IntegerVariableInfo => String::from_str("Integer"),
            VerificationTypeInfo::FloatVariableInfo => String::from_str("Float"),
            VerificationTypeInfo::LongVariableInfo => String::from_str("Long"),
            VerificationTypeInfo::DoubleVariableInfo => String::from_str("Double"),
            VerificationTypeInfo::NullVariableInfo => String::from_str("Null"),
            VerificationTypeInfo::UninitializedThisVariableInfo => String::from_str(
                "UninitializedThis",
            ),
            VerificationTypeInfo::ObjectVariableInfo { cpool_index } => {
                let mut s = String::from_str("Object: ");
                s.append(cp.get_to_string(*cpool_index).as_str());
                s
            },
            VerificationTypeInfo::UninitializedVariableInfo { offset } => {
                let mut s = String::from_str("Uninitialized: ");
                push_decimal(&mut s, *offset as u64);
                s
            },
        }
    }

    /// Reads `n` types one after the other.
    #[verifier::loop_isolation(false)]
    pub fn parse_many(file: &mut FileReader, n: u16, cp: &ConstantPool) -> (r: Result<
        Vec<VerificationTypeInfo>,
        DecodeError,
    >)
        ensures
            decoded(
                *old(file),
                *final(file),
                r,
                parse_each(
                    Self::item(cp@),
                    old(file).bytes(),
                    old(file).pos(),
                    n as nat,
                    Seq::empty(),
                ),
            ),
            r is Ok ==> types_wf(r->Ok_0@, cp@),
    {
        let mut types: Vec<VerificationTypeInfo> = Vec::new();
        let mut i: u16 = 0;
        proof {
            use_type_invariant(&*file);
        }
        while i < n
            invariant
                i <= n,
                file.bytes() == old(file).bytes(),
                old(file).pos() <= file.pos() <= file.bytes().len(),
                parse_each(Self::item(cp@), file.bytes(), file.pos(), (n - i) as nat, types@)
                    == parse_each(
                    Self::item(cp@),
                    old(file).bytes(),
                    old(file).pos(),
                    n as nat,
                    Seq::empty(),
                ),
                types_wf(types@, cp@),
            decreases n - i,
        {
            let t = VerificationTypeInfo::parse(file, cp)?;
            types.push(t);
            i += 1;
        }
        Ok(types)
    }

    /// Appends the texts of the types, with a comma and a space between
    /// consecutive ones.
    #[verifier::loop_isolation(false)]
    pub fn push_joined(s: &mut String, types: &Vec<VerificationTypeInfo>, cp: &ConstantPool)
        requires
            pool_wf(cp@),
            types_wf(types@, cp@),
        ensures
            final(s)@ == join_onto(old(s)@, type_texts(types@, cp@), ", "@, 0),
    {
        let mut i: usize = 0;
        while i < types.len()
            invariant
                i <= types.len(),
                join_onto(s@, type_texts(types@, cp@), ", "@, i as int) == join_onto(
                    old(s)@,
                    type_texts(types@, cp@),
                    ", "@,
                    0,
                ),
            decreases types.len() - i,
        {
            assert(types@[i as int].wf(cp@));
            if i > 0 {
                s.append(", ");
            }
            s.append(types[i].to_string(cp).as_str());
            i += 1;
        }
    }
}

impl StackMapFrameView {
    /// Whether every index that this holds names an entry of the pool.
    pub open spec fn wf(self, pool: Seq<InfoView>) -> bool {
        match self {
            StackMapFrameView::SameLocals1StackItem(f) => f.stack.wf(pool),
            StackMapFrameView::SameLocals1StackItemExtended(f) => f.stack.wf(pool),
            StackMapFrameView::Append(f) => types_wf(f.locals, pool),
            StackMapFrameView::Full(f) => types_wf(f.locals, pool) && types_wf(f.stack, pool),
            _ => true,
        }
    }

    /// One frame: the frame type in a byte, then what the type calls for.
    pub open spec fn parse(bytes: Seq<u8>, pos: int, pool: Seq<InfoView>) -> Parsed<
        StackMapFrameView,
    > {
        if !avail(bytes, pos, 1) {
            Err(DecodeError::TruncatedInput)
        } else {
            let frame_type = bytes[pos];
            if frame_type <= 63 {
                Ok((StackMapFrameView::Same(SameFrame { offset_delta: frame_type }), pos + 1))
            } else if frame_type <= 127 {
                match VerificationTypeInfo::spec_parse(bytes, pos + 1, pool) {
                    Ok((stack, next)) => Ok(
                        (
                            StackMapFrameView::SameLocals1StackItem(
                                SameLocals1StackItemFrame {
                                    offset_delta: (frame_type - 64) as u8,
                                    stack,
                                },
                            ),
                            next,
                        ),
                    ),
                    Err(e) => Err(e),
                }
            } else if frame_type < 247 {
                Err(DecodeError::UnknownTag)
            } else if !avail(bytes, pos + 1, 2) {
                Err(DecodeError::TruncatedInput)
            } else {
                let offset_delta = u16_at(bytes, pos + 1);
                let p = pos + 3;
                if frame_type == 247 {
                    match VerificationTypeInfo::spec_parse(bytes, p, pool) {
                        Ok((stack, next)) => Ok(
                            (
                                StackMapFrameView::SameLocals1StackItemExtended(
                                    SameLocals1StackItemFrameExtended { offset_delta, stack },
                                ),
                                next,
                            ),
                        ),
                        Err(e) => Err(e),
                    }
                } else if frame_type <= 250 {
                    Ok(
                        (
                            StackMapFrameView::Chop(
                                ChopFrame { k_absent: (251 - frame_type) as u8, offset_delta },
                            ),
                            p,
                        ),
                    )
                } else if frame_type == 251 {
                    Ok((StackMapFrameView::SameExtended(SameFrameExtended { offset_delta }), p))
                } else if frame_type <= 254 {
                    match parse_each(
                        VerificationTypeInfo::item(pool),
                        bytes,
                        p,
                        (frame_type - 251) as nat,
                        Seq::empty(),
                    ) {
                        Ok((locals, next)) => Ok(
                            (StackMapFrameView::Append(AppendFrameView { offset_delta, locals }), next),
                        ),
                        Err(e) => Err(e),
                    }
                } else {
                    match parse_counted(VerificationTypeInfo::item(pool), bytes, p) {
                        Ok((locals, q)) => match parse_counted(
                            VerificationTypeInfo::item(pool),
                            bytes,
                            q,
                        ) {
                            Ok((stack, next)) => Ok(
                                (
                                    StackMapFrameView::Full(
                                        FullFrameView { offset_delta, locals, stack },
                                    ),
                                    next,
                                ),
                            ),
                            Err(e) => Err(e),
                        },
                        Err(e) => Err(e),
                    }
                }
            }
        }
    }

    /// The decoder of one frame.
    pub open spec fn item(pool: Seq<InfoView>) -> spec_fn(Seq<u8>, int) -> Parsed<StackMapFrameView> {
        |bytes: Seq<u8>, pos: int| Self::parse(bytes, pos, pool)
    }

    /// The text that `to_string` gives.
    pub open spec fn text(self, pool: Seq<InfoView>) -> Seq<char> {
        match self {
            StackMapFrameView::Same(f) => "Same: "@ + decimal(f.offset_delta as nat),
            StackMapFrameView::SameLocals1StackItem(f) => "SameLocals1StackItem: "@ + decimal(
                f.offset_delta as nat,
            ) + " "@ + f.stack.text(pool),
            StackMapFrameView::SameLocals1StackItemExtended(f) => "SameLocals1StackItemExtended: "@
                + decimal(f.offset_delta as nat) + " "@ + f.stack.text(pool),
            StackMapFrameView::Chop(f) => "Chop: "@ + decimal(f.offset_delta as nat) + " ("@
                + decimal(f.k_absent as nat) + " locals removed)"@,
            StackMapFrameView::SameExtended(f) => "SameExtended: "@ + decimal(
                f.offset_delta as nat,
            ),
            StackMapFrameView::Append(f) => join_onto(
                "Append: "@ + decimal(f.offset_delta as nat) + " "@,
                type_texts(f.locals, pool),
                ", "@,
                0,
            ),
            StackMapFrameView::Full(f) => join_onto(
                join_onto(
                    "Full: "@ + decimal(f.offset_delta as nat) + " locals: "@,
                    type_texts(f.locals, pool),
                    ", "@,
                    0,
                ) + " stack: "@,
                type_texts(f.stack, pool),
                ", "@,
                0,
            ),
        }
    }

    /// The line of a listing for one frame.
    pub open spec fn line(pool: Seq<InfoView>) -> spec_fn(StackMapFrameView) -> Seq<char> {
        |frame: StackMapFrameView| "\t- "@ + frame.text(pool) + "\n"@
    }
}

impl StackMapTableAttributeView {
    /// The content: a count, then that many frames.
    pub open spec fn parse(bytes: Seq<u8>, pos: int, start: AttStart, pool: Seq<InfoView>) -> Parsed<
        StackMapTableAttributeView,
    > {
        match parse_counted(StackMapFrameView::item(pool), bytes, pos) {
            Ok((entries, next)) => Ok(
                (
                    StackMapTableAttributeView {
                        attribute_name_index: start.attribute_name_index,
                        attribute_length: start.attribute_length,
                        entries,
                    },
                    next,
                ),
            ),
            Err(e) => Err(e),
        }
    }

    /// Whether every index that this holds names an entry of the pool.
    pub open spec fn wf(self, pool: Seq<InfoView>) -> bool {
        &&& valid_index(pool, self.attribute_name_index as int)
        &&& forall|i: int| 0 <= i < self.entries.len() ==> (#[trigger] self.entries[i]).wf(pool)
    }

    /// The text that `to_string` gives.
    pub open spec fn text(self, pool: Seq<InfoView>) -> Seq<char> {
        concat_each("StackMapTable\n"@, self.entries, 0, StackMapFrameView::line(pool))
    }
}

impl StackMapFrame {
    /// Reads one frame.
    #[verifier::rlimit(40)]
    pub fn parse(file: &mut FileReader, cp: &ConstantPool) -> (r: Result<StackMapFrame, DecodeError>)
        ensures
            decoded(
                *old(file),
                *final(file),
                r,
                StackMapFrameView::parse(old(file).bytes(), old(file).pos(), cp@),
            ),
            r is Ok ==> r->Ok_0@.wf(cp@),
    {
        let frame_type = file.read_u1()?;
        if frame_type <= 63 {
            Self::parse_same(file, frame_type, cp)
        } else if frame_type <= 127 {
            Self::parse_same_locals_1_stack_item(file, frame_type, cp)
        } else if frame_type < 247 {
            Err(DecodeError::UnknownTag)
        } else if frame_type == 247 {
            Self::parse_same_locals_1_stack_item_extended(file, cp)
        } else if frame_type <= 250 {
            Self::parse_chop(file, frame_type, cp)
        } else if frame_type == 251 {
            Self::parse_same_extended(file, cp)
        } else if frame_type <= 254 {
            Self::parse_append(file, frame_type, cp)
        } else {
            Self::parse_full(file, cp)
        }
    }

    fn parse_same(file: &mut FileReader, frame_type: u8, cp: &ConstantPool) -> (r: Result<
        StackMapFrame,
        DecodeError,
    >)
        requires
            old(file).pos() >= 1,
            old(file).bytes()[old(file).pos() - 1] == frame_type,
            frame_type <= 63,
        ensures
            decoded(
                *old(file),
                *final(file),
                r,
                StackMapFrameView::parse(old(file).bytes(), old(file).pos() - 1, cp@),
            ),
    {
        proof {
            use_type_invariant(&*file);
        }
        Ok(StackMapFrame::Same(SameFrame { offset_delta: frame_type }))
    }

    fn parse_same_locals_1_stack_item(
        file: &mut FileReader,
        frame_type: u8,
        cp: &ConstantPool,
    ) -> (r: Result<StackMapFrame, DecodeError>)
        requires
            old(file).pos() >= 1,
            old(file).bytes()[old(file).pos() - 1] == frame_type,
            64 <= frame_type <= 127,
        ensures
            decoded(
                *old(file),
                *final(file),
                r,
                StackMapFrameView::parse(old(file).bytes(), old(file).pos() - 1, cp@),
            ),
            r is Ok ==> r->Ok_0@.wf(cp@),
    {
        proof {
            use_type_invariant(&*file);
        }
        let offset_delta = frame_type - 64;
        let stack = VerificationTypeInfo::parse(file, cp)?;
        Ok(
            StackMapFrame::SameLocals1StackItem(SameLocals1StackItemFrame { offset_delta, stack }),
        )
    }

    fn parse_same_locals_1_stack_item_extended(file: &mut FileReader, cp: &ConstantPool) -> (r:
        Result<StackMapFrame, DecodeError>)
        requires
            old(file).pos() >= 1,
            old(file).bytes()[old(file).pos() - 1] == 247,
        ensures
            decoded(
                *old(file),
                *final(file),
                r,
                StackMapFrameView::parse(old(file).bytes(), old(file).pos() - 1, cp@),
            ),
            r is Ok ==> r->Ok_0@.wf(cp@),
    {
        proof {
            use_type_invariant(&*file);
        }
        let offset_delta = file.read_u2_to_u16()?;
        let stack = VerificationTypeInfo::parse(file, cp)?;
        Ok(
            StackMapFrame::SameLocals1StackItemExtended(
                SameLocals1StackItemFrameExtended { offset_delta, stack },
            ),
        )
    }

    fn parse_chop(file: &mut FileReader, frame_type: u8, cp: &ConstantPool) -> (r: Result<
        StackMapFrame,
        DecodeError,
    >)
        requires
            old(file).pos() >= 1,
            old(file).bytes()[old(file).pos() - 1] == frame_type,
            248 <= frame_type <= 250,
        ensures
            decoded(
                *old(file),
                *final(file),
                r,
                StackMapFrameView::parse(old(file).bytes(), old(file).pos() - 1, cp@),
            ),
    {
        proof {
            use_type_invariant(&*file);
        }
        let k_absent = 251 - frame_type;
        let offset_delta = file.read_u2_to_u16()?;
        Ok(StackMapFrame::Chop(ChopFrame { k_absent, offset_delta }))
    }

    fn parse_same_extended(file: &mut FileReader, cp: &ConstantPool) -> (r: Result<
        StackMapFrame,
        DecodeError,
    >)
        requires
            old(file).pos() >= 1,
            old(file).bytes()[old(file).pos() - 1] == 251,
        ensures
            decoded(
                *old(file),
                *final(file),
                r,
                StackMapFrameView::parse(old(file).bytes(), old(file).pos() - 1, cp@),
            ),
    {
        proof {
            use_type_invariant(&*file);
        }
        let offset_delta = file.read_u2_to_u16()?;
        Ok(StackMapFrame::SameExtended(SameFrameExtended { offset_delta }))
    }

    fn parse_append(file: &mut FileReader, frame_type: u8, cp: &ConstantPool) -> (r: Result<
        StackMapFrame,
        DecodeError,
    >)
        requires
            old(file).pos() >= 1,
            old(file).bytes()[old(file).pos() - 1] == frame_type,
            252 <= frame_type <= 254,
        ensures
            decoded(
                *old(file),
                *final(file),
                r,
                StackMapFrameView::parse(old(file).bytes(), old(file).pos() - 1, cp@),
            ),
            r is Ok ==> r->Ok_0@.wf(cp@),
    {
        proof {
            use_type_invariant(&*file);
        }
        let offset_delta = file.read_u2_to_u16()?;
        let locals = VerificationTypeInfo::parse_many(file, (frame_type - 251) as u16, cp)?;
        Ok(StackMapFrame::Append(AppendFrame { offset_delta, locals }))
    }

    fn parse_full(file: &mut FileReader, cp: &ConstantPool) -> (r: Result<
        StackMapFrame,
        DecodeError,
    >)
        requires
            old(file).pos() >= 1,
            old(file).bytes()[old(file).pos() - 1] == 255,
        ensures
            decoded(
                *old(file),
                *final(file),
                r,
                StackMapFrameView::parse(old(file).bytes(), old(file).pos() - 1, cp@),
            ),
            r is Ok ==> r->Ok_0@.wf(cp@),
    {
        proof {
            use_type_invariant(&*file);
        }
        let offset_delta = file.read_u2_to_u16()?;
        let number_of_locals = file.read_u2_to_u16()?;
        let locals = VerificationTypeInfo::parse_many(file, number_of_locals, cp)?;
        let number_of_stack_items = file.read_u2_to_u16()?;
        let stack = VerificationTypeInfo::parse_many(file, number_of_stack_items, cp)?;
        Ok(StackMapFrame::Full(FullFrame { offset_delta, locals, stack }))
    }

    /// The text of this, as a dump shows it.
    pub fn to_string(&self, cp: &ConstantPool) -> (r: String)
        requires
            pool_wf(cp@),
            self@.wf(cp@),
        ensures
            r@ == self@.text(cp@),
    {
        match self {
            Self::Same(frame) => {
                let mut s = String::from_str("Same: ");
                push_decimal(&mut s, frame.offset_delta as u64);
                s
            },
            Self::SameLocals1StackItem(frame) => {
                let mut s = String::from_str("SameLocals1StackItem: ");
                push_decimal(&mut s, frame.offset_delta as u64);
                s.append(" ");
                s.append(frame.stack.to_string(cp).as_str());
                s
            },
            Self::SameLocals1StackItemExtended(frame) => {
                let mut s = String::from_str("SameLocals1StackItemExtended: ");
                push_decimal(&mut s, frame.offset_delta as u64);
                s.append(" ");
                s.append(frame.stack.to_string(cp).as_str());
                s
            },
            Self::Chop(frame) => {
                let mut s = String::from_str("Chop: ");
                push_decimal(&mut s, frame.offset_delta as u64);
                s.append(" (");
                push_decimal(&mut s, frame.k_absent as u64);
                s.append(" locals removed)");
                s
            },
            Self::SameExtended(frame) => {
                let mut s = String::from_str("SameExtended: ");
                push_decimal(&mut s, frame.offset_delta as u64);
                s
            },
            Self::Append(frame) => {
                let mut s = String::from_str("Append: ");
                push_decimal(&mut s, frame.offset_delta as u64);
                s.append(" ");
                VerificationTypeInfo::push_joined(&mut s, &frame.locals, cp);
                s
            },
            Self::Full(frame) => {
                let mut s = String::from_str("Full: ");
                push_decimal(&mut s, frame.offset_delta as u64);
                s.append(" locals: ");
                VerificationTypeInfo::push_joined(&mut s, &frame.locals, cp);
                s.append(" stack: ");
                VerificationTypeInfo::push_joined(&mut s, &frame.stack, cp);
                s
            },
        }
    }
}

impl StackMapTableAttribute {
    /// Reads the content of the attribute.
    #[verifier::loop_isolation(false)]
    pub fn parse(file: &mut FileReader, att_start: &AttStart, cp: &ConstantPool) -> (r: Result<
        StackMapTableAttribute,
        DecodeError,
    >)
        requires
            valid_index(cp@, att_start.attribute_name_index as int),
        ensures
            decoded(
                *old(file),
                *final(file),
                r,
                StackMapTableAttributeView::parse(
                    old(file).bytes(),
                    old(file).pos(),
                    *att_start,
                    cp@,
                ),
            ),
            r is Ok ==> r->Ok_0@.wf(cp@),
    {
        let mut entries: Vec<StackMapFrame> = Vec::new();
        let number_of_entries = file.read_u2_to_u16()?;
        let mut i: u16 = 0;
        while i < number_of_entries
            invariant
                i <= number_of_entries,
                file.bytes() == old(file).bytes(),
                old(file).pos() <= file.pos() <= file.bytes().len(),
                parse_each(
                    StackMapFrameView::item(cp@),
                    file.bytes(),
                    file.pos(),
                    (number_of_entries - i) as nat,
                    views(entries@),
                ) == parse_each(
                    StackMapFrameView::item(cp@),
                    old(file).bytes(),
                    old(file).pos() + 2,
                    number_of_entries as nat,
                    Seq::empty(),
                ),
                forall|j: int| 0 <= j < entries@.len() ==> (#[trigger] entries@[j])@.wf(cp@),
            decreases number_of_entries - i,
        {
            let frame = StackMapFrame::parse(file, cp)?;
            entries.push(frame);
            i += 1;
        }
        Ok(
            StackMapTableAttribute {
                attribute_name_index: att_start.attribute_name_index,
                attribute_length: att_start.attribute_length,
                entries,
            },
        )
    }

    /// The text of this, as a dump shows it.
    #[verifier::loop_isolation(false)]
    pub fn to_string(&self, cp: &ConstantPool) -> (r: String)
        requires
            pool_wf(cp@),
            self@.wf(cp@),
        ensures
            r@ == self@.text(cp@),
    {
        let mut s = String::from_str("StackMapTable\n");
        let mut i: usize = 0;
        while i < self.entries.len()
            invariant
                i <= self.entries.len(),
                concat_each(s@, self@.entries, i as int, StackMapFrameView::line(cp@))
                    == self@.text(cp@),
            decreases self.entries.len() - i,
        {
            assert(self@.entries[i as int].wf(cp@));
            let mut line = String::from_str("\t- ");
            line.append(self.entries[i].to_string(cp).as_str());
            line.append("\n");
            s.append(line.as_str());
            i += 1;
        }
        s
    }
}

} // verus!
