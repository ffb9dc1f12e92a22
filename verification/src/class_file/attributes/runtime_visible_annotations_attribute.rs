use vstd::prelude::*;
use vstd::string::*;

use crate::class_file::attributes::attributes::AttStart;
use crate::class_file::constant_pool::{
    resolve, spec_index, valid_index, pool_wf, ConstantPool, InfoView,
};
use crate::class_file::error::DecodeError;
use crate::class_file::file_reader::{
    avail, decoded, parse_counted, parse_each, u16_at, FileReader, Parsed,
};
use crate::class_file::text::{concat_each, lemma_views_empty, lemma_views_push, views};

verus! {

broadcast use {lemma_views_push, lemma_views_empty, FileReader::lemma_in_bounds};

/// The annotations that are visible at run time.
#[derive(Debug)]
pub struct RuntimeVisibleAnnotationsAttribute {
    pub attribute_name_index: u16,
    pub attribute_length: u32,
    pub annotations: Vec<Annotation>,
}

#[derive(Debug)]
pub struct Annotation {
    pub type_index: u16,
    pub element_value_pairs: Vec<ElementValuePair>,
}

#[derive(Debug)]
pub struct ElementValuePair {
    pub element_name_index: u16,
    pub value: ElementValue,
}

#[derive(Debug)]
pub enum ElementValue {
    ConstValueIndex(u16),
    EnumConstValue { type_name_index: u16, const_name_index: u16 },
    ClassInfoIndex(u16),
    AnnotationValue(Annotation),
    ArrayValue(Vec<ElementValue>),
}

/// The model of [`RuntimeVisibleAnnotationsAttribute`].
pub ghost struct RuntimeVisibleAnnotationsAttributeView {
    pub attribute_name_index: u16,
    pub attribute_length: u32,
    pub annotations: Seq<AnnotationView>,
}

/// The model of [`Annotation`].
pub ghost struct AnnotationView {
    pub type_index: u16,
    pub element_value_pairs: Seq<ElementValuePairView>,
}

/// The model of [`ElementValuePair`].
pub ghost struct ElementValuePairView {
    pub element_name_index: u16,
    pub value: ElementValueView,
}

/// The model of [`ElementValue`].
pub ghost enum ElementValueView {
    ConstValueIndex(u16),
    EnumConstValue { type_name_index: u16, const_name_index: u16 },
    ClassInfoIndex(u16),
    AnnotationValue(AnnotationView),
    ArrayValue(Seq<ElementValueView>),
}

/// The models of the pairs, in order.
pub open spec fn pair_views(pairs: Seq<ElementValuePair>) -> Seq<ElementValuePairView>
    decreases pairs,
{
    if pairs.len() == 0 {
        Seq::empty()
    } else {
        pair_views(pairs.drop_last()).push(pairs.last()@)
    }
}

/// The models of the values, in order.
pub open spec fn value_views(values: Seq<ElementValue>) -> Seq<ElementValueView>
    decreases values,
{
    if values.len() == 0 {
        Seq::empty()
    } else {
        value_views(values.drop_last()).push(values.last()@)
    }
}

/// The models of the pairs are their views, one for one.
pub proof fn lemma_pair_views(pairs: Seq<ElementValuePair>)
    ensures
        pair_views(pairs) == views(pairs),
    decreases pairs.len(),
{
    if pairs.len() > 0 {
        let d = pairs.drop_last();
        lemma_pair_views(d);
        assert(pair_views(pairs) == pair_views(d).push(pairs.last()@));
        assert forall|i: int| 0 <= i < pairs.len() implies pair_views(pairs)[i] == views(
            pairs,
        )[i] by {
            if i < pairs.len() - 1 {
                assert(d[i] == pairs[i]);
                assert(views(d)[i] == d[i]@);
            }
        }
    }
    assert(pair_views(pairs) =~= views(pairs));
}

/// The models of the values are their views, one for one.
pub proof fn lemma_value_views(values: Seq<ElementValue>)
    ensures
        value_views(values) == views(values),
    decreases values.len(),
{
    if values.len() > 0 {
        let d = values.drop_last();
        lemma_value_views(d);
        assert(value_views(values) == value_views(d).push(values.last()@));
        assert forall|i: int| 0 <= i < values.len() implies value_views(values)[i] == views(
            values,
        )[i] by {
            if i < values.len() - 1 {
                assert(d[i] == values[i]);
                assert(views(d)[i] == d[i]@);
            }
        }
    }
    assert(value_views(values) =~= views(values));
}

impl View for Annotation {
    type V = AnnotationView;

    open spec fn view(&self) -> AnnotationView
        decreases self,
    {
        AnnotationView {
            type_index: self.type_index,
            element_value_pairs: pair_views(self.element_value_pairs@),
        }
    }
}

impl View for ElementValuePair {
    type V = ElementValuePairView;

    open spec fn view(&self) -> ElementValuePairView
        decreases self,
    {
        ElementValuePairView { element_name_index: self.element_name_index, value: self.value@ }
    }
}

impl View for ElementValue {
    type V = ElementValueView;

    open spec fn view(&self) -> ElementValueView
        decreases self,
    {
        match self {
            ElementValue::ConstValueIndex(index) => ElementValueView::ConstValueIndex(*index),
            ElementValue::EnumConstValue { type_name_index, const_name_index } => {
                ElementValueView::EnumConstValue {
                    type_name_index: *type_name_index,
                    const_name_index: *const_name_index,
                }
            },
            ElementValue::ClassInfoIndex(index) => ElementValueView::ClassInfoIndex(*index),
            ElementValue::AnnotationValue(annotation) => ElementValueView::AnnotationValue(
                annotation@,
            ),
            ElementValue::ArrayValue(values) => ElementValueView::ArrayValue(value_views(values@)),
        }
    }
}

impl View for RuntimeVisibleAnnotationsAttribute {
    type V = RuntimeVisibleAnnotationsAttributeView;

    open spec fn view(&self) -> RuntimeVisibleAnnotationsAttributeView {
        RuntimeVisibleAnnotationsAttributeView {
            attribute_name_index: self.attribute_name_index,
            attribute_length: self.attribute_length,
            annotations: views(self.annotations@),
        }
    }
}

/// The tag of an enum constant, `e`.
pub const TAG_ENUM: u8 = 101;

/// The tag of a class, `c`.
pub const TAG_CLASS: u8 = 99;

/// The tag of an annotation, `@`.
pub const TAG_ANNOTATION: u8 = 64;

/// The tag of an array, `[`.
pub const TAG_ARRAY: u8 = 91;

/// Whether the tag is one of those of a constant: `B C D F I J S Z s`.
pub open spec fn is_const_tag(tag: u8) -> bool {
    tag == 66 || tag == 67 || tag == 68 || tag == 70 || tag == 73 || tag == 74 || tag == 83 || tag
        == 90 || tag == 115
}

impl AnnotationView {
    /// Whether every index that this holds names an entry of the pool.
    pub open spec fn wf(self, pool: Seq<InfoView>) -> bool
        decreases self,
    {
        &&& valid_index(pool, self.type_index as int)
        &&& forall|i: int|
            0 <= i < self.element_value_pairs.len() ==> valid_index(
                pool,
                (#[trigger] self.element_value_pairs[i]).element_name_index as int,
            ) && self.element_value_pairs[i].value.wf(pool)
    }

    /// One annotation: the index of its type, a count, then that many
    /// pairs of a name and a value.
    pub open spec fn parse(bytes: Seq<u8>, pos: int, pool: Seq<InfoView>) -> Parsed<AnnotationView>
        decreases bytes.len() - pos, 0nat,
    {
        if !avail(bytes, pos, 4) {
            Err(DecodeError::TruncatedInput)
        } else if !valid_index(pool, u16_at(bytes, pos) as int) {
            Err(DecodeError::InvalidIndex)
        } else {
            match Self::parse_pairs(
                bytes,
                pos + 4,
                u16_at(bytes, pos + 2) as nat,
                Seq::empty(),
                pool,
            ) {
                Ok((pairs, next)) => Ok(
                    (
                        AnnotationView {
                            type_index: u16_at(bytes, pos),
                            element_value_pairs: pairs,
                        },
                        next,
                    ),
                ),
                Err(e) => Err(e),
            }
        }
    }

    /// `n` pairs one after the other, added to `acc`: each the index of a
    /// name, then a value, which must end within the bytes and after the
    /// name.
    pub open spec fn parse_pairs(
        bytes: Seq<u8>,
        pos: int,
        n: nat,
        acc: Seq<ElementValuePairView>,
        pool: Seq<InfoView>,
    ) -> Parsed<Seq<ElementValuePairView>>
        decreases bytes.len() - pos, n,
    {
        if n == 0 {
            Ok((acc, pos))
        } else if !avail(bytes, pos, 2) {
            Err(DecodeError::TruncatedInput)
        } else if !valid_index(pool, u16_at(bytes, pos) as int) {
            Err(DecodeError::InvalidIndex)
        } else {
            match ElementValueView::parse(bytes, pos + 2, pool) {
                Ok((value, next)) => if pos + 2 <= next <= bytes.len() {
                    Self::parse_pairs(
                        bytes,
                        next,
                        (n - 1) as nat,
                        acc.push(
                            ElementValuePairView { element_name_index: u16_at(bytes, pos), value },
                        ),
                        pool,
                    )
                } else {
                    Err(DecodeError::TruncatedInput)
                },
                Err(e) => Err(e),
            }
        }
    }

    /// The decoder of one annotation.
    pub open spec fn item(pool: Seq<InfoView>) -> spec_fn(Seq<u8>, int) -> Parsed<AnnotationView> {
        |bytes: Seq<u8>, pos: int| Self::parse(bytes, pos, pool)
    }

    /// The text that `to_string` gives.
    pub open spec fn text(self, pool: Seq<InfoView>) -> Seq<char>
        decreases self, 0nat,
    {
        Self::pairs_text(
            self.element_value_pairs,
            pool,
            "@"@ + resolve(pool, self.type_index as int) + "("@,
            0,
        ) + ")"@
    }

    /// `acc`, followed by the pairs from index `i` on: each the name, an
    /// equals sign, the value, and a comma.
    pub open spec fn pairs_text(
        pairs: Seq<ElementValuePairView>,
        pool: Seq<InfoView>,
        acc: Seq<char>,
        i: int,
    ) -> Seq<char>
        decreases pairs, pairs.len() - i,
    {
        if 0 <= i < pairs.len() {
            Self::pairs_text(
                pairs,
                pool,
                acc + (resolve(pool, pairs[i].element_name_index as int) + " = "@
                    + pairs[i].value.text(pool) + ", "@),
                i + 1,
            )
        } else {
            acc
        }
    }

    /// The part of a listing for one annotation.
    pub open spec fn line(pool: Seq<InfoView>) -> spec_fn(AnnotationView) -> Seq<char> {
        |annotation: AnnotationView| annotation.text(pool) + ", "@
    }
}

impl ElementValueView {
    /// Whether every index that this holds names an entry of the pool.
    pub open spec fn wf(self, pool: Seq<InfoView>) -> bool
        decreases self,
    {
        match self {
            ElementValueView::ConstValueIndex(index) => valid_index(pool, index as int),
            ElementValueView::EnumConstValue { type_name_index, const_name_index } => valid_index(
                pool,
                type_name_index as int,
            ) && valid_index(pool, const_name_index as int),
            ElementValueView::ClassInfoIndex(index) => valid_index(pool, index as int),
            ElementValueView::AnnotationValue(annotation) => annotation.wf(pool),
            ElementValueView::ArrayValue(values) => forall|i: int|
                0 <= i < values.len() ==> (#[trigger] values[i]).wf(pool),
        }
    }

    /// One value: a tag, then an index for a constant or a class, two
    /// indices for an enum constant, an annotation, or a count and that
    /// many values for an array.
    pub open spec fn parse(bytes: Seq<u8>, pos: int, pool: Seq<InfoView>) -> Parsed<ElementValueView>
        decreases bytes.len() - pos, 0nat,
    {
        if !avail(bytes, pos, 1) {
            Err(DecodeError::TruncatedInput)
        } else {
            let tag = bytes[pos];
            if is_const_tag(tag) {
                match spec_index(bytes, pos + 1, pool) {
                    Ok((index, next)) => Ok((ElementValueView::ConstValueIndex(index), next)),
                    Err(e) => Err(e),
                }
            } else if tag == TAG_ENUM {
                if !avail(bytes, pos + 1, 4) {
                    Err(DecodeError::TruncatedInput)
                } else if !valid_index(pool, u16_at(bytes, pos + 1) as int) || !valid_index(
                    pool,
                    u16_at(bytes, pos + 3) as int,
                ) {
                    Err(DecodeError::InvalidIndex)
                } else {
                    Ok(
                        (
                            ElementValueView::EnumConstValue {
                                type_name_index: u16_at(bytes, pos + 1),
                                const_name_index: u16_at(bytes, pos + 3),
                            },
                            pos + 5,
                        ),
                    )
                }
            } else if tag == TAG_CLASS {
                match spec_index(bytes, pos + 1, pool) {
                    Ok((index, next)) => Ok((ElementValueView::ClassInfoIndex(index), next)),
                    Err(e) => Err(e),
                }
            } else if tag == TAG_ANNOTATION {
                match AnnotationView::parse(bytes, pos + 1, pool) {
                    Ok((annotation, next)) => Ok(
                        (ElementValueView::AnnotationValue(annotation), next),
                    ),
                    Err(e) => Err(e),
                }
            } else if tag == TAG_ARRAY {
                if !avail(bytes, pos + 1, 2) {
                    Err(DecodeError::TruncatedInput)
                } else {
                    match Self::parse_values(
                        bytes,
                        pos + 3,
                        u16_at(bytes, pos + 1) as nat,
                        Seq::empty(),
                        pool,
                    ) {
                        Ok((values, next)) => Ok((ElementValueView::ArrayValue(values), next)),
                        Err(e) => Err(e),
                    }
                }
            } else {
                Err(DecodeError::UnknownTag)
            }
        }
    }

    /// `n` values one after the other, added to `acc`. Each must end within
    /// the bytes, no earlier than it began.
    pub open spec fn parse_values(
        bytes: Seq<u8>,
        pos: int,
        n: nat,
        acc: Seq<ElementValueView>,
        pool: Seq<InfoView>,
    ) -> Parsed<Seq<ElementValueView>>
        decreases bytes.len() - pos, n,
    {
        if n == 0 {
            Ok((acc, pos))
        } else {
            match Self::parse(bytes, pos, pool) {
                Ok((value, next)) => if pos <= next <= bytes.len() {
                    Self::parse_values(bytes, next, (n - 1) as nat, acc.push(value), pool)
                } else {
                    Err(DecodeError::TruncatedInput)
                },
                Err(e) => Err(e),
            }
        }
    }

    /// The text that `to_string` gives.
    pub open spec fn text(self, pool: Seq<InfoView>) -> Seq<char>
        decreases self, 0nat,
    {
        match self {
            ElementValueView::ConstValueIndex(index) => resolve(pool, index as int),
            ElementValueView::EnumConstValue { type_name_index, const_name_index } => resolve(
                pool,
                type_name_index as int,
            ) + "::"@ + resolve(pool, const_name_index as int),
            ElementValueView::ClassInfoIndex(index) => resolve(pool, index as int),
            ElementValueView::AnnotationValue(annotation) => annotation.text(pool),
            ElementValueView::ArrayValue(values) => Self::values_text(values, pool, "{"@, 0) + "}"@,
        }
    }

    /// `acc`, followed by the values from index `i` on, each with a comma
    /// after it.
    pub open spec fn values_text(
        values: Seq<ElementValueView>,
        pool: Seq<InfoView>,
        acc: Seq<char>,
        i: int,
    ) -> Seq<char>
        decreases values, values.len() - i,
    {
        if 0 <= i < values.len() {
            Self::values_text(values, pool, acc + (values[i].text(pool) + ", "@), i + 1)
        } else {
            acc
        }
    }
}

impl RuntimeVisibleAnnotationsAttributeView {
    /// The content: a count, then that many annotations.
    pub open spec fn parse(bytes: Seq<u8>, pos: int, start: AttStart, pool: Seq<InfoView>) -> Parsed<
        RuntimeVisibleAnnotationsAttributeView,
    > {
        match parse_counted(AnnotationView::item(pool), bytes, pos) {
            Ok((annotations, next)) => Ok(
                (
                    RuntimeVisibleAnnotationsAttributeView {
                        attribute_name_index: start.attribute_name_index,
                        attribute_length: start.attribute_length,
                        annotations,
                    },
                    next,
                ),
            ),
            Err(e) => Err(e),
        }
    }

    /// Whether every index that this holds names an entry of the pool.
    pub open spec fn wf(self, pool: Seq<InfoView>) -> bool {
        &&& valid_index(pool, self.attribute_name_index as int)
        &&& forall|i: int|
            0 <= i < self.annotations.len() ==> (#[trigger] self.annotations[i]).wf(pool)
    }

    /// The text that `to_string` gives.
    pub open spec fn text(self, pool: Seq<InfoView>) -> Seq<char> {
        concat_each("RuntimeVisibleAnnotations: "@, self.annotations, 0, AnnotationView::line(pool))
    }
}

impl Annotation {
    /// Reads one annotation.
    #[verifier::loop_isolation(false)]
    pub fn parse(file: &mut FileReader, cp: &ConstantPool) -> (r: Result<Annotation, DecodeError>)
        ensures
            decoded(
                *old(file),
                *final(file),
                r,
                AnnotationView::parse(old(file).bytes(), old(file).pos(), cp@),
            ),
            r is Ok ==> r->Ok_0@.wf(cp@),
        decreases old(file).remaining(),
    {
        file.need(4)?;
        let type_index = cp.read_index(file)?;
        let num_pairs = file.read_u2_to_u16()?;
        let mut element_value_pairs: Vec<ElementValuePair> = Vec::new();
        let mut i: u16 = 0;
        while i < num_pairs
            invariant
                i <= num_pairs,
                file.bytes() == old(file).bytes(),
                old(file).pos() + 4 <= file.pos() <= file.bytes().len(),
                AnnotationView::parse_pairs(
                    file.bytes(),
                    file.pos(),
                    (num_pairs - i) as nat,
                    views(element_value_pairs@),
                    cp@,
                ) == AnnotationView::parse_pairs(
                    old(file).bytes(),
                    old(file).pos() + 4,
                    num_pairs as nat,
                    Seq::empty(),
                    cp@,
                ),
                forall|j: int|
                    0 <= j < element_value_pairs@.len() ==> valid_index(
                        cp@,
                        (#[trigger] element_value_pairs@[j]).element_name_index as int,
                    ) && element_value_pairs@[j].value@.wf(cp@),
            decreases num_pairs - i,
        {
            let element_name_index = cp.read_index(file)?;
            let value = ElementValue::parse(file, cp)?;
            element_value_pairs.push(ElementValuePair { element_name_index, value });
            i += 1;
        }
        let annotation = Annotation { type_index, element_value_pairs };
        proof {
            lemma_pair_views(annotation.element_value_pairs@);
        }
        Ok(annotation)
    }

    /// The text of this, as a dump shows it.
    #[verifier::loop_isolation(false)]
    pub fn to_string(&self, cp: &ConstantPool) -> (r: String)
        requires
            pool_wf(cp@),
            self@.wf(cp@),
        ensures
            r@ == self@.text(cp@),
        decreases self,
    {
        proof {
            lemma_pair_views(self.element_value_pairs@);
        }
        let mut s = String::from_str("@");
        s.append(cp.get_to_string(self.type_index).as_str());
        s.append("(");
        let mut i: usize = 0;
        while i < self.element_value_pairs.len()
            invariant
                i <= self.element_value_pairs.len(),
                AnnotationView::pairs_text(self@.element_value_pairs, cp@, s@, i as int) + ")"@
                    == self@.text(cp@),
            decreases self.element_value_pairs.len() - i,
        {
            let pair = &self.element_value_pairs[i];
            assert(self@.element_value_pairs[i as int] == pair@);
            let mut line = cp.get_to_string(pair.element_name_index);
            line.append(" = ");
            line.append(pair.value.to_string(cp).as_str());
            line.append(", ");
            s.append(line.as_str());
            i += 1;
        }
        s.append(")");
        s
    }
}

impl ElementValue {
    fn is_const_tag(tag: u8) -> (b: bool)
        ensures
            b == is_const_tag(tag),
    {
        tag == 66 || tag == 67 || tag == 68 || tag == 70 || tag == 73 || tag == 74 || tag == 83
            || tag == 90 || tag == 115
    }

    /// Reads one value.
    #[verifier::loop_isolation(false)]
    #[verifier::rlimit(40)]
    pub fn parse(file: &mut FileReader, cp: &ConstantPool) -> (r: Result<ElementValue, DecodeError>)
        ensures
            decoded(
                *old(file),
                *final(file),
                r,
                ElementValueView::parse(old(file).bytes(), old(file).pos(), cp@),
            ),
            r is Ok ==> r->Ok_0@.wf(cp@),
        decreases old(file).remaining(),
    {
        let tag = file.read_u1()?;
        if Self::is_const_tag(tag) {
            Ok(ElementValue::ConstValueIndex(cp.read_index(file)?))
        } else if tag == TAG_ENUM {
            file.need(4)?;
            let type_name_index = cp.read_index(file)?;
            let const_name_index = cp.read_index(file)?;
            Ok(ElementValue::EnumConstValue { type_name_index, const_name_index })
        } else if tag == TAG_CLASS {
            Ok(ElementValue::ClassInfoIndex(cp.read_index(file)?))
        } else if tag == TAG_ANNOTATION {
            let annotation = Annotation::parse(file, cp)?;
            Ok(ElementValue::AnnotationValue(annotation))
        } else if tag == TAG_ARRAY {
            let num_values = file.read_u2_to_u16()?;
            let mut values: Vec<ElementValue> = Vec::new();
            let mut i: u16 = 0;
            while i < num_values
                invariant
                    i <= num_values,
                    file.bytes() == old(file).bytes(),
                    old(file).pos() + 3 <= file.pos() <= file.bytes().len(),
                    ElementValueView::parse_values(
                        file.bytes(),
                        file.pos(),
                        (num_values - i) as nat,
                        views(values@),
                        cp@,
                    ) == ElementValueView::parse_values(
                        old(file).bytes(),
                        old(file).pos() + 3,
                        num_values as nat,
                        Seq::empty(),
                        cp@,
                    ),
                    forall|j: int| 0 <= j < values@.len() ==> (#[trigger] values@[j])@.wf(cp@),
                decreases num_values - i,
            {
                let value = ElementValue::parse(file, cp)?;
                values.push(value);
                i += 1;
            }
            proof {
                lemma_value_views(values@);
            }
            Ok(ElementValue::ArrayValue(values))
        } else {
            Err(DecodeError::UnknownTag)
        }
    }

    /// The text of this, as a dump shows it.
    #[verifier::loop_isolation(false)]
    pub fn to_string(&self, cp: &ConstantPool) -> (r: String)
        requires
            pool_wf(cp@),
            self@.wf(cp@),
        ensures
            r@ == self@.text(cp@),
        decreases self,
    {
        match self {
            ElementValue::ConstValueIndex(index) => cp.get_to_string(*index),
            ElementValue::EnumConstValue { type_name_index, const_name_index } => {
                let mut s = cp.get_to_string(*type_name_index);
                s.append("::");
                s.append(cp.get_to_string(*const_name_index).as_str());
                s
            },
            ElementValue::ClassInfoIndex(index) => cp.get_to_string(*index),
            ElementValue::AnnotationValue(annotation) => annotation.to_string(cp),
            ElementValue::ArrayValue(values) => {
                proof {
                    lemma_value_views(values@);
                }
                let mut s = String::from_str("{");
                let mut i: usize = 0;
                while i < values.len()
                    invariant
                        i <= values.len(),
                        ElementValueView::values_text(
                            self@->ArrayValue_0,
                            cp@,
                            s@,
                            i as int,
                        ) + "}"@ == self@.text(cp@),
                    decreases values.len() - i,
                {
                    assert(self@->ArrayValue_0[i as int] == values@[i as int]@);
                    let mut line = values[i].to_string(cp);
                    line.append(", ");
                    s.append(line.as_str());
                    i += 1;
                }
                s.append("}");
                s
            },
        }
    }
}

impl RuntimeVisibleAnnotationsAttribute {
    /// Reads the content of the attribute.
    #[verifier::loop_isolation(false)]
    pub fn parse(file: &mut FileReader, att_start: &AttStart, cp: &ConstantPool) -> (r: Result<
        RuntimeVisibleAnnotationsAttribute,
        DecodeError,
    >)
        requires
            valid_index(cp@, att_start.attribute_name_index as int),
        ensures
            decoded(
                *old(file),
                *final(file),
                r,
                RuntimeVisibleAnnotationsAttributeView::parse(
                    old(file).bytes(),
                    old(file).pos(),
                    *att_start,
                    cp@,
                ),
            ),
            r is Ok ==> r->Ok_0@.wf(cp@),
    {
        let num_annotations = file.read_u2_to_u16()?;
        let mut annotations: Vec<Annotation> = Vec::new();
        let mut i: u16 = 0;
        while i < num_annotations
            invariant
                i <= num_annotations,
                file.bytes() == old(file).bytes(),
                old(file).pos() <= file.pos() <= file.bytes().len(),
                parse_each(
                    AnnotationView::item(cp@),
                    file.bytes(),
                    file.pos(),
                    (num_annotations - i) as nat,
                    views(annotations@),
                ) == parse_each(
                    AnnotationView::item(cp@),
                    old(file).bytes(),
                    old(file).pos() + 2,
                    num_annotations as nat,
                    Seq::empty(),
                ),
                forall|j: int| 0 <= j < annotations@.len() ==> (#[trigger] annotations@[j])@.wf(cp@),
            decreases num_annotations - i,
        {
            let annotation = Annotation::parse(file, cp)?;
            annotations.push(annotation);
            i += 1;
        }
        Ok(
            RuntimeVisibleAnnotationsAttribute {
                attribute_name_index: att_start.attribute_name_index,
                attribute_length: att_start.attribute_length,
                annotations,
            },
        )
    }

    /// The text of this, as a dump shows it.
    #[verifier::loop_isolation(false)]
    pub fn to_string(&self, cp: &ConstantPool) -> (r: String)
        requires
            pool_wf(cp@),
            self@.wf(cp@),
        ensures
            r@ == self@.text(cp@),
    {
        let mut s = String::from_str("RuntimeVisibleAnnotations: ");
        let mut i: usize = 0;
        while i < self.annotations.len()
            invariant
                i <= self.annotations.len(),
                concat_each(s@, self@.annotations, i as int, AnnotationView::line(cp@))
                    == self@.text(cp@),
            decreases self.annotations.len() - i,
        {
            assert(self@.annotations[i as int].wf(cp@));
            let mut line = self.annotations[i].to_string(cp);
            line.append(", ");
            s.append(line.as_str());
            i += 1;
        }
        s
    }
}

} // verus!
