use vstd::prelude::*;
use vstd::string::*;

use crate::class_file::attributes::bootstrap_methods_attribute::{
    BootstrapMethodsAttribute, BootstrapMethodsAttributeView,
};
use crate::class_file::attributes::deprecated_attribute::DeprecatedAttribute;
use crate::class_file::attributes::exceptions_attribute::{
    ExceptionsAttribute, ExceptionsAttributeView,
};
use crate::class_file::attributes::generic_attribute::{GenericAttribute, GenericAttributeView};
use crate::class_file::attributes::inner_classes_attribute::{
    InnerClassesAttribute, InnerClassesAttributeView,
};
use crate::class_file::attributes::line_number_table_attribute::{
    LineNumberTableAttribute, LineNumberTableAttributeView,
};
use crate::class_file::attributes::method_parameters_attribute::{
    MethodParametersAttribute, MethodParametersAttributeView,
};
use crate::class_file::attributes::record_attribute::{RecordAttribute, RecordAttributeView};
use crate::class_file::attributes::runtime_visible_annotations_attribute::{
    RuntimeVisibleAnnotationsAttribute, RuntimeVisibleAnnotationsAttributeView,
};
use crate::class_file::attributes::signature_attribute::SignatureAttribute;
use crate::class_file::attributes::source_file_attribute::SourceFileAttribute;
use crate::class_file::attributes::stack_map_table_attribute::{
    StackMapTableAttribute, StackMapTableAttributeView,
};
use crate::class_file::code_attribute::{CodeAttribute, CodeAttributeView};
use crate::class_file::constant_pool::{resolve, valid_index, pool_wf, ConstantPool, InfoView};
use crate::class_file::error::DecodeError;
use crate::class_file::file_reader::{avail, decoded, mapped, u16_at, u32_at, FileReader, Parsed};
use crate::class_file::text::{lemma_views_empty, lemma_views_push, str_eq, views};

verus! {

broadcast use {lemma_views_push, lemma_views_empty, FileReader::lemma_in_bounds};

/// What every attribute begins with: the index of its name and the length
/// of what follows.
#[derive(Clone, Copy, Debug, PartialEq, Eq, Structural)]
pub struct AttStart {
    pub attribute_name_index: u16,
    pub attribute_length: u32,
}

/// The attributes of a class, a field, a method, a code block or a record
/// component, in file order.
#[derive(Debug)]
pub struct Attributes {
    pub attributes: Vec<Attribute>,
}

#[derive(Debug)]
pub enum Attribute {
    Code(CodeAttribute),
    SourceFile(SourceFileAttribute),
    LineNumberTable(LineNumberTableAttribute),
    StackMapTable(StackMapTableAttribute),
    Deprecated(DeprecatedAttribute),
    Exceptions(ExceptionsAttribute),
    RuntimeVisibleAnnotationsAttribute(RuntimeVisibleAnnotationsAttribute),
    RecordAttribute(RecordAttribute),
    InnerClassesAttribute(InnerClassesAttribute),
    MethodParametersAttribute(MethodParametersAttribute),
    BootstrapMethodsAttribute(BootstrapMethodsAttribute),
    SignatureAttribute(SignatureAttribute),
    GenericAttribute(GenericAttribute),
}

/// The model of [`Attributes`].
pub ghost struct AttributesView {
    pub attributes: Seq<AttributeView>,
}

/// The model of [`Attribute`].
pub ghost enum AttributeView {
    Code(CodeAttributeView),
    SourceFile(SourceFileAttribute),
    LineNumberTable(LineNumberTableAttributeView),
    StackMapTable(StackMapTableAttributeView),
    Deprecated(DeprecatedAttribute),
    Exceptions(ExceptionsAttributeView),
    RuntimeVisibleAnnotationsAttribute(RuntimeVisibleAnnotationsAttributeView),
    RecordAttribute(RecordAttributeView),
    InnerClassesAttribute(InnerClassesAttributeView),
    MethodParametersAttribute(MethodParametersAttributeView),
    BootstrapMethodsAttribute(BootstrapMethodsAttributeView),
    SignatureAttribute(SignatureAttribute),
    GenericAttribute(GenericAttributeView),
}

impl View for AttStart {
    type V = AttStart;

    open spec fn view(&self) -> AttStart {
        *self
    }
}

/// The models of the attributes, in order.
pub open spec fn attribute_views(attributes: Seq<Attribute>) -> Seq<AttributeView>
    decreases attributes,
{
    if attributes.len() == 0 {
        Seq::empty()
    } else {
        attribute_views(attributes.drop_last()).push(attributes.last()@)
    }
}

/// The models of the attributes are their views, one for one.
pub proof fn lemma_attribute_views(attributes: Seq<Attribute>)
    ensures
        attribute_views(attributes) == views(attributes),
    decreases attributes.len(),
{
    if attributes.len() > 0 {
        let d = attributes.drop_last();
        lemma_attribute_views(d);
        assert(attribute_views(attributes) == attribute_views(d).push(attributes.last()@));
        assert forall|i: int| 0 <= i < attributes.len() implies attribute_views(attributes)[i]
            == views(attributes)[i] by {
            if i < attributes.len() - 1 {
                assert(d[i] == attributes[i]);
                assert(views(d)[i] == d[i]@);
            }
        }
    }
    assert(attribute_views(attributes) =~= views(attributes));
}

impl View for Attributes {
    type V = AttributesView;

    open spec fn view(&self) -> AttributesView
        decreases self,
    {
        AttributesView { attributes: attribute_views(self.attributes@) }
    }
}

impl View for Attribute {
    type V = AttributeView;

    open spec fn view(&self) -> AttributeView
        decreases self,
    {
        match self {
            Attribute::Code(a) => AttributeView::Code(a@),
            Attribute::SourceFile(a) => AttributeView::SourceFile(*a),
            Attribute::LineNumberTable(a) => AttributeView::LineNumberTable(a@),
            Attribute::StackMapTable(a) => AttributeView::StackMapTable(a@),
            Attribute::Deprecated(a) => AttributeView::Deprecated(*a),
            Attribute::Exceptions(a) => AttributeView::Exceptions(a@),
            Attribute::RuntimeVisibleAnnotationsAttribute(a) => {
                AttributeView::RuntimeVisibleAnnotationsAttribute(a@)
            },
            Attribute::RecordAttribute(a) => AttributeView::RecordAttribute(a@),
            Attribute::InnerClassesAttribute(a) => AttributeView::InnerClassesAttribute(a@),
            Attribute::MethodParametersAttribute(a) => AttributeView::MethodParametersAttribute(a@),
            Attribute::BootstrapMethodsAttribute(a) => AttributeView::BootstrapMethodsAttribute(a@),
            Attribute::SignatureAttribute(a) => AttributeView::SignatureAttribute(*a),
            Attribute::GenericAttribute(a) => AttributeView::GenericAttribute(a@),
        }
    }
}

impl AttStart {
    /// The start of an attribute: the name's index, which must name an
    /// entry of the pool, and a length that the input must still hold.
    pub open spec fn spec_parse(bytes: Seq<u8>, pos: int, pool: Seq<InfoView>) -> Parsed<AttStart> {
        if !avail(bytes, pos, 6) {
            Err(DecodeError::TruncatedInput)
        } else if !valid_index(pool, u16_at(bytes, pos) as int) {
            Err(DecodeError::InvalidIndex)
        } else if !avail(bytes, pos + 6, u32_at(bytes, pos + 2) as int) {
            Err(DecodeError::TruncatedInput)
        } else {
            Ok(
                (
                    AttStart {
                        attribute_name_index: u16_at(bytes, pos),
                        attribute_length: u32_at(bytes, pos + 2),
                    },
                    pos + 6,
                ),
            )
        }
    }

    /// Reads the start of an attribute.
    pub fn parse(file: &mut FileReader, cp: &ConstantPool) -> (r: Result<AttStart, DecodeError>)
        ensures
            decoded(
                *old(file),
                *final(file),
                r,
                Self::spec_parse(old(file).bytes(), old(file).pos(), cp@),
            ),
    {
        file.need(6)?;
        let attribute_name_index = cp.read_index(file)?;
        let attribute_length = file.read_u4_to_u32()?;
        file.need(attribute_length as usize)?;
        Ok(AttStart { attribute_name_index, attribute_length })
    }
}

impl AttributeView {
    /// Whether every index that this holds names an entry of the pool.
    pub open spec fn wf(self, pool: Seq<InfoView>) -> bool
        decreases self,
    {
        match self {
            AttributeView::Code(a) => a.wf(pool),
            AttributeView::SourceFile(a) => a.wf(pool),
            AttributeView::LineNumberTable(a) => a.wf(pool),
            AttributeView::StackMapTable(a) => a.wf(pool),
            AttributeView::Deprecated(a) => a.wf(pool),
            AttributeView::Exceptions(a) => a.wf(pool),
            AttributeView::RuntimeVisibleAnnotationsAttribute(a) => a.wf(pool),
            AttributeView::RecordAttribute(a) => a.wf(pool),
            AttributeView::InnerClassesAttribute(a) => a.wf(pool),
            AttributeView::MethodParametersAttribute(a) => a.wf(pool),
            AttributeView::BootstrapMethodsAttribute(a) => a.wf(pool),
            AttributeView::SignatureAttribute(a) => a.wf(pool),
            AttributeView::GenericAttribute(a) => a.wf(pool),
        }
    }

    /// The content of an attribute, which its name decides. `body` holds
    /// the bytes of the content and nothing else.
    pub open spec fn parse_body(body: Seq<u8>, start: AttStart, pool: Seq<InfoView>) -> Parsed<
        AttributeView,
    >
        decreases body.len(), 1nat,
    {
        let name = resolve(pool, start.attribute_name_index as int);
        if name == "Code"@ {
            mapped(
                CodeAttributeView::parse(body, 0, start, pool),
                |a: CodeAttributeView| AttributeView::Code(a),
            )
        } else if name == "SourceFile"@ {
            mapped(
                SourceFileAttribute::spec_parse(body, 0, start, pool),
                |a: SourceFileAttribute| AttributeView::SourceFile(a),
            )
        } else if name == "LineNumberTable"@ {
            mapped(
                LineNumberTableAttributeView::parse(body, 0, start),
                |a: LineNumberTableAttributeView| AttributeView::LineNumberTable(a),
            )
        } else if name == "StackMapTable"@ {
            mapped(
                StackMapTableAttributeView::parse(body, 0, start, pool),
                |a: StackMapTableAttributeView| AttributeView::StackMapTable(a),
            )
        } else if name == "Deprecated"@ {
            mapped(
                DeprecatedAttribute::spec_parse(body, 0, start),
                |a: DeprecatedAttribute| AttributeView::Deprecated(a),
            )
        } else if name == "Exceptions"@ {
            mapped(
                ExceptionsAttributeView::parse(body, 0, start, pool),
                |a: ExceptionsAttributeView| AttributeView::Exceptions(a),
            )
        } else if name == "RuntimeVisibleAnnotations"@ {
            mapped(
                RuntimeVisibleAnnotationsAttributeView::parse(body, 0, start, pool),
                |a: RuntimeVisibleAnnotationsAttributeView|
                    AttributeView::RuntimeVisibleAnnotationsAttribute(a),
            )
        } else if name == "Record"@ {
            mapped(
                RecordAttributeView::parse(body, 0, start, pool),
                |a: RecordAttributeView| AttributeView::RecordAttribute(a),
            )
        } else if name == "InnerClasses"@ {
            mapped(
                InnerClassesAttributeView::parse(body, 0, start, pool),
                |a: InnerClassesAttributeView| AttributeView::InnerClassesAttribute(a),
            )
        } else if name == "MethodParameters"@ {
            mapped(
                MethodParametersAttributeView::parse(body, 0, start, pool),
                |a: MethodParametersAttributeView| AttributeView::MethodParametersAttribute(a),
            )
        } else if name == "BootstrapMethods"@ {
            mapped(
                BootstrapMethodsAttributeView::parse(body, 0, start, pool),
                |a: BootstrapMethodsAttributeView| AttributeView::BootstrapMethodsAttribute(a),
            )
        } else if name == "Signature"@ {
            mapped(
                SignatureAttribute::spec_parse(body, 0, start, pool),
                |a: SignatureAttribute| AttributeView::SignatureAttribute(a),
            )
        } else {
            mapped(
                GenericAttributeView::parse(body, 0, start),
                |a: GenericAttributeView| AttributeView::GenericAttribute(a),
            )
        }
    }

    /// The listing of the attribute.
    pub open spec fn text(self, pool: Seq<InfoView>) -> Seq<char>
        decreases self, 0nat,
    {
        match self {
            AttributeView::Code(a) => a.text(pool),
            AttributeView::SourceFile(a) => "SourceFile "@ + a.text(pool) + "\n"@,
            AttributeView::LineNumberTable(a) => a.text(),
            AttributeView::StackMapTable(a) => a.text(pool),
            AttributeView::Deprecated(a) => a.text(),
            AttributeView::Exceptions(a) => a.text(pool),
            AttributeView::RuntimeVisibleAnnotationsAttribute(a) => a.text(pool),
            AttributeView::RecordAttribute(a) => a.text(pool),
            AttributeView::InnerClassesAttribute(a) => a.text(pool),
            AttributeView::MethodParametersAttribute(a) => a.text(pool),
            AttributeView::BootstrapMethodsAttribute(a) => a.text(pool),
            AttributeView::SignatureAttribute(a) => a.text(pool),
            AttributeView::GenericAttribute(a) => a.text(pool),
        }
    }
}

/// The texts of the entries that the indices name, in order.
pub open spec fn resolved(pool: Seq<InfoView>, indices: Seq<u16>) -> Seq<Seq<char>> {
    Seq::new(indices.len(), |i: int| resolve(pool, indices[i] as int))
}

impl AttributesView {
    /// Whether every index that this holds names an entry of the pool.
    pub open spec fn wf(self, pool: Seq<InfoView>) -> bool
        decreases self,
    {
        forall|i: int| 0 <= i < self.attributes.len() ==> (#[trigger] self.attributes[i]).wf(pool)
    }

    /// A set of attributes: a count, then that many attributes.
    pub open spec fn parse(bytes: Seq<u8>, pos: int, pool: Seq<InfoView>) -> Parsed<AttributesView>
        decreases bytes.len() - pos, 0nat,
    {
        if !avail(bytes, pos, 2) {
            Err(DecodeError::TruncatedInput)
        } else {
            mapped(
                Self::parse_list(bytes, pos + 2, u16_at(bytes, pos) as nat, Seq::empty(), pool),
                |attributes: Seq<AttributeView>| AttributesView { attributes },
            )
        }
    }

    /// `n` attributes one after the other, added to `acc`. Each has a
    /// start, then a content that fills the length of the start exactly.
    pub open spec fn parse_list(
        bytes: Seq<u8>,
        pos: int,
        n: nat,
        acc: Seq<AttributeView>,
        pool: Seq<InfoView>,
    ) -> Parsed<Seq<AttributeView>>
        decreases bytes.len() - pos, n,
    {
        if n == 0 {
            Ok((acc, pos))
        } else {
            match AttStart::spec_parse(bytes, pos, pool) {
                Err(e) => Err(e),
                Ok((start, _)) => {
                    let end = pos + 6 + start.attribute_length;
                    match AttributeView::parse_body(bytes.subrange(pos + 6, end), start, pool) {
                        Err(e) => Err(e),
                        Ok((attribute, used)) => if used != start.attribute_length {
                            Err(DecodeError::LengthMismatch)
                        } else {
                            Self::parse_list(bytes, end, (n - 1) as nat, acc.push(attribute), pool)
                        },
                    }
                },
            }
        }
    }

    /// The listing of the attributes.
    pub open spec fn text(self, pool: Seq<InfoView>) -> Seq<char>
        decreases self, 0nat,
    {
        Self::list_text(self.attributes, pool, "Attributes\n"@, 0)
    }

    /// `acc`, followed by the listings of the attributes from index `i` on.
    pub open spec fn list_text(
        attributes: Seq<AttributeView>,
        pool: Seq<InfoView>,
        acc: Seq<char>,
        i: int,
    ) -> Seq<char>
        decreases attributes, attributes.len() - i,
    {
        if 0 <= i < attributes.len() {
            Self::list_text(attributes, pool, acc + attributes[i].text(pool), i + 1)
        } else {
            acc
        }
    }

    /// The name of the source file that the first attribute of that kind
    /// from index `i` on gives, if there is one.
    pub open spec fn source_file(self, pool: Seq<InfoView>, i: int) -> Option<Seq<char>>
        decreases self.attributes.len() - i,
    {
        if 0 <= i < self.attributes.len() {
            match self.attributes[i] {
                AttributeView::SourceFile(a) => Some(a.text(pool)),
                _ => self.source_file(pool, i + 1),
            }
        } else {
            None
        }
    }

    /// `acc`, followed by the names of the exceptions that the attributes
    /// of that kind from index `i` on list.
    pub open spec fn checked_exceptions(
        self,
        pool: Seq<InfoView>,
        acc: Seq<Seq<char>>,
        i: int,
    ) -> Seq<Seq<char>>
        decreases self.attributes.len() - i,
    {
        if 0 <= i < self.attributes.len() {
            match self.attributes[i] {
                AttributeView::Exceptions(e) => self.checked_exceptions(
                    pool,
                    acc + resolved(pool, e.exception_index_table),
                    i + 1,
                ),
                _ => self.checked_exceptions(pool, acc, i + 1),
            }
        } else {
            acc
        }
    }
}

impl Attribute {
    /// Reads the content of an attribute from a reader that holds the
    /// content and nothing else.
    #[verifier::rlimit(40)]
    fn parse(file: &mut FileReader, att_start: &AttStart, cp: &ConstantPool) -> (r: Result<
        Attribute,
        DecodeError,
    >)
        requires
            pool_wf(cp@),
            valid_index(cp@, att_start.attribute_name_index as int),
            old(file).pos() == 0,
        ensures
            decoded(
                *old(file),
                *final(file),
                r,
                AttributeView::parse_body(old(file).bytes(), *att_start, cp@),
            ),
            r is Ok ==> r->Ok_0@.wf(cp@),
        decreases old(file).remaining(), 1nat,
    {
        let name = cp.get_to_string(att_start.attribute_name_index);
        if str_eq(name.as_str(), "Code") {
            Ok(Attribute::Code(CodeAttribute::parse(file, att_start, cp)?))
        } else if str_eq(name.as_str(), "SourceFile") {
            Ok(Attribute::SourceFile(SourceFileAttribute::parse(file, att_start, cp)?))
        } else if str_eq(name.as_str(), "LineNumberTable") {
            Ok(Attribute::LineNumberTable(LineNumberTableAttribute::parse(file, att_start)?))
        } else if str_eq(name.as_str(), "StackMapTable") {
            Ok(Attribute::StackMapTable(StackMapTableAttribute::parse(file, att_start, cp)?))
        } else if str_eq(name.as_str(), "Deprecated") {
            Ok(Attribute::Deprecated(DeprecatedAttribute::parse(file, att_start)?))
        } else if str_eq(name.as_str(), "Exceptions") {
            Ok(Attribute::Exceptions(ExceptionsAttribute::parse(file, att_start, cp)?))
        } else if str_eq(name.as_str(), "RuntimeVisibleAnnotations") {
            Ok(
                Attribute::RuntimeVisibleAnnotationsAttribute(
                    RuntimeVisibleAnnotationsAttribute::parse(file, att_start, cp)?,
                ),
            )
        } else if str_eq(name.as_str(), "Record") {
            Ok(Attribute::RecordAttribute(RecordAttribute::parse(file, att_start, cp)?))
        } else if str_eq(name.as_str(), "InnerClasses") {
            Ok(Attribute::InnerClassesAttribute(InnerClassesAttribute::parse(file, att_start, cp)?))
        } else if str_eq(name.as_str(), "MethodParameters") {
            Ok(
                Attribute::MethodParametersAttribute(
                    MethodParametersAttribute::parse(file, att_start, cp)?,
                ),
            )
        } else if str_eq(name.as_str(), "BootstrapMethods") {
            Ok(
                Attribute::BootstrapMethodsAttribute(
                    BootstrapMethodsAttribute::parse(file, att_start, cp)?,
                ),
            )
        } else if str_eq(name.as_str(), "Signature") {
            Ok(Attribute::SignatureAttribute(SignatureAttribute::parse(file, att_start, cp)?))
        } else {
            Ok(Attribute::GenericAttribute(GenericAttribute::parse(file, att_start)?))
        }
    }

    /// The text of this, as a dump shows it.
    pub fn to_string(&self, cp: &ConstantPool) -> (r: String)
        requires
            pool_wf(cp@),
            self@.wf(cp@),
        ensures
            r@ == self@.text(cp@),
        decreases self, 0nat,
    {
        match self {
            Attribute::GenericAttribute(att) => att.to_string(cp),
            Attribute::SourceFile(att) => {
                let mut s = String::from_str("SourceFile ");
                s.append(att.to_string(cp).as_str());
                s.append("\n");
                s
            },
            Attribute::Code(att) => att.to_string(cp),
            Attribute::LineNumberTable(att) => att.to_string(cp),
            Attribute::StackMapTable(att) => att.to_string(cp),
            Attribute::Deprecated(att) => att.to_string(cp),
            Attribute::Exceptions(att) => att.to_string(cp),
            Attribute::RuntimeVisibleAnnotationsAttribute(att) => att.to_string(cp),
            Attribute::RecordAttribute(att) => att.to_string(cp),
            Attribute::InnerClassesAttribute(att) => att.to_string(cp),
            Attribute::MethodParametersAttribute(att) => att.to_string(cp),
            Attribute::BootstrapMethodsAttribute(att) => att.to_string(cp),
            Attribute::SignatureAttribute(att) => att.to_string(cp),
        }
    }
}

impl Attributes {
    /// Reads a set of attributes.
    #[verifier::loop_isolation(false)]
    pub fn from(file: &mut FileReader, cp: &ConstantPool) -> (r: Result<Attributes, DecodeError>)
        requires
            pool_wf(cp@),
        ensures
            decoded(
                *old(file),
                *final(file),
                r,
                AttributesView::parse(old(file).bytes(), old(file).pos(), cp@),
            ),
            r is Ok ==> r->Ok_0@.wf(cp@),
        decreases old(file).remaining(), 0nat,
    {
        let mut attributes: Vec<Attribute> = Vec::new();
        let attributes_count = file.read_u2_to_u16()?;
        let mut i: u16 = 0;
        while i < attributes_count
            invariant
                i <= attributes_count,
                file.bytes() == old(file).bytes(),
                old(file).pos() + 2 <= file.pos() <= file.bytes().len(),
                AttributesView::parse_list(
                    file.bytes(),
                    file.pos(),
                    (attributes_count - i) as nat,
                    views(attributes@),
                    cp@,
                ) == AttributesView::parse_list(
                    old(file).bytes(),
                    old(file).pos() + 2,
                    attributes_count as nat,
                    Seq::empty(),
                    cp@,
                ),
                forall|j: int| 0 <= j < attributes@.len() ==> (#[trigger] attributes@[j])@.wf(cp@),
            decreases attributes_count - i,
        {
            let att_start = AttStart::parse(file, cp)?;
            let mut body = file.sub_reader(att_start.attribute_length as usize)?;
            let att = Attribute::parse(&mut body, &att_start, cp)?;
            if !body.is_at_end() {
                return Err(DecodeError::LengthMismatch);
            }
            attributes.push(att);
            i += 1;
        }
        proof {
            lemma_attribute_views(attributes@);
        }
        Ok(Attributes { attributes })
    }

    /// The text of this, as a dump shows it.
    #[verifier::loop_isolation(false)]
    pub fn to_string(&self, cp: &ConstantPool) -> (r: String)
        requires
            pool_wf(cp@),
            self@.wf(cp@),
        ensures
            r@ == self@.text(cp@),
        decreases self, 1nat,
    {
        proof {
            lemma_attribute_views(self.attributes@);
        }
        let mut s = String::from_str("Attributes\n");
        let mut i: usize = 0;
        while i < self.attributes.len()
            invariant
                i <= self.attributes.len(),
                AttributesView::list_text(self@.attributes, cp@, s@, i as int) == self@.text(cp@),
            decreases self.attributes.len() - i,
        {
            assert(self@.attributes[i as int].wf(cp@));
            s.append(self.attributes[i].to_string(cp).as_str());
            i += 1;
        }
        s
    }

    /// The name of the source file, where an attribute gives it.
    #[verifier::loop_isolation(false)]
    pub fn get_source_file(&self, cp: &ConstantPool) -> (r: Option<String>)
        requires
            pool_wf(cp@),
            self@.wf(cp@),
        ensures
            r is Some == self@.source_file(cp@, 0) is Some,
            r is Some ==> r->Some_0@ == self@.source_file(cp@, 0)->Some_0,
    {
        proof {
            lemma_attribute_views(self.attributes@);
        }
        let mut i: usize = 0;
        while i < self.attributes.len()
            invariant
                i <= self.attributes.len(),
                self@.source_file(cp@, i as int) == self@.source_file(cp@, 0),
            decreases self.attributes.len() - i,
        {
            assert(self@.attributes[i as int].wf(cp@));
            match &self.attributes[i] {
                Attribute::SourceFile(att) => {
                    return Some(att.to_string(cp));
                },
                _ => {},
            }
            i += 1;
        }
        None
    }

    /// The names of the checked exceptions that the attributes list.
    #[verifier::loop_isolation(false)]
    pub fn get_checked_exceptions(&self, cp: &ConstantPool) -> (r: Vec<String>)
        requires
            pool_wf(cp@),
            self@.wf(cp@),
        ensures
            views(r@) == self@.checked_exceptions(cp@, Seq::empty(), 0),
    {
        proof {
            lemma_attribute_views(self.attributes@);
        }
        let mut exceptions: Vec<String> = Vec::new();
        let mut i: usize = 0;
        while i < self.attributes.len()
            invariant
                i <= self.attributes.len(),
                self@.checked_exceptions(cp@, views(exceptions@), i as int)
                    == self@.checked_exceptions(cp@, Seq::empty(), 0),
            decreases self.attributes.len() - i,
        {
            assert(self@.attributes[i as int].wf(cp@));
            match &self.attributes[i] {
                Attribute::Exceptions(e) => {
                    let ghost before = views(exceptions@);
                    let mut j: usize = 0;
                    while j < e.exception_index_table.len()
                        invariant
                            j <= e.exception_index_table.len(),
                            views(exceptions@) == before + resolved(
                                cp@,
                                e.exception_index_table@,
                            ).take(j as int),
                        decreases e.exception_index_table.len() - j,
                    {
                        assert(valid_index(cp@, e.exception_index_table@[j as int] as int));
                        exceptions.push(cp.get_to_string(e.exception_index_table[j]));
                        assert(views(exceptions@) =~= before + resolved(
                            cp@,
                            e.exception_index_table@,
                        ).take(j + 1));
                        j += 1;
                    }
                    assert(resolved(cp@, e.exception_index_table@).take(j as int) =~= resolved(
                        cp@,
                        e.exception_index_table@,
                    ));
                },
                _ => {},
            }
            i += 1;
        }
        exceptions
    }
}

} // verus!
