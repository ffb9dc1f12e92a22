//! Generic signatures.
//!
//! A class, a method or a field can carry a signature beside its
//! descriptor. The signature says what the descriptor cannot: the type
//! parameters and type arguments of generic types.
//!
//! ```text
//! JavaTypeSignature:       BaseType | ReferenceTypeSignature
//! ReferenceTypeSignature:  ClassTypeSignature | TypeVariableSignature | ArrayTypeSignature
//! ClassTypeSignature:      L {Identifier /} SimpleClassTypeSignature {. SimpleClassTypeSignature} ;
//! SimpleClassTypeSignature: Identifier [TypeArguments]
//! TypeArguments:           < TypeArgument {TypeArgument} >
//! TypeArgument:            [+ | -] ReferenceTypeSignature | *
//! TypeVariableSignature:   T Identifier ;
//! ArrayTypeSignature:      [ JavaTypeSignature
//! ```
use vstd::prelude::*;
use vstd::string::*;

use crate::class_file::jaustp::parse_method_descriptor::{primitive, Pchars};
use crate::class_file::text::{
    join_onto, lemma_views_empty, lemma_views_push, push_char, push_joined, views,
};

verus! {

broadcast use {lemma_views_push, lemma_views_empty, Pchars::lemma_in_bounds};

/// How a signature can be malformed.
#[derive(Clone, Copy, Debug, PartialEq, Eq)]
pub enum SignatureError {
    /// The signature ends where more is needed.
    UnexpectedEnd,
    /// A character that stands for no primitive type begins a type.
    InvalidBaseType,
    /// A character that begins no reference type begins one.
    InvalidReferenceType,
    /// Another character stands where this one was expected.
    Expected { expected: char, got: char },
}

#[derive(Debug)]
pub enum JavaTypeSignature {
    ReferenceTypeSignature(ReferenceTypeSignature),
    BaseTypeSignature(String),
}

#[derive(Debug)]
pub enum ReferenceTypeSignature {
    ClassTypeSignature(ClassTypeSignature),
    TypeVariableSignature(String),
    ArrayTypeSignature(Box<JavaTypeSignature>),
}

#[derive(Debug)]
pub struct ClassTypeSignature {
    pub package_specifiers: Vec<String>,
    pub simple_class_type_signature: SimpleClassTypeSignature,
    pub class_type_signature_suffix: Vec<SimpleClassTypeSignature>,
}

#[derive(Debug)]
pub struct SimpleClassTypeSignature {
    pub identifier: String,
    pub type_arguments: Vec<ReferenceTypeSignature>,
}

/// The model of [`JavaTypeSignature`].
pub ghost enum JavaTypeSignatureView {
    ReferenceTypeSignature(ReferenceTypeSignatureView),
    BaseTypeSignature(Seq<char>),
}

/// The model of [`ReferenceTypeSignature`].
pub ghost enum ReferenceTypeSignatureView {
    ClassTypeSignature(ClassTypeSignatureView),
    TypeVariableSignature(Seq<char>),
    ArrayTypeSignature(Box<JavaTypeSignatureView>),
}

/// The model of [`ClassTypeSignature`].
pub ghost struct ClassTypeSignatureView {
    pub package_specifiers: Seq<Seq<char>>,
    pub simple_class_type_signature: SimpleClassTypeSignatureView,
    pub class_type_signature_suffix: Seq<SimpleClassTypeSignatureView>,
}

/// The model of [`SimpleClassTypeSignature`].
pub ghost struct SimpleClassTypeSignatureView {
    pub identifier: Seq<char>,
    pub type_arguments: Seq<ReferenceTypeSignatureView>,
}

/// What the grammar yields from a position: the value and the position
/// after it, or the error.
pub type Scanned<T> = Result<(T, int), SignatureError>;

/// The models of the type arguments, in order.
pub open spec fn argument_views(arguments: Seq<ReferenceTypeSignature>) -> Seq<
    ReferenceTypeSignatureView,
>
    decreases arguments,
{
    if arguments.len() == 0 {
        Seq::empty()
    } else {
        argument_views(arguments.drop_last()).push(arguments.last()@)
    }
}

/// The models of the suffixes, in order.
pub open spec fn suffix_views(suffixes: Seq<SimpleClassTypeSignature>) -> Seq<
    SimpleClassTypeSignatureView,
>
    decreases suffixes,
{
    if suffixes.len() == 0 {
        Seq::empty()
    } else {
        suffix_views(suffixes.drop_last()).push(suffixes.last()@)
    }
}

/// The models of the type arguments are their views, one for one.
pub proof fn lemma_argument_views(arguments: Seq<ReferenceTypeSignature>)
    ensures
        argument_views(arguments) == views(arguments),
    decreases arguments.len(),
{
    if arguments.len() > 0 {
        let d = arguments.drop_last();
        lemma_argument_views(d);
        assert(argument_views(arguments) == argument_views(d).push(arguments.last()@));
        assert forall|i: int| 0 <= i < arguments.len() implies argument_views(arguments)[i]
            == views(arguments)[i] by {
            if i < arguments.len() - 1 {
                assert(d[i] == arguments[i]);
                assert(views(d)[i] == d[i]@);
            }
        }
    }
    assert(argument_views(arguments) =~= views(arguments));
}

/// The models of the suffixes are their views, one for one.
pub proof fn lemma_suffix_views(suffixes: Seq<SimpleClassTypeSignature>)
    ensures
        suffix_views(suffixes) == views(suffixes),
    decreases suffixes.len(),
{
    if suffixes.len() > 0 {
        let d = suffixes.drop_last();
        lemma_suffix_views(d);
        assert(suffix_views(suffixes) == suffix_views(d).push(suffixes.last()@));
        assert forall|i: int| 0 <= i < suffixes.len() implies suffix_views(suffixes)[i] == views(
            suffixes,
        )[i] by {
            if i < suffixes.len() - 1 {
                assert(d[i] == suffixes[i]);
                assert(views(d)[i] == d[i]@);
            }
        }
    }
    assert(suffix_views(suffixes) =~= views(suffixes));
}

impl View for JavaTypeSignature {
    type V = JavaTypeSignatureView;

    open spec fn view(&self) -> JavaTypeSignatureView
        decreases self,
    {
        match self {
            JavaTypeSignature::ReferenceTypeSignature(r) => {
                JavaTypeSignatureView::ReferenceTypeSignature(r@)
            },
            JavaTypeSignature::BaseTypeSignature(b) => JavaTypeSignatureView::BaseTypeSignature(b@),
        }
    }
}

impl View for ReferenceTypeSignature {
    type V = ReferenceTypeSignatureView;

    open spec fn view(&self) -> ReferenceTypeSignatureView
        decreases self,
    {
        match self {
            ReferenceTypeSignature::ClassTypeSignature(c) => {
                ReferenceTypeSignatureView::ClassTypeSignature(c@)
            },
            ReferenceTypeSignature::TypeVariableSignature(t) => {
                ReferenceTypeSignatureView::TypeVariableSignature(t@)
            },
            ReferenceTypeSignature::ArrayTypeSignature(a) => {
                ReferenceTypeSignatureView::ArrayTypeSignature(Box::new((**a)@))
            },
        }
    }
}

impl View for ClassTypeSignature {
    type V = ClassTypeSignatureView;

    open spec fn view(&self) -> ClassTypeSignatureView
        decreases self,
    {
        ClassTypeSignatureView {
            package_specifiers: views(self.package_specifiers@),
            simple_class_type_signature: self.simple_class_type_signature@,
            class_type_signature_suffix: suffix_views(self.class_type_signature_suffix@),
        }
    }
}

impl View for SimpleClassTypeSignature {
    type V = SimpleClassTypeSignatureView;

    open spec fn view(&self) -> SimpleClassTypeSignatureView
        decreases self,
    {
        SimpleClassTypeSignatureView {
            identifier: self.identifier@,
            type_arguments: argument_views(self.type_arguments@),
        }
    }
}

/// Whether the character ends an identifier: one of `/ ; < > : [`.
pub open spec fn is_terminator(c: char) -> bool {
    c == '/' || c == ';' || c == '<' || c == '>' || c == ':' || c == '['
}

/// The identifier from `pos` up to the next character that ends one, or to
/// the end, added to `acc`; and where it ends.
pub open spec fn spec_identifier(chars: Seq<char>, pos: int, acc: Seq<char>) -> (Seq<char>, int)
    decreases chars.len() - pos,
{
    if !(0 <= pos < chars.len()) || is_terminator(chars[pos]) {
        (acc, pos)
    } else {
        spec_identifier(chars, pos + 1, acc.push(chars[pos]))
    }
}

/// The identifiers from `pos` on with `/` between consecutive ones, added
/// to `acc`; and where the last one ends.
pub open spec fn spec_package_specifiers(chars: Seq<char>, pos: int, acc: Seq<Seq<char>>) -> (
    Seq<Seq<char>>,
    int,
)
    decreases chars.len() - pos,
{
    proof {
        if 0 <= pos <= chars.len() {
            lemma_identifier_within(chars, pos, Seq::empty());
        }
    }
    let (identifier, p) = spec_identifier(chars, pos, Seq::empty());
    if 0 <= p < chars.len() && chars[p] == '/' {
        spec_package_specifiers(chars, p + 1, acc.push(identifier))
    } else {
        (acc.push(identifier), p)
    }
}

/// The position after `expected`, where that is the character at `pos`.
pub open spec fn spec_expect(chars: Seq<char>, pos: int, expected: char) -> Result<
    int,
    SignatureError,
> {
    if !(0 <= pos < chars.len()) {
        Err(SignatureError::UnexpectedEnd)
    } else if chars[pos] != expected {
        Err(SignatureError::Expected { expected, got: chars[pos] })
    } else {
        Ok(pos + 1)
    }
}

/// Whether the character begins a reference type.
pub open spec fn begins_reference(c: char) -> bool {
    c == 'L' || c == 'T' || c == '['
}

/// A type: a reference type where `L`, `T` or `[` begins it, and a
/// primitive type otherwise.
pub open spec fn spec_java_type(chars: Seq<char>, pos: int) -> Scanned<JavaTypeSignatureView>
    decreases chars.len() - pos, 2nat,
{
    if !(0 <= pos < chars.len()) {
        Err(SignatureError::UnexpectedEnd)
    } else if begins_reference(chars[pos]) {
        match spec_reference_type(chars, pos) {
            Ok((r, next)) => Ok((JavaTypeSignatureView::ReferenceTypeSignature(r), next)),
            Err(e) => Err(e),
        }
    } else {
        match spec_base_type(chars, pos) {
            Ok((name, next)) => Ok((JavaTypeSignatureView::BaseTypeSignature(name), next)),
            Err(e) => Err(e),
        }
    }
}

/// A reference type: the type of a class, a type variable between `T` and
/// `;`, or for `[` the type that follows.
pub open spec fn spec_reference_type(chars: Seq<char>, pos: int) -> Scanned<
    ReferenceTypeSignatureView,
>
    decreases chars.len() - pos, 1nat,
{
    if !(0 <= pos < chars.len()) {
        Err(SignatureError::UnexpectedEnd)
    } else if chars[pos] == 'L' {
        match spec_class_type(chars, pos) {
            Ok((c, next)) => Ok((ReferenceTypeSignatureView::ClassTypeSignature(c), next)),
            Err(e) => Err(e),
        }
    } else if chars[pos] == 'T' {
        let (identifier, p) = spec_identifier(chars, pos + 1, Seq::empty());
        match spec_expect(chars, p, ';') {
            Ok(next) => Ok((ReferenceTypeSignatureView::TypeVariableSignature(identifier), next)),
            Err(e) => Err(e),
        }
    } else if chars[pos] == '[' {
        match spec_java_type(chars, pos + 1) {
            Ok((t, next)) => Ok(
                (ReferenceTypeSignatureView::ArrayTypeSignature(Box::new(t)), next),
            ),
            Err(e) => Err(e),
        }
    } else {
        Err(SignatureError::InvalidReferenceType)
    }
}

/// The type of a class: `L`, identifiers with `/` between them, of which
/// the last names the class and the others its package, the type
/// arguments of the class, the classes nested in it, each after a `.`,
/// and `;`. The type arguments must end within the text, no earlier than
/// they began.
pub open spec fn spec_class_type(chars: Seq<char>, pos: int) -> Scanned<ClassTypeSignatureView>
    decreases chars.len() - pos, 0nat,
{
    match spec_expect(chars, pos, 'L') {
        Err(e) => Err(e),
        Ok(_) => {
            proof {
                lemma_package_specifiers_within(chars, pos + 1, Seq::empty());
            }
            let (identifiers, p) = spec_package_specifiers(chars, pos + 1, Seq::empty());
            match spec_type_arguments(chars, p) {
                Err(e) => Err(e),
                Ok((type_arguments, q)) => if !(p <= q <= chars.len()) {
                    Err(SignatureError::UnexpectedEnd)
                } else {
                    match spec_suffixes(chars, q, Seq::empty()) {
                        Err(e) => Err(e),
                        Ok((suffixes, r)) => match spec_expect(chars, r, ';') {
                            Err(e) => Err(e),
                            Ok(next) => Ok(
                                (
                                    ClassTypeSignatureView {
                                        package_specifiers: identifiers.drop_last(),
                                        simple_class_type_signature: SimpleClassTypeSignatureView {
                                            identifier: identifiers.last(),
                                            type_arguments,
                                        },
                                        class_type_signature_suffix: suffixes,
                                    },
                                    next,
                                ),
                            ),
                        },
                    }
                },
            }
        },
    }
}

/// The nested classes from `pos` on, added to `acc`: for each a `.`, an
/// identifier and type arguments.
pub open spec fn spec_suffixes(
    chars: Seq<char>,
    pos: int,
    acc: Seq<SimpleClassTypeSignatureView>,
) -> Scanned<Seq<SimpleClassTypeSignatureView>>
    decreases chars.len() - pos, 0nat,
{
    if 0 <= pos < chars.len() && chars[pos] == '.' {
        proof {
            lemma_identifier_within(chars, pos + 1, Seq::empty());
        }
        let (identifier, p) = spec_identifier(chars, pos + 1, Seq::empty());
        match spec_type_arguments(chars, p) {
            Err(e) => Err(e),
            Ok((type_arguments, q)) => if !(p <= q <= chars.len()) {
                Err(SignatureError::UnexpectedEnd)
            } else {
                spec_suffixes(
                    chars,
                    q,
                    acc.push(SimpleClassTypeSignatureView { identifier, type_arguments }),
                )
            },
        }
    } else {
        Ok((acc, pos))
    }
}

/// The type arguments at `pos`: none where no `<` stands there, and else
/// one or more up to the `>` that ends them.
pub open spec fn spec_type_arguments(chars: Seq<char>, pos: int) -> Scanned<
    Seq<ReferenceTypeSignatureView>,
>
    decreases chars.len() - pos, 1nat,
{
    if 0 <= pos < chars.len() && chars[pos] == '<' {
        spec_argument_list(chars, pos + 1, Seq::empty())
    } else {
        Ok((Seq::empty(), pos))
    }
}

/// One type argument and those that follow it up to `>`, added to `acc`.
/// Each must take at least one character and end within the text.
pub open spec fn spec_argument_list(
    chars: Seq<char>,
    pos: int,
    acc: Seq<ReferenceTypeSignatureView>,
) -> Scanned<Seq<ReferenceTypeSignatureView>>
    decreases chars.len() - pos, 3nat,
{
    match spec_type_argument(chars, pos) {
        Err(e) => Err(e),
        Ok((argument, p)) => if !(pos < p <= chars.len()) {
            Err(SignatureError::UnexpectedEnd)
        } else if p < chars.len() && chars[p] == '>' {
            Ok((acc.push(argument), p + 1))
        } else {
            spec_argument_list(chars, p, acc.push(argument))
        },
    }
}

/// The type that stands for the wildcard `*`.
pub open spec fn wildcard() -> ReferenceTypeSignatureView {
    ReferenceTypeSignatureView::ArrayTypeSignature(
        Box::new(JavaTypeSignatureView::BaseTypeSignature("*"@)),
    )
}

/// One type argument: `*`, or a reference type, before which `+` or `-`
/// may stand.
pub open spec fn spec_type_argument(chars: Seq<char>, pos: int) -> Scanned<
    ReferenceTypeSignatureView,
>
    decreases chars.len() - pos, 2nat,
{
    if !(0 <= pos < chars.len()) {
        Err(SignatureError::UnexpectedEnd)
    } else if chars[pos] == '*' {
        Ok((wildcard(), pos + 1))
    } else if chars[pos] == '+' || chars[pos] == '-' {
        spec_reference_type(chars, pos + 1)
    } else {
        spec_reference_type(chars, pos)
    }
}

/// An identifier ends within the text, no earlier than it began.
pub proof fn lemma_identifier_within(chars: Seq<char>, pos: int, acc: Seq<char>)
    requires
        0 <= pos <= chars.len(),
    ensures
        pos <= spec_identifier(chars, pos, acc).1 <= chars.len(),
    decreases chars.len() - pos,
{
    if pos < chars.len() && !is_terminator(chars[pos]) {
        lemma_identifier_within(chars, pos + 1, acc.push(chars[pos]));
    }
}

/// Identifiers with `/` between them end within the text, no earlier than
/// they began, and there is at least one of them.
pub proof fn lemma_package_specifiers_within(chars: Seq<char>, pos: int, acc: Seq<Seq<char>>)
    requires
        0 <= pos <= chars.len(),
    ensures
        pos <= spec_package_specifiers(chars, pos, acc).1 <= chars.len(),
        spec_package_specifiers(chars, pos, acc).0.len() > acc.len(),
    decreases chars.len() - pos,
{
    lemma_identifier_within(chars, pos, Seq::empty());
    let (identifier, p) = spec_identifier(chars, pos, Seq::empty());
    if p < chars.len() && chars[p] == '/' {
        lemma_package_specifiers_within(chars, p + 1, acc.push(identifier));
    }
}

/// What a signature stands for: the type at its beginning. What follows
/// the type is not looked at.
pub open spec fn spec_signature(chars: Seq<char>) -> Result<JavaTypeSignatureView, SignatureError> {
    match spec_java_type(chars, 0) {
        Ok((t, _)) => Ok(t),
        Err(e) => Err(e),
    }
}

/// How a call of the grammar relates the text before and after it to what
/// the grammar prescribes.
pub open spec fn scanned<T: View>(
    before: Pchars,
    after: Pchars,
    r: Result<T, SignatureError>,
    expected: Scanned<T::V>,
) -> bool {
    &&& after.chars() == before.chars()
    &&& match expected {
        Ok((v, next)) => {
            &&& r is Ok
            &&& r->Ok_0@ == v
            &&& after.pos() == next
            &&& before.pos() <= next <= before.chars().len()
        },
        Err(e) => r is Err && r->Err_0 == e,
    }
}

impl JavaTypeSignatureView {
    /// The type as source code writes it.
    pub open spec fn text(self) -> Seq<char>
        decreases self, 0nat,
    {
        match self {
            JavaTypeSignatureView::ReferenceTypeSignature(r) => r.text(),
            JavaTypeSignatureView::BaseTypeSignature(b) => b,
        }
    }
}

impl ReferenceTypeSignatureView {
    /// The type as source code writes it. An array is written as the type
    /// of its elements.
    pub open spec fn text(self) -> Seq<char>
        decreases self, 0nat,
    {
        match self {
            ReferenceTypeSignatureView::ClassTypeSignature(c) => c.text(),
            ReferenceTypeSignatureView::TypeVariableSignature(t) => t,
            ReferenceTypeSignatureView::ArrayTypeSignature(a) => a.text(),
        }
    }
}

impl ClassTypeSignatureView {
    /// The class as source code writes it: the package, the class and the
    /// classes nested in it, with `.` between them.
    pub open spec fn text(self) -> Seq<char>
        decreases self, 0nat,
    {
        let package = join_onto(Seq::empty(), self.package_specifiers, "."@, 0);
        let qualifier = if self.package_specifiers.len() > 0 {
            package + "."@
        } else {
            package
        };
        Self::suffixes_text(
            self.class_type_signature_suffix,
            qualifier + self.simple_class_type_signature.text(),
            0,
        )
    }

    /// `acc`, followed by the nested classes from index `i` on, each
    /// after a `.`.
    pub open spec fn suffixes_text(
        suffixes: Seq<SimpleClassTypeSignatureView>,
        acc: Seq<char>,
        i: int,
    ) -> Seq<char>
        decreases suffixes, suffixes.len() - i,
    {
        if 0 <= i < suffixes.len() {
            Self::suffixes_text(suffixes, acc + "."@ + suffixes[i].text(), i + 1)
        } else {
            acc
        }
    }
}

impl SimpleClassTypeSignatureView {
    /// The class as source code writes it: its name, and its type
    /// arguments between `<` and `>` with nothing between them.
    pub open spec fn text(self) -> Seq<char>
        decreases self, 0nat,
    {
        if self.type_arguments.len() == 0 {
            self.identifier
        } else {
            Self::arguments_text(self.type_arguments, self.identifier + "<"@, 0) + ">"@
        }
    }

    /// `acc`, followed by the type arguments from index `i` on.
    pub open spec fn arguments_text(
        arguments: Seq<ReferenceTypeSignatureView>,
        acc: Seq<char>,
        i: int,
    ) -> Seq<char>
        decreases arguments, arguments.len() - i,
    {
        if 0 <= i < arguments.len() {
            Self::arguments_text(arguments, acc + arguments[i].text(), i + 1)
        } else {
            acc
        }
    }
}

/// Reads a signature.
pub fn parse_signature(signature: &str) -> (r: Result<JavaTypeSignature, SignatureError>)
    ensures
        match spec_signature(signature@) {
            Ok(v) => r is Ok && r->Ok_0@ == v,
            Err(e) => r is Err && r->Err_0 == e,
        },
{
    let mut chars = Pchars::new(signature);
    parse_java_type_signature(&mut chars)
}

fn begins_reference_type(c: char) -> (b: bool)
    ensures
        b == begins_reference(c),
{
    c == 'L' || c == 'T' || c == '['
}

pub fn parse_java_type_signature(chars: &mut Pchars) -> (r: Result<
    JavaTypeSignature,
    SignatureError,
>)
    ensures
        scanned(*old(chars), *final(chars), r, spec_java_type(old(chars).chars(), old(chars).pos())),
    decreases old(chars).chars().len() - old(chars).pos(), 2nat,
{
    match chars.peek() {
        None => Err(SignatureError::UnexpectedEnd),
        Some(c) => {
            if begins_reference_type(c) {
                Ok(JavaTypeSignature::ReferenceTypeSignature(parse_reference_type_signature(chars)?))
            } else {
                Ok(JavaTypeSignature::BaseTypeSignature(parse_base_type_signature(chars)?))
            }
        },
    }
}

/// The primitive type whose letter stands at `pos`.
pub open spec fn spec_base_type(chars: Seq<char>, pos: int) -> Scanned<Seq<char>> {
    if !(0 <= pos < chars.len()) {
        Err(SignatureError::UnexpectedEnd)
    } else {
        match primitive(chars[pos]) {
            Some(name) => Ok((name, pos + 1)),
            None => Err(SignatureError::InvalidBaseType),
        }
    }
}

/// Reads the letter of a primitive type and gives the name of the type.
pub fn parse_base_type_signature(chars: &mut Pchars) -> (r: Result<String, SignatureError>)
    ensures
        scanned(*old(chars), *final(chars), r, spec_base_type(old(chars).chars(), old(chars).pos())),
{
    let name = match chars.next() {
        None => {
            return Err(SignatureError::UnexpectedEnd);
        },
        Some('I') => "int",
        Some('J') => "long",
        Some('F') => "float",
        Some('D') => "double",
        Some('S') => "short",
        Some('B') => "byte",
        Some('C') => "char",
        Some('Z') => "boolean",
        Some('V') => "void",
        Some(_) => {
            return Err(SignatureError::InvalidBaseType);
        },
    };
    Ok(String::from_str(name))
}

pub fn parse_reference_type_signature(chars: &mut Pchars) -> (r: Result<
    ReferenceTypeSignature,
    SignatureError,
>)
    ensures
        scanned(
            *old(chars),
            *final(chars),
            r,
            spec_reference_type(old(chars).chars(), old(chars).pos()),
        ),
        r is Ok ==> old(chars).pos() < final(chars).pos(),
    decreases old(chars).chars().len() - old(chars).pos(), 1nat,
{
    match chars.peek() {
        None => Err(SignatureError::UnexpectedEnd),
        Some(c) => {
            if c == 'L' {
                Ok(ReferenceTypeSignature::ClassTypeSignature(parse_class_type_signature(chars)?))
            } else if c == 'T' {
                let _ = chars.next();
                let identifier = parse_identifier(chars);
                expect_char(chars, ';')?;
                Ok(ReferenceTypeSignature::TypeVariableSignature(identifier))
            } else if c == '[' {
                let _ = chars.next();
                let element = parse_java_type_signature(chars)?;
                Ok(ReferenceTypeSignature::ArrayTypeSignature(Box::new(element)))
            } else {
                Err(SignatureError::InvalidReferenceType)
            }
        },
    }
}

/// Reads the character `expected`, and fails where another one, or none,
/// stands in its place.
pub fn expect_char(chars: &mut Pchars, expected: char) -> (r: Result<(), SignatureError>)
    ensures
        final(chars).chars() == old(chars).chars(),
        match spec_expect(old(chars).chars(), old(chars).pos(), expected) {
            Ok(next) => r is Ok && final(chars).pos() == next,
            Err(e) => r is Err && r->Err_0 == e,
        },
{
    match chars.next() {
        None => Err(SignatureError::UnexpectedEnd),
        Some(c) => {
            if c != expected {
                Err(SignatureError::Expected { expected, got: c })
            } else {
                Ok(())
            }
        },
    }
}

#[verifier::loop_isolation(false)]
#[verifier::rlimit(40)]
pub fn parse_class_type_signature(chars: &mut Pchars) -> (r: Result<
    ClassTypeSignature,
    SignatureError,
>)
    ensures
        scanned(*old(chars), *final(chars), r, spec_class_type(old(chars).chars(), old(chars).pos())),
        r is Ok ==> old(chars).pos() < final(chars).pos(),
    decreases old(chars).chars().len() - old(chars).pos(), 0nat,
{
    expect_char(chars, 'L')?;
    let mut package_specifiers = parse_package_specifiers(chars);
    let identifier = match package_specifiers.pop() {
        Some(identifier) => identifier,
        None => {
            return Err(SignatureError::UnexpectedEnd);
        },
    };
    assert(views(package_specifiers@) =~= spec_package_specifiers(
        old(chars).chars(),
        old(chars).pos() + 1,
        Seq::empty(),
    ).0.drop_last());
    let simple_class_type_signature = parse_simple_class_type_signature(chars, identifier)?;
    let ghost start = chars.pos();
    let mut class_type_signature_suffix: Vec<SimpleClassTypeSignature> = Vec::new();
    while chars.is_at('.')
        invariant
            chars.chars() == old(chars).chars(),
            start <= chars.pos() <= chars.chars().len(),
            spec_suffixes(chars.chars(), chars.pos(), views(class_type_signature_suffix@))
                == spec_suffixes(old(chars).chars(), start, Seq::empty()),
        decreases chars.chars().len() - chars.pos(),
    {
        let _ = chars.next();
        let identifier = parse_identifier(chars);
        let suffix = parse_simple_class_type_signature(chars, identifier)?;
        class_type_signature_suffix.push(suffix);
    }
    expect_char(chars, ';')?;
    proof {
        lemma_suffix_views(class_type_signature_suffix@);
    }
    Ok(
        ClassTypeSignature {
            package_specifiers,
            simple_class_type_signature,
            class_type_signature_suffix,
        },
    )
}

/// Reads the type arguments that follow the name of a class.
pub fn parse_simple_class_type_signature(chars: &mut Pchars, identifier: String) -> (r: Result<
    SimpleClassTypeSignature,
    SignatureError,
>)
    ensures
        scanned(
            *old(chars),
            *final(chars),
            r,
            match spec_type_arguments(old(chars).chars(), old(chars).pos()) {
                Ok((type_arguments, next)) => Ok(
                    (SimpleClassTypeSignatureView { identifier: identifier@, type_arguments }, next),
                ),
                Err(e) => Err(e),
            },
        ),
    decreases old(chars).chars().len() - old(chars).pos(), 2nat,
{
    let type_arguments = parse_type_arguments(chars)?;
    proof {
        lemma_argument_views(type_arguments@);
    }
    Ok(SimpleClassTypeSignature { identifier, type_arguments })
}

#[verifier::loop_isolation(false)]
pub fn parse_type_arguments(chars: &mut Pchars) -> (r: Result<
    Vec<ReferenceTypeSignature>,
    SignatureError,
>)
    ensures
        final(chars).chars() == old(chars).chars(),
        match spec_type_arguments(old(chars).chars(), old(chars).pos()) {
            Ok((v, next)) => {
                &&& r is Ok
                &&& views(r->Ok_0@) == v
                &&& final(chars).pos() == next
                &&& old(chars).pos() <= next <= old(chars).chars().len()
            },
            Err(e) => r is Err && r->Err_0 == e,
        },
    decreases old(chars).chars().len() - old(chars).pos(), 1nat,
{
    let mut type_arguments: Vec<ReferenceTypeSignature> = Vec::new();
    let opens = match chars.peek() {
        Some(c) => c == '<',
        None => false,
    };
    if !opens {
        return Ok(type_arguments);
    }
    let _ = chars.next();
    loop
        invariant
            chars.chars() == old(chars).chars(),
            old(chars).pos() < chars.pos() <= chars.chars().len(),
            spec_argument_list(chars.chars(), chars.pos(), views(type_arguments@))
                == spec_argument_list(old(chars).chars(), old(chars).pos() + 1, Seq::empty()),
        decreases chars.chars().len() - chars.pos(),
    {
        let type_argument = parse_type_argument(chars)?;
        type_arguments.push(type_argument);
        let closes = match chars.peek() {
            Some(c) => c == '>',
            None => false,
        };
        if closes {
            let _ = chars.next();
            return Ok(type_arguments);
        }
    }
}

pub fn parse_type_argument(chars: &mut Pchars) -> (r: Result<
    ReferenceTypeSignature,
    SignatureError,
>)
    ensures
        scanned(
            *old(chars),
            *final(chars),
            r,
            spec_type_argument(old(chars).chars(), old(chars).pos()),
        ),
        r is Ok ==> old(chars).pos() < final(chars).pos(),
    decreases old(chars).chars().len() - old(chars).pos(), 2nat,
{
    match chars.peek() {
        None => Err(SignatureError::UnexpectedEnd),
        Some(c) => {
            if c == '*' {
                let _ = chars.next();
                Ok(
                    ReferenceTypeSignature::ArrayTypeSignature(
                        Box::new(JavaTypeSignature::BaseTypeSignature(String::from_str("*"))),
                    ),
                )
            } else if c == '+' || c == '-' {
                let _ = chars.next();
                parse_reference_type_signature(chars)
            } else {
                parse_reference_type_signature(chars)
            }
        },
    }
}

/// Reads identifiers with `/` between them.
#[verifier::loop_isolation(false)]
pub fn parse_package_specifiers(chars: &mut Pchars) -> (r: Vec<String>)
    ensures
        final(chars).chars() == old(chars).chars(),
        views(r@) == spec_package_specifiers(old(chars).chars(), old(chars).pos(), Seq::empty()).0,
        final(chars).pos() == spec_package_specifiers(
            old(chars).chars(),
            old(chars).pos(),
            Seq::empty(),
        ).1,
        old(chars).pos() <= final(chars).pos() <= final(chars).chars().len(),
        r@.len() > 0,
{
    let mut package_specifiers: Vec<String> = Vec::new();
    proof {
        use_type_invariant(&*chars);
    }
    loop
        invariant
            chars.chars() == old(chars).chars(),
            old(chars).pos() <= chars.pos() <= chars.chars().len(),
            spec_package_specifiers(chars.chars(), chars.pos(), views(package_specifiers@))
                == spec_package_specifiers(old(chars).chars(), old(chars).pos(), Seq::empty()),
        decreases chars.chars().len() - chars.pos(),
    {
        let identifier = parse_identifier(chars);
        package_specifiers.push(identifier);
        let more = match chars.peek() {
            Some(c) => c == '/',
            None => false,
        };
        if !more {
            return package_specifiers;
        }
        let _ = chars.next();
    }
}

fn ends_identifier(c: char) -> (b: bool)
    ensures
        b == is_terminator(c),
{
    c == '/' || c == ';' || c == '<' || c == '>' || c == ':' || c == '['
}

/// Reads an identifier: the characters up to one that ends an identifier,
/// or to the end.
#[verifier::loop_isolation(false)]
pub fn parse_identifier(chars: &mut Pchars) -> (r: String)
    ensures
        final(chars).chars() == old(chars).chars(),
        r@ == spec_identifier(old(chars).chars(), old(chars).pos(), Seq::empty()).0,
        final(chars).pos() == spec_identifier(old(chars).chars(), old(chars).pos(), Seq::empty()).1,
        old(chars).pos() <= final(chars).pos() <= final(chars).chars().len(),
{
    let mut identifier = String::new();
    proof {
        use_type_invariant(&*chars);
    }
    loop
        invariant
            chars.chars() == old(chars).chars(),
            old(chars).pos() <= chars.pos() <= chars.chars().len(),
            spec_identifier(chars.chars(), chars.pos(), identifier@) == spec_identifier(
                old(chars).chars(),
                old(chars).pos(),
                Seq::empty(),
            ),
        decreases chars.chars().len() - chars.pos(),
    {
        match chars.peek() {
            None => {
                return identifier;
            },
            Some(c) => {
                if ends_identifier(c) {
                    return identifier;
                }
                push_char(&mut identifier, c);
            },
        }
        let _ = chars.next();
    }
}

impl JavaTypeSignature {
    /// The type as source code writes it.
    pub fn to_string(&self) -> (r: String)
        ensures
            r@ == self@.text(),
        decreases self, 0nat,
    {
        match self {
            JavaTypeSignature::ReferenceTypeSignature(r) => r.to_string(),
            JavaTypeSignature::BaseTypeSignature(b) => b.clone(),
        }
    }
}

impl ReferenceTypeSignature {
    /// The type as source code writes it.
    pub fn to_string(&self) -> (r: String)
        ensures
            r@ == self@.text(),
        decreases self, 0nat,
    {
        match self {
            ReferenceTypeSignature::ClassTypeSignature(c) => c.to_string(),
            ReferenceTypeSignature::TypeVariableSignature(t) => t.clone(),
            ReferenceTypeSignature::ArrayTypeSignature(a) => a.to_string(),
        }
    }
}

impl ClassTypeSignature {
    /// The type as source code writes it.
    #[verifier::loop_isolation(false)]
    pub fn to_string(&self) -> (r: String)
        ensures
            r@ == self@.text(),
        decreases self, 0nat,
    {
        proof {
            lemma_suffix_views(self.class_type_signature_suffix@);
        }
        let mut out = String::new();
        push_joined(&mut out, &self.package_specifiers, ".");
        if self.package_specifiers.len() > 0 {
            out.append(".");
        }
        out.append(self.simple_class_type_signature.to_string().as_str());
        let mut i: usize = 0;
        while i < self.class_type_signature_suffix.len()
            invariant
                i <= self.class_type_signature_suffix.len(),
                ClassTypeSignatureView::suffixes_text(
                    self@.class_type_signature_suffix,
                    out@,
                    i as int,
                ) == self@.text(),
            decreases self.class_type_signature_suffix.len() - i,
        {
            out.append(".");
            out.append(self.class_type_signature_suffix[i].to_string().as_str());
            i += 1;
        }
        out
    }
}

impl SimpleClassTypeSignature {
    /// The type as source code writes it.
    #[verifier::loop_isolation(false)]
    pub fn to_string(&self) -> (r: String)
        ensures
            r@ == self@.text(),
        decreases self, 0nat,
    {
        proof {
            lemma_argument_views(self.type_arguments@);
        }
        let mut out = self.identifier.clone();
        if self.type_arguments.len() == 0 {
            return out;
        }
        out.append("<");
        let mut i: usize = 0;
        while i < self.type_arguments.len()
            invariant
                i <= self.type_arguments.len(),
                SimpleClassTypeSignatureView::arguments_text(self@.type_arguments, out@, i as int)
                    + ">"@ == self@.text(),
            decreases self.type_arguments.len() - i,
        {
            out.append(self.type_arguments[i].to_string().as_str());
            i += 1;
        }
        out.append(">");
        out
    }
}

} // verus!
