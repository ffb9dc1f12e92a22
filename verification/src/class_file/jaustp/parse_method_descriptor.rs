use vstd::prelude::*;
use vstd::string::*;

use crate::class_file::text::{chars_of, lemma_views_empty, lemma_views_push, push_char, views};

verus! {

broadcast use {lemma_views_push, lemma_views_empty};

/// How a descriptor can be malformed.
#[derive(Clone, Copy, Debug, PartialEq, Eq)]
pub enum DescriptorError {
    /// The descriptor ends within the name of a class.
    UnexpectedEnd,
    /// A type begins with a character that begins no type, or the
    /// descriptor ends where a type should begin.
    UnknownType(Option<char>),
    /// A method descriptor begins with this character, or with none, and
    /// not with the parenthesis that opens the arguments.
    MissingParenthesis(Option<char>),
}

/// A method as a declaration shows it.
#[derive(Debug, PartialEq)]
pub struct MethodSignature {
    pub name: String,
    pub args: Vec<String>,
    pub return_type: String,
}

/// The model of [`MethodSignature`].
pub ghost struct MethodSignatureView {
    pub name: Seq<char>,
    pub args: Seq<Seq<char>>,
    pub return_type: Seq<char>,
}

impl View for MethodSignature {
    type V = MethodSignatureView;

    open spec fn view(&self) -> MethodSignatureView {
        MethodSignatureView {
            name: self.name@,
            args: views(self.args@),
            return_type: self.return_type@,
        }
    }
}

/// A text with a position in it: the characters from the position on are
/// still to be read.
pub struct Pchars {
    chars: Vec<char>,
    pos: usize,
}

/// What `format!("{:?}", c)` gives for a character: the character as Rust
/// source code writes it, between single quotes, with escapes where it
/// cannot stand for itself.
pub uninterp spec fn char_debug_text(c: char) -> Seq<char>;

/// `format!("{:?}", c)`, the character as Rust source code writes it.
#[verifier::external_body]
fn char_debug(c: char) -> (r: String)
    ensures
        r@ == char_debug_text(c),
{
    format!("{:?}", c)
}

/// The message for a type that begins with `found`, written as Rust
/// writes it, or for a type that is missing at the end.
pub open spec fn unknown_type_text(found: Option<Seq<char>>) -> Seq<char> {
    match found {
        Some(c) => "Unknown type in method descriptor: "@ + "Some("@ + c + ")"@,
        None => "Unknown type in method descriptor: "@ + "None"@,
    }
}

/// The message for a type that begins with `found`, written as Rust
/// writes it, or for a type that is missing at the end.
pub fn unknown_type_message(found: Option<&str>) -> (r: String)
    ensures
        r@ == unknown_type_text(
            match found {
                Some(c) => Some(c@),
                None => None,
            },
        ),
{
    let mut s = String::from_str("Unknown type in method descriptor: ");
    match found {
        Some(c) => {
            s.append("Some(");
            s.append(c);
            s.append(")");
        },
        None => {
            s.append("None");
        },
    }
    s
}

/// The message for a method descriptor that begins with `found`, written
/// as Rust writes it, or with nothing, where `(` should stand.
pub open spec fn missing_parenthesis_text(found: Option<Seq<char>>) -> Seq<char> {
    match found {
        Some(c) => "Expected ( at the start of method descriptor: "@ + "Some("@ + c + ")"@,
        None => "Expected ( at the start of method descriptor: "@ + "None"@,
    }
}

/// The message for a method descriptor that begins with `found`, written
/// as Rust writes it, or with nothing, where `(` should stand.
pub fn missing_parenthesis_message(found: Option<&str>) -> (r: String)
    ensures
        r@ == missing_parenthesis_text(
            match found {
                Some(c) => Some(c@),
                None => None,
            },
        ),
{
    let mut s = String::from_str("Expected ( at the start of method descriptor: ");
    match found {
        Some(c) => {
            s.append("Some(");
            s.append(c);
            s.append(")");
        },
        None => {
            s.append("None");
        },
    }
    s
}

impl DescriptorError {
    /// The message of the error.
    pub open spec fn message(self) -> Seq<char> {
        match self {
            DescriptorError::UnexpectedEnd => "Unexpected end of method descriptor"@,
            DescriptorError::UnknownType(Some(c)) => unknown_type_text(Some(char_debug_text(c))),
            DescriptorError::UnknownType(None) => unknown_type_text(None),
            DescriptorError::MissingParenthesis(Some(c)) => missing_parenthesis_text(
                Some(char_debug_text(c)),
            ),
            DescriptorError::MissingParenthesis(None) => missing_parenthesis_text(None),
        }
    }

    /// The message of the error.
    pub fn to_string(&self) -> (r: String)
        ensures
            r@ == self.message(),
    {
        match self {
            DescriptorError::UnexpectedEnd => String::from_str("Unexpected end of method descriptor"),
            DescriptorError::UnknownType(Some(c)) => unknown_type_message(
                Some(char_debug(*c).as_str()),
            ),
            DescriptorError::UnknownType(None) => unknown_type_message(None),
            DescriptorError::MissingParenthesis(Some(c)) => missing_parenthesis_message(
                Some(char_debug(*c).as_str()),
            ),
            DescriptorError::MissingParenthesis(None) => missing_parenthesis_message(None),
        }
    }
}

/// The type, or the message of the error in its place.
pub open spec fn described(r: Result<Seq<char>, DescriptorError>) -> Seq<char> {
    match r {
        Ok(t) => t,
        Err(e) => e.message(),
    }
}

/// The name of the primitive type that the character stands for, if it
/// stands for one.
pub open spec fn primitive(c: char) -> Option<Seq<char>> {
    if c == 'I' {
        Some("int"@)
    } else if c == 'J' {
        Some("long"@)
    } else if c == 'F' {
        Some("float"@)
    } else if c == 'D' {
        Some("double"@)
    } else if c == 'S' {
        Some("short"@)
    } else if c == 'B' {
        Some("byte"@)
    } else if c == 'C' {
        Some("char"@)
    } else if c == 'Z' {
        Some("boolean"@)
    } else if c == 'V' {
        Some("void"@)
    } else {
        None
    }
}

/// The name of a class that ends with the next `;`, with `.` for each `/`,
/// added to `acc`; and the position after the `;`, or the end where there
/// is none.
pub open spec fn spec_class_name(chars: Seq<char>, pos: int, acc: Seq<char>) -> (
    Result<Seq<char>, DescriptorError>,
    int,
)
    decreases chars.len() - pos,
{
    if !(0 <= pos < chars.len()) {
        (Err(DescriptorError::UnexpectedEnd), pos)
    } else if chars[pos] == ';' {
        (Ok(acc), pos + 1)
    } else {
        spec_class_name(
            chars,
            pos + 1,
            acc.push(
                if chars[pos] == '/' {
                    '.'
                } else {
                    chars[pos]
                },
            ),
        )
    }
}

/// The type that the descriptor at `pos` stands for, and the position
/// after it: a primitive type for its letter, the name of a class between
/// `L` and `;`, or for `[` the type that follows with `[]` after it. Where
/// there is no type, the error, and the position after what was read.
pub open spec fn spec_type_descriptor(chars: Seq<char>, pos: int) -> (
    Result<Seq<char>, DescriptorError>,
    int,
)
    decreases chars.len() - pos,
{
    if !(0 <= pos < chars.len()) {
        (Err(DescriptorError::UnknownType(None)), pos)
    } else if primitive(chars[pos]) is Some {
        (Ok(primitive(chars[pos])->Some_0), pos + 1)
    } else if chars[pos] == 'L' {
        spec_class_name(chars, pos + 1, Seq::empty())
    } else if chars[pos] == '[' {
        let (element, next) = spec_type_descriptor(chars, pos + 1);
        (
            match element {
                Ok(t) => Ok(t + "[]"@),
                Err(e) => Err(e),
            },
            next,
        )
    } else {
        (Err(DescriptorError::UnknownType(Some(chars[pos]))), pos + 1)
    }
}

/// The name of a class ends within the text, no earlier than it began.
pub proof fn lemma_class_name_within(chars: Seq<char>, pos: int, acc: Seq<char>)
    requires
        0 <= pos <= chars.len(),
    ensures
        pos <= spec_class_name(chars, pos, acc).1 <= chars.len(),
    decreases chars.len() - pos,
{
    if pos < chars.len() && chars[pos] != ';' {
        lemma_class_name_within(
            chars,
            pos + 1,
            acc.push(
                if chars[pos] == '/' {
                    '.'
                } else {
                    chars[pos]
                },
            ),
        );
    }
}

/// A type descriptor takes at least one character where there is one, and
/// ends within the text: reading one argument after the other comes to an
/// end.
pub proof fn lemma_type_descriptor_advances(chars: Seq<char>, pos: int)
    requires
        0 <= pos < chars.len(),
    ensures
        pos < spec_type_descriptor(chars, pos).1 <= chars.len(),
    decreases chars.len() - pos,
{
    if primitive(chars[pos]) is Some {
    } else if chars[pos] == 'L' {
        lemma_class_name_within(chars, pos + 1, Seq::empty());
    } else if chars[pos] == '[' {
        if pos + 1 < chars.len() {
            lemma_type_descriptor_advances(chars, pos + 1);
        } else {
            assert(spec_type_descriptor(chars, pos + 1).1 == pos + 1);
        }
    }
}

/// The types of the arguments from `pos` up to the next `)` that begins a
/// type or to the end, added to `acc`, and the position of that `)` or the
/// end. A type that is malformed gives its error's message in its place.
pub open spec fn spec_arguments(chars: Seq<char>, pos: int, acc: Seq<Seq<char>>) -> (
    Seq<Seq<char>>,
    int,
)
    decreases chars.len() - pos,
{
    if !(0 <= pos < chars.len()) || chars[pos] == ')' {
        (acc, pos)
    } else {
        proof {
            lemma_type_descriptor_advances(chars, pos);
        }
        let (argument, next) = spec_type_descriptor(chars, pos);
        spec_arguments(chars, next, acc.push(described(argument)))
    }
}

/// The types of the arguments and the return type of a method descriptor:
/// `(`, the types of the arguments, `)`, the return type. Where the
/// opening parenthesis is missing there are no arguments, and the message
/// of that error stands for the return type. Where the closing one is
/// missing, the return type is missing too, and the message of that error
/// stands for it.
pub open spec fn spec_method_descriptor(chars: Seq<char>) -> (Seq<Seq<char>>, Seq<char>) {
    if chars.len() > 0 && chars[0] == '(' {
        let (args, p) = spec_arguments(chars, 1, Seq::empty());
        let q = if 0 <= p < chars.len() && chars[p] == ')' {
            p + 1
        } else {
            p
        };
        (args, described(spec_type_descriptor(chars, q).0))
    } else {
        (
            Seq::empty(),
            DescriptorError::MissingParenthesis(
                if chars.len() > 0 {
                    Some(chars[0])
                } else {
                    None
                },
            ).message(),
        )
    }
}

impl Pchars {
    /// The position never lies beyond the text.
    #[verifier::type_invariant]
    pub closed spec fn in_bounds(&self) -> bool {
        self.pos <= self.chars@.len()
    }

    /// What the invariant says in terms of `pos` and `chars`.
    pub broadcast proof fn lemma_in_bounds(&self)
        requires
            #[trigger] self.in_bounds(),
        ensures
            0 <= self.pos() <= self.chars().len(),
    {
    }

    /// The whole text.
    pub closed spec fn chars(&self) -> Seq<char> {
        self.chars@
    }

    /// The position of the next character to be read.
    pub closed spec fn pos(&self) -> int {
        self.pos as int
    }

    /// The next character, if there is one.
    pub open spec fn head(&self) -> Option<char> {
        if 0 <= self.pos() < self.chars().len() {
            Some(self.chars()[self.pos()])
        } else {
            None
        }
    }

    /// The text with the position at its beginning.
    pub fn new(text: &str) -> (r: Pchars)
        ensures
            r.chars() == text@,
            r.pos() == 0,
    {
        Pchars { chars: chars_of(text), pos: 0 }
    }

    /// The next character, which stays to be read.
    pub fn peek(&self) -> (r: Option<char>)
        ensures
            r == self.head(),
            0 <= self.pos() <= self.chars().len(),
    {
        proof {
            use_type_invariant(self);
        }
        if self.pos < self.chars.len() {
            Some(self.chars[self.pos])
        } else {
            None
        }
    }

    /// Whether `c` is the next character.
    pub fn is_at(&self, c: char) -> (b: bool)
        ensures
            b == (self.head() == Some(c)),
            0 <= self.pos() <= self.chars().len(),
    {
        match self.peek() {
            Some(next) => next == c,
            None => false,
        }
    }

    /// Reads the next character.
    pub fn next(&mut self) -> (r: Option<char>)
        ensures
            final(self).chars() == old(self).chars(),
            r == old(self).head(),
            final(self).pos() == if r is Some {
                old(self).pos() + 1
            } else {
                old(self).pos()
            },
            0 <= final(self).pos() <= final(self).chars().len(),
    {
        proof {
            use_type_invariant(&*self);
        }
        if self.pos < self.chars.len() {
            let c = self.chars[self.pos];
            self.pos = self.pos + 1;
            Some(c)
        } else {
            None
        }
    }
}

fn primitive_name(c: char) -> (r: Option<&'static str>)
    ensures
        r is Some == primitive(c) is Some,
        r is Some ==> r->Some_0@ == primitive(c)->Some_0,
{
    if c == 'I' {
        Some("int")
    } else if c == 'J' {
        Some("long")
    } else if c == 'F' {
        Some("float")
    } else if c == 'D' {
        Some("double")
    } else if c == 'S' {
        Some("short")
    } else if c == 'B' {
        Some("byte")
    } else if c == 'C' {
        Some("char")
    } else if c == 'Z' {
        Some("boolean")
    } else if c == 'V' {
        Some("void")
    } else {
        None
    }
}

/// Reads the name of a class up to its `;`.
fn parse_class_name(chars: &mut Pchars) -> (r: Result<String, DescriptorError>)
    ensures
        final(chars).chars() == old(chars).chars(),
        r is Ok == spec_class_name(old(chars).chars(), old(chars).pos(), Seq::empty()).0 is Ok,
        r is Ok ==> r->Ok_0@ == spec_class_name(
            old(chars).chars(),
            old(chars).pos(),
            Seq::empty(),
        ).0->Ok_0,
        r is Err ==> r->Err_0 == spec_class_name(
            old(chars).chars(),
            old(chars).pos(),
            Seq::empty(),
        ).0->Err_0,
        final(chars).pos() == spec_class_name(old(chars).chars(), old(chars).pos(), Seq::empty()).1,
        old(chars).pos() <= final(chars).pos() <= final(chars).chars().len(),
{
    let mut arg = String::new();
    proof {
        use_type_invariant(&*chars);
    }
    loop
        invariant
            chars.chars() == old(chars).chars(),
            old(chars).pos() <= chars.pos() <= chars.chars().len(),
            spec_class_name(chars.chars(), chars.pos(), arg@) == spec_class_name(
                old(chars).chars(),
                old(chars).pos(),
                Seq::empty(),
            ),
        decreases chars.chars().len() - chars.pos(),
    {
        match chars.next() {
            None => {
                return Err(DescriptorError::UnexpectedEnd);
            },
            Some(c) => {
                if c == ';' {
                    return Ok(arg);
                } else if c == '/' {
                    push_char(&mut arg, '.');
                } else {
                    push_char(&mut arg, c);
                }
            },
        }
    }
}

/// Reads one type descriptor and gives the name of the type.
pub fn parse_type_descriptor(chars: &mut Pchars) -> (r: Result<String, DescriptorError>)
    ensures
        final(chars).chars() == old(chars).chars(),
        r is Ok == spec_type_descriptor(old(chars).chars(), old(chars).pos()).0 is Ok,
        r is Ok ==> r->Ok_0@ == spec_type_descriptor(old(chars).chars(), old(chars).pos()).0->Ok_0,
        r is Err ==> r->Err_0 == spec_type_descriptor(
            old(chars).chars(),
            old(chars).pos(),
        ).0->Err_0,
        final(chars).pos() == spec_type_descriptor(old(chars).chars(), old(chars).pos()).1,
        old(chars).pos() <= final(chars).pos() <= final(chars).chars().len(),
        old(chars).pos() < old(chars).chars().len() ==> old(chars).pos() < final(chars).pos(),
    decreases old(chars).chars().len() - old(chars).pos(),
{
    let c = chars.next();
    match c {
        None => Err(DescriptorError::UnknownType(None)),
        Some(c) => {
            match primitive_name(c) {
                Some(name) => Ok(String::from_str(name)),
                None => {
                    if c == 'L' {
                        parse_class_name(chars)
                    } else if c == '[' {
                        let mut arg = parse_type_descriptor(chars)?;
                        arg.append("[]");
                        Ok(arg)
                    } else {
                        Err(DescriptorError::UnknownType(Some(c)))
                    }
                },
            }
        },
    }
}

/// The name of the type that a type descriptor stands for, or the message
/// of its error where it stands for none.
pub fn describe_type(descriptor: &str) -> (r: String)
    ensures
        r@ == described(spec_type_descriptor(descriptor@, 0).0),
{
    let mut chars = Pchars::new(descriptor);
    match parse_type_descriptor(&mut chars) {
        Ok(t) => t,
        Err(e) => e.to_string(),
    }
}

/// Reads a method descriptor and gives the method as a declaration shows
/// it. A type that is malformed gives its error's message in its place.
pub fn parse_method_descriptor(descriptor: &str, name: String) -> (r: MethodSignature)
    ensures
        r@.name == name@,
        r@.args == spec_method_descriptor(descriptor@).0,
        r@.return_type == spec_method_descriptor(descriptor@).1,
{
    let mut args: Vec<String> = Vec::new();
    let mut chars = Pchars::new(descriptor);
    let first = chars.next();
    let opens = match first {
        Some(c) => c == '(',
        None => false,
    };
    if !opens {
        let return_type = DescriptorError::MissingParenthesis(first).to_string();
        return MethodSignature { name, args, return_type };
    }
    loop
        invariant
            chars.chars() == descriptor@,
            1 <= chars.pos() <= chars.chars().len(),
            spec_arguments(chars.chars(), chars.pos(), views(args@)) == spec_arguments(
                descriptor@,
                1,
                Seq::empty(),
            ),
        ensures
            chars.chars() == descriptor@,
            views(args@) == spec_arguments(descriptor@, 1, Seq::empty()).0,
            chars.pos() == spec_arguments(descriptor@, 1, Seq::empty()).1,
        decreases chars.chars().len() - chars.pos(),
    {
        if !chars.is_at(')') && chars.peek().is_some() {
            let argument = match parse_type_descriptor(&mut chars) {
                Ok(t) => t,
                Err(e) => e.to_string(),
            };
            args.push(argument);
        } else {
            break ;
        }
    }
    if chars.is_at(')') {
        let _ = chars.next();
    }
    let return_type = match parse_type_descriptor(&mut chars) {
        Ok(t) => t,
        Err(e) => e.to_string(),
    };
    MethodSignature { name, args, return_type }
}

} // verus!
