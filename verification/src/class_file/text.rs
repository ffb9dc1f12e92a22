use vstd::prelude::*;
use vstd::string::*;
use vstd::utf8::*;

verus! {

/// The character that stands for the digit `d` in bases up to sixteen:
/// `0` to `9`, then `a` to `f`.
pub open spec fn digit(d: nat) -> char {
    if d < 10 {
        (48 + d) as u8 as char
    } else {
        (87 + d) as u8 as char
    }
}

/// `n` in decimal, without leading zeros.
pub open spec fn decimal(n: nat) -> Seq<char>
    decreases n,
{
    if n < 10 {
        seq![digit(n)]
    } else {
        decimal(n / 10).push(digit(n % 10))
    }
}

/// `i` in decimal, with a minus sign where it is negative.
pub open spec fn signed_decimal(i: int) -> Seq<char> {
    if i < 0 {
        seq!['-'] + decimal((-i) as nat)
    } else {
        decimal(i as nat)
    }
}

/// `n` in lower-case hexadecimal, without leading zeros.
pub open spec fn hex(n: nat) -> Seq<char>
    decreases n,
{
    if n < 16 {
        seq![digit(n)]
    } else {
        hex(n / 16).push(digit(n % 16))
    }
}

/// A 16-bit value as four lower-case hexadecimal digits.
pub open spec fn hex4(n: u16) -> Seq<char> {
    seq![
        digit((n / 4096) as nat),
        digit(((n / 256) % 16) as nat),
        digit(((n / 16) % 16) as nat),
        digit((n % 16) as nat),
    ]
}

/// The text with every `/` turned into `.`: a binary class name as source
/// code writes it.
pub open spec fn dotted(s: Seq<char>) -> Seq<char> {
    Seq::new(s.len(), |i: int| if s[i] == '/' { '.' } else { s[i] })
}

/// `acc`, followed by what `f` gives for each of the items from index `i`
/// on, in order.
pub open spec fn concat_each<T>(acc: Seq<char>, items: Seq<T>, i: int, f: spec_fn(T) -> Seq<char>) -> Seq<
    char,
>
    decreases items.len() - i,
{
    if 0 <= i < items.len() {
        concat_each(acc + f(items[i]), items, i + 1, f)
    } else {
        acc
    }
}

/// `acc`, followed by the parts from index `i` on, with `sep` before each
/// part but the one at index 0.
pub open spec fn join_onto(acc: Seq<char>, parts: Seq<Seq<char>>, sep: Seq<char>, i: int) -> Seq<char>
    decreases parts.len() - i,
{
    if 0 <= i < parts.len() {
        join_onto(
            if i == 0 {
                acc + parts[i]
            } else {
                acc + sep + parts[i]
            },
            parts,
            sep,
            i + 1,
        )
    } else {
        acc
    }
}

/// What has a name to print.
pub trait Named: Sized {
    /// The name.
    spec fn name(&self) -> Seq<char>;

    fn name_str(&self) -> (r: &'static str)
        ensures
            r@ == self.name(),
    ;
}

/// The names of the items, in order.
pub open spec fn names<T: Named>(items: Seq<T>) -> Seq<Seq<char>> {
    Seq::new(items.len(), |i: int| items[i].name())
}

/// The items' names between square brackets, with a comma and a space
/// between consecutive ones.
pub open spec fn debug_list<T: Named>(items: Seq<T>) -> Seq<char> {
    join_onto("["@, names(items), ", "@, 0) + "]"@
}

/// `acc` with `item` added where all the bits of `mask` are set in `bits`.
pub open spec fn with_flag<T>(acc: Seq<T>, bits: u16, mask: u16, item: T) -> Seq<T> {
    if bits & mask == mask {
        acc.push(item)
    } else {
        acc
    }
}

/// An item is in what `with_flag` gives exactly if it was there before or
/// is the item that was added.
pub proof fn lemma_with_flag_contains<T>(acc: Seq<T>, bits: u16, mask: u16, item: T, x: T)
    ensures
        with_flag(acc, bits, mask, item).contains(x) <==> acc.contains(x) || (x == item && bits
            & mask == mask),
{
    let s = with_flag(acc, bits, mask, item);
    if bits & mask == mask {
        assert(s[s.len() - 1] == item);
        if acc.contains(x) {
            let i = choose|i: int| 0 <= i < acc.len() && acc[i] == x;
            assert(s[i] == x);
        }
    }
}

/// The views of the elements, in order.
pub open spec fn views<T: View>(s: Seq<T>) -> Seq<T::V> {
    Seq::new(s.len(), |i: int| s[i]@)
}

/// The views of a sequence with one more element are the views of the
/// sequence with the view of the element.
pub broadcast proof fn lemma_views_push<T: View>(s: Seq<T>, x: T)
    ensures
        #[trigger] views(s.push(x)) == views(s).push(x@),
{
    assert(views(s.push(x)) =~= views(s).push(x@));
}

/// No elements have no views.
pub broadcast proof fn lemma_views_empty<T: View>()
    ensures
        #[trigger] views(Seq::<T>::empty()) == Seq::<T::V>::empty(),
{
    assert(views(Seq::<T>::empty()) =~= Seq::<T::V>::empty());
}

/// `String::push`: the text with the character added at its end.
#[verifier::external_body]
pub(crate) fn push_char(s: &mut String, c: char)
    ensures
        final(s)@ == old(s)@.push(c),
{
    s.push(c)
}

fn digit_of(d: u8) -> (c: char)
    requires
        d < 16,
    ensures
        c == digit(d as nat),
{
    if d < 10 {
        (48 + d) as char
    } else {
        (87 + d) as char
    }
}

/// Appends `n` in decimal.
pub fn push_decimal(s: &mut String, n: u64)
    ensures
        final(s)@ == old(s)@ + decimal(n as nat),
    decreases n,
{
    if n >= 10 {
        push_decimal(s, n / 10);
    }
    push_char(s, digit_of((n % 10) as u8));
    proof {
        if n < 10 {
            assert(old(s)@.push(digit(n as nat)) =~= old(s)@ + decimal(n as nat));
        } else {
            assert((old(s)@ + decimal((n / 10) as nat)).push(digit((n % 10) as nat)) =~= old(s)@
                + decimal(n as nat));
        }
    }
}

/// Appends `i` in decimal, with its sign where it is negative.
pub fn push_signed(s: &mut String, i: i64)
    requires
        i > i64::MIN,
    ensures
        final(s)@ == old(s)@ + signed_decimal(i as int),
{
    if i < 0 {
        push_char(s, '-');
        push_decimal(s, (-i) as u64);
        assert(old(s)@.push('-') + decimal((-i) as nat) =~= old(s)@ + signed_decimal(i as int));
    } else {
        push_decimal(s, i as u64);
    }
}

/// Appends `n` in lower-case hexadecimal.
pub fn push_hex(s: &mut String, n: u64)
    ensures
        final(s)@ == old(s)@ + hex(n as nat),
    decreases n,
{
    if n >= 16 {
        push_hex(s, n / 16);
    }
    push_char(s, digit_of((n % 16) as u8));
    proof {
        if n < 16 {
            assert(old(s)@.push(digit(n as nat)) =~= old(s)@ + hex(n as nat));
        } else {
            assert((old(s)@ + hex((n / 16) as nat)).push(digit((n % 16) as nat)) =~= old(s)@ + hex(
                n as nat,
            ));
        }
    }
}

/// Appends `n` as four lower-case hexadecimal digits.
pub fn push_hex4(s: &mut String, n: u16)
    ensures
        final(s)@ == old(s)@ + hex4(n),
{
    push_char(s, digit_of((n / 4096) as u8));
    push_char(s, digit_of(((n / 256) % 16) as u8));
    push_char(s, digit_of(((n / 16) % 16) as u8));
    push_char(s, digit_of((n % 16) as u8));
    assert(final(s)@ =~= old(s)@ + hex4(n));
}

/// Appends `text` with every `/` turned into `.`.
pub fn push_dotted(s: &mut String, text: &str)
    ensures
        final(s)@ == old(s)@ + dotted(text@),
{
    for c in it: text.chars()
        invariant
            it.seq() == text@,
            s@ == old(s)@ + dotted(text@).take(it.index() as int),
    {
        if c == '/' {
            push_char(s, '.');
        } else {
            push_char(s, c);
        }
        assert(s@ =~= old(s)@ + dotted(text@).take(it.index() + 1));
    }
    assert(dotted(text@).take(text@.len() as int) =~= dotted(text@));
}

/// The text with every `/` turned into `.`.
pub fn dotted_name(text: &str) -> (r: String)
    ensures
        r@ == dotted(text@),
{
    let mut s = String::new();
    push_dotted(&mut s, text);
    assert(s@ =~= dotted(text@));
    s
}

/// The characters of the text, one by one.
pub fn chars_of(text: &str) -> (r: Vec<char>)
    ensures
        r@ == text@,
{
    let mut v: Vec<char> = Vec::new();
    for c in it: text.chars()
        invariant
            it.seq() == text@,
            v@ == it.seq().take(it.index() as int),
    {
        v.push(c);
        assert(it.seq().take(it.index() + 1) =~= it.seq().take(it.index() as int).push(c));
    }
    assert(text@.take(text@.len() as int) =~= text@);
    v
}

/// Whether the two texts are the same.
pub fn str_eq(a: &str, b: &str) -> (r: bool)
    ensures
        r == (a@ == b@),
{
    broadcast use encode_utf8_decode_utf8;

    let x = a.as_bytes();
    let y = b.as_bytes();
    assert(decode_utf8(encode_utf8(a@)) == a@);
    assert(decode_utf8(encode_utf8(b@)) == b@);
    if x.len() != y.len() {
        return false;
    }
    let mut i: usize = 0;
    while i < x.len()
        invariant
            x.len() == y.len(),
            i <= x.len(),
            forall|j: int| 0 <= j < i ==> x@[j] == y@[j],
            x@ == encode_utf8(a@),
            y@ == encode_utf8(b@),
            decode_utf8(encode_utf8(a@)) == a@,
            decode_utf8(encode_utf8(b@)) == b@,
        decreases x.len() - i,
    {
        if x[i] != y[i] {
            return false;
        }
        i += 1;
    }
    assert(x@ =~= y@);
    true
}

/// Adds `access_flag` to `flags` where all the bits of `bit_mask` are set
/// in `bit_flags`.
pub fn add_flag<T>(flags: &mut Vec<T>, bit_flags: u16, bit_mask: u16, access_flag: T)
    ensures
        final(flags)@ == with_flag(old(flags)@, bit_flags, bit_mask, access_flag),
{
    if bit_flags & bit_mask == bit_mask {
        flags.push(access_flag);
    }
}

/// The items' names as a bracketed list.
pub fn debug_list_string<T: Named>(items: &Vec<T>) -> (r: String)
    ensures
        r@ == debug_list(items@),
{
    let mut s = String::from_str("[");
    let mut i: usize = 0;
    while i < items.len()
        invariant
            i <= items.len(),
            join_onto(s@, names(items@), ", "@, i as int) == join_onto(
                "["@,
                names(items@),
                ", "@,
                0,
            ),
        decreases items.len() - i,
    {
        if i > 0 {
            s.append(", ");
        }
        s.append(items[i].name_str());
        i += 1;
    }
    s.append("]");
    s
}

/// Appends the parts, with `sep` between consecutive ones.
pub fn push_joined(s: &mut String, parts: &Vec<String>, sep: &str)
    ensures
        final(s)@ == join_onto(old(s)@, views(parts@), sep@, 0),
{
    let mut i: usize = 0;
    while i < parts.len()
        invariant
            i <= parts.len(),
            join_onto(s@, views(parts@), sep@, i as int) == join_onto(
                old(s)@,
                views(parts@),
                sep@,
                0,
            ),
        decreases parts.len() - i,
    {
        if i > 0 {
            s.append(sep);
        }
        s.append(parts[i].as_str());
        i += 1;
    }
}

} // verus!
