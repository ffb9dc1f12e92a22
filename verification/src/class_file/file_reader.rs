use vstd::prelude::*;
use vstd::slice::*;
use vstd::utf8::*;

use crate::class_file::error::DecodeError;

verus! {

/// What a decoder yields on a byte sequence from a position: the decoded
/// value together with the position that follows it, or the failure.
pub type Parsed<T> = Result<(T, int), DecodeError>;

/// Whether `n` bytes are available at `pos`.
pub open spec fn avail(bytes: Seq<u8>, pos: int, n: int) -> bool {
    0 <= pos && 0 <= n && pos + n <= bytes.len()
}

/// The big-endian unsigned 16-bit value at `pos`.
pub open spec fn u16_at(bytes: Seq<u8>, pos: int) -> u16 {
    (bytes[pos] as int * 256 + bytes[pos + 1] as int) as u16
}

/// The big-endian two's-complement 16-bit value at `pos`.
pub open spec fn i16_at(bytes: Seq<u8>, pos: int) -> i16 {
    let v = u16_at(bytes, pos) as int;
    if v < 32768 {
        v as i16
    } else {
        (v - 65536) as i16
    }
}

/// The big-endian unsigned 32-bit value at `pos`.
pub open spec fn u32_at(bytes: Seq<u8>, pos: int) -> u32 {
    (((bytes[pos] as int * 256 + bytes[pos + 1] as int) * 256 + bytes[pos + 2] as int) * 256
        + bytes[pos + 3] as int) as u32
}

/// One byte.
pub open spec fn spec_u1(bytes: Seq<u8>, pos: int) -> Parsed<u8> {
    if avail(bytes, pos, 1) {
        Ok((bytes[pos], pos + 1))
    } else {
        Err(DecodeError::TruncatedInput)
    }
}

/// An unsigned 16-bit number, most significant byte first.
pub open spec fn spec_u2(bytes: Seq<u8>, pos: int) -> Parsed<u16> {
    if avail(bytes, pos, 2) {
        Ok((u16_at(bytes, pos), pos + 2))
    } else {
        Err(DecodeError::TruncatedInput)
    }
}

/// A signed 16-bit number, most significant byte first.
pub open spec fn spec_i2(bytes: Seq<u8>, pos: int) -> Parsed<i16> {
    if avail(bytes, pos, 2) {
        Ok((i16_at(bytes, pos), pos + 2))
    } else {
        Err(DecodeError::TruncatedInput)
    }
}

/// An unsigned 32-bit number, most significant byte first.
pub open spec fn spec_u4(bytes: Seq<u8>, pos: int) -> Parsed<u32> {
    if avail(bytes, pos, 4) {
        Ok((u32_at(bytes, pos), pos + 4))
    } else {
        Err(DecodeError::TruncatedInput)
    }
}

/// A length-prefixed text: a 16-bit byte count, then that many bytes of
/// UTF-8.
pub open spec fn spec_string(bytes: Seq<u8>, pos: int) -> Parsed<Seq<char>> {
    if !avail(bytes, pos, 2) {
        Err(DecodeError::TruncatedInput)
    } else if !avail(bytes, pos + 2, u16_at(bytes, pos) as int) {
        Err(DecodeError::TruncatedInput)
    } else {
        let end = pos + 2 + u16_at(bytes, pos);
        let payload = bytes.subrange(pos + 2, end);
        if valid_utf8(payload) {
            Ok((decode_utf8(payload), end))
        } else {
            Err(DecodeError::InvalidUtf8)
        }
    }
}

/// The next `n` bytes as they are.
pub open spec fn spec_bytes(bytes: Seq<u8>, pos: int, n: int) -> Parsed<Seq<u8>> {
    if avail(bytes, pos, n) {
        Ok((bytes.subrange(pos, pos + n), pos + n))
    } else {
        Err(DecodeError::TruncatedInput)
    }
}

/// The outcome with `f` applied to the value, where there is one.
pub open spec fn mapped<A, B>(r: Parsed<A>, f: spec_fn(A) -> B) -> Parsed<B> {
    match r {
        Ok((a, next)) => Ok((f(a), next)),
        Err(e) => Err(e),
    }
}

/// `n` items one after the other, each decoded by `item`, added to `acc`.
pub open spec fn parse_each<T>(
    item: spec_fn(Seq<u8>, int) -> Parsed<T>,
    bytes: Seq<u8>,
    pos: int,
    n: nat,
    acc: Seq<T>,
) -> Parsed<Seq<T>>
    decreases n,
{
    if n == 0 {
        Ok((acc, pos))
    } else {
        match item(bytes, pos) {
            Ok((v, next)) => parse_each(item, bytes, next, (n - 1) as nat, acc.push(v)),
            Err(e) => Err(e),
        }
    }
}

/// Whether every item that `item` decodes ends within the bytes, no
/// earlier than it began.
pub open spec fn stays_within<T>(item: spec_fn(Seq<u8>, int) -> Parsed<T>, bytes: Seq<u8>) -> bool {
    forall|pos: int|
        0 <= pos && (#[trigger] item(bytes, pos)) is Ok ==> pos <= item(bytes, pos)->Ok_0.1
            <= bytes.len()
}

/// Items that decode one after the other end within the bytes, no earlier
/// than they began, where each of them does.
pub proof fn lemma_parse_each_within<T>(
    item: spec_fn(Seq<u8>, int) -> Parsed<T>,
    bytes: Seq<u8>,
    pos: int,
    n: nat,
    acc: Seq<T>,
)
    requires
        stays_within(item, bytes),
        parse_each(item, bytes, pos, n, acc) is Ok,
        0 <= pos <= bytes.len(),
    ensures
        pos <= parse_each(item, bytes, pos, n, acc)->Ok_0.1 <= bytes.len(),
    decreases n,
{
    if n > 0 {
        let (v, next) = item(bytes, pos)->Ok_0;
        lemma_parse_each_within(item, bytes, next, (n - 1) as nat, acc.push(v));
    }
}

/// A 16-bit count, then that many items, each decoded by `item`.
pub open spec fn parse_counted<T>(
    item: spec_fn(Seq<u8>, int) -> Parsed<T>,
    bytes: Seq<u8>,
    pos: int,
) -> Parsed<Seq<T>> {
    if avail(bytes, pos, 2) {
        parse_each(item, bytes, pos + 2, u16_at(bytes, pos) as nat, Seq::empty())
    } else {
        Err(DecodeError::TruncatedInput)
    }
}

/// A sequential big-endian reader over the bytes of a class file, or over a
/// window of them.
pub struct FileReader<'a> {
    bytes: &'a [u8],
    pos: usize,
}

/// How a decoding call relates the reader before and after it to what the
/// format prescribes: the bytes stay, and on success the value's view and
/// the new position are the prescribed ones; on failure the error is.
pub open spec fn decoded<T: View>(
    before: FileReader,
    after: FileReader,
    r: Result<T, DecodeError>,
    expected: Parsed<T::V>,
) -> bool {
    &&& after.bytes() == before.bytes()
    &&& match expected {
        Ok((v, next)) => {
            &&& r is Ok
            &&& r->Ok_0@ == v
            &&& after.pos() == next
            &&& before.pos() <= next <= before.bytes().len()
        },
        Err(e) => r is Err && r->Err_0 == e,
    }
}

/// `String::from_utf8`: the text that the bytes encode, where they are
/// valid UTF-8, and nothing where they are not.
#[verifier::external_body]
fn string_from_utf8(bytes: Vec<u8>) -> (r: Option<String>)
    ensures
        valid_utf8(bytes@) ==> r is Some && r->Some_0@ == decode_utf8(bytes@),
        !valid_utf8(bytes@) ==> r is None,
{
    String::from_utf8(bytes).ok()
}

impl<'a> FileReader<'a> {
    /// The position never lies beyond the bytes.
    #[verifier::type_invariant]
    pub closed spec fn in_bounds(&self) -> bool {
        self.pos <= self.bytes@.len()
    }

    /// What the invariant says in terms of `pos` and `bytes`.
    pub broadcast proof fn lemma_in_bounds(&self)
        requires
            #[trigger] self.in_bounds(),
        ensures
            0 <= self.pos() <= self.bytes().len(),
    {
    }

    /// The bytes that this reader can see.
    pub closed spec fn bytes(&self) -> Seq<u8> {
        self.bytes@
    }

    /// The position of the next byte to be read.
    pub closed spec fn pos(&self) -> int {
        self.pos as int
    }

    /// How many bytes are left to read.
    pub open spec fn remaining(&self) -> int {
        self.bytes().len() - self.pos()
    }

    /// A reader at the beginning of the bytes.
    pub fn new(bytes: &'a [u8]) -> (r: Self)
        ensures
            r.bytes() == bytes@,
            r.pos() == 0,
    {
        FileReader { bytes, pos: 0 }
    }

    /// The number of bytes left to read.
    pub fn left(&self) -> (n: usize)
        ensures
            n == self.remaining(),
            self.bytes().len() <= usize::MAX,
    {
        proof {
            use_type_invariant(self);
        }
        self.bytes.len() - self.pos
    }

    /// Whether every byte has been read.
    pub fn is_at_end(&self) -> (b: bool)
        ensures
            b == (self.pos() == self.bytes().len()),
            self.pos() <= self.bytes().len(),
    {
        proof {
            use_type_invariant(self);
        }
        self.pos == self.bytes.len()
    }

    /// Fails unless `n` more bytes can be read.
    pub fn need(&self, n: usize) -> (r: Result<(), DecodeError>)
        ensures
            avail(self.bytes(), self.pos(), n as int) ==> r is Ok,
            !avail(self.bytes(), self.pos(), n as int) ==> r == Err::<(), DecodeError>(
                DecodeError::TruncatedInput,
            ),
    {
        if n <= self.left() {
            Ok(())
        } else {
            Err(DecodeError::TruncatedInput)
        }
    }

    /// Reads one byte.
    pub fn read_u1(&mut self) -> (r: Result<u8, DecodeError>)
        ensures
            decoded(*old(self), *final(self), r, spec_u1(old(self).bytes(), old(self).pos())),
    {
        if self.left() < 1 {
            return Err(DecodeError::TruncatedInput);
        }
        let b = self.bytes[self.pos];
        self.pos = self.pos + 1;
        Ok(b)
    }

    /// Reads two bytes as they are.
    pub fn read_u2(&mut self) -> (r: Result<[u8; 2], DecodeError>)
        ensures
            decoded(*old(self), *final(self), r, spec_bytes(old(self).bytes(), old(self).pos(), 2)),
    {
        if self.left() < 2 {
            return Err(DecodeError::TruncatedInput);
        }
        let buf = [self.bytes[self.pos], self.bytes[self.pos + 1]];
        self.pos = self.pos + 2;
        assert(buf@ =~= old(self).bytes().subrange(old(self).pos(), old(self).pos() + 2));
        Ok(buf)
    }

    /// Reads four bytes as they are.
    pub fn read_u4(&mut self) -> (r: Result<[u8; 4], DecodeError>)
        ensures
            decoded(*old(self), *final(self), r, spec_bytes(old(self).bytes(), old(self).pos(), 4)),
    {
        if self.left() < 4 {
            return Err(DecodeError::TruncatedInput);
        }
        let buf = [
            self.bytes[self.pos],
            self.bytes[self.pos + 1],
            self.bytes[self.pos + 2],
            self.bytes[self.pos + 3],
        ];
        self.pos = self.pos + 4;
        assert(buf@ =~= old(self).bytes().subrange(old(self).pos(), old(self).pos() + 4));
        Ok(buf)
    }

    /// Reads an unsigned 16-bit number.
    pub fn read_u2_to_u16(&mut self) -> (r: Result<u16, DecodeError>)
        ensures
            decoded(*old(self), *final(self), r, spec_u2(old(self).bytes(), old(self).pos())),
    {
        if self.left() < 2 {
            return Err(DecodeError::TruncatedInput);
        }
        let hi = self.bytes[self.pos] as u16;
        let lo = self.bytes[self.pos + 1] as u16;
        self.pos = self.pos + 2;
        Ok(hi * 256 + lo)
    }

    /// Reads a signed 16-bit number.
    pub fn read_i16(&mut self) -> (r: Result<i16, DecodeError>)
        ensures
            decoded(*old(self), *final(self), r, spec_i2(old(self).bytes(), old(self).pos())),
    {
        if self.left() < 2 {
            return Err(DecodeError::TruncatedInput);
        }
        let hi = self.bytes[self.pos] as i32;
        let lo = self.bytes[self.pos + 1] as i32;
        self.pos = self.pos + 2;
        let v: i32 = hi * 256 + lo;
        if v < 32768 {
            Ok(v as i16)
        } else {
            Ok((v - 65536) as i16)
        }
    }

    /// Reads an unsigned 32-bit number.
    pub fn read_u4_to_u32(&mut self) -> (r: Result<u32, DecodeError>)
        ensures
            decoded(*old(self), *final(self), r, spec_u4(old(self).bytes(), old(self).pos())),
    {
        if self.left() < 4 {
            return Err(DecodeError::TruncatedInput);
        }
        let b0 = self.bytes[self.pos] as u32;
        let b1 = self.bytes[self.pos + 1] as u32;
        let b2 = self.bytes[self.pos + 2] as u32;
        let b3 = self.bytes[self.pos + 3] as u32;
        self.pos = self.pos + 4;
        Ok(((b0 * 256 + b1) * 256 + b2) * 256 + b3)
    }

    /// Reads a length-prefixed text.
    pub fn read_string(&mut self) -> (r: Result<String, DecodeError>)
        ensures
            decoded(*old(self), *final(self), r, spec_string(old(self).bytes(), old(self).pos())),
    {
        let length = self.read_u2_to_u16()? as usize;
        if self.left() < length {
            return Err(DecodeError::TruncatedInput);
        }
        let payload = slice_to_vec(slice_subrange(self.bytes, self.pos, self.pos + length));
        self.pos = self.pos + length;
        match string_from_utf8(payload) {
            Some(s) => Ok(s),
            None => Err(DecodeError::InvalidUtf8),
        }
    }

    /// Reads the next `n` bytes as they are.
    pub fn read_bytes(&mut self, n: usize) -> (r: Result<Vec<u8>, DecodeError>)
        ensures
            decoded(
                *old(self),
                *final(self),
                r,
                spec_bytes(old(self).bytes(), old(self).pos(), n as int),
            ),
    {
        if self.left() < n {
            return Err(DecodeError::TruncatedInput);
        }
        let v = slice_to_vec(slice_subrange(self.bytes, self.pos, self.pos + n));
        self.pos = self.pos + n;
        Ok(v)
    }

    /// Splits off the next `len` bytes as a reader of their own, and moves
    /// past them.
    pub fn sub_reader(&mut self, len: usize) -> (r: Result<FileReader<'a>, DecodeError>)
        ensures
            final(self).bytes() == old(self).bytes(),
            avail(old(self).bytes(), old(self).pos(), len as int) ==> {
                &&& r is Ok
                &&& r->Ok_0.bytes() == old(self).bytes().subrange(
                    old(self).pos(),
                    old(self).pos() + len,
                )
                &&& r->Ok_0.pos() == 0
                &&& final(self).pos() == old(self).pos() + len
            },
            !avail(old(self).bytes(), old(self).pos(), len as int) ==> r is Err && r->Err_0
                == DecodeError::TruncatedInput,
    {
        if self.left() < len {
            return Err(DecodeError::TruncatedInput);
        }
        let window = slice_subrange(self.bytes, self.pos, self.pos + len);
        self.pos = self.pos + len;
        Ok(FileReader { bytes: window, pos: 0 })
    }
}

} // verus!
