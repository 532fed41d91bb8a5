//! Field codec: big-endian integers and single-byte flags read from the
//! front of a byte slice.

use vstd::prelude::*;

verus! {

/// Result of decoding one value from the front of a byte slice.
#[derive(Debug)]
pub enum Parsed<'a, T> {
    /// The value, and the bytes that follow it.
    Done(&'a [u8], T),
    /// The slice ends before the value does.
    Incomplete,
    /// The bytes are all there but do not encode a value.
    Malformed,
}

/// What a decoder owes on a given input: the number of bytes it
/// consumes and the value, or the reason there is none.
pub enum Outcome<V> {
    Done(int, V),
    Incomplete,
    Malformed,
}

impl<'a, T> Parsed<'a, T> {
    /// `self` is the exec form of `expected` on `input`: the same case,
    /// the same value, and exactly the unconsumed bytes left over.
    pub open spec fn matches_outcome(self, input: Seq<u8>, expected: Outcome<T>) -> bool {
        match expected {
            Outcome::Done(used, value) => self matches Parsed::Done(rest, v) && v == value && 0
                <= used <= input.len() && rest@ == input.skip(used),
            Outcome::Incomplete => self is Incomplete,
            Outcome::Malformed => self is Malformed,
        }
    }
}

impl<'a, T: View> Parsed<'a, T> {
    /// Like `matches_outcome`, for a value that is known by its view.
    pub open spec fn matches_view(self, input: Seq<u8>, expected: Outcome<T::V>) -> bool {
        match expected {
            Outcome::Done(used, value) => self matches Parsed::Done(rest, v) && v@ == value && 0
                <= used <= input.len() && rest@ == input.skip(used),
            Outcome::Incomplete => self is Incomplete,
            Outcome::Malformed => self is Malformed,
        }
    }
}

/// Big-endian value of the two bytes of `s` starting at `at`.
pub open spec fn be16_at(s: Seq<u8>, at: int) -> int {
    s[at] * 0x100 + s[at + 1]
}

/// Big-endian value of the four bytes of `s` starting at `at`.
pub open spec fn be32_at(s: Seq<u8>, at: int) -> int {
    s[at] * 0x100_0000 + s[at + 1] * 0x1_0000 + s[at + 2] * 0x100 + s[at + 3]
}

/// Big-endian value of the six bytes of `s` starting at `at`.
pub open spec fn be48_at(s: Seq<u8>, at: int) -> int {
    s[at] * 0x100_0000_0000 + s[at + 1] * 0x1_0000_0000 + s[at + 2] * 0x100_0000 + s[at + 3]
        * 0x1_0000 + s[at + 4] * 0x100 + s[at + 5]
}

/// Big-endian value of the eight bytes of `s` starting at `at`.
pub open spec fn be64_at(s: Seq<u8>, at: int) -> int {
    s[at] * 0x100_0000_0000_0000 + s[at + 1] * 0x1_0000_0000_0000 + s[at + 2] * 0x100_0000_0000
        + s[at + 3] * 0x1_0000_0000 + s[at + 4] * 0x100_0000 + s[at + 5] * 0x1_0000 + s[at + 6]
        * 0x100 + s[at + 7]
}

/// The six bytes that carry the low 48 bits of `v` in big-endian order.
pub open spec fn u48_bytes(v: u64) -> Seq<u8> {
    seq![
        (v >> 40) as u8,
        (v >> 32) as u8,
        (v >> 24) as u8,
        (v >> 16) as u8,
        (v >> 8) as u8,
        v as u8,
    ]
}

/// What is owed for one byte.
pub open spec fn be_u8_outcome(s: Seq<u8>) -> Outcome<u8> {
    if s.len() < 1 {
        Outcome::Incomplete
    } else {
        Outcome::Done(1, s[0])
    }
}

/// What is owed for a 16-bit big-endian integer.
pub open spec fn be_u16_outcome(s: Seq<u8>) -> Outcome<u16> {
    if s.len() < 2 {
        Outcome::Incomplete
    } else {
        Outcome::Done(2, be16_at(s, 0) as u16)
    }
}

/// What is owed for a 32-bit big-endian integer.
pub open spec fn be_u32_outcome(s: Seq<u8>) -> Outcome<u32> {
    if s.len() < 4 {
        Outcome::Incomplete
    } else {
        Outcome::Done(4, be32_at(s, 0) as u32)
    }
}

/// What is owed for a 48-bit big-endian integer.
pub open spec fn be_u48_outcome(s: Seq<u8>) -> Outcome<u64> {
    if s.len() < 6 {
        Outcome::Incomplete
    } else {
        Outcome::Done(6, be48_at(s, 0) as u64)
    }
}

/// What is owed for a 64-bit big-endian integer.
pub open spec fn be_u64_outcome(s: Seq<u8>) -> Outcome<u64> {
    if s.len() < 8 {
        Outcome::Incomplete
    } else {
        Outcome::Done(8, be64_at(s, 0) as u64)
    }
}

/// Calls `nom::be_u8`: one byte is taken from the front of the slice,
/// and `Incomplete` comes back exactly when the slice is empty. The
/// function never reports an error.
#[verifier::external_body]
pub(crate) fn be_u8<'a>(i: &'a [u8]) -> (r: Parsed<'a, u8>)
    ensures
        r.matches_outcome(i@, be_u8_outcome(i@)),
{
    match nom::be_u8(i) {
        nom::IResult::Done(rest, v) => Parsed::Done(rest, v),
        nom::IResult::Incomplete(_) => Parsed::Incomplete,
        nom::IResult::Error(_) => Parsed::Malformed,
    }
}

/// Calls `nom::be_u16`: two bytes are taken from the front of the slice
/// and read as a big-endian integer; `Incomplete` comes back exactly
/// when fewer than two are there. The function never reports an error.
#[verifier::external_body]
pub(crate) fn be_u16<'a>(i: &'a [u8]) -> (r: Parsed<'a, u16>)
    ensures
        r.matches_outcome(i@, be_u16_outcome(i@)),
{
    match nom::be_u16(i) {
        nom::IResult::Done(rest, v) => Parsed::Done(rest, v),
        nom::IResult::Incomplete(_) => Parsed::Incomplete,
        nom::IResult::Error(_) => Parsed::Malformed,
    }
}

/// Calls `nom::be_u32`: four bytes are taken from the front of the slice
/// and read as a big-endian integer; `Incomplete` comes back exactly
/// when fewer than four are there. The function never reports an error.
#[verifier::external_body]
pub(crate) fn be_u32<'a>(i: &'a [u8]) -> (r: Parsed<'a, u32>)
    ensures
        r.matches_outcome(i@, be_u32_outcome(i@)),
{
    match nom::be_u32(i) {
        nom::IResult::Done(rest, v) => Parsed::Done(rest, v),
        nom::IResult::Incomplete(_) => Parsed::Incomplete,
        nom::IResult::Error(_) => Parsed::Malformed,
    }
}

/// Calls `nom::be_u64`: eight bytes are taken from the front of the
/// slice and read as a big-endian integer; `Incomplete` comes back
/// exactly when fewer than eight are there. The function never reports
/// an error.
#[verifier::external_body]
pub(crate) fn be_u64<'a>(i: &'a [u8]) -> (r: Parsed<'a, u64>)
    ensures
        r.matches_outcome(i@, be_u64_outcome(i@)),
{
    match nom::be_u64(i) {
        nom::IResult::Done(rest, v) => Parsed::Done(rest, v),
        nom::IResult::Incomplete(_) => Parsed::Incomplete,
        nom::IResult::Error(_) => Parsed::Malformed,
    }
}

/// Reads a 48-bit big-endian integer into a `u64` whose top sixteen
/// bits are zero.
pub fn be_u48<'a>(i: &'a [u8]) -> (r: Parsed<'a, u64>)
    ensures
        r.matches_outcome(i@, be_u48_outcome(i@)),
        r matches Parsed::Done(_, v) ==> v < 0x1_0000_0000_0000,
{
    if i.len() < 6 {
        Parsed::Incomplete
    } else {
        let b0: u64 = i[0] as u64;
        let b1: u64 = i[1] as u64;
        let b2: u64 = i[2] as u64;
        let b3: u64 = i[3] as u64;
        let b4: u64 = i[4] as u64;
        let b5: u64 = i[5] as u64;
        assert(b0 << 40 == b0 * 0x100_0000_0000) by (bit_vector)
            requires
                b0 < 0x100,
        ;
        assert(b1 << 32 == b1 * 0x1_0000_0000) by (bit_vector)
            requires
                b1 < 0x100,
        ;
        assert(b2 << 24 == b2 * 0x100_0000) by (bit_vector)
            requires
                b2 < 0x100,
        ;
        assert(b3 << 16 == b3 * 0x1_0000) by (bit_vector)
            requires
                b3 < 0x100,
        ;
        assert(b4 << 8 == b4 * 0x100) by (bit_vector)
            requires
                b4 < 0x100,
        ;
        let res: u64 = (b0 << 40) + (b1 << 32) + (b2 << 24) + (b3 << 16) + (b4 << 8) + b5;
        let rest = vstd::slice::slice_subrange(i, 6, i.len());
        Parsed::Done(rest, res)
    }
}

/// Splits off the first `n` bytes of the slice.
pub fn take<'a>(i: &'a [u8], n: usize) -> (r: Parsed<'a, &'a [u8]>)
    ensures
        r is Incomplete <==> i@.len() < n,
        r is Done <==> i@.len() >= n,
        r matches Parsed::Done(rest, v) ==> v@ == i@.take(n as int) && rest@ == i@.skip(n as int),
{
    if i.len() < n {
        Parsed::Incomplete
    } else {
        let field = vstd::slice::slice_subrange(i, 0, n);
        let rest = vstd::slice::slice_subrange(i, n, i.len());
        Parsed::Done(rest, field)
    }
}

/// The flag that a yes/no byte stands for, if it stands for one.
pub open spec fn bool_of_byte(b: u8) -> Option<bool> {
    if b == 'Y' as u8 {
        Some(true)
    } else if b == 'N' as u8 {
        Some(false)
    } else {
        None
    }
}

/// The value that a yes/no/blank byte stands for, if it stands for one:
/// a blank says that the flag is absent.
pub open spec fn maybe_bool_of_byte(b: u8) -> Option<Option<bool>> {
    if b == 'Y' as u8 {
        Some(Some(true))
    } else if b == 'N' as u8 {
        Some(Some(false))
    } else if b == ' ' as u8 {
        Some(None)
    } else {
        None
    }
}

/// What is owed for a two-valued flag.
pub open spec fn char2bool_outcome(s: Seq<u8>) -> Outcome<bool> {
    if s.len() < 1 {
        Outcome::Incomplete
    } else {
        match bool_of_byte(s[0]) {
            Some(v) => Outcome::Done(1, v),
            None => Outcome::Malformed,
        }
    }
}

/// What is owed for a three-valued flag.
pub open spec fn maybe_char2bool_outcome(s: Seq<u8>) -> Outcome<Option<bool>> {
    if s.len() < 1 {
        Outcome::Incomplete
    } else {
        match maybe_bool_of_byte(s[0]) {
            Some(v) => Outcome::Done(1, v),
            None => Outcome::Malformed,
        }
    }
}

/// Two-valued flag: `Y` is true, `N` is false, any other byte is
/// malformed.
pub fn char2bool<'a>(i: &'a [u8]) -> (r: Parsed<'a, bool>)
    ensures
        r.matches_outcome(i@, char2bool_outcome(i@)),
{
    match be_u8(i) {
        Parsed::Done(rest, b) => {
            if b == 'Y' as u8 {
                Parsed::Done(rest, true)
            } else if b == 'N' as u8 {
                Parsed::Done(rest, false)
            } else {
                Parsed::Malformed
            }
        },
        Parsed::Incomplete => Parsed::Incomplete,
        Parsed::Malformed => Parsed::Malformed,
    }
}

/// Three-valued flag: `Y` is true, `N` is false, a blank is absent, any
/// other byte is malformed.
pub fn maybe_char2bool<'a>(i: &'a [u8]) -> (r: Parsed<'a, Option<bool>>)
    ensures
        r.matches_outcome(i@, maybe_char2bool_outcome(i@)),
{
    match be_u8(i) {
        Parsed::Done(rest, b) => {
            if b == 'Y' as u8 {
                Parsed::Done(rest, Some(true))
            } else if b == 'N' as u8 {
                Parsed::Done(rest, Some(false))
            } else if b == ' ' as u8 {
                Parsed::Done(rest, None)
            } else {
                Parsed::Malformed
            }
        },
        Parsed::Incomplete => Parsed::Incomplete,
        Parsed::Malformed => Parsed::Malformed,
    }
}

/// A 48-bit value written as six big-endian bytes reads back as itself.
pub proof fn lemma_u48_round_trip(v: u64)
    requires
        v < 0x1_0000_0000_0000,
    ensures
        u48_bytes(v).len() == 6,
        be_u48_outcome(u48_bytes(v)) == Outcome::Done(6, v),
{
    let b0 = (v >> 40) as u8;
    let b1 = (v >> 32) as u8;
    let b2 = (v >> 24) as u8;
    let b3 = (v >> 16) as u8;
    let b4 = (v >> 8) as u8;
    let b5 = v as u8;
    assert(b0 * 0x100_0000_0000 + b1 * 0x1_0000_0000 + b2 * 0x100_0000 + b3 * 0x1_0000 + b4 * 0x100
        + b5 == v) by (bit_vector)
        requires
            v < 0x1_0000_0000_0000,
            b0 == (v >> 40) as u8,
            b1 == (v >> 32) as u8,
            b2 == (v >> 24) as u8,
            b3 == (v >> 16) as u8,
            b4 == (v >> 8) as u8,
            b5 == v as u8,
    ;
}

} // verus!
