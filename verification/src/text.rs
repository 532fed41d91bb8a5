//! Fixed-width text fields: four or eight bytes of single-byte text,
//! kept in inline storage of exactly that capacity.

use crate::codec::{Outcome, Parsed};
use vstd::prelude::*;
use vstd::string::StringSliceAdditionalSpecFns;

verus! {

/// Eight characters of text in inline storage
/// (an `arrayvec::ArrayString` of capacity eight).
#[verifier::external_body]
#[derive(Debug, PartialEq, Eq)]
pub struct Text8 {
    inner: arrayvec::ArrayString<[u8; 8]>,
}

/// Four characters of text in inline storage
/// (an `arrayvec::ArrayString` of capacity four).
#[verifier::external_body]
#[derive(Debug, PartialEq, Eq)]
pub struct Text4 {
    inner: arrayvec::ArrayString<[u8; 4]>,
}

/// The characters that a `Text8` holds.
pub uninterp spec fn text8_chars(t: Text8) -> Seq<char>;

/// The characters that a `Text4` holds.
pub uninterp spec fn text4_chars(t: Text4) -> Seq<char>;

impl View for Text8 {
    type V = Seq<char>;

    open spec fn view(&self) -> Seq<char> {
        text8_chars(*self)
    }
}

impl View for Text4 {
    type V = Seq<char>;

    open spec fn view(&self) -> Seq<char> {
        text4_chars(*self)
    }
}

impl Clone for Text8 {
    fn clone(&self) -> (r: Self)
        ensures
            r == *self,
    {
        *self
    }
}

impl Copy for Text8 {

}

impl Clone for Text4 {
    fn clone(&self) -> (r: Self)
        ensures
            r == *self,
    {
        *self
    }
}

impl Copy for Text4 {

}

/// Calls `std::str::from_utf8`: the bytes are accepted exactly when
/// they are valid UTF-8, and the string then has those bytes.
#[verifier::external_body]
fn str_from_utf8<'a>(v: &'a [u8]) -> (r: Option<&'a str>)
    ensures
        r is Some <==> vstd::utf8::valid_utf8(v@),
        r matches Some(s) ==> s.spec_bytes() == v@,
{
    match std::str::from_utf8(v) {
        Ok(s) => Some(s),
        Err(_) => None,
    }
}

/// Calls `arrayvec::ArrayString::from` at capacity eight: the string is
/// stored exactly when its bytes fit the capacity, and the result then
/// holds the string's characters.
#[verifier::external_body]
fn text8_from(s: &str) -> (r: Option<Text8>)
    ensures
        r is Some <==> s.spec_bytes().len() <= 8,
        r matches Some(t) ==> text8_chars(t) == s@,
{
    match arrayvec::ArrayString::from(s) {
        Ok(inner) => Some(Text8 { inner }),
        Err(_) => None,
    }
}

/// Calls `arrayvec::ArrayString::from` at capacity four: the string is
/// stored exactly when its bytes fit the capacity, and the result then
/// holds the string's characters.
#[verifier::external_body]
fn text4_from(s: &str) -> (r: Option<Text4>)
    ensures
        r is Some <==> s.spec_bytes().len() <= 4,
        r matches Some(t) ==> text4_chars(t) == s@,
{
    match arrayvec::ArrayString::from(s) {
        Ok(inner) => Some(Text4 { inner }),
        Err(_) => None,
    }
}

impl Text8 {
    /// Calls `arrayvec::ArrayString::as_str`, which hands out the stored
    /// characters.
    #[verifier::external_body]
    fn stored_str(&self) -> (r: &str)
        ensures
            r@ == text8_chars(*self),
    {
        self.inner.as_str()
    }

    /// The text as a string slice, padding included.
    pub fn as_str(&self) -> (r: &str)
        ensures
            r@ == self@,
    {
        self.stored_str()
    }

    /// The text that exactly eight single-byte characters make up.
    pub fn from_bytes(bytes: &[u8]) -> (r: Option<Text8>)
        ensures
            r is Some <==> bytes@.len() == 8 && ascii_at(bytes@, 0, 8),
            r matches Some(t) ==> t@ == text_at(bytes@, 0, 8),
    {
        if bytes.len() != 8 {
            return None;
        }
        match take_text8(bytes) {
            Parsed::Done(_, t) => Some(t),
            _ => None,
        }
    }
}

impl Text4 {
    /// Calls `arrayvec::ArrayString::as_str`, which hands out the stored
    /// characters.
    #[verifier::external_body]
    fn stored_str(&self) -> (r: &str)
        ensures
            r@ == text4_chars(*self),
    {
        self.inner.as_str()
    }

    /// The text as a string slice, padding included.
    pub fn as_str(&self) -> (r: &str)
        ensures
            r@ == self@,
    {
        self.stored_str()
    }

    /// The text that exactly four single-byte characters make up.
    pub fn from_bytes(bytes: &[u8]) -> (r: Option<Text4>)
        ensures
            r is Some <==> bytes@.len() == 4 && ascii_at(bytes@, 0, 4),
            r matches Some(t) ==> t@ == text_at(bytes@, 0, 4),
    {
        if bytes.len() != 4 {
            return None;
        }
        match take_text4(bytes) {
            Parsed::Done(_, t) => Some(t),
            _ => None,
        }
    }
}

/// Every one of the `width` bytes of `s` from `at` on is a single-byte
/// character.
pub open spec fn ascii_at(s: Seq<u8>, at: int, width: int) -> bool {
    forall|k: int| at <= k < at + width ==> #[trigger] s[k] < 0x80
}

/// The `width` bytes of `s` from `at` on, read as characters.
pub open spec fn text_at(s: Seq<u8>, at: int, width: int) -> Seq<char> {
    Seq::new(width as nat, |k: int| s[at + k] as char)
}

/// What is owed for a text field of `width` bytes.
pub open spec fn text_outcome(s: Seq<u8>, width: int) -> Outcome<Seq<char>> {
    if s.len() < width {
        Outcome::Incomplete
    } else if !ascii_at(s, 0, width) {
        Outcome::Malformed
    } else {
        Outcome::Done(width, text_at(s, 0, width))
    }
}

/// A text field read after skipping `n` bytes is the field at offset
/// `n` of the whole input.
pub proof fn lemma_text_skip(s: Seq<u8>, n: int, width: int)
    requires
        0 <= n,
        0 <= width,
        n + width <= s.len(),
    ensures
        ascii_at(s.skip(n), 0, width) == ascii_at(s, n, width),
        text_at(s.skip(n), 0, width) == text_at(s, n, width),
{
    let t = s.skip(n);
    if ascii_at(t, 0, width) {
        assert forall|k: int| n <= k < n + width implies #[trigger] s[k] < 0x80 by {
            assert(t[k - n] < 0x80);
        }
    }
    if ascii_at(s, n, width) {
        assert forall|k: int| 0 <= k < width implies #[trigger] t[k] < 0x80 by {
            assert(s[n + k] < 0x80);
        }
    }
    assert(text_at(t, 0, width) =~= text_at(s, n, width));
}

/// A text field that lies within `s` is not changed by bytes that
/// follow `s`.
pub proof fn lemma_text_prefix(s: Seq<u8>, t: Seq<u8>, at: int, width: int)
    requires
        0 <= at,
        0 <= width,
        at + width <= s.len(),
    ensures
        ascii_at(s + t, at, width) == ascii_at(s, at, width),
        text_at(s + t, at, width) == text_at(s, at, width),
{
    let u = s + t;
    if ascii_at(u, at, width) {
        assert forall|k: int| at <= k < at + width implies #[trigger] s[k] < 0x80 by {
            assert(u[k] < 0x80);
        }
    }
    if ascii_at(s, at, width) {
        assert forall|k: int| at <= k < at + width implies #[trigger] u[k] < 0x80 by {
            assert(s[k] < 0x80);
        }
    }
    assert(text_at(u, at, width) =~= text_at(s, at, width));
}

/// Whether the first `n` bytes of `i` are all single-byte characters.
fn is_ascii_prefix(i: &[u8], n: usize) -> (b: bool)
    requires
        n <= i@.len(),
    ensures
        b == ascii_at(i@, 0, n as int),
{
    let mut k: usize = 0;
    while k < n
        invariant
            k <= n <= i@.len(),
            ascii_at(i@, 0, k as int),
        decreases n - k,
    {
        if i[k] >= 0x80 {
            return false;
        }
        k = k + 1;
    }
    true
}

/// Single-byte text is valid UTF-8, and any string with these bytes has
/// these characters.
proof fn lemma_ascii_is_utf8(bytes: Seq<u8>)
    requires
        ascii_at(bytes, 0, bytes.len() as int),
    ensures
        vstd::utf8::valid_utf8(bytes),
        forall|chars: Seq<char>| #[trigger]
            vstd::utf8::encode_utf8(chars) == bytes ==> chars == text_at(
                bytes,
                0,
                bytes.len() as int,
            ),
{
    let c = text_at(bytes, 0, bytes.len() as int);
    assert forall|k: int| 0 <= k < c.len() implies '\0' <= #[trigger] c[k] <= '\u{7f}' by {
        assert(bytes[k] < 0x80);
    }
    assert(vstd::utf8::is_ascii_chars(c));
    vstd::utf8::is_ascii_chars_encode_utf8(c);
    let e = vstd::utf8::encode_utf8(c);
    assert forall|k: int| 0 <= k < bytes.len() implies e[k] == bytes[k] by {
        assert(c[k] as u8 == e[k]);
        assert(bytes[k] < 0x80);
    }
    assert(e =~= bytes);
    vstd::utf8::encode_utf8_valid_utf8(c);
    vstd::utf8::encode_utf8_decode_utf8(c);
    assert forall|chars: Seq<char>| #[trigger]
        vstd::utf8::encode_utf8(chars) == bytes implies chars == c by {
        vstd::utf8::encode_utf8_decode_utf8(chars);
    }
}

/// Eight bytes of single-byte text, kept as they are: padding is not
/// trimmed.
pub fn take_text8<'a>(i: &'a [u8]) -> (r: Parsed<'a, Text8>)
    ensures
        r.matches_view(i@, text_outcome(i@, 8)),
{
    if i.len() < 8 {
        return Parsed::Incomplete;
    }
    if !is_ascii_prefix(i, 8) {
        return Parsed::Malformed;
    }
    let field = vstd::slice::slice_subrange(i, 0, 8);
    let rest = vstd::slice::slice_subrange(i, 8, i.len());
    proof {
        assert(ascii_at(field@, 0, 8)) by {
            assert forall|k: int| 0 <= k < 8 implies #[trigger] field@[k] < 0x80 by {
                assert(i@[k] < 0x80);
            }
        }
        lemma_ascii_is_utf8(field@);
        assert(text_at(field@, 0, 8) =~= text_at(i@, 0, 8));
    }
    match str_from_utf8(field) {
        Some(s) => {
            assert(vstd::utf8::encode_utf8(s@) == field@);
            match text8_from(s) {
                Some(t) => Parsed::Done(rest, t),
                None => Parsed::Malformed,
            }
        },
        None => Parsed::Malformed,
    }
}

/// Four bytes of single-byte text, kept as they are: padding is not
/// trimmed.
pub fn take_text4<'a>(i: &'a [u8]) -> (r: Parsed<'a, Text4>)
    ensures
        r.matches_view(i@, text_outcome(i@, 4)),
{
    if i.len() < 4 {
        return Parsed::Incomplete;
    }
    if !is_ascii_prefix(i, 4) {
        return Parsed::Malformed;
    }
    let field = vstd::slice::slice_subrange(i, 0, 4);
    let rest = vstd::slice::slice_subrange(i, 4, i.len());
    proof {
        assert(ascii_at(field@, 0, 4)) by {
            assert forall|k: int| 0 <= k < 4 implies #[trigger] field@[k] < 0x80 by {
                assert(i@[k] < 0x80);
            }
        }
        lemma_ascii_is_utf8(field@);
        assert(text_at(field@, 0, 4) =~= text_at(i@, 0, 4));
    }
    match str_from_utf8(field) {
        Some(s) => {
            assert(vstd::utf8::encode_utf8(s@) == field@);
            match text4_from(s) {
                Some(t) => Parsed::Done(rest, t),
                None => Parsed::Malformed,
            }
        },
        None => Parsed::Malformed,
    }
}

} // verus!
