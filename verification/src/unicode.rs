use vstd::prelude::*;
use vstd::utf8::{char_is_scalar, encode_scalar, encode_utf8};

verus! {

/// Whether `char::is_whitespace` holds of the character.
pub uninterp spec fn char_is_whitespace(c: char) -> bool;

/// Whether `char::is_numeric` holds of the character.
pub uninterp spec fn char_is_numeric(c: char) -> bool;

/// Whether `char::is_alphabetic` holds of the character.
pub uninterp spec fn char_is_alphabetic(c: char) -> bool;

/// Whether the character may start an identifier by Unicode's rule (`XID_Start`).
pub uninterp spec fn char_is_xid_start(c: char) -> bool;

/// Whether the character may continue an identifier by Unicode's rule (`XID_Continue`).
pub uninterp spec fn char_is_xid_continue(c: char) -> bool;

/// `char::is_whitespace`: the Unicode property `White_Space`, a table of
/// std's. The contract only gives the answer a name.
pub assume_specification[ char::is_whitespace ](c: char) -> (b: bool)
    ensures
        b == char_is_whitespace(c),
;

/// `char::is_numeric`: the general categories `Nd`, `Nl` and `No`, a table
/// of std's. The contract only gives the answer a name.
pub assume_specification[ char::is_numeric ](c: char) -> (b: bool)
    ensures
        b == char_is_numeric(c),
;

/// `char::is_alphabetic`: the Unicode property `Alphabetic`, a table of
/// std's. The contract only gives the answer a name.
pub assume_specification[ char::is_alphabetic ](c: char) -> (b: bool)
    ensures
        b == char_is_alphabetic(c),
;

/// `char::is_alphanumeric`, which std documents as `is_alphabetic` or
/// `is_numeric`.
pub assume_specification[ char::is_alphanumeric ](c: char) -> (b: bool)
    ensures
        b == (char_is_alphabetic(c) || char_is_numeric(c)),
;

/// `unicode_ident::is_xid_start`: a lookup in that crate's table of the
/// property `XID_Start`. The contract only gives the answer a name.
pub assume_specification[ unicode_ident::is_xid_start ](ch: char) -> (b: bool)
    ensures
        b == char_is_xid_start(ch),
;

/// `unicode_ident::is_xid_continue`: a lookup in that crate's table of the
/// property `XID_Continue`. The contract only gives the answer a name.
pub assume_specification[ unicode_ident::is_xid_continue ](ch: char) -> (b: bool)
    ensures
        b == char_is_xid_continue(ch),
;

/// Bytes that a character takes in UTF-8.
pub open spec fn char_width(c: char) -> nat {
    if c as u32 <= 0x7F {
        1
    } else if c as u32 <= 0x7FF {
        2
    } else if c as u32 <= 0xFFFF {
        3
    } else {
        4
    }
}

/// Code units that a character takes in UTF-16: two outside the Basic
/// Multilingual Plane, one inside it.
pub open spec fn char_units(c: char) -> nat {
    if c as u32 >= 0x10000 {
        2
    } else {
        1
    }
}

/// Length of a text in bytes of its UTF-8 encoding.
pub open spec fn byte_len(s: Seq<char>) -> nat {
    encode_utf8(s).len()
}

/// Length of a text in UTF-16 code units.
pub open spec fn unit_len(s: Seq<char>) -> nat
    decreases s.len(),
{
    if s.len() == 0 {
        0
    } else {
        unit_len(s.drop_last()) + char_units(s.last())
    }
}

pub proof fn lemma_encode_scalar_len(c: char)
    ensures
        encode_scalar(c as u32).len() == char_width(c),
{
    char_is_scalar(c);
}

pub proof fn lemma_byte_len_empty()
    ensures
        byte_len(Seq::<char>::empty()) == 0,
{
}

/// The byte length of a concatenation is the sum of the byte lengths.
pub proof fn lemma_byte_len_concat(a: Seq<char>, b: Seq<char>)
    ensures
        byte_len(a + b) == byte_len(a) + byte_len(b),
    decreases a.len(),
{
    if a.len() == 0 {
        assert(a + b =~= b);
    } else {
        assert((a + b).drop_first() =~= a.drop_first() + b);
        assert((a + b)[0] == a[0]);
        lemma_byte_len_concat(a.drop_first(), b);
    }
}

pub proof fn lemma_byte_len_one(c: char)
    ensures
        byte_len(seq![c]) == char_width(c),
{
    lemma_encode_scalar_len(c);
    assert(seq![c].drop_first() =~= Seq::<char>::empty());
    assert(encode_utf8(seq![c]) =~= encode_scalar(c as u32) + encode_utf8(
        Seq::<char>::empty(),
    ));
}

pub proof fn lemma_byte_len_push(s: Seq<char>, c: char)
    ensures
        byte_len(s.push(c)) == byte_len(s) + char_width(c),
{
    lemma_byte_len_concat(s, seq![c]);
    lemma_byte_len_one(c);
    assert(s.push(c) =~= s + seq![c]);
}

/// A longer prefix has at least as many bytes.
pub proof fn lemma_byte_len_take_mono(s: Seq<char>, i: int, j: int)
    requires
        0 <= i <= j <= s.len(),
    ensures
        byte_len(s.take(i)) + byte_len(s.subrange(i, j)) == byte_len(s.take(j)),
        byte_len(s.take(i)) <= byte_len(s.take(j)),
        byte_len(s.take(j)) <= byte_len(s),
{
    assert(s.take(j) =~= s.take(i) + s.subrange(i, j));
    lemma_byte_len_concat(s.take(i), s.subrange(i, j));
    assert(s =~= s.take(j) + s.skip(j));
    lemma_byte_len_concat(s.take(j), s.skip(j));
}

/// A text takes at least one byte for each character.
pub proof fn lemma_byte_len_bound(s: Seq<char>)
    ensures
        s.len() <= byte_len(s),
    decreases s.len(),
{
    if s.len() > 0 {
        lemma_byte_len_bound(s.drop_last());
        lemma_byte_len_push(s.drop_last(), s.last());
        assert(s.drop_last().push(s.last()) =~= s);
    }
}

/// A text takes no more code units than bytes.
pub proof fn lemma_unit_len_le_byte_len(s: Seq<char>)
    ensures
        unit_len(s) <= byte_len(s),
    decreases s.len(),
{
    if s.len() > 0 {
        lemma_unit_len_le_byte_len(s.drop_last());
        lemma_byte_len_push(s.drop_last(), s.last());
        assert(s.drop_last().push(s.last()) =~= s);
    }
}

pub proof fn lemma_unit_len_concat(a: Seq<char>, b: Seq<char>)
    ensures
        unit_len(a + b) == unit_len(a) + unit_len(b),
    decreases b.len(),
{
    if b.len() == 0 {
        assert(a + b =~= a);
    } else {
        assert((a + b).drop_last() =~= a + b.drop_last());
        assert((a + b).last() == b.last());
        lemma_unit_len_concat(a, b.drop_last());
    }
}

/// The number of bytes that a character takes in UTF-8.
pub fn char_len_utf8(c: char) -> (n: usize)
    ensures
        n == char_width(c),
        1 <= n <= 4,
{
    let code: u32 = c as u32;
    if code <= 0x7F {
        1
    } else if code <= 0x7FF {
        2
    } else if code <= 0xFFFF {
        3
    } else {
        4
    }
}

/// The number of code units that a character takes in UTF-16.
pub fn char_len_utf16(c: char) -> (n: usize)
    ensures
        n == char_units(c),
        1 <= n <= 2,
{
    let code: u32 = c as u32;
    if code >= 0x10000 {
        2
    } else {
        1
    }
}

/// Equality of two string slices, `str`'s `==`: std compares the bytes, and
/// two texts have the same UTF-8 bytes exactly when they hold the same
/// characters.
#[verifier::external_body]
pub(crate) fn str_eq(a: &str, b: &str) -> (same: bool)
    ensures
        same == (a@ == b@),
{
    a == b
}

} // verus!
