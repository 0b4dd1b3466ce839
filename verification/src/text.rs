//! Small verified helpers over `str` values.

use vstd::prelude::*;

verus! {

/// Character-by-character equality of two string slices.
pub fn text_equals(a: &str, b: &str) -> (r: bool)
    ensures
        r == (a@ == b@),
{
    let n = a.unicode_len();
    if n != b.unicode_len() {
        return false;
    }
    let mut i: usize = 0;
    while i < n
        invariant
            n == a@.len(),
            n == b@.len(),
            i <= n,
            forall|j: int| 0 <= j < i ==> a@[j] == b@[j],
        decreases n - i,
    {
        if a.get_char(i) != b.get_char(i) {
            return false;
        }
        i = i + 1;
    }
    assert(a@ =~= b@);
    true
}


/// The length of `value`'s UTF-8 encoding, in bytes.
pub fn byte_len(value: &str) -> (n: usize)
    ensures
        n == vstd::utf8::encode_utf8(value@).len(),
{
    value.as_bytes().len()
}

/// A lower-case hexadecimal digit (`0-9`, `a-f`).
pub open spec fn is_lower_hex(c: char) -> bool {
    ('0' <= c && c <= '9') || ('a' <= c && c <= 'f')
}

/// `value` is `prefix` followed by exactly `digits` lower-case hexadecimal digits.
pub open spec fn is_prefixed_hex(value: Seq<char>, prefix: Seq<char>, digits: nat) -> bool {
    &&& value.len() == prefix.len() + digits
    &&& value.take(prefix.len() as int) == prefix
    &&& forall|i: int| prefix.len() <= i < value.len() ==> is_lower_hex(#[trigger] value[i])
}

fn char_is_lower_hex(c: char) -> (r: bool)
    ensures
        r == is_lower_hex(c),
{
    ('0' <= c && c <= '9') || ('a' <= c && c <= 'f')
}

/// Decides [`is_prefixed_hex`] for a string slice.
pub fn has_prefixed_hex(value: &str, prefix: &str, digits: usize) -> (r: bool)
    ensures
        r == is_prefixed_hex(value@, prefix@, digits as nat),
{
    let n = value.unicode_len();
    let p = prefix.unicode_len();
    if digits > n || n - digits != p {
        return false;
    }
    let mut i: usize = 0;
    while i < p
        invariant
            n == value@.len(),
            p == prefix@.len(),
            n == p + digits,
            i <= p,
            forall|j: int| 0 <= j < i ==> value@[j] == prefix@[j],
        decreases p - i,
    {
        if value.get_char(i) != prefix.get_char(i) {
            assert(value@.take(p as int)[i as int] != prefix@[i as int]);
            return false;
        }
        i = i + 1;
    }
    assert(value@.take(p as int) =~= prefix@);
    let mut k: usize = p;
    while k < n
        invariant
            n == value@.len(),
            p == prefix@.len(),
            n == p + digits,
            p <= k <= n,
            value@.take(p as int) == prefix@,
            forall|j: int| p <= j < k ==> is_lower_hex(#[trigger] value@[j]),
        decreases n - k,
    {
        if !char_is_lower_hex(value.get_char(k)) {
            return false;
        }
        k = k + 1;
    }
    true
}

} // verus!
