//! Small tools on byte strings and strings.

use vstd::prelude::*;
use vstd::string::StringSliceAdditionalSpecFns;

verus! {

/// The byte strings of `items`, as sequences.
pub open spec fn views(items: Vec<Vec<u8>>) -> Seq<Seq<u8>> {
    items@.map_values(|item: Vec<u8>| item@)
}

/// Whether `pat` stands in `buf` at index `at`.
pub open spec fn occurs_at(buf: Seq<u8>, at: int, pat: Seq<u8>) -> bool {
    0 <= at && at + pat.len() <= buf.len() && buf.subrange(at, at + pat.len()) == pat
}

/// Tells whether `pat` stands in `buf` at index `at`.
pub fn matches_at(buf: &[u8], at: usize, pat: &[u8]) -> (r: bool)
    ensures
        r == occurs_at(buf@, at as int, pat@),
{
    if pat.len() > buf.len() || at > buf.len() - pat.len() {
        return false;
    }
    let end: usize = at + pat.len();
    let mut k: usize = 0;
    while k < pat.len()
        invariant
            k <= pat@.len(),
            end == at + pat@.len(),
            end <= buf@.len(),
            forall|j: int| 0 <= j < k ==> buf@[at + j] == pat@[j],
        decreases pat@.len() - k,
    {
        if buf[at + k] != pat[k] {
            assert(buf@.subrange(at as int, at + pat@.len())[k as int] != pat@[k as int]);
            return false;
        }
        k += 1;
    }
    assert(buf@.subrange(at as int, at + pat@.len()) =~= pat@);
    true
}

/// A vector with the bytes of `bytes`.
pub fn copy_of(bytes: &[u8]) -> (r: Vec<u8>)
    ensures
        r@ == bytes@,
{
    let mut copy: Vec<u8> = Vec::new();
    copy.extend_from_slice(bytes);
    assert(copy@ =~= bytes@);
    copy
}

/// Tells whether `a` and `b` hold the same characters.
pub fn str_eq(a: &str, b: &str) -> (r: bool)
    ensures
        r == (a@ == b@),
{
    let left = a.as_bytes();
    let right = b.as_bytes();
    proof {
        vstd::utf8::encode_utf8_decode_utf8(a@);
        vstd::utf8::encode_utf8_decode_utf8(b@);
    }
    if left.len() != right.len() {
        return false;
    }
    let same = matches_at(left, 0, right);
    assert(left@.subrange(0, left@.len() as int) =~= left@);
    same
}

} // verus!
