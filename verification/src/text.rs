//! Comparisons of byte strings and of texts.

use vstd::prelude::*;
use vstd::string::*;
use vstd::utf8::*;

verus! {

/// Whether the window `data[from..from + len]` holds exactly `pattern`.
pub fn window_equals(data: &[u8], from: usize, len: usize, pattern: &[u8]) -> (same: bool)
    requires
        from + len <= data@.len(),
    ensures
        same == (data@.subrange(from as int, from + len) == pattern@),
{
    if pattern.len() != len {
        return false;
    }
    let ghost window = data@.subrange(from as int, from + len);
    let total = data.len();
    let mut k: usize = 0;
    while k < len
        invariant
            k <= len,
            len == pattern@.len(),
            from + len <= total == data@.len(),
            window == data@.subrange(from as int, from + len),
            forall|m: int| 0 <= m < k ==> window[m] == pattern@[m],
        decreases len - k,
    {
        if data[from + k] != pattern[k] {
            assert(window[k as int] != pattern@[k as int]);
            return false;
        }
        k += 1;
    }
    assert(window =~= pattern@);
    true
}

/// Whether two byte strings are equal.
pub fn bytes_equal(a: &[u8], b: &[u8]) -> (same: bool)
    ensures
        same == (a@ == b@),
{
    assert(a@.subrange(0, a@.len() as int) =~= a@);
    window_equals(a, 0, a.len(), b)
}

/// Whether two texts are equal, decided on their UTF-8 bytes.
pub fn same_text(a: &str, b: &str) -> (same: bool)
    ensures
        same == (a@ == b@),
{
    proof {
        encode_utf8_decode_utf8(a@);
        encode_utf8_decode_utf8(b@);
    }
    bytes_equal(a.as_bytes(), b.as_bytes())
}

} // verus!
