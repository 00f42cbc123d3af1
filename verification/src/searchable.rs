//! Values that can be searched as bytes.

use vstd::arithmetic::div_mod::lemma_mod_breakdown;
use vstd::prelude::*;
use vstd::string::*;
use vstd::utf8::encode_utf8;

verus! {

/// The `width` low-order base-256 digits of `x`, most significant first.
pub open spec fn big_endian(x: nat, width: nat) -> Seq<u8>
    decreases width,
{
    if width == 0 {
        Seq::empty()
    } else {
        big_endian(x / 256, (width - 1) as nat).push((x % 256) as u8)
    }
}

/// The number that base-256 digits stand for, most significant first.
pub open spec fn big_endian_value(bytes: Seq<u8>) -> nat
    decreases bytes.len(),
{
    if bytes.len() == 0 {
        0
    } else {
        big_endian_value(bytes.drop_last()) * 256 + bytes.last() as nat
    }
}

/// 256 to the power of `width`.
pub open spec fn radix(width: nat) -> nat
    decreases width,
{
    if width == 0 {
        1
    } else {
        256 * radix((width - 1) as nat)
    }
}

/// The digits are as many as asked for, and they stand for the number
/// itself where it fits in that many digits, else for its remainder.
pub proof fn lemma_big_endian(x: nat, width: nat)
    ensures
        big_endian(x, width).len() == width,
        radix(width) > 0,
        big_endian_value(big_endian(x, width)) == x % radix(width),
    decreases width,
{
    if width > 0 {
        let rest = big_endian(x / 256, (width - 1) as nat);
        let r = radix((width - 1) as nat);
        lemma_big_endian(x / 256, (width - 1) as nat);
        assert(big_endian(x, width).drop_last() =~= rest);
        lemma_mod_breakdown(x as int, 256, r as int);
    }
}

/// Appends the `width` low-order bytes of `x` to `out`, most significant
/// first.
pub fn push_big_endian(out: &mut Vec<u8>, x: u128, width: usize)
    ensures
        final(out)@ == old(out)@ + big_endian(x as nat, width as nat),
    decreases width,
{
    if width > 0 {
        push_big_endian(out, x / 256, width - 1);
        out.push((x % 256) as u8);
        assert(out@ =~= old(out)@ + big_endian(x as nat, width as nat));
    } else {
        assert(out@ =~= old(out)@ + big_endian(x as nat, width as nat));
    }
}

/// The `width` low-order bytes of `x`, most significant first.
pub fn big_endian_bytes(x: u128, width: usize) -> (bytes: Vec<u8>)
    ensures
        bytes@ == big_endian(x as nat, width as nat),
{
    let mut bytes: Vec<u8> = Vec::new();
    push_big_endian(&mut bytes, x, width);
    assert(bytes@ =~= big_endian(x as nat, width as nat));
    bytes
}

/// A value that gives the bytes to search under a field's name.
pub trait Searchable {
    /// The bytes of the value under `field`, if it has any.
    spec fn value(&self, field: Seq<char>) -> Option<Seq<u8>>;

    fn get_value(&self, field: &str) -> (found: Option<Vec<u8>>)
        ensures
            found is Some <==> self.value(field@) is Some,
            found matches Some(bytes) ==> self.value(field@) == Some(bytes@),
    ;
}

/// A text is searched as its UTF-8 bytes, whatever the field.
impl Searchable for str {
    open spec fn value(&self, field: Seq<char>) -> Option<Seq<u8>> {
        Some(encode_utf8(self@))
    }

    fn get_value(&self, _field: &str) -> (found: Option<Vec<u8>>) {
        Some(self.as_bytes_vec())
    }
}

/// A text is searched as its UTF-8 bytes, whatever the field.
impl Searchable for String {
    open spec fn value(&self, field: Seq<char>) -> Option<Seq<u8>> {
        Some(encode_utf8(self@))
    }

    fn get_value(&self, _field: &str) -> (found: Option<Vec<u8>>) {
        Some(self.as_str().as_bytes_vec())
    }
}

/// A number is searched as its bytes, most significant first.
impl Searchable for u8 {
    open spec fn value(&self, field: Seq<char>) -> Option<Seq<u8>> {
        Some(big_endian(*self as nat, 1))
    }

    fn get_value(&self, _field: &str) -> (found: Option<Vec<u8>>) {
        Some(big_endian_bytes(*self as u128, 1))
    }
}

/// A number is searched as its bytes, most significant first.
impl Searchable for u16 {
    open spec fn value(&self, field: Seq<char>) -> Option<Seq<u8>> {
        Some(big_endian(*self as nat, 2))
    }

    fn get_value(&self, _field: &str) -> (found: Option<Vec<u8>>) {
        Some(big_endian_bytes(*self as u128, 2))
    }
}

/// A number is searched as its bytes, most significant first.
impl Searchable for u32 {
    open spec fn value(&self, field: Seq<char>) -> Option<Seq<u8>> {
        Some(big_endian(*self as nat, 4))
    }

    fn get_value(&self, _field: &str) -> (found: Option<Vec<u8>>) {
        Some(big_endian_bytes(*self as u128, 4))
    }
}

/// A number is searched as its bytes, most significant first.
impl Searchable for u64 {
    open spec fn value(&self, field: Seq<char>) -> Option<Seq<u8>> {
        Some(big_endian(*self as nat, 8))
    }

    fn get_value(&self, _field: &str) -> (found: Option<Vec<u8>>) {
        Some(big_endian_bytes(*self as u128, 8))
    }
}

/// A number is searched as its bytes, most significant first.
impl Searchable for u128 {
    open spec fn value(&self, field: Seq<char>) -> Option<Seq<u8>> {
        Some(big_endian(*self as nat, 16))
    }

    fn get_value(&self, _field: &str) -> (found: Option<Vec<u8>>) {
        Some(big_endian_bytes(*self, 16))
    }
}

} // verus!
