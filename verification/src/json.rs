//! Field extraction from a JSON record, as done by the `gjson` crate.

use vstd::prelude::*;
use vstd::string::*;
use vstd::utf8::encode_utf8;

verus! {

/// A path that names no modifier: no byte of its UTF-8 form is the sign `@`
/// (0x40), with which a modifier's name begins. Fields are addressed by
/// keys, indexes, wildcards and `#`; a key with the sign in it is reached
/// through a wildcard.
pub open spec fn plain_path(path: Seq<char>) -> bool {
    forall|k: int| 0 <= k < encode_utf8(path).len() ==> encode_utf8(path)[k] != 0x40u8
}

/// Whether a path names no modifier.
pub fn is_plain_path(path: &str) -> (plain: bool)
    ensures
        plain == plain_path(path@),
{
    let bytes = path.as_bytes();
    let mut k: usize = 0;
    while k < bytes.len()
        invariant
            k <= bytes.len(),
            bytes@ == encode_utf8(path@),
            forall|m: int| 0 <= m < k ==> bytes@[m] != 0x40u8,
        decreases bytes.len() - k,
    {
        if bytes[k] == 0x40u8 {
            return false;
        }
        k += 1;
    }
    true
}

/// Whether `gjson` finds a value in `json` under `path`.
pub uninterp spec fn json_selects(json: Seq<char>, path: Seq<char>) -> bool;

/// The text of the value that `gjson` finds in `json` under `path`: the
/// content of a string, the word `true` or `false` for a truth value, the
/// empty text for `null`, and the literal text of a number, an object or an
/// array. Where `gjson` cuts a record that is no valid JSON inside a
/// character, each run of bytes that is no UTF-8 stands in the text as the
/// replacement character U+FFFD.
pub uninterp spec fn json_text(json: Seq<char>, path: Seq<char>) -> Seq<char>;

/// `gjson::get` followed by `Value::exists`: whether the path selects a
/// value in the record. What it finds depends on the record and the path
/// only. Paths that name a modifier are left out: for a modifier `gjson`
/// parses text of its own making, on which it can panic, and the validating
/// modifier descends as deep as the record is nested. On the paths that are
/// left, a record that is no valid JSON does not make it panic. Nothing is
/// said of the time and the stack that the call takes: it descends one
/// level for each component of the path, and a path with many wildcards can
/// take long on a single key.
#[verifier::external_body]
pub(crate) fn field_exists(json: &str, path: &str) -> (found: bool)
    requires
        plain_path(path@),
    ensures
        found == json_selects(json@, path@),
{
    gjson::get(json, path).exists()
}

/// `gjson::get` followed by `Value::str`: the text of the value that the
/// path selects in the record. `Value::str` is called on values that exist
/// only, of which a text has both its quotes. On a record that is no valid
/// JSON the bytes need not be UTF-8, so they pass through std's
/// `String::from_utf8_lossy`, which keeps well-formed text as it is.
#[verifier::external_body]
pub(crate) fn field_text(json: &str, path: &str) -> (text: String)
    requires
        plain_path(path@),
        json_selects(json@, path@),
    ensures
        text@ == json_text(json@, path@),
{
    String::from_utf8_lossy(gjson::get(json, path).str().as_bytes()).into_owned()
}

/// The text found in a record under a path. It is empty where the path
/// selects nothing, and where the path names a modifier.
pub open spec fn field_value(json: Seq<char>, path: Seq<char>) -> Seq<char> {
    if plain_path(path) && json_selects(json, path) {
        json_text(json, path)
    } else {
        Seq::empty()
    }
}

/// Extracts the text under `path` from a record. A path that selects
/// nothing gives the empty text, and so does a path that names a modifier,
/// which is not looked up.
pub fn extract(json: &str, path: &str) -> (text: String)
    ensures
        text@ == field_value(json@, path@),
{
    if is_plain_path(path) && field_exists(json, path) {
        field_text(json, path)
    } else {
        String::new()
    }
}

} // verus!
