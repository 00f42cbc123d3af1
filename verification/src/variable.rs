//! Variables: named tests of one field of a JSON record against a pattern.

use crate::json::{extract, field_value};
use crate::pattern::{regex_accepts, regex_compiles, regex_source};
use crate::text::{bytes_equal, window_equals};
use vstd::prelude::*;
use vstd::string::*;
use vstd::utf8::encode_utf8;

verus! {

/// The chunked containment test on byte strings. A pattern longer than the
/// data never matches; one of the same length matches when the two are
/// equal. A shorter pattern is compared with the windows of
/// `len(data) - len(data) % len(pattern)` bytes that start at the offsets
/// `0 ..= len(data) % len(pattern)`, and matches when it equals one of them.
/// An empty pattern matches empty data only.
pub open spec fn chunk_found(data: Seq<u8>, pattern: Seq<u8>) -> bool {
    let h = data.len() as int;
    let n = pattern.len() as int;
    if n > h {
        false
    } else if n == h {
        data == pattern
    } else if n == 0 {
        false
    } else {
        exists|i: int| 0 <= i <= h % n && #[trigger] data.subrange(i, i + (h - h % n)) == pattern
    }
}

/// The pattern occurs in the data as a run of consecutive bytes.
pub open spec fn occurs_in(data: Seq<u8>, pattern: Seq<u8>) -> bool {
    exists|i: int|
        0 <= i <= data.len() - pattern.len() && #[trigger] data.subrange(i, i + pattern.len())
            == pattern
}

/// What the chunked containment test amounts to for a pattern that is not
/// empty: on data of less than twice the pattern's length it finds the
/// pattern wherever it occurs, and on longer data it finds nothing.
pub proof fn lemma_chunk_found_reach(data: Seq<u8>, pattern: Seq<u8>)
    requires
        pattern.len() > 0,
    ensures
        chunk_found(data, pattern) <==> data.len() < 2 * pattern.len() && occurs_in(data, pattern),
{
    let h = data.len() as int;
    let n = pattern.len() as int;
    if n > h {
        if occurs_in(data, pattern) {
            let i = choose|i: int|
                0 <= i <= h - n && #[trigger] data.subrange(i, i + pattern.len()) == pattern;
        }
    } else if n == h {
        assert(data.subrange(0int, 0int + pattern.len()) =~= data);
        if occurs_in(data, pattern) {
            let i = choose|i: int|
                0 <= i <= h - n && #[trigger] data.subrange(i, i + pattern.len()) == pattern;
            assert(i == 0);
        }
    } else if h < 2 * n {
        assert(h % n == h - n) by (nonlinear_arith)
            requires
                0 < n < h < 2 * n,
        ;
        if chunk_found(data, pattern) {
            let i = choose|i: int|
                0 <= i <= h % n && #[trigger] data.subrange(i, i + (h - h % n)) == pattern;
            assert(data.subrange(i, i + pattern.len()) == pattern);
        }
        if occurs_in(data, pattern) {
            let i = choose|i: int|
                0 <= i <= h - n && #[trigger] data.subrange(i, i + pattern.len()) == pattern;
            assert(data.subrange(i, i + (h - h % n)) == pattern);
        }
    } else {
        assert(h - h % n >= 2 * n && 0 <= h % n < n) by (nonlinear_arith)
            requires
                0 < n,
                h >= 2 * n,
        ;
        if chunk_found(data, pattern) {
            let i = choose|i: int|
                0 <= i <= h % n && #[trigger] data.subrange(i, i + (h - h % n)) == pattern;
            assert(data.subrange(i, i + (h - h % n)).len() == h - h % n);
        }
    }
}

/// Runs the chunked containment test of `pattern` on `data`.
pub fn chunked_contains(data: &[u8], pattern: &[u8]) -> (found: bool)
    ensures
        found == chunk_found(data@, pattern@),
{
    let h = data.len();
    let n = pattern.len();
    if n > h {
        return false;
    }
    if n == h {
        return bytes_equal(data, pattern);
    }
    if n == 0 {
        return false;
    }
    let last = h % n;
    let increment = h - last;
    let mut i: usize = 0;
    while i <= last
        invariant
            0 < n < h,
            h == data@.len(),
            n == pattern@.len(),
            last == h % n,
            increment == h - last,
            i <= last + 1,
            forall|k: int| 0 <= k < i ==> #[trigger] data@.subrange(k, k + increment) != pattern@,
        decreases last + 1 - i,
    {
        if window_equals(data, i, increment, pattern) {
            return true;
        }
        i += 1;
    }
    false
}

/// A pattern that the `regex` crate does not compile.
#[derive(Debug)]
pub struct MatcherConstructionError {
    pub pattern: String,
}

impl MatcherConstructionError {
    /// The error as one line of text.
    pub fn to_string(&self) -> (line: String)
        ensures
            line@ == "MatcherConstructionError: invalid regex: "@ + self.pattern@,
    {
        "MatcherConstructionError: invalid regex: ".to_owned().concat(self.pattern.as_str())
    }
}

/// A named test of one field of a record. `name` is what the conditional
/// calls the variable; `field` is the path of the field in the record. A
/// path that names a modifier selects nothing.
#[derive(Debug)]
pub enum Variable {
    /// The field matches a regular expression somewhere.
    Regex { name: String, field: String, regex: regex::Regex },
    /// The bytes of the field are exactly these.
    Exact { name: String, field: String, exact: Vec<u8> },
    /// The chunked containment test finds these bytes in the field.
    Contains { name: String, field: String, contains: Vec<u8> },
}

impl Variable {
    /// The name of the variable.
    pub open spec fn name(self) -> Seq<char> {
        match self {
            Variable::Regex { name, .. } => name@,
            Variable::Exact { name, .. } => name@,
            Variable::Contains { name, .. } => name@,
        }
    }

    /// The path of the field that the variable tests.
    pub open spec fn field(self) -> Seq<char> {
        match self {
            Variable::Regex { field, .. } => field@,
            Variable::Exact { field, .. } => field@,
            Variable::Contains { field, .. } => field@,
        }
    }

    /// Whether the variable's test accepts a field with this text.
    pub open spec fn accepts(self, value: Seq<char>) -> bool {
        match self {
            Variable::Regex { regex, .. } => regex_accepts(regex, value),
            Variable::Exact { exact, .. } => encode_utf8(value) == exact@,
            Variable::Contains { contains, .. } => chunk_found(encode_utf8(value), contains@),
        }
    }

    /// Whether the variable holds of a record: its test accepts the text
    /// found under its field's path.
    pub open spec fn holds(self, json: Seq<char>) -> bool {
        self.accepts(field_value(json, self.field()))
    }

    /// A variable that tests a field against a regular expression, which is
    /// compiled here. Fails exactly when the pattern does not compile.
    pub fn new_regex(name: String, field: String, pattern: &str) -> (r: Result<
        Variable,
        MatcherConstructionError,
    >)
        ensures
            r is Ok <==> regex_compiles(pattern@),
            match r {
                Ok(v) => v matches Variable::Regex { name: n, field: f, regex } && n == name && f
                    == field && regex_source(regex) == pattern@,
                Err(error) => error.pattern@ == pattern@,
            },
    {
        match regex::Regex::new(pattern) {
            Ok(regex) => Ok(Variable::Regex { name, field, regex }),
            Err(_) => Err(MatcherConstructionError { pattern: pattern.to_owned() }),
        }
    }

    /// A variable that tests a field for being exactly `text`.
    pub fn new_exact(name: String, field: String, text: &str) -> (v: Variable)
        ensures
            v matches Variable::Exact { name: n, field: f, exact } && n == name && f == field
                && exact@ == encode_utf8(text@),
    {
        Variable::Exact { name, field, exact: text.as_bytes_vec() }
    }

    /// A variable that runs the chunked containment test for `text`.
    pub fn new_contains(name: String, field: String, text: &str) -> (v: Variable)
        ensures
            v matches Variable::Contains { name: n, field: f, contains } && n == name && f
                == field && contains@ == encode_utf8(text@),
    {
        Variable::Contains { name, field, contains: text.as_bytes_vec() }
    }

    /// The path of the field that the variable tests.
    pub fn get_field(&self) -> (field: &str)
        ensures
            field@ == self.field(),
    {
        match self {
            Variable::Regex { field, .. } => field.as_str(),
            Variable::Exact { field, .. } => field.as_str(),
            Variable::Contains { field, .. } => field.as_str(),
        }
    }

    /// The name of the variable.
    pub fn get_name(&self) -> (name: &str)
        ensures
            name@ == self.name(),
    {
        match self {
            Variable::Regex { name, .. } => name.as_str(),
            Variable::Exact { name, .. } => name.as_str(),
            Variable::Contains { name, .. } => name.as_str(),
        }
    }

    /// Whether the variable's test accepts a field with this text.
    pub fn test(&self, value: &str) -> (accepted: bool)
        ensures
            accepted == self.accepts(value@),
    {
        match self {
            Variable::Regex { regex, .. } => regex.is_match(value),
            Variable::Exact { exact, .. } => bytes_equal(value.as_bytes(), exact.as_slice()),
            Variable::Contains { contains, .. } => chunked_contains(
                value.as_bytes(),
                contains.as_slice(),
            ),
        }
    }

    /// Tests the variable on a record: extracts the text under the field's
    /// path, which is empty where the path selects nothing, and runs the test
    /// on it. Returns the variable's name with the outcome.
    pub fn match_against(&self, json: &str) -> (r: (&str, bool))
        ensures
            r.0@ == self.name(),
            r.1 == self.holds(json@),
    {
        let value = extract(json, self.get_field());
        (self.get_name(), self.test(value.as_str()))
    }
}

} // verus!
