//! Maps keyed by text: truth values by variable name, field values by path.

use vstd::hash_map::StringHashMap;
use vstd::prelude::*;

verus! {

/// The truth value of each bound variable name. Binding a name again
/// replaces its value.
pub struct Bindings {
    map: StringHashMap<bool>,
}

impl View for Bindings {
    type V = Map<Seq<char>, bool>;

    closed spec fn view(&self) -> Map<Seq<char>, bool> {
        self.map@
    }
}

impl Bindings {
    /// No name is bound.
    pub fn new() -> (bindings: Self)
        ensures
            bindings@ == Map::<Seq<char>, bool>::empty(),
    {
        Bindings { map: StringHashMap::new() }
    }

    /// Binds `name` to `value`, whatever it was bound to before.
    pub fn insert(&mut self, name: String, value: bool)
        ensures
            final(self)@ == old(self)@.insert(name@, value),
    {
        self.map.insert(name, value);
    }

    /// The value that `name` is bound to, if it is bound.
    pub fn get(&self, name: &str) -> (value: Option<bool>)
        ensures
            value == (if self@.contains_key(name@) {
                Some(self@[name@])
            } else {
                None::<bool>
            }),
    {
        match self.map.get(name) {
            Some(v) => Some(*v),
            None => None,
        }
    }

    /// The number of bound names.
    pub fn len(&self) -> (n: usize)
        ensures
            n == self@.len(),
    {
        self.map.len()
    }
}

/// The text found under each field path.
pub struct FieldValues {
    map: StringHashMap<String>,
}

impl View for FieldValues {
    type V = Map<Seq<char>, Seq<char>>;

    closed spec fn view(&self) -> Map<Seq<char>, Seq<char>> {
        Map::new(|path: Seq<char>| self.map@.contains_key(path), |path: Seq<char>| self.map@[path]@)
    }
}

impl FieldValues {
    /// No path has a value.
    pub fn new() -> (values: Self)
        ensures
            values@ == Map::<Seq<char>, Seq<char>>::empty(),
    {
        let values = FieldValues { map: StringHashMap::new() };
        assert(values@ =~= Map::<Seq<char>, Seq<char>>::empty());
        values
    }

    /// Records `text` under `path`, in place of what was there before.
    pub fn insert(&mut self, path: String, text: String)
        ensures
            final(self)@ == old(self)@.insert(path@, text@),
    {
        let ghost before = self@;
        let ghost key = path@;
        let ghost value = text@;
        self.map.insert(path, text);
        assert(self@ =~= before.insert(key, value));
    }

    /// The text recorded under `path`, if there is any.
    pub fn get(&self, path: &str) -> (text: Option<&String>)
        ensures
            match text {
                Some(t) => self@.contains_key(path@) && self@[path@] == t@,
                None => !self@.contains_key(path@),
            },
    {
        self.map.get(path)
    }

    /// The number of paths with a value.
    pub fn len(&self) -> (n: usize)
        ensures
            n == self@.len(),
    {
        proof {
            let inner = self.map@;
            let outer = self@;
            assert(outer.dom() =~= inner.dom());
        }
        self.map.len()
    }
}

} // verus!
