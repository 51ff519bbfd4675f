//! The tagged values a decoded bus message is made of, and the field maps
//! built from them.
//!
//! A value is a string, an integer, a floating-point number kept as its
//! IEEE-754 bit pattern or as its decimal text, a boolean, null, or a raw
//! JSON fragment carried through unchanged. Keeping numbers as bits or
//! text keeps the library free of floating-point arithmetic while losing
//! nothing: the adapters turn them back at the edge.

use vstd::prelude::*;

use crate::assoc::{assoc_get, assoc_insert, assoc_map, assoc_remove, distinct_keys};

verus! {

/// A decoded field value.
pub enum JsonValue {
    Null,
    Bool(bool),
    /// A JSON integer that fits in a signed 64-bit word.
    Int(i64),
    /// Any other JSON number, kept as its decimal text.
    NumText(String),
    Str(String),
    /// An IEEE-754 double, kept as its bit pattern.
    DoubleBits(u64),
    /// An IEEE-754 single, kept as its bit pattern.
    FloatBits(u32),
    /// A nested JSON array or object, kept as raw JSON text.
    Raw(String),
}

/// The mathematical value of a [`JsonValue`].
pub enum JsonValueView {
    Null,
    Bool(bool),
    Int(i64),
    NumText(Seq<char>),
    Str(Seq<char>),
    DoubleBits(u64),
    FloatBits(u32),
    Raw(Seq<char>),
}

impl View for JsonValue {
    type V = JsonValueView;

    open spec fn view(&self) -> JsonValueView {
        match self {
            JsonValue::Null => JsonValueView::Null,
            JsonValue::Bool(b) => JsonValueView::Bool(*b),
            JsonValue::Int(i) => JsonValueView::Int(*i),
            JsonValue::NumText(s) => JsonValueView::NumText(s@),
            JsonValue::Str(s) => JsonValueView::Str(s@),
            JsonValue::DoubleBits(b) => JsonValueView::DoubleBits(*b),
            JsonValue::FloatBits(b) => JsonValueView::FloatBits(*b),
            JsonValue::Raw(s) => JsonValueView::Raw(s@),
        }
    }
}

impl Clone for JsonValue {
    fn clone(&self) -> (r: Self)
        ensures
            r@ == self@,
    {
        match self {
            JsonValue::Null => JsonValue::Null,
            JsonValue::Bool(b) => JsonValue::Bool(*b),
            JsonValue::Int(i) => JsonValue::Int(*i),
            JsonValue::NumText(s) => JsonValue::NumText(s.clone()),
            JsonValue::Str(s) => JsonValue::Str(s.clone()),
            JsonValue::DoubleBits(b) => JsonValue::DoubleBits(*b),
            JsonValue::FloatBits(b) => JsonValue::FloatBits(*b),
            JsonValue::Raw(s) => JsonValue::Raw(s.clone()),
        }
    }
}

/// An unordered map from field name to decoded value: the output type of
/// every decoder, and the payload of a `next` callback.
pub struct ValueMap {
    pairs: Vec<(String, JsonValue)>,
}

impl View for ValueMap {
    type V = Map<Seq<char>, JsonValueView>;

    closed spec fn view(&self) -> Map<Seq<char>, JsonValueView> {
        assoc_map(self.pairs@)
    }
}

impl ValueMap {
    /// The entries, in insertion order, as the abstraction sees them.
    pub closed spec fn entries_view(&self) -> Seq<(Seq<char>, JsonValueView)> {
        self.pairs@.map_values(|p: (String, JsonValue)| (p.0@, p.1@))
    }

    /// Keys are pairwise distinct; every map carries this.
    pub closed spec fn wf(&self) -> bool {
        distinct_keys(self.pairs@)
    }

    pub fn new() -> (r: Self)
        ensures
            r.wf(),
            r@ =~= Map::<Seq<char>, JsonValueView>::empty(),
            r.entries_view().len() == 0,
    {
        ValueMap { pairs: Vec::new() }
    }

    /// Number of entries held.
    pub fn len_exec(&self) -> (r: usize)
        ensures
            r == self.entries_view().len(),
    {
        self.pairs.len()
    }

    pub fn is_empty(&self) -> (r: bool)
        requires
            self.wf(),
        ensures
            r == (self@ =~= Map::<Seq<char>, JsonValueView>::empty()),
    {
        proof {
            if self.pairs@.len() > 0 {
                crate::assoc::lemma_assoc_map_index(self.pairs@, 0);
            }
        }
        self.pairs.len() == 0
    }

    pub fn get<'a>(&'a self, key: &String) -> (r: Option<&'a JsonValue>)
        requires
            self.wf(),
        ensures
            match r {
                Some(v) => self@.contains_key(key@) && self@[key@] == v@,
                None => !self@.contains_key(key@),
            },
    {
        assoc_get(&self.pairs, key)
    }

    pub fn insert(&mut self, key: String, value: JsonValue)
        requires
            old(self).wf(),
        ensures
            final(self).wf(),
            final(self)@ =~= old(self)@.insert(key@, value@),
    {
        assoc_insert(&mut self.pairs, key, value);
    }

    pub fn remove(&mut self, key: &String)
        requires
            old(self).wf(),
        ensures
            final(self).wf(),
            final(self)@ =~= old(self)@.remove(key@),
    {
        assoc_remove(&mut self.pairs, key);
    }

    /// The entries as a plain vector, for the adapters that serialise the
    /// map at the edge.
    pub fn entries(&self) -> (r: &Vec<(String, JsonValue)>)
        ensures
            r@.map_values(|p: (String, JsonValue)| (p.0@, p.1@)) == self.entries_view(),
    {
        &self.pairs
    }
}

impl Clone for ValueMap {
    fn clone(&self) -> (r: Self)
        ensures
            r@ == self@,
            r.wf() == self.wf(),
            r.entries_view() == self.entries_view(),
    {
        let mut pairs: Vec<(String, JsonValue)> = Vec::new();
        let n = self.pairs.len();
        for i in 0..n
            invariant
                n == self.pairs@.len(),
                pairs@.len() == i,
                forall|j: int| 0 <= j < i ==> pairs@[j].0@ == self.pairs@[j].0@,
                forall|j: int| 0 <= j < i ==> pairs@[j].1@ == self.pairs@[j].1@,
        {
            let k = self.pairs[i].0.clone();
            let v = self.pairs[i].1.clone();
            pairs.push((k, v));
        }
        proof {
            lemma_assoc_map_congruent(pairs@, self.pairs@);
            assert(pairs@.map_values(|p: (String, JsonValue)| (p.0@, p.1@)) =~= self.pairs@
                .map_values(|p: (String, JsonValue)| (p.0@, p.1@)));
        }
        ValueMap { pairs }
    }
}

/// Two association lists equal entry by entry denote the same map.
pub proof fn lemma_assoc_map_congruent<V: View>(a: Seq<(String, V)>, b: Seq<(String, V)>)
    requires
        a.len() == b.len(),
        forall|i: int| 0 <= i < a.len() ==> a[i].0@ == b[i].0@ && a[i].1@ == b[i].1@,
    ensures
        assoc_map(a) =~= assoc_map(b),
        distinct_keys(a) == distinct_keys(b),
    decreases a.len(),
{
    if a.len() > 0 {
        lemma_assoc_map_congruent(a.drop_last(), b.drop_last());
    }
    if distinct_keys(a) != distinct_keys(b) {
        if distinct_keys(a) {
            let (i, j) = choose|i: int, j: int| 0 <= i < j < b.len() && b[i].0@ == b[j].0@;
            assert(a[i].0@ != a[j].0@);
        } else {
            let (i, j) = choose|i: int, j: int| 0 <= i < j < a.len() && a[i].0@ == a[j].0@;
            assert(b[i].0@ != b[j].0@);
        }
    }
}

/// An unordered map from string to string: the arguments of a parsed
/// subscription request.
pub struct StrMap {
    pairs: Vec<(String, String)>,
}

impl View for StrMap {
    type V = Map<Seq<char>, Seq<char>>;

    closed spec fn view(&self) -> Map<Seq<char>, Seq<char>> {
        assoc_map(self.pairs@)
    }
}

impl StrMap {
    pub closed spec fn wf(&self) -> bool {
        distinct_keys(self.pairs@)
    }

    pub fn new() -> (r: Self)
        ensures
            r.wf(),
            r@ =~= Map::<Seq<char>, Seq<char>>::empty(),
    {
        StrMap { pairs: Vec::new() }
    }

    pub fn get<'a>(&'a self, key: &String) -> (r: Option<&'a String>)
        requires
            self.wf(),
        ensures
            match r {
                Some(v) => self@.contains_key(key@) && self@[key@] == v@,
                None => !self@.contains_key(key@),
            },
    {
        assoc_get(&self.pairs, key)
    }

    pub fn insert(&mut self, key: String, value: String)
        requires
            old(self).wf(),
        ensures
            final(self).wf(),
            final(self)@ =~= old(self)@.insert(key@, value@),
    {
        assoc_insert(&mut self.pairs, key, value);
    }
}

impl Clone for StrMap {
    fn clone(&self) -> (r: Self)
        ensures
            r@ == self@,
            r.wf() == self.wf(),
    {
        let mut pairs: Vec<(String, String)> = Vec::new();
        let n = self.pairs.len();
        for i in 0..n
            invariant
                n == self.pairs@.len(),
                pairs@.len() == i,
                forall|j: int| 0 <= j < i ==> pairs@[j].0@ == self.pairs@[j].0@,
                forall|j: int| 0 <= j < i ==> pairs@[j].1@ == self.pairs@[j].1@,
        {
            let k = self.pairs[i].0.clone();
            let v = self.pairs[i].1.clone();
            pairs.push((k, v));
        }
        proof {
            lemma_assoc_map_congruent(pairs@, self.pairs@);
        }
        StrMap { pairs }
    }
}

} // verus!
