//! The query parameters of a transport request, read as a map from names
//! to values.

use vstd::prelude::*;
use crate::keyed::{lemma_to_map_dom, lemma_to_map_last, to_map};
use crate::text::str_eq;

verus! {

/// Query parameters, in the order they were given; a later value for a name
/// replaces an earlier one.
pub struct QueryParams {
    pairs: Vec<(String, String)>,
}

spec fn param_pairs(s: Seq<(String, String)>) -> Seq<(Seq<char>, Seq<char>)> {
    s.map_values(|p: (String, String)| (p.0@, p.1@))
}

impl View for QueryParams {
    type V = Map<Seq<char>, Seq<char>>;

    closed spec fn view(&self) -> Map<Seq<char>, Seq<char>> {
        to_map(param_pairs(self.pairs@))
    }
}

impl QueryParams {
    /// No parameters.
    pub fn new() -> (q: Self)
        ensures
            q@ == Map::<Seq<char>, Seq<char>>::empty(),
    {
        let q = QueryParams { pairs: Vec::new() };
        assert(param_pairs(q.pairs@) =~= Seq::empty());
        q
    }

    /// Sets parameter `name` to `value`.
    pub fn insert(&mut self, name: String, value: String)
        ensures
            final(self)@ == old(self)@.insert(name@, value@),
    {
        let ghost before = param_pairs(self.pairs@);
        self.pairs.push((name, value));
        assert(param_pairs(self.pairs@).drop_last() =~= before);
    }

    /// The value of parameter `name`, if it was given.
    pub fn get(&self, name: &str) -> (r: Option<String>)
        ensures
            r is Some <==> self@.contains_key(name@),
            r matches Some(v) ==> v@ == self@[name@],
    {
        let ghost ps = param_pairs(self.pairs@);
        let mut i: usize = self.pairs.len();
        while i > 0
            invariant
                i <= self.pairs@.len(),
                ps == param_pairs(self.pairs@),
                forall|j: int| i <= j < self.pairs@.len() ==> #[trigger] ps[j].0 != name@,
            decreases i,
        {
            if str_eq(self.pairs[i - 1].0.as_str(), name) {
                proof {
                    lemma_to_map_last(ps, i - 1);
                }
                return Some(self.pairs[i - 1].1.clone());
            }
            i = i - 1;
        }
        proof {
            lemma_to_map_dom(ps);
            if self@.contains_key(name@) {
                let j = choose|j: int| 0 <= j < ps.len() && ps[j].0 == name@;
                assert(ps[j].0 != name@);
            }
        }
        None
    }
}

} // verus!
