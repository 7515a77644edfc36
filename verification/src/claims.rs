//! Propositions and the answer claims made about them, shared by the product
//! benchmarks.
use vstd::prelude::*;

verus! {

/// A fact as a key and a value.
#[derive(Debug, PartialEq, Eq)]
pub struct Proposition {
    pub key: String,
    pub value: String,
}

impl View for Proposition {
    type V = (Seq<char>, Seq<char>);

    open spec fn view(&self) -> (Seq<char>, Seq<char>) {
        (self.key@, self.value@)
    }
}

impl Proposition {
    /// A proposition with the given key and value.
    pub fn new(key: &str, value: &str) -> (r: Proposition)
        ensures
            r@ == (key@, value@),
    {
        Proposition { key: String::from_str(key), value: String::from_str(value) }
    }

    /// A copy of the proposition.
    pub fn duplicate(&self) -> (r: Proposition)
        ensures
            r@ == self@,
    {
        Proposition { key: self.key.clone(), value: self.value.clone() }
    }

    /// Whether two propositions have the same key and value.
    pub fn same_as(&self, other: &Proposition) -> (r: bool)
        ensures
            r == (self@ == other@),
    {
        self.key == other.key && self.value == other.value
    }
}

/// The contents of a list of propositions.
pub open spec fn propositions_view(v: Seq<Proposition>) -> Seq<(Seq<char>, Seq<char>)> {
    v.map_values(|p: Proposition| p@)
}

/// Whether a list holds a proposition equal to `p`.
pub fn contains_proposition(list: &Vec<Proposition>, p: &Proposition) -> (r: bool)
    ensures
        r == propositions_view(list@).contains(p@),
{
    let mut i: usize = 0;
    while i < list.len()
        invariant
            i <= list.len(),
            forall|k: int| 0 <= k < i ==> list@[k]@ != p@,
        decreases list.len() - i,
    {
        if list[i].same_as(p) {
            assert(propositions_view(list@)[i as int] == p@);
            return true;
        }
        i = i + 1;
    }
    proof {
        if propositions_view(list@).contains(p@) {
            let k = choose|k: int| 0 <= k < propositions_view(list@).len() && propositions_view(list@)[k] == p@;
            assert(list@[k]@ == p@);
        }
    }
    false
}

/// How an answer claim was exposed. `Uncertain` stands for every mode other
/// than grounded.
#[derive(Debug, Clone, Copy, PartialEq, Eq, Structural)]
pub enum ClaimMode {
    Grounded,
    Uncertain,
}

/// A claim of a rendered answer.
#[derive(Debug)]
pub struct AnswerClaim {
    pub proposition: Proposition,
    pub mode: ClaimMode,
}

} // verus!
