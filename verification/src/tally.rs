//! Counts of string-labelled events kept as an ascending list of
//! `(label, count)` entries, as an ordered map from label to count holds them.
use vstd::prelude::*;
use crate::counting;
use crate::terms;
use crate::terms::lex_less;

verus! {

/// The labels of a tally, in order.
pub open spec fn labels(v: Seq<(String, usize)>) -> Seq<Seq<char>> {
    v.map_values(|e: (String, usize)| e.0@)
}

/// Where `k` stands among the labels of a tally.
pub open spec fn position_of(v: Seq<(String, usize)>, k: Seq<char>) -> int {
    choose|i: int| 0 <= i < v.len() && #[trigger] labels(v)[i] == k
}

/// A tally as a map from label to count.
pub open spec fn tally_map(v: Seq<(String, usize)>) -> Map<Seq<char>, nat> {
    Map::new(|k: Seq<char>| labels(v).contains(k), |k: Seq<char>| v[position_of(v, k)].1 as nat)
}

/// Whether a tally is well formed: labels strictly ascending, so none repeats.
pub open spec fn well_formed(v: Seq<(String, usize)>) -> bool {
    terms::strictly_ascending(labels(v))
}

/// The tally of a sequence of optional labels: each label that occurs mapped
/// to the number of its occurrences.
pub open spec fn tally_of(s: Seq<Option<Seq<char>>>) -> Map<Seq<char>, nat>
    decreases s.len(),
{
    if s.len() == 0 {
        Map::empty()
    } else {
        let m = tally_of(s.drop_last());
        match s.last() {
            None => m,
            Some(k) => m.insert(k, if m.contains_key(k) { m[k] + 1 } else { 1 }),
        }
    }
}

/// Labels that occur exactly as often as the tally says.
pub open spec fn is_label(k: Seq<char>) -> spec_fn(Option<Seq<char>>) -> bool {
    |o: Option<Seq<char>>| o == Some(k)
}

/// In a well-formed tally, the label at `i` maps to the count at `i`.
pub proof fn lemma_lookup(v: Seq<(String, usize)>, i: int)
    requires
        well_formed(v),
        0 <= i < v.len(),
    ensures
        tally_map(v).contains_key(v[i].0@),
        tally_map(v)[v[i].0@] == v[i].1 as nat,
{
    let k = v[i].0@;
    assert(labels(v)[i] == k);
    let j = position_of(v, k);
    if j < i {
        assert(terms::lex_lt(labels(v)[j], labels(v)[i]));
        terms::lemma_lex_irreflexive(k);
    } else if j > i {
        assert(terms::lex_lt(labels(v)[i], labels(v)[j]));
        terms::lemma_lex_irreflexive(k);
    }
    assert(j == i);
    assert(labels(v).contains(k));
    assert(tally_map(v).contains_key(k));
    assert(tally_map(v)[k] == v[j].1 as nat);
}

/// The tally counts each label's occurrences, and holds exactly the labels
/// that occur.
pub proof fn tally_counts_occurrences(s: Seq<Option<Seq<char>>>, k: Seq<char>)
    ensures
        tally_of(s).contains_key(k) <==> counting::count(s, is_label(k)) > 0,
        tally_of(s).contains_key(k) ==> tally_of(s)[k] == counting::count(s, is_label(k)),
    decreases s.len(),
{
    if s.len() > 0 {
        tally_counts_occurrences(s.drop_last(), k);
    }
}

/// No count of a tally of `s` exceeds the length of `s`.
pub proof fn lemma_counts_bounded(v: Seq<(String, usize)>, s: Seq<Option<Seq<char>>>)
    requires
        well_formed(v),
        tally_map(v) == tally_of(s),
    ensures
        forall|i: int| 0 <= i < v.len() ==> (#[trigger] v[i]).1 <= s.len(),
{
    assert forall|i: int| 0 <= i < v.len() implies (#[trigger] v[i]).1 <= s.len() by {
        lemma_lookup(v, i);
        tally_counts_occurrences(s, v[i].0@);
        counting::lemma_count_bound(s, is_label(v[i].0@));
    }
}

/// Adds one occurrence of `label` to a well-formed tally.
pub fn tally_add(v: &mut Vec<(String, usize)>, label: &String)
    requires
        well_formed(old(v)@),
        forall|i: int| 0 <= i < old(v)@.len() ==> (#[trigger] old(v)@[i]).1 < usize::MAX,
    ensures
        well_formed(final(v)@),
        tally_map(final(v)@) == tally_map(old(v)@).insert(
            label@,
            if tally_map(old(v)@).contains_key(label@) { tally_map(old(v)@)[label@] + 1 } else { 1 },
        ),
{
    let ghost before = v@;
    let ghost m = tally_map(before);
    let mut pos: usize = 0;
    while pos < v.len() && lex_less(&v[pos].0, label)
        invariant
            pos <= v.len(),
            v@ == before,
            well_formed(before),
            forall|k: int| 0 <= k < pos ==> terms::lex_lt(#[trigger] labels(before)[k], label@),
        decreases v.len() - pos,
    {
        pos = pos + 1;
    }
    if pos < v.len() && v[pos].0 == *label {
        let count = v[pos].1;
        let key = v[pos].0.clone();
        proof {
            lemma_lookup(before, pos as int);
        }
        v.set(pos, (key, count + 1));
        proof {
            let after = v@;
            assert(labels(after) =~= labels(before));
            assert forall|k: Seq<char>| #[trigger] tally_map(after).contains_key(k) <==> m.insert(label@, m[label@] + 1).contains_key(k) by {
                if k == label@ {
                    assert(labels(after)[pos as int] == k);
                }
            }
            assert(well_formed(after));
            assert forall|k: Seq<char>| tally_map(after).contains_key(k) implies #[trigger] tally_map(after)[k] == m.insert(label@, m[label@] + 1)[k] by {
                let i = choose|i: int| 0 <= i < labels(after).len() && labels(after)[i] == k;
                lemma_lookup(after, i);
                lemma_lookup(before, i);
                if i == pos {
                    assert(k == label@);
                    assert(after[i].1 == count + 1);
                } else {
                    assert(after[i] == before[i]);
                    assert(k != label@) by {
                        if k == label@ {
                            assert(labels(before)[i] == labels(before)[pos as int]);
                            if i < pos {
                                assert(terms::lex_lt(labels(before)[i], labels(before)[pos as int]));
                            } else {
                                assert(terms::lex_lt(labels(before)[pos as int], labels(before)[i]));
                            }
                            terms::lemma_lex_irreflexive(k);
                        }
                    }
                }
            }
            assert(tally_map(after) =~= m.insert(label@, m[label@] + 1));
        }
        return;
    }
    proof {
        if pos < v.len() {
            assert(!terms::lex_lt(labels(before)[pos as int], label@));
            assert(labels(before)[pos as int] != label@);
            terms::lemma_lex_total(labels(before)[pos as int], label@);
        }
        assert(!labels(before).contains(label@)) by {
            if labels(before).contains(label@) {
                let i = choose|i: int| 0 <= i < labels(before).len() && labels(before)[i] == label@;
                if i < pos {
                    terms::lemma_lex_irreflexive(label@);
                } else if i > pos {
                    assert(terms::lex_lt(labels(before)[pos as int], labels(before)[i]));
                    terms::lemma_lex_asymmetric(labels(before)[pos as int], label@);
                }
            }
        }
    }
    v.insert(pos, (label.clone(), 1));
    proof {
        let after = v@;
        assert(labels(after) =~= labels(before).insert(pos as int, label@));
        assert forall|i: int, j: int| 0 <= i < j < labels(after).len() implies terms::lex_lt(
            #[trigger] labels(after)[i],
            #[trigger] labels(after)[j],
        ) by {
            let lb = labels(before);
            if j < pos {
                assert(labels(after)[i] == lb[i] && labels(after)[j] == lb[j]);
            } else if j == pos {
                assert(labels(after)[i] == lb[i]);
            } else if i == pos {
                assert(labels(after)[j] == lb[j - 1]);
                if j - 1 > pos {
                    assert(terms::lex_lt(lb[pos as int], lb[j - 1]));
                    terms::lemma_lex_transitive(label@, lb[pos as int], lb[j - 1]);
                }
            } else if i < pos {
                assert(labels(after)[i] == lb[i] && labels(after)[j] == lb[j - 1]);
            } else {
                assert(labels(after)[i] == lb[i - 1] && labels(after)[j] == lb[j - 1]);
            }
        }
        assert forall|k: Seq<char>| #[trigger] tally_map(after).contains_key(k) <==> m.insert(label@, 1).contains_key(k) by {
            if labels(after).contains(k) {
                let i = choose|i: int| 0 <= i < labels(after).len() && labels(after)[i] == k;
                if i < pos {
                    assert(labels(before)[i] == k);
                } else if i > pos {
                    assert(labels(before)[i - 1] == k);
                }
            }
            if labels(before).contains(k) {
                let i = choose|i: int| 0 <= i < labels(before).len() && labels(before)[i] == k;
                if i < pos {
                    assert(labels(after)[i] == k);
                } else {
                    assert(labels(after)[i + 1] == k);
                }
            }
            if k == label@ {
                assert(labels(after)[pos as int] == k);
            }
        }
        assert forall|k: Seq<char>| tally_map(after).contains_key(k) implies #[trigger] tally_map(after)[k] == m.insert(label@, 1)[k] by {
            let i = choose|i: int| 0 <= i < labels(after).len() && labels(after)[i] == k;
            lemma_lookup(after, i);
            if i < pos {
                lemma_lookup(before, i);
            } else if i > pos {
                lemma_lookup(before, i - 1);
            }
        }
        assert(tally_map(after) =~= m.insert(label@, 1));
    }
}

/// A well-formed tally has one entry per label.
pub proof fn lemma_tally_size(v: Seq<(String, usize)>)
    requires
        well_formed(v),
    ensures
        tally_map(v).dom().len() == v.len(),
{
    let l = labels(v);
    assert forall|i: int, j: int| 0 <= i < l.len() && 0 <= j < l.len() && i != j implies l[i] != l[j] by {
        if i < j {
            assert(terms::lex_lt(l[i], l[j]));
            if l[i] == l[j] {
                terms::lemma_lex_irreflexive(l[i]);
            }
        } else {
            assert(terms::lex_lt(l[j], l[i]));
            if l[i] == l[j] {
                terms::lemma_lex_irreflexive(l[i]);
            }
        }
    }
    l.unique_seq_to_set();
    assert(tally_map(v).dom() =~= l.to_set());
}

} // verus!
