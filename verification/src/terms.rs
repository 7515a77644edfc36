//! Sets of strings kept in ascending order, as ordered string sets hold them:
//! lexicographic order on characters, insertion without duplicates, and the
//! fact that one set has exactly one strictly ascending listing.
use vstd::prelude::*;

verus! {

/// Lexicographic order on character sequences (code points compared in turn;
/// a proper prefix comes first). This is the order of `String`, whose UTF-8
/// bytes compare as their code points do.
pub open spec fn lex_lt(a: Seq<char>, b: Seq<char>) -> bool
    decreases a.len(),
{
    if a.len() == 0 {
        b.len() > 0
    } else if b.len() == 0 {
        false
    } else if a[0] != b[0] {
        a[0] < b[0]
    } else {
        lex_lt(a.drop_first(), b.drop_first())
    }
}

/// No sequence comes before itself.
pub proof fn lemma_lex_irreflexive(a: Seq<char>)
    ensures
        !lex_lt(a, a),
    decreases a.len(),
{
    if a.len() > 0 {
        lemma_lex_irreflexive(a.drop_first());
    }
}

/// Lexicographic order is transitive.
pub proof fn lemma_lex_transitive(a: Seq<char>, b: Seq<char>, c: Seq<char>)
    requires
        lex_lt(a, b),
        lex_lt(b, c),
    ensures
        lex_lt(a, c),
    decreases a.len(),
{
    if a.len() > 0 && b.len() > 0 && c.len() > 0 {
        if a[0] == b[0] && b[0] == c[0] {
            lemma_lex_transitive(a.drop_first(), b.drop_first(), c.drop_first());
        } else if a[0] != b[0] && b[0] == c[0] {
        } else if a[0] == b[0] && b[0] != c[0] {
        } else {
            assert(a[0] < c[0]);
        }
    }
}

/// Of two different sequences, one comes first.
pub proof fn lemma_lex_total(a: Seq<char>, b: Seq<char>)
    requires
        a != b,
    ensures
        lex_lt(a, b) || lex_lt(b, a),
    decreases a.len(),
{
    if a.len() == 0 {
        assert(b.len() > 0) by {
            if b.len() == 0 {
                assert(a =~= b);
            }
        }
    } else if b.len() == 0 {
    } else if a[0] == b[0] {
        if a.drop_first() == b.drop_first() {
            assert(a =~= seq![a[0]] + a.drop_first());
            assert(b =~= seq![b[0]] + b.drop_first());
        }
        lemma_lex_total(a.drop_first(), b.drop_first());
    }
}

/// At most one of two sequences comes before the other.
pub proof fn lemma_lex_asymmetric(a: Seq<char>, b: Seq<char>)
    ensures
        !(lex_lt(a, b) && lex_lt(b, a)),
{
    if lex_lt(a, b) && lex_lt(b, a) {
        lemma_lex_transitive(a, b, a);
        lemma_lex_irreflexive(a);
    }
}

/// The contents of a list of strings.
pub open spec fn strings_view(v: Seq<String>) -> Seq<Seq<char>> {
    v.map_values(|s: String| s@)
}

/// Each element comes strictly before the next, so none repeats.
pub open spec fn strictly_ascending(s: Seq<Seq<char>>) -> bool {
    forall|i: int, j: int| 0 <= i < j < s.len() ==> lex_lt(#[trigger] s[i], #[trigger] s[j])
}

proof fn lemma_lex_prefix(a: Seq<char>, b: Seq<char>, i: int)
    requires
        0 <= i <= a.len(),
        i <= b.len(),
        forall|k: int| 0 <= k < i ==> a[k] == b[k],
    ensures
        lex_lt(a, b) == lex_lt(a.subrange(i, a.len() as int), b.subrange(i, b.len() as int)),
    decreases i,
{
    if i > 0 {
        assert(a.drop_first().subrange(i - 1, a.len() - 1) =~= a.subrange(i, a.len() as int));
        assert(b.drop_first().subrange(i - 1, b.len() - 1) =~= b.subrange(i, b.len() as int));
        lemma_lex_prefix(a.drop_first(), b.drop_first(), i - 1);
    } else {
        assert(a.subrange(0, a.len() as int) =~= a);
        assert(b.subrange(0, b.len() as int) =~= b);
    }
}

/// Whether `a` comes before `b`.
pub fn lex_less(a: &String, b: &String) -> (r: bool)
    ensures
        r == lex_lt(a@, b@),
{
    let x = crate::text::chars_of(a.as_str());
    let y = crate::text::chars_of(b.as_str());
    let mut i: usize = 0;
    while i < x.len() && i < y.len()
        invariant
            i <= x.len(),
            i <= y.len(),
            x@ == a@,
            y@ == b@,
            forall|k: int| 0 <= k < i ==> x@[k] == y@[k],
        decreases x.len() - i,
    {
        if x[i] != y[i] {
            proof {
                lemma_lex_prefix(x@, y@, i as int);
                let xs = x@.subrange(i as int, x@.len() as int);
                let ys = y@.subrange(i as int, y@.len() as int);
                assert(xs[0] == x@[i as int] && ys[0] == y@[i as int]);
            }
            return x[i] < y[i];
        }
        i = i + 1;
    }
    proof {
        lemma_lex_prefix(x@, y@, i as int);
    }
    i == x.len() && i < y.len()
}

/// Inserts `x` into a strictly ascending list unless it is already there.
pub fn insert_sorted(v: &mut Vec<String>, x: String)
    requires
        strictly_ascending(strings_view(old(v)@)),
    ensures
        strictly_ascending(strings_view(final(v)@)),
        strings_view(final(v)@).to_set() == strings_view(old(v)@).to_set().insert(x@),
{
    let ghost before = strings_view(v@);
    let mut pos: usize = 0;
    while pos < v.len() && lex_less(&v[pos], &x)
        invariant
            pos <= v.len(),
            before == strings_view(v@),
            strictly_ascending(before),
            forall|k: int| 0 <= k < pos ==> lex_lt(#[trigger] before[k], x@),
        decreases v.len() - pos,
    {
        pos = pos + 1;
    }
    if pos < v.len() && v[pos] == x {
        proof {
            assert(before[pos as int] == x@);
            assert(before.to_set().insert(x@) =~= before.to_set());
        }
        return;
    }
    proof {
        if pos < v.len() {
            assert(!lex_lt(before[pos as int], x@));
            assert(before[pos as int] != x@);
            lemma_lex_total(before[pos as int], x@);
        }
    }
    v.insert(pos, x);
    proof {
        let after = strings_view(v@);
        assert(after =~= before.insert(pos as int, x@));
        assert forall|i: int, j: int| 0 <= i < j < after.len() implies lex_lt(#[trigger] after[i], #[trigger] after[j]) by {
            if j < pos {
                assert(after[i] == before[i] && after[j] == before[j]);
            } else if j == pos {
                assert(after[i] == before[i]);
            } else if i == pos {
                assert(after[j] == before[j - 1]);
                if j - 1 > pos {
                    assert(lex_lt(before[pos as int], before[j - 1]));
                    lemma_lex_transitive(x@, before[pos as int], before[j - 1]);
                }
            } else if i < pos {
                assert(after[i] == before[i] && after[j] == before[j - 1]);
            } else {
                assert(after[i] == before[i - 1] && after[j] == before[j - 1]);
            }
        }
        assert forall|s: Seq<char>| #[trigger] after.to_set().contains(s) <==> before.to_set().insert(x@).contains(s) by {
            if after.to_set().contains(s) {
                let k = choose|k: int| 0 <= k < after.len() && after[k] == s;
                if k < pos {
                    assert(before[k] == s);
                } else if k > pos {
                    assert(before[k - 1] == s);
                }
            }
            if before.to_set().contains(s) && s != x@ {
                let k = choose|k: int| 0 <= k < before.len() && before[k] == s;
                if k < pos {
                    assert(after[k] == s);
                } else {
                    assert(after[k + 1] == s);
                }
            }
            if s == x@ {
                assert(after[pos as int] == s);
            }
        }
        assert(after.to_set() =~= before.to_set().insert(x@));
    }
}

/// One set has exactly one strictly ascending listing.
pub proof fn lemma_ascending_listing_unique(a: Seq<Seq<char>>, b: Seq<Seq<char>>)
    requires
        strictly_ascending(a),
        strictly_ascending(b),
        a.to_set() == b.to_set(),
    ensures
        a == b,
    decreases a.len(),
{
    if a.len() == 0 {
        if b.len() > 0 {
            assert(b.to_set().contains(b[0]));
        }
        assert(a =~= b);
    } else if b.len() == 0 {
        assert(a.to_set().contains(a[0]));
    } else {
        assert(b.to_set().contains(a[0]));
        assert(a.to_set().contains(b[0]));
        let j = choose|j: int| 0 <= j < b.len() && b[j] == a[0];
        let k = choose|k: int| 0 <= k < a.len() && a[k] == b[0];
        if j > 0 {
            if k > 0 {
                assert(lex_lt(b[0], b[j]));
                assert(lex_lt(a[0], a[k]));
                lemma_lex_asymmetric(a[0], b[0]);
            } else {
                assert(lex_lt(b[0], b[j]));
                lemma_lex_irreflexive(a[0]);
            }
        }
        assert(a[0] == b[0]);
        let a1 = a.drop_first();
        let b1 = b.drop_first();
        assert forall|s: Seq<char>| #[trigger] a1.to_set().contains(s) <==> b1.to_set().contains(s) by {
            if a1.to_set().contains(s) {
                let m = choose|m: int| 0 <= m < a1.len() && a1[m] == s;
                assert(a[m + 1] == s);
                assert(lex_lt(a[0], a[m + 1]));
                assert(b.to_set().contains(s));
                let n = choose|n: int| 0 <= n < b.len() && b[n] == s;
                if n == 0 {
                    lemma_lex_irreflexive(s);
                }
                assert(b1[n - 1] == s);
            }
            if b1.to_set().contains(s) {
                let m = choose|m: int| 0 <= m < b1.len() && b1[m] == s;
                assert(b[m + 1] == s);
                assert(lex_lt(b[0], b[m + 1]));
                assert(a.to_set().contains(s));
                let n = choose|n: int| 0 <= n < a.len() && a[n] == s;
                if n == 0 {
                    lemma_lex_irreflexive(s);
                }
                assert(a1[n - 1] == s);
            }
        }
        assert(a1.to_set() =~= b1.to_set());
        assert forall|x: int, y: int| 0 <= x < y < a1.len() implies lex_lt(#[trigger] a1[x], #[trigger] a1[y]) by {
            assert(a1[x] == a[x + 1] && a1[y] == a[y + 1]);
        }
        assert forall|x: int, y: int| 0 <= x < y < b1.len() implies lex_lt(#[trigger] b1[x], #[trigger] b1[y]) by {
            assert(b1[x] == b[x + 1] && b1[y] == b[y + 1]);
        }
        lemma_ascending_listing_unique(a1, b1);
        assert(a =~= seq![a[0]] + a1);
        assert(b =~= seq![b[0]] + b1);
    }
}

/// A new element can be placed into a strictly ascending listing.
proof fn lemma_insert_into_listing(l: Seq<Seq<char>>, x: Seq<char>)
    requires
        strictly_ascending(l),
        !l.contains(x),
    ensures
        exists|m: Seq<Seq<char>>| strictly_ascending(m) && m.to_set() == l.to_set().insert(x),
    decreases l.len(),
{
    if l.len() == 0 {
        let m = seq![x];
        assert(m.to_set() =~= l.to_set().insert(x)) by {
            assert forall|y: Seq<char>| #[trigger] m.to_set().contains(y) <==> l.to_set().insert(x).contains(y) by {
                if y == x {
                    assert(m[0] == x);
                }
            }
        }
        assert(strictly_ascending(m));
    } else if lex_lt(x, l[0]) {
        let m = seq![x] + l;
        assert forall|i: int, j: int| 0 <= i < j < m.len() implies lex_lt(#[trigger] m[i], #[trigger] m[j]) by {
            if i == 0 {
                if j > 1 {
                    assert(lex_lt(l[0], l[j - 1]));
                    lemma_lex_transitive(x, l[0], l[j - 1]);
                }
            } else {
                assert(m[i] == l[i - 1] && m[j] == l[j - 1]);
            }
        }
        assert(m.to_set() =~= l.to_set().insert(x)) by {
            assert forall|y: Seq<char>| #[trigger] m.to_set().contains(y) <==> l.to_set().insert(x).contains(y) by {
                if m.to_set().contains(y) {
                    let k = choose|k: int| 0 <= k < m.len() && m[k] == y;
                    if k > 0 {
                        assert(l[k - 1] == y);
                    }
                }
                if l.to_set().contains(y) {
                    let k = choose|k: int| 0 <= k < l.len() && l[k] == y;
                    assert(m[k + 1] == y);
                }
                if y == x {
                    assert(m[0] == x);
                }
            }
        }
    } else {
        let h = l[0];
        let t = l.drop_first();
        assert(x != h) by {
            if x == h {
                assert(l.contains(x));
            }
        }
        lemma_lex_total(x, h);
        assert(lex_lt(h, x));
        assert(!t.contains(x)) by {
            if t.contains(x) {
                let k = choose|k: int| 0 <= k < t.len() && t[k] == x;
                assert(l[k + 1] == x);
            }
        }
        assert(strictly_ascending(t)) by {
            assert forall|i: int, j: int| 0 <= i < j < t.len() implies lex_lt(#[trigger] t[i], #[trigger] t[j]) by {
                assert(t[i] == l[i + 1] && t[j] == l[j + 1]);
            }
        }
        lemma_insert_into_listing(t, x);
        let mt = choose|m: Seq<Seq<char>>| strictly_ascending(m) && m.to_set() == t.to_set().insert(x);
        let m = seq![h] + mt;
        assert forall|i: int, j: int| 0 <= i < j < m.len() implies lex_lt(#[trigger] m[i], #[trigger] m[j]) by {
            if i == 0 {
                assert(m[j] == mt[j - 1]);
                assert(mt.to_set().contains(mt[j - 1]));
                assert(t.to_set().insert(x).contains(mt[j - 1]));
                if mt[j - 1] != x {
                    let k = choose|k: int| 0 <= k < t.len() && t[k] == mt[j - 1];
                    assert(l[k + 1] == t[k]);
                    assert(lex_lt(l[0], l[k + 1]));
                }
            } else {
                assert(m[i] == mt[i - 1] && m[j] == mt[j - 1]);
            }
        }
        assert(m.to_set() =~= l.to_set().insert(x)) by {
            assert(l =~= seq![h] + t);
            assert forall|y: Seq<char>| #[trigger] m.to_set().contains(y) <==> l.to_set().insert(x).contains(y) by {
                if m.to_set().contains(y) {
                    let k = choose|k: int| 0 <= k < m.len() && m[k] == y;
                    if k > 0 {
                        assert(mt[k - 1] == y);
                        assert(mt.to_set().contains(y));
                        if y != x {
                            let q = choose|q: int| 0 <= q < t.len() && t[q] == y;
                            assert(l[q + 1] == y);
                        }
                    } else {
                        assert(l[0] == y);
                    }
                }
                if l.to_set().contains(y) {
                    let k = choose|k: int| 0 <= k < l.len() && l[k] == y;
                    if k == 0 {
                        assert(m[0] == y);
                    } else {
                        assert(t[k - 1] == y);
                        assert(t.to_set().contains(y));
                        assert(mt.to_set().contains(y));
                        let q = choose|q: int| 0 <= q < mt.len() && mt[q] == y;
                        assert(m[q + 1] == y);
                    }
                }
                if y == x {
                    assert(mt.to_set().contains(x));
                    let q = choose|q: int| 0 <= q < mt.len() && mt[q] == x;
                    assert(m[q + 1] == x);
                }
            }
        }
    }
}

/// Every list of strings has a strictly ascending listing of its elements.
pub proof fn lemma_ascending_listing_exists(t: Seq<Seq<char>>)
    ensures
        exists|l: Seq<Seq<char>>| strictly_ascending(l) && l.to_set() == t.to_set(),
    decreases t.len(),
{
    if t.len() == 0 {
        let l = Seq::<Seq<char>>::empty();
        assert(l.to_set() =~= t.to_set());
        assert(strictly_ascending(l));
    } else {
        let p = t.drop_last();
        let x = t.last();
        lemma_ascending_listing_exists(p);
        let lp = choose|l: Seq<Seq<char>>| strictly_ascending(l) && l.to_set() == p.to_set();
        assert(t =~= p.push(x));
        assert(t.to_set() =~= p.to_set().insert(x)) by {
            assert forall|y: Seq<char>| #[trigger] t.to_set().contains(y) <==> p.to_set().insert(x).contains(y) by {
                if t.to_set().contains(y) {
                    let k = choose|k: int| 0 <= k < t.len() && t[k] == y;
                    if k < t.len() - 1 {
                        assert(p[k] == y);
                    }
                }
                if p.to_set().contains(y) {
                    let k = choose|k: int| 0 <= k < p.len() && p[k] == y;
                    assert(t[k] == y);
                }
                if y == x {
                    assert(t[t.len() - 1] == x);
                }
            }
        }
        if lp.contains(x) {
            assert(lp.to_set().contains(x));
            assert(t.to_set() =~= lp.to_set());
        } else {
            lemma_insert_into_listing(lp, x);
        }
    }
}

/// A listing is empty exactly when its set is.
pub proof fn lemma_empty_listing(s: Seq<Seq<char>>)
    ensures
        (s.len() == 0) == (s.to_set() == Set::<Seq<char>>::empty()),
{
    if s.len() > 0 {
        assert(s.to_set().contains(s[0]));
    } else {
        assert(s.to_set() =~= Set::<Seq<char>>::empty());
    }
}

/// Whether the list holds a string equal to `s`.
pub fn contains_string(v: &Vec<String>, s: &String) -> (r: bool)
    ensures
        r == strings_view(v@).contains(s@),
{
    let mut i: usize = 0;
    while i < v.len()
        invariant
            i <= v.len(),
            forall|k: int| 0 <= k < i ==> v@[k]@ != s@,
        decreases v.len() - i,
    {
        if v[i] == *s {
            assert(strings_view(v@)[i as int] == s@);
            return true;
        }
        i = i + 1;
    }
    proof {
        if strings_view(v@).contains(s@) {
            let k = choose|k: int| 0 <= k < strings_view(v@).len() && strings_view(v@)[k] == s@;
            assert(v@[k]@ == s@);
        }
    }
    false
}

/// Whether every string of `a` is in `b`.
pub fn all_contained(a: &Vec<String>, b: &Vec<String>) -> (r: bool)
    ensures
        r == strings_view(a@).to_set().subset_of(strings_view(b@).to_set()),
{
    let mut i: usize = 0;
    while i < a.len()
        invariant
            i <= a.len(),
            forall|k: int| 0 <= k < i ==> strings_view(b@).contains(#[trigger] a@[k]@),
        decreases a.len() - i,
    {
        if !contains_string(b, &a[i]) {
            proof {
                assert(strings_view(a@)[i as int] == a@[i as int]@);
                assert(strings_view(a@).to_set().contains(a@[i as int]@));
            }
            return false;
        }
        i = i + 1;
    }
    proof {
        assert forall|x: Seq<char>| strings_view(a@).to_set().contains(x) implies strings_view(b@).to_set().contains(x) by {
            let k = choose|k: int| 0 <= k < strings_view(a@).len() && strings_view(a@)[k] == x;
            assert(strings_view(b@).contains(a@[k]@));
        }
    }
    true
}

/// Adds every string of `from` to a sorted set.
pub fn insert_all(set: &mut Vec<String>, from: &Vec<String>)
    requires
        strictly_ascending(strings_view(old(set)@)),
    ensures
        strictly_ascending(strings_view(final(set)@)),
        strings_view(final(set)@).to_set() == strings_view(old(set)@).to_set() + strings_view(from@).to_set(),
{
    let ghost start = strings_view(set@).to_set();
    let mut i: usize = 0;
    while i < from.len()
        invariant
            i <= from.len(),
            strictly_ascending(strings_view(set@)),
            strings_view(set@).to_set() == start + strings_view(from@.subrange(0, i as int)).to_set(),
        decreases from.len() - i,
    {
        insert_sorted(set, from[i].clone());
        proof {
            assert(strings_view(from@.subrange(0, i + 1)) =~= strings_view(from@.subrange(0, i as int)).push(from@[i as int]@));
            vstd::seq_lib::seq_to_set_distributes_over_add(strings_view(from@.subrange(0, i as int)), seq![from@[i as int]@]);
            assert forall|y: Seq<char>| #[trigger] seq![from@[i as int]@].to_set().contains(y) <==> y == from@[i as int]@ by {
                if y == from@[i as int]@ {
                    assert(seq![from@[i as int]@][0] == y);
                }
            }
            assert(strings_view(from@.subrange(0, i as int)).push(from@[i as int]@) =~= strings_view(from@.subrange(0, i as int)) + seq![from@[i as int]@]);
        }
        i = i + 1;
        assert(strings_view(set@).to_set() =~= start + strings_view(from@.subrange(0, i as int)).to_set());
    }
    assert(from@.subrange(0, from.len() as int) =~= from@);
}

} // verus!
