//! The order of strings, and sorted sets of them.
//!
//! `String`'s `Ord` compares UTF-8 bytes, and UTF-8 preserves the order of
//! code points, so it is the lexicographic order on characters by code point.
//! That is [`lex_lt`].
use vstd::prelude::*;

verus! {

/// `a` sorts strictly before `b`.
pub open spec fn lex_lt(a: Seq<char>, b: Seq<char>) -> bool
    decreases a.len(),
{
    if a.len() == 0 {
        b.len() > 0
    } else if b.len() == 0 {
        false
    } else if a[0] != b[0] {
        a[0] < b[0]
    } else {
        lex_lt(a.drop_first(), b.drop_first())
    }
}

pub proof fn lemma_lex_irreflexive(a: Seq<char>)
    ensures
        !lex_lt(a, a),
    decreases a.len(),
{
    if a.len() > 0 {
        lemma_lex_irreflexive(a.drop_first());
    }
}

pub proof fn lemma_lex_total(a: Seq<char>, b: Seq<char>)
    ensures
        a != b ==> lex_lt(a, b) || lex_lt(b, a),
        !(lex_lt(a, b) && lex_lt(b, a)),
    decreases a.len(),
{
    if a.len() > 0 && b.len() > 0 {
        if a[0] == b[0] {
            lemma_lex_total(a.drop_first(), b.drop_first());
            if a != b {
                assert(a.drop_first() != b.drop_first()) by {
                    if a.drop_first() =~= b.drop_first() {
                        assert(a =~= seq![a[0]] + a.drop_first());
                        assert(b =~= seq![b[0]] + b.drop_first());
                    }
                }
            }
        }
    } else if a.len() == 0 && b.len() == 0 {
        assert(a =~= b);
    }
}

pub proof fn lemma_lex_transitive(a: Seq<char>, b: Seq<char>, c: Seq<char>)
    requires
        lex_lt(a, b),
        lex_lt(b, c),
    ensures
        lex_lt(a, c),
    decreases a.len(),
{
    if a.len() > 0 && b.len() > 0 && c.len() > 0 {
        if a[0] == b[0] && b[0] == c[0] {
            lemma_lex_transitive(a.drop_first(), b.drop_first(), c.drop_first());
        }
    }
}

/// Whether `a` sorts strictly before `b`.
pub fn lex_less(a: &Vec<char>, b: &Vec<char>) -> (r: bool)
    ensures
        r == lex_lt(a@, b@),
{
    let mut k: usize = 0;
    assert(a@.skip(0) =~= a@);
    assert(b@.skip(0) =~= b@);
    while k < a.len() && k < b.len() && a[k] == b[k]
        invariant
            k <= a.len(),
            k <= b.len(),
            lex_lt(a@, b@) == lex_lt(a@.skip(k as int), b@.skip(k as int)),
        decreases a.len() - k,
    {
        assert(a@.skip(k as int)[0] == a@[k as int]);
        assert(b@.skip(k as int)[0] == b@[k as int]);
        assert(a@.skip(k as int).drop_first() =~= a@.skip(k + 1));
        assert(b@.skip(k as int).drop_first() =~= b@.skip(k + 1));
        k = k + 1;
    }
    if k == a.len() {
        k < b.len()
    } else if k == b.len() {
        false
    } else {
        assert(a@.skip(k as int)[0] == a@[k as int]);
        assert(b@.skip(k as int)[0] == b@[k as int]);
        a[k] < b[k]
    }
}

/// Strictly increasing in [`lex_lt`]: sorted, with nothing twice.
pub open spec fn strictly_sorted(s: Seq<Seq<char>>) -> bool {
    forall|i: int, j: int| 0 <= i < j < s.len() ==> lex_lt(#[trigger] s[i], #[trigger] s[j])
}

/// A strictly sorted sequence is determined by the set of its items: two
/// of them holding the same items are the same sequence.
pub proof fn lemma_sorted_set_is_unique(a: Seq<Seq<char>>, b: Seq<Seq<char>>)
    requires
        strictly_sorted(a),
        strictly_sorted(b),
        a.to_set() == b.to_set(),
    ensures
        a == b,
    decreases a.len(),
{
    if a.len() == 0 {
        if b.len() > 0 {
            assert(b.to_set().contains(b[0]));
        }
        assert(a =~= b);
    } else {
        assert(a.to_set().contains(a[0]));
        if b.len() == 0 {
            assert(b.to_set().contains(a[0]));
        }
        assert(b.to_set().contains(a[0]));
        assert(a.to_set().contains(b[0]));
        let k = choose|k: int| 0 <= k < b.len() && b[k] == a[0];
        let m = choose|m: int| 0 <= m < a.len() && a[m] == b[0];
        if k > 0 && m > 0 {
            assert(lex_lt(b[0], b[k]));
            assert(lex_lt(a[0], a[m]));
            lemma_lex_total(a[0], b[0]);
        }
        assert(a[0] == b[0]);
        let a1 = a.drop_first();
        let b1 = b.drop_first();
        assert forall|y: Seq<char>| a1.to_set().contains(y) implies b1.to_set().contains(y) by {
            let i = choose|i: int| 0 <= i < a1.len() && a1[i] == y;
            assert(lex_lt(a[0], a[i + 1]));
            lemma_lex_irreflexive(y);
            assert(a.to_set().contains(y));
            let j = choose|j: int| 0 <= j < b.len() && b[j] == y;
            assert(j != 0);
            assert(b1[j - 1] == y);
        }
        assert forall|y: Seq<char>| b1.to_set().contains(y) implies a1.to_set().contains(y) by {
            let i = choose|i: int| 0 <= i < b1.len() && b1[i] == y;
            assert(lex_lt(b[0], b[i + 1]));
            lemma_lex_irreflexive(y);
            assert(b.to_set().contains(y));
            let j = choose|j: int| 0 <= j < a.len() && a[j] == y;
            assert(j != 0);
            assert(a1[j - 1] == y);
        }
        assert(a1.to_set() =~= b1.to_set());
        assert(strictly_sorted(a1)) by {
            assert forall|i: int, j: int| 0 <= i < j < a1.len() implies lex_lt(
                #[trigger] a1[i],
                #[trigger] a1[j],
            ) by {
                assert(lex_lt(a[i + 1], a[j + 1]));
            }
        }
        assert(strictly_sorted(b1)) by {
            assert forall|i: int, j: int| 0 <= i < j < b1.len() implies lex_lt(
                #[trigger] b1[i],
                #[trigger] b1[j],
            ) by {
                assert(lex_lt(b[i + 1], b[j + 1]));
            }
        }
        lemma_sorted_set_is_unique(a1, b1);
        assert(a =~= seq![a[0]] + a1);
        assert(b =~= seq![b[0]] + b1);
    }
}

/// The views of a vector of strings.
pub open spec fn views(v: Seq<String>) -> Seq<Seq<char>> {
    v.map_values(|s: String| s@)
}

/// Add `x` to the sorted set `v`, unless it is already there.
pub fn insert_sorted(v: &mut Vec<String>, x: String)
    requires
        strictly_sorted(views(old(v)@)),
    ensures
        strictly_sorted(views(final(v)@)),
        views(final(v)@).to_set() == views(old(v)@).to_set().insert(x@),
{
    let xs = crate::text::chars_of(x.as_str());
    let mut p: usize = 0;
    let mut found = false;
    let mut stop = false;
    while p < v.len() && !stop
        invariant
            p <= v.len(),
            v@ == old(v)@,
            xs@ == x@,
            strictly_sorted(views(v@)),
            forall|k: int| 0 <= k < p ==> lex_lt(#[trigger] views(v@)[k], x@),
            stop ==> p < v.len() && !lex_lt(views(v@)[p as int], x@),
            stop ==> (found == (views(v@)[p as int] == x@)),
            !stop ==> !found,
        decreases v.len() - p + (if stop { 0int } else { 1int }),
    {
        let cs = crate::text::chars_of(v[p].as_str());
        assert(cs@ == views(v@)[p as int]);
        if lex_less(&cs, &xs) {
            p = p + 1;
        } else {
            found = crate::text::str_eq(v[p].as_str(), x.as_str());
            stop = true;
        }
    }
    let ghost before = views(v@);
    if found {
        assert(before.to_set().insert(x@) =~= before.to_set()) by {
            assert(before.contains(x@)) by {
                assert(before[p as int] == x@);
            }
        }
        return;
    }
    proof {
        if p < v.len() {
            lemma_lex_total(before[p as int], x@);
        }
    }
    v.insert(p, x);
    proof {
        let after = views(v@);
        assert(after =~= before.insert(p as int, x@));
        assert forall|i: int, j: int| 0 <= i < j < after.len() implies lex_lt(
            #[trigger] after[i],
            #[trigger] after[j],
        ) by {
            if j < p {
                assert(lex_lt(before[i], before[j]));
            } else if i < p && j == p {
            } else if i < p && j > p {
                assert(lex_lt(before[i], before[j - 1]));
            } else if i == p {
                assert(lex_lt(x@, before[p as int]));
                if j - 1 > p {
                    assert(lex_lt(before[p as int], before[j - 1]));
                    lemma_lex_transitive(x@, before[p as int], before[j - 1]);
                }
            } else {
                assert(lex_lt(before[i - 1], before[j - 1]));
            }
        }
        assert(after.to_set() =~= before.to_set().insert(x@)) by {
            assert forall|y: Seq<char>| after.to_set().contains(y) implies before.to_set().insert(
                x@,
            ).contains(y) by {
                let k = choose|k: int| 0 <= k < after.len() && after[k] == y;
                if k < p {
                    assert(after[k] == before[k]);
                } else if k > p {
                    assert(after[k] == before[k - 1]);
                }
            }
            assert forall|y: Seq<char>| before.to_set().insert(x@).contains(y) implies after.to_set().contains(
                y,
            ) by {
                if y == x@ {
                    assert(after[p as int] == y);
                } else {
                    let k = choose|k: int| 0 <= k < before.len() && before[k] == y;
                    if k < p {
                        assert(after[k] == y);
                    } else {
                        assert(after[k + 1] == y);
                    }
                }
            }
        }
    }
}

} // verus!
