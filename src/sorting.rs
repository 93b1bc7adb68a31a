//! Sorting strings in lexicographic order, by insertion.
use crate::text::{lemma_lex_asymmetric, lex_lt, str_less};
use vstd::prelude::*;

verus! {

/// The character sequences of a sequence of strings.
pub open spec fn views(v: Seq<String>) -> Seq<Seq<char>> {
    v.map_values(|s: String| s@)
}

/// Inserting `x` into `s`: it passes, from the back, every element above it.
pub open spec fn insert_sorted(s: Seq<Seq<char>>, x: Seq<char>) -> Seq<Seq<char>>
    decreases s.len(),
{
    if s.len() == 0 {
        seq![x]
    } else if lex_lt(x, s.last()) {
        insert_sorted(s.drop_last(), x).push(s.last())
    } else {
        s.push(x)
    }
}

/// Insertion sort: each element in turn is inserted into the sorted prefix.
/// Equal elements keep their order.
pub open spec fn sort_seq(s: Seq<Seq<char>>) -> Seq<Seq<char>>
    decreases s.len(),
{
    if s.len() == 0 {
        s
    } else {
        insert_sorted(sort_seq(s.drop_last()), s.last())
    }
}

/// No element is above its successor.
pub open spec fn is_sorted(s: Seq<Seq<char>>) -> bool {
    forall|i: int| 0 <= i < s.len() - 1 ==> !lex_lt(#[trigger] s[i + 1], s[i])
}

/// Where `x` lands: at `j`, when everything from `j` on is above it and what
/// stands just before `j` is not.
pub proof fn lemma_insert_at(s: Seq<Seq<char>>, x: Seq<char>, j: int)
    requires
        0 <= j <= s.len(),
        forall|k: int| j <= k < s.len() ==> lex_lt(x, #[trigger] s[k]),
        j > 0 ==> !lex_lt(x, s[j - 1]),
    ensures
        insert_sorted(s, x) == s.take(j).push(x) + s.skip(j),
    decreases s.len(),
{
    if s.len() == 0 {
        assert(s.take(j).push(x) + s.skip(j) =~= seq![x]);
    } else if lex_lt(x, s.last()) {
        let t = s.drop_last();
        assert(j < s.len());
        assert forall|k: int| j <= k < t.len() implies lex_lt(x, #[trigger] t[k]) by {
            assert(t[k] == s[k]);
        }
        if j > 0 {
            assert(t[j - 1] == s[j - 1]);
        }
        lemma_insert_at(t, x, j);
        assert(t.take(j).push(x) + t.skip(j) + seq![s.last()] =~= s.take(j).push(x) + s.skip(j));
    } else {
        assert(j == s.len());
        assert(s.take(j).push(x) + s.skip(j) =~= s.push(x));
    }
}

/// The position at which `insert_sorted` places `x`.
pub open spec fn insert_pos(s: Seq<Seq<char>>, x: Seq<char>) -> int
    decreases s.len(),
{
    if s.len() == 0 {
        0
    } else if lex_lt(x, s.last()) {
        insert_pos(s.drop_last(), x)
    } else {
        s.len() as int
    }
}

proof fn lemma_insert_pos(s: Seq<Seq<char>>, x: Seq<char>)
    ensures
        0 <= insert_pos(s, x) <= s.len(),
        forall|k: int| insert_pos(s, x) <= k < s.len() ==> lex_lt(x, #[trigger] s[k]),
        insert_pos(s, x) > 0 ==> !lex_lt(x, s[insert_pos(s, x) - 1]),
    decreases s.len(),
{
    if s.len() > 0 && lex_lt(x, s.last()) {
        let t = s.drop_last();
        lemma_insert_pos(t, x);
        let p = insert_pos(t, x);
        assert forall|k: int| p <= k < s.len() implies lex_lt(x, #[trigger] s[k]) by {
            if k < t.len() {
                assert(t[k] == s[k]);
            }
        }
        if p > 0 {
            assert(t[p - 1] == s[p - 1]);
        }
    }
}

/// What `insert_sorted` returns holds `x` and the elements of `s`, nothing else.
pub proof fn lemma_insert_members(s: Seq<Seq<char>>, x: Seq<char>)
    ensures
        forall|k: int|
            0 <= k < insert_sorted(s, x).len() ==> #[trigger] insert_sorted(s, x)[k] == x
                || s.contains(insert_sorted(s, x)[k]),
{
    lemma_insert_pos(s, x);
    let p = insert_pos(s, x);
    lemma_insert_at(s, x, p);
    let t = insert_sorted(s, x);
    assert forall|k: int| 0 <= k < t.len() implies #[trigger] t[k] == x || s.contains(t[k]) by {
        if k < p {
            assert(t[k] == s[k]);
        } else if k > p {
            assert(t[k] == s[k - 1]);
        }
    }
}

/// Every element of the sorted sequence comes from the input.
pub proof fn lemma_sort_members(s: Seq<Seq<char>>)
    ensures
        forall|k: int| 0 <= k < sort_seq(s).len() ==> s.contains(#[trigger] sort_seq(s)[k]),
    decreases s.len(),
{
    if s.len() > 0 {
        let t = s.drop_last();
        lemma_sort_members(t);
        lemma_insert_members(sort_seq(t), s.last());
        assert forall|k: int| 0 <= k < sort_seq(s).len() implies s.contains(
            #[trigger] sort_seq(s)[k],
        ) by {
            let y = sort_seq(s)[k];
            if y != s.last() {
                let m = choose|m: int| 0 <= m < sort_seq(t).len() && sort_seq(t)[m] == y;
                let w = choose|w: int| 0 <= w < t.len() && t[w] == sort_seq(t)[m];
                assert(s[w] == y);
            } else {
                assert(s[s.len() - 1] == y);
            }
        }
    }
}

/// Inserting an element that is not yet there keeps a sequence free of duplicates.
pub proof fn lemma_insert_no_duplicates(s: Seq<Seq<char>>, x: Seq<char>)
    requires
        s.no_duplicates(),
        !s.contains(x),
    ensures
        insert_sorted(s, x).no_duplicates(),
{
    lemma_insert_pos(s, x);
    let p = insert_pos(s, x);
    lemma_insert_at(s, x, p);
    let t = insert_sorted(s, x);
    assert forall|i: int, j: int| 0 <= i < t.len() && 0 <= j < t.len() && i != j implies t[i]
        != t[j] by {
        let a = if i < p { i } else { i - 1 };
        let b = if j < p { j } else { j - 1 };
        if i != p && j != p {
            assert(t[i] == s[a] && t[j] == s[b]);
        } else if i == p {
            assert(t[j] == s[b]);
        } else {
            assert(t[i] == s[a]);
        }
    }
}

/// Sorting keeps a sequence free of duplicates.
pub proof fn lemma_sort_no_duplicates(s: Seq<Seq<char>>)
    requires
        s.no_duplicates(),
    ensures
        sort_seq(s).no_duplicates(),
    decreases s.len(),
{
    if s.len() > 0 {
        let t = s.drop_last();
        assert(t.no_duplicates()) by {
            assert forall|i: int, j: int| 0 <= i < t.len() && 0 <= j < t.len() && i != j implies t[i]
                != t[j] by {
                assert(t[i] == s[i] && t[j] == s[j]);
            }
        }
        lemma_sort_no_duplicates(t);
        lemma_sort_members(t);
        if sort_seq(t).contains(s.last()) {
            let m = choose|m: int| 0 <= m < sort_seq(t).len() && sort_seq(t)[m] == s.last();
            let w = choose|w: int| 0 <= w < t.len() && t[w] == sort_seq(t)[m];
            assert(s[w] == s[s.len() - 1]);
        }
        lemma_insert_no_duplicates(sort_seq(t), s.last());
    }
}

/// Inserting into a sorted sequence keeps it sorted.
pub proof fn lemma_insert_keeps_sorted(s: Seq<Seq<char>>, x: Seq<char>)
    requires
        is_sorted(s),
    ensures
        is_sorted(insert_sorted(s, x)),
{
    lemma_insert_pos(s, x);
    let p = insert_pos(s, x);
    lemma_insert_at(s, x, p);
    let t = insert_sorted(s, x);
    assert forall|i: int| 0 <= i < t.len() - 1 implies !lex_lt(#[trigger] t[i + 1], t[i]) by {
        if i + 1 < p {
            assert(t[i] == s[i] && t[i + 1] == s[i + 1]);
        } else if i + 1 == p {
            assert(t[i] == s[i] && t[i + 1] == x);
        } else if i == p {
            assert(t[i] == x && t[i + 1] == s[i]);
            lemma_lex_asymmetric(x, s[i]);
        } else {
            assert(t[i] == s[i - 1] && t[i + 1] == s[i]);
            let h = i - 1;
            assert(!lex_lt(s[h + 1], s[h]));
        }
    }
}

/// The result of the sort is sorted.
pub proof fn lemma_sort_is_sorted(s: Seq<Seq<char>>)
    ensures
        is_sorted(sort_seq(s)),
    decreases s.len(),
{
    if s.len() > 0 {
        lemma_sort_is_sorted(s.drop_last());
        lemma_insert_keeps_sorted(sort_seq(s.drop_last()), s.last());
    }
}

/// A sorted sequence is left as it is.
pub proof fn lemma_sort_of_sorted(s: Seq<Seq<char>>)
    requires
        is_sorted(s),
    ensures
        sort_seq(s) == s,
    decreases s.len(),
{
    if s.len() > 0 {
        let t = s.drop_last();
        assert(is_sorted(t)) by {
            assert forall|i: int| 0 <= i < t.len() - 1 implies !lex_lt(#[trigger] t[i + 1], t[i]) by {
                assert(t[i + 1] == s[i + 1] && t[i] == s[i]);
            }
        }
        lemma_sort_of_sorted(t);
        if t.len() > 0 {
            assert(!lex_lt(s[t.len() as int], s[t.len() - 1]));
        }
        assert(t.push(s.last()) =~= s);
    }
}

/// Sorting twice gives what sorting once gives.
pub proof fn lemma_sort_idempotent(s: Seq<Seq<char>>)
    ensures
        sort_seq(sort_seq(s)) == sort_seq(s),
{
    lemma_sort_is_sorted(s);
    lemma_sort_of_sorted(sort_seq(s));
}

/// A sorted copy of `v`.
pub fn sort_strings(v: &Vec<String>) -> (r: Vec<String>)
    ensures
        views(r@) == sort_seq(views(v@)),
{
    let mut res: Vec<String> = Vec::new();
    let n = v.len();
    for i in 0..n
        invariant
            n == v@.len(),
            views(res@) == sort_seq(views(v@.take(i as int))),
    {
        let x = v[i].clone();
        let mut j: usize = res.len();
        while j > 0 && str_less(x.as_str(), res[j - 1].as_str())
            invariant
                0 <= j <= res@.len(),
                forall|k: int| j <= k < res@.len() ==> lex_lt(x@, #[trigger] res@[k]@),
            decreases j,
        {
            j = j - 1;
        }
        proof {
            let s = views(res@);
            assert forall|k: int| j <= k < s.len() implies lex_lt(x@, #[trigger] s[k]) by {
                assert(s[k] == res@[k]@);
            }
            if j > 0 {
                assert(s[j - 1] == res@[j - 1]@);
            }
            lemma_insert_at(s, x@, j as int);
        }
        let ghost before = res@;
        res.insert(j, x);
        proof {
            let pre = views(v@.take(i as int));
            assert(views(v@.take(i + 1)).drop_last() =~= pre);
            assert(views(before).take(j as int).push(x@) + views(before).skip(j as int)
                =~= views(res@));
        }
    }
    assert(v@.take(n as int) =~= v@);
    res
}

} // verus!
