//! Occurrence counting and removal over token sequences: the spec functions
//! and lemmas the partition loop's invariants and contract rest on.

use vstd::prelude::*;

verus! {

/// How many tokens of `s` equal `t`.
pub open spec fn occ(s: Seq<Seq<char>>, t: Seq<char>) -> nat
    decreases s.len(),
{
    if s.len() == 0 {
        0
    } else {
        occ(s.drop_last(), t) + if s.last() == t {
            1nat
        } else {
            0nat
        }
    }
}

/// `s` with every token equal to `t` removed, order kept.
pub open spec fn remove_tok(s: Seq<Seq<char>>, t: Seq<char>) -> Seq<Seq<char>>
    decreases s.len(),
{
    if s.len() == 0 {
        s
    } else {
        let r = remove_tok(s.drop_last(), t);
        if s.last() == t {
            r
        } else {
            r.push(s.last())
        }
    }
}

/// `s` with every token whose text occurs in `removed` taken out, order kept.
pub open spec fn keep_out(s: Seq<Seq<char>>, removed: Seq<Seq<char>>) -> Seq<Seq<char>>
    decreases s.len(),
{
    if s.len() == 0 {
        s
    } else {
        let r = keep_out(s.drop_last(), removed);
        if removed.contains(s.last()) {
            r
        } else {
            r.push(s.last())
        }
    }
}

/// Each entry of `removed` names a token of `head`, and no token twice.
pub open spec fn removed_from(head: Seq<Seq<char>>, removed: Seq<Seq<char>>) -> bool {
    &&& removed.no_duplicates()
    &&& forall|k: int| 0 <= k < removed.len() ==> head.contains(#[trigger] removed[k])
}

pub proof fn lemma_contains_push(s: Seq<Seq<char>>, t: Seq<char>, x: Seq<char>)
    ensures
        s.push(t).contains(x) <==> (s.contains(x) || x == t),
{
    if s.contains(x) {
        let i = choose|i: int| 0 <= i < s.len() && s[i] == x;
        assert(s.push(t)[i] == x);
    }
    if x == t {
        assert(s.push(t)[s.len() as int] == x);
    }
    if s.push(t).contains(x) {
        let i = choose|i: int| 0 <= i < s.push(t).len() && s.push(t)[i] == x;
        if i < s.len() {
            assert(s[i] == x);
        }
    }
}

pub proof fn lemma_no_duplicates_push(s: Seq<Seq<char>>, x: Seq<char>)
    requires
        s.no_duplicates(),
        !s.contains(x),
    ensures
        s.push(x).no_duplicates(),
{
    assert forall|i: int, j: int| 0 <= i < s.push(x).len() && 0 <= j < s.push(x).len() && i != j
        implies s.push(x)[i] != s.push(x)[j] by {
        if i < s.len() && j < s.len() {
        } else if i == s.len() {
            assert(s.push(x)[j] == s[j]);
        } else {
            assert(s.push(x)[i] == s[i]);
        }
    }
}

pub proof fn lemma_remove_tok_push(q: Seq<Seq<char>>, x: Seq<char>, t: Seq<char>)
    ensures
        x == t ==> remove_tok(q.push(x), t) == remove_tok(q, t),
        x != t ==> remove_tok(q.push(x), t) == remove_tok(q, t).push(x),
{
    assert(q.push(x).drop_last() =~= q);
    assert(q.push(x).last() == x);
}

pub proof fn lemma_occ_push(q: Seq<Seq<char>>, x: Seq<char>, t: Seq<char>)
    ensures
        occ(q.push(x), t) == occ(q, t) + if x == t {
            1nat
        } else {
            0nat
        },
{
    assert(q.push(x).drop_last() =~= q);
    assert(q.push(x).last() == x);
}

/// Removing nothing keeps the sequence as it is.
pub proof fn lemma_keep_out_nothing(s: Seq<Seq<char>>)
    ensures
        keep_out(s, Seq::<Seq<char>>::empty()) == s,
    decreases s.len(),
{
    if s.len() > 0 {
        lemma_keep_out_nothing(s.drop_last());
        assert(!Seq::<Seq<char>>::empty().contains(s.last()));
        assert(keep_out(s, Seq::<Seq<char>>::empty()) =~= s);
    } else {
        assert(keep_out(s, Seq::<Seq<char>>::empty()) =~= s);
    }
}

/// Removing one further token from the survivors is the same as keeping it
/// out from the start.
pub proof fn lemma_remove_keep_out(s: Seq<Seq<char>>, removed: Seq<Seq<char>>, t: Seq<char>)
    ensures
        remove_tok(keep_out(s, removed), t) == keep_out(s, removed.push(t)),
    decreases s.len(),
{
    if s.len() > 0 {
        lemma_remove_keep_out(s.drop_last(), removed, t);
        lemma_contains_push(removed, t, s.last());
        if !removed.contains(s.last()) {
            lemma_remove_tok_push(keep_out(s.drop_last(), removed), s.last(), t);
        }
    }
}

/// Law of partition totality for one token text: either the text was moved to
/// pass-through and no occurrence survives, or it was not and every
/// occurrence survives into the accepted vector.
pub proof fn lemma_occ_keep_out(s: Seq<Seq<char>>, removed: Seq<Seq<char>>, t: Seq<char>)
    ensures
        removed.contains(t) ==> occ(keep_out(s, removed), t) == 0,
        !removed.contains(t) ==> occ(keep_out(s, removed), t) == occ(s, t),
    decreases s.len(),
{
    if s.len() > 0 {
        lemma_occ_keep_out(s.drop_last(), removed, t);
        if !removed.contains(s.last()) {
            lemma_occ_push(keep_out(s.drop_last(), removed), s.last(), t);
        }
    }
}

/// A sequence contains a token exactly when it occurs a positive number of
/// times.
pub proof fn lemma_occ_contains(s: Seq<Seq<char>>, t: Seq<char>)
    ensures
        occ(s, t) > 0 <==> s.contains(t),
    decreases s.len(),
{
    if s.len() > 0 {
        lemma_occ_contains(s.drop_last(), t);
        if s.contains(t) {
            let i = choose|i: int| 0 <= i < s.len() && s[i] == t;
            if i < s.len() - 1 {
                assert(s.drop_last()[i] == t);
            }
        }
        if s.drop_last().contains(t) {
            let i = choose|i: int| 0 <= i < s.drop_last().len() && s.drop_last()[i] == t;
            assert(s[i] == t);
        }
    }
}

/// Dropping every occurrence of a token shrinks a sequence by exactly that
/// occurrence count.
pub proof fn lemma_remove_tok_len(s: Seq<Seq<char>>, t: Seq<char>)
    ensures
        remove_tok(s, t).len() + occ(s, t) == s.len(),
    decreases s.len(),
{
    if s.len() > 0 {
        lemma_remove_tok_len(s.drop_last(), t);
    }
}

} // verus!
