//! The order of texts by character code, and sorting lists of texts by it.
use vstd::prelude::*;

use crate::text::chars_of;

verus! {

/// `a` comes no later than `b`, comparing character codes from the start; a
/// proper prefix comes first.
pub open spec fn lex_le(a: Seq<char>, b: Seq<char>) -> bool
    decreases a.len(),
{
    if a.len() == 0 {
        true
    } else if b.len() == 0 {
        false
    } else if a[0] < b[0] {
        true
    } else if a[0] > b[0] {
        false
    } else {
        lex_le(a.drop_first(), b.drop_first())
    }
}

/// `a` comes strictly before `b`.
pub open spec fn lex_lt(a: Seq<char>, b: Seq<char>) -> bool {
    lex_le(a, b) && a != b
}

pub proof fn lemma_lex_total(a: Seq<char>, b: Seq<char>)
    ensures
        lex_le(a, b) || lex_le(b, a),
    decreases a.len(),
{
    if a.len() > 0 && b.len() > 0 && a[0] == b[0] {
        lemma_lex_total(a.drop_first(), b.drop_first());
    }
}

pub proof fn lemma_lex_antisym(a: Seq<char>, b: Seq<char>)
    requires
        lex_le(a, b),
        lex_le(b, a),
    ensures
        a == b,
    decreases a.len(),
{
    if a.len() > 0 && b.len() > 0 {
        lemma_lex_antisym(a.drop_first(), b.drop_first());
        assert(a =~= seq![a[0]] + a.drop_first());
        assert(b =~= seq![b[0]] + b.drop_first());
    } else {
        assert(a =~= b);
    }
}

pub proof fn lemma_lex_trans(a: Seq<char>, b: Seq<char>, c: Seq<char>)
    requires
        lex_le(a, b),
        lex_le(b, c),
    ensures
        lex_le(a, c),
    decreases a.len(),
{
    if a.len() > 0 && b.len() > 0 && c.len() > 0 && a[0] == b[0] && b[0] == c[0] {
        lemma_lex_trans(a.drop_first(), b.drop_first(), c.drop_first());
    }
}

pub proof fn lemma_lex_refl(a: Seq<char>)
    ensures
        lex_le(a, a),
    decreases a.len(),
{
    if a.len() > 0 {
        lemma_lex_refl(a.drop_first());
    }
}

/// Whether `a` comes no later than `b`.
pub fn text_le(a: &str, b: &str) -> (r: bool)
    ensures
        r == lex_le(a@, b@),
{
    let x = chars_of(a);
    let y = chars_of(b);
    let mut i: usize = 0;
    assert(a@.skip(0) =~= a@);
    assert(b@.skip(0) =~= b@);
    while i < x.len() && i < y.len()
        invariant
            x@ == a@,
            y@ == b@,
            i <= x@.len(),
            i <= y@.len(),
            lex_le(a@, b@) == lex_le(a@.skip(i as int), b@.skip(i as int)),
        decreases x.len() - i,
    {
        assert(a@.skip(i as int)[0] == x@[i as int]);
        assert(b@.skip(i as int)[0] == y@[i as int]);
        if x[i] < y[i] {
            return true;
        }
        if x[i] > y[i] {
            return false;
        }
        assert(a@.skip(i as int).drop_first() =~= a@.skip(i + 1));
        assert(b@.skip(i as int).drop_first() =~= b@.skip(i + 1));
        i = i + 1;
    }
    i == x.len()
}

/// The texts are in order.
pub open spec fn sorted_texts(s: Seq<String>) -> bool {
    forall|i: int, j: int| 0 <= i < j < s.len() ==> lex_le(#[trigger] s[i]@, #[trigger] s[j]@)
}

/// The texts are in order with no text twice.
pub open spec fn strictly_sorted_texts(s: Seq<String>) -> bool {
    forall|i: int, j: int| 0 <= i < j < s.len() ==> lex_lt(#[trigger] s[i]@, #[trigger] s[j]@)
}

/// The same texts in order.
pub fn sort_texts(v: &Vec<String>) -> (r: Vec<String>)
    ensures
        r@.to_multiset() == v@.to_multiset(),
        sorted_texts(r@),
{
    broadcast use vstd::seq_lib::group_to_multiset_ensures;

    let mut r: Vec<String> = Vec::new();
    assert(v@.take(0) =~= Seq::<String>::empty());
    for i in 0..v.len()
        invariant
            r@.to_multiset() == v@.take(i as int).to_multiset(),
            sorted_texts(r@),
    {
        let x = v[i].clone();
        let mut pos: usize = 0;
        while pos < r.len() && text_le(r[pos].as_str(), x.as_str())
            invariant
                pos <= r@.len(),
                forall|j: int| 0 <= j < pos ==> lex_le(#[trigger] r@[j]@, x@),
            decreases r.len() - pos,
        {
            pos = pos + 1;
        }
        proof {
            if pos < r@.len() {
                assert(!lex_le(r@[pos as int]@, x@));
                lemma_lex_total(r@[pos as int]@, x@);
            }
        }
        let ghost before = r@;
        r.insert(pos, x);
        proof {
            assert(r@ == before.insert(pos as int, x));
            vstd::seq_lib::to_multiset_insert(before, pos as int, x);
            assert(v@.take(i + 1) =~= v@.take(i as int).push(v@[i as int]));
            vstd::seq_lib::to_multiset_build(v@.take(i as int), v@[i as int]);
            assert forall|a: int, b: int| 0 <= a < b < r@.len() implies lex_le(
                #[trigger] r@[a]@,
                #[trigger] r@[b]@,
            ) by {
                let p = pos as int;
                if b < p {
                    assert(r@[a] == before[a] && r@[b] == before[b]);
                } else if b == p {
                    assert(r@[a] == before[a]);
                } else if a == p {
                    assert(r@[b] == before[b - 1]);
                    assert(lex_le(x@, before[p]@));
                    if b - 1 > p {
                        assert(lex_le(before[p]@, before[b - 1]@));
                        lemma_lex_trans(x@, before[p]@, before[b - 1]@);
                    }
                } else if a < p {
                    assert(r@[a] == before[a] && r@[b] == before[b - 1]);
                    assert(lex_le(before[a]@, before[b - 1]@));
                } else {
                    assert(r@[a] == before[a - 1] && r@[b] == before[b - 1]);
                    assert(lex_le(before[a - 1]@, before[b - 1]@));
                }
            }
        }
    }
    assert(v@.take(v@.len() as int) =~= v@);
    r
}

/// A copy of a list of texts.
pub fn copy_texts(v: &Vec<String>) -> (r: Vec<String>)
    ensures
        r@ == v@,
{
    let mut r: Vec<String> = Vec::new();
    for i in 0..v.len()
        invariant
            r@ == v@.take(i as int),
    {
        r.push(v[i].clone());
        assert(r@ =~= v@.take(i + 1));
    }
    assert(v@.take(v@.len() as int) =~= v@);
    r
}

/// `t` occurs among the texts.
pub open spec fn has_text(s: Seq<String>, t: Seq<char>) -> bool {
    exists|i: int| 0 <= i < s.len() && (#[trigger] s[i])@ == t
}

/// The same texts in order, each once.
pub fn sort_unique_texts(v: &Vec<String>) -> (r: Vec<String>)
    ensures
        strictly_sorted_texts(r@),
        forall|t: Seq<char>| has_text(r@, t) <==> has_text(v@, t),
{
    broadcast use vstd::seq_lib::group_to_multiset_ensures;

    let sorted = sort_texts(v);
    let mut r: Vec<String> = Vec::new();
    for i in 0..sorted.len()
        invariant
            sorted_texts(sorted@),
            strictly_sorted_texts(r@),
            forall|t: Seq<char>| has_text(r@, t) <==> has_text(sorted@.take(i as int), t),
            i > 0 ==> r@.len() > 0 && r@.last()@ == sorted@[i - 1]@,
            i == 0 ==> r@.len() == 0,
    {
        let keep = r.len() == 0 || !(r[r.len() - 1] == sorted[i]);
        let ghost before = r@;
        if keep {
            r.push(sorted[i].clone());
            assert forall|a: int, b: int| 0 <= a < b < r@.len() implies lex_lt(
                #[trigger] r@[a]@,
                #[trigger] r@[b]@,
            ) by {
                if b == r@.len() - 1 {
                    assert(r@[a] == before[a]);
                    let last = before.len() - 1;
                    assert(lex_le(sorted@[i - 1]@, sorted@[i as int]@));
                    if a < last {
                        assert(lex_lt(before[a]@, before[last]@));
                        lemma_lex_trans(before[a]@, before[last]@, sorted@[i as int]@);
                        if before[a]@ == sorted@[i as int]@ {
                            lemma_lex_antisym(before[a]@, before[last]@);
                        }
                    }
                } else {
                    assert(r@[a] == before[a] && r@[b] == before[b]);
                }
            }
        }
        assert forall|t: Seq<char>| has_text(r@, t) <==> has_text(sorted@.take(i + 1), t) by {
            let p = sorted@.take(i + 1);
            if has_text(r@, t) {
                let a = choose|a: int| 0 <= a < r@.len() && (#[trigger] r@[a])@ == t;
                if a < before.len() {
                    assert(r@[a] == before[a]);
                    assert(has_text(before, t));
                    assert(has_text(sorted@.take(i as int), t));
                    let m = choose|m: int|
                        0 <= m < sorted@.take(i as int).len() && (#[trigger] sorted@.take(
                            i as int,
                        )[m])@ == t;
                    assert(p[m] == sorted@[m]);
                } else {
                    assert(p[i as int] == sorted@[i as int]);
                }
            }
            if has_text(p, t) {
                let m = choose|m: int| 0 <= m < p.len() && (#[trigger] p[m])@ == t;
                if m < i {
                    assert(sorted@.take(i as int)[m] == p[m]);
                    assert(has_text(sorted@.take(i as int), t));
                    assert(has_text(before, t));
                    let a = choose|a: int| 0 <= a < before.len() && (#[trigger] before[a])@ == t;
                    assert(r@[a] == before[a]);
                } else if keep {
                    assert(r@[r@.len() - 1]@ == t);
                } else {
                    assert(r@[r@.len() - 1]@ == t);
                }
            }
        }
    }
    assert(sorted@.take(sorted@.len() as int) =~= sorted@);
    assert forall|t: Seq<char>| has_text(sorted@, t) <==> has_text(v@, t) by {
        if has_text(sorted@, t) {
            let m = choose|m: int| 0 <= m < sorted@.len() && (#[trigger] sorted@[m])@ == t;
            assert(sorted@.to_multiset().count(sorted@[m]) > 0);
            assert(v@.contains(sorted@[m]));
        }
        if has_text(v@, t) {
            let m = choose|m: int| 0 <= m < v@.len() && (#[trigger] v@[m])@ == t;
            assert(v@.to_multiset().count(v@[m]) > 0);
            assert(sorted@.contains(v@[m]));
        }
    }
    r
}

} // verus!
