//! The order of strings: by characters from the first, each compared by
//! its code point, a prefix coming first. This is the order of `str`, whose
//! UTF-8 bytes keep the order of code points. Sorting and de-duplicating
//! lists of strings by it.

use vstd::prelude::*;
use vstd::relations::{sorted_by, total_ordering, reflexive, antisymmetric, transitive, strongly_connected};
use crate::text::{chars_of, views_of};

verus! {

broadcast use vstd::seq_lib::group_to_multiset_ensures;

/// `a` comes before `b` or equals it.
pub open spec fn lex_le(a: Seq<char>, b: Seq<char>) -> bool
    decreases a.len(),
{
    if a.len() == 0 {
        true
    } else if b.len() == 0 {
        false
    } else if a[0] != b[0] {
        (a[0] as u32) < (b[0] as u32)
    } else {
        lex_le(a.drop_first(), b.drop_first())
    }
}

/// `lex_le` as a relation.
pub open spec fn lex_order() -> spec_fn(Seq<char>, Seq<char>) -> bool {
    |a: Seq<char>, b: Seq<char>| lex_le(a, b)
}

proof fn lemma_char_eq_from_u32(a: char, b: char)
    requires
        a as u32 == b as u32,
    ensures
        a == b,
{
}

proof fn lemma_lex_antisym(a: Seq<char>, b: Seq<char>)
    requires
        lex_le(a, b),
        lex_le(b, a),
    ensures
        a == b,
    decreases a.len(),
{
    if a.len() == 0 {
        assert(b.len() == 0 || !lex_le(b, a));
        assert(a =~= b);
    } else {
        assert(b.len() > 0);
        if a[0] == b[0] {
            lemma_lex_antisym(a.drop_first(), b.drop_first());
            assert(a.drop_first().len() == b.drop_first().len());
            assert(a.len() == b.len());
            assert(a =~= b) by {
                assert forall|i: int| 0 <= i < a.len() implies a[i] == b[i] by {
                    if i > 0 {
                        assert(a[i] == a.drop_first()[i - 1]);
                        assert(b[i] == b.drop_first()[i - 1]);
                    }
                }
            }
        }
    }
}

proof fn lemma_lex_trans(a: Seq<char>, b: Seq<char>, c: Seq<char>)
    requires
        lex_le(a, b),
        lex_le(b, c),
    ensures
        lex_le(a, c),
    decreases a.len(),
{
    if a.len() > 0 && b.len() > 0 && c.len() > 0 {
        if a[0] == b[0] && b[0] == c[0] {
            lemma_lex_trans(a.drop_first(), b.drop_first(), c.drop_first());
        } else if a[0] == b[0] {
        } else if b[0] == c[0] {
        } else {
            if a[0] == c[0] {
                lemma_char_eq_from_u32(a[0], c[0]);
            }
        }
    }
}

proof fn lemma_lex_total(a: Seq<char>, b: Seq<char>)
    ensures
        lex_le(a, b) || lex_le(b, a),
    decreases a.len(),
{
    if a.len() > 0 && b.len() > 0 {
        if a[0] == b[0] {
            lemma_lex_total(a.drop_first(), b.drop_first());
        } else if a[0] as u32 == b[0] as u32 {
            lemma_char_eq_from_u32(a[0], b[0]);
        }
    }
}

proof fn lemma_lex_refl(a: Seq<char>)
    ensures
        lex_le(a, a),
    decreases a.len(),
{
    if a.len() > 0 {
        lemma_lex_refl(a.drop_first());
    }
}

/// The order of strings is a total order.
pub proof fn lemma_lex_total_ordering()
    ensures
        total_ordering(lex_order()),
{
    assert(reflexive(lex_order())) by {
        assert forall|a: Seq<char>| #[trigger] lex_order()(a, a) by {
            lemma_lex_refl(a);
        }
    }
    assert(antisymmetric(lex_order())) by {
        assert forall|a: Seq<char>, b: Seq<char>|
            #[trigger] lex_order()(a, b) && #[trigger] lex_order()(b, a) implies a == b by {
            lemma_lex_antisym(a, b);
        }
    }
    assert(transitive(lex_order())) by {
        assert forall|a: Seq<char>, b: Seq<char>, c: Seq<char>|
            #[trigger] lex_order()(a, b) && #[trigger] lex_order()(b, c) implies lex_order()(
            a,
            c,
        ) by {
            lemma_lex_trans(a, b, c);
        }
    }
    assert(strongly_connected(lex_order())) by {
        assert forall|a: Seq<char>, b: Seq<char>|
            #[trigger] lex_order()(a, b) || #[trigger] lex_order()(b, a) by {
            lemma_lex_total(a, b);
        }
    }
}

proof fn lemma_lex_le_skip(a: Seq<char>, b: Seq<char>, i: int)
    requires
        0 <= i <= a.len(),
        i <= b.len(),
        a.take(i) == b.take(i),
    ensures
        lex_le(a, b) == lex_le(a.skip(i), b.skip(i)),
    decreases i,
{
    if i > 0 {
        assert(a[0] == a.take(i)[0]);
        assert(b[0] == b.take(i)[0]);
        assert(a.drop_first().take(i - 1) =~= a.take(i).drop_first());
        assert(b.drop_first().take(i - 1) =~= b.take(i).drop_first());
        lemma_lex_le_skip(a.drop_first(), b.drop_first(), i - 1);
        assert(a.drop_first().skip(i - 1) =~= a.skip(i));
        assert(b.drop_first().skip(i - 1) =~= b.skip(i));
    } else {
        assert(a.skip(0) =~= a);
        assert(b.skip(0) =~= b);
    }
}

/// Compare two strings by the order of strings.
pub fn lex_le_str(a: &str, b: &str) -> (r: bool)
    ensures
        r == lex_le(a@, b@),
{
    let x = chars_of(a);
    let y = chars_of(b);
    let mut i: usize = 0;
    while i < x.len() && i < y.len() && x[i] == y[i]
        invariant
            i <= x@.len(),
            i <= y@.len(),
            x@.take(i as int) == y@.take(i as int),
        decreases x@.len() - i,
    {
        assert(x@.take(i + 1) =~= x@.take(i as int).push(x@[i as int]));
        assert(y@.take(i + 1) =~= y@.take(i as int).push(y@[i as int]));
        i = i + 1;
    }
    proof {
        lemma_lex_le_skip(x@, y@, i as int);
    }
    if i == x.len() {
        true
    } else if i == y.len() {
        false
    } else {
        assert(x@.skip(i as int)[0] == x@[i as int]);
        assert(y@.skip(i as int)[0] == y@[i as int]);
        (x[i] as u32) < (y[i] as u32)
    }
}

/// Sort strings by the order of strings, keeping duplicates.
pub fn sort_strings(v: Vec<String>) -> (out: Vec<String>)
    ensures
        views_of(out@) == views_of(v@).sort_by(lex_order()),
{
    let mut out: Vec<String> = Vec::new();
    let mut i: usize = 0;
    assert(views_of(v@).take(0) =~= Seq::<Seq<char>>::empty());
    assert(views_of(out@) =~= Seq::<Seq<char>>::empty());
    while i < v.len()
        invariant
            i <= v@.len(),
            sorted_by(views_of(out@), lex_order()),
            views_of(out@).to_multiset() == views_of(v@).take(i as int).to_multiset(),
        decreases v@.len() - i,
    {
        let x = v[i].clone();
        let mut p: usize = 0;
        while p < out.len() && lex_le_str(out[p].as_str(), x.as_str())
            invariant
                p <= out@.len(),
                forall|k: int| 0 <= k < p ==> lex_le((#[trigger] out@[k])@, x@),
            decreases out@.len() - p,
        {
            p = p + 1;
        }
        let ghost prev = views_of(out@);
        proof {
            lemma_lex_total_ordering();
            if p < out@.len() {
                lemma_lex_total(out@[p as int]@, x@);
            }
        }
        out.insert(p, x);
        proof {
            assert(views_of(out@) =~= prev.insert(p as int, x@));
            vstd::seq_lib::to_multiset_insert(prev, p as int, x@);
            assert(views_of(v@).take(i + 1) =~= views_of(v@).take(i as int).push(x@));
            vstd::seq_lib::to_multiset_build(views_of(v@).take(i as int), x@);
            assert(sorted_by(views_of(out@), lex_order())) by {
                assert forall|a: int, b: int| 0 <= a < b < views_of(out@).len() implies #[trigger] lex_order()(
                    views_of(out@)[a],
                    views_of(out@)[b],
                ) by {
                    if b < p {
                        assert(lex_order()(prev[a], prev[b]));
                    } else if b == p {
                        assert(lex_le(out@[a]@, x@));
                    } else if a == p {
                        assert(lex_order()(prev[p as int], prev[b - 1]));
                        lemma_lex_trans(x@, prev[p as int], prev[b - 1]);
                    } else if a < p {
                        assert(lex_order()(prev[a], prev[b - 1]));
                    } else {
                        assert(lex_order()(prev[a - 1], prev[b - 1]));
                    }
                }
            }
        }
        i = i + 1;
    }
    proof {
        assert(views_of(v@).take(v@.len() as int) =~= views_of(v@));
        lemma_lex_total_ordering();
        views_of(v@).lemma_sort_by_ensures(lex_order());
        vstd::seq_lib::lemma_sorted_unique(
            views_of(out@),
            views_of(v@).sort_by(lex_order()),
            lex_order(),
        );
    }
    out
}

/// `q` with each run of equal neighbours reduced to one element.
pub open spec fn dedup_spec(q: Seq<Seq<char>>) -> Seq<Seq<char>>
    decreases q.len(),
{
    if q.len() == 0 {
        q
    } else {
        let r = dedup_spec(q.drop_last());
        if r.len() > 0 && r.last() == q.last() {
            r
        } else {
            r.push(q.last())
        }
    }
}

/// The distinct strings of `q` in order.
pub open spec fn sorted_distinct(q: Seq<Seq<char>>) -> Seq<Seq<char>> {
    dedup_spec(q.sort_by(lex_order()))
}

/// Reduce runs of equal neighbours to one element.
pub fn dedup_strings(v: Vec<String>) -> (out: Vec<String>)
    ensures
        views_of(out@) == dedup_spec(views_of(v@)),
{
    let mut out: Vec<String> = Vec::new();
    let mut i: usize = 0;
    while i < v.len()
        invariant
            i <= v@.len(),
            views_of(out@) == dedup_spec(views_of(v@).take(i as int)),
        decreases v@.len() - i,
    {
        assert(views_of(v@).take(i + 1).drop_last() =~= views_of(v@).take(i as int));
        let ghost prev = out@;
        if out.len() > 0 && crate::text::str_eq(out[out.len() - 1].as_str(), v[i].as_str()) {
        } else {
            out.push(v[i].clone());
            assert(views_of(out@) =~= views_of(prev).push(v@[i as int]@));
        }
        i = i + 1;
    }
    assert(views_of(v@).take(v@.len() as int) =~= views_of(v@));
    out
}

/// Sort strings and keep one of each.
pub fn sorted_distinct_strings(v: Vec<String>) -> (out: Vec<String>)
    ensures
        views_of(out@) == sorted_distinct(views_of(v@)),
{
    dedup_strings(sort_strings(v))
}

proof fn lemma_dedup_sorted(s: Seq<Seq<char>>)
    requires
        sorted_by(s, lex_order()),
    ensures
        forall|x: Seq<char>| dedup_spec(s).contains(x) <==> s.contains(x),
        forall|i: int, j: int|
            0 <= i < j < dedup_spec(s).len() ==> lex_le(dedup_spec(s)[i], dedup_spec(s)[j])
                && dedup_spec(s)[i] != dedup_spec(s)[j],
        s.len() > 0 ==> dedup_spec(s).len() > 0 && dedup_spec(s).last() == s.last(),
    decreases s.len(),
{
    if s.len() > 0 {
        let p = s.drop_last();
        assert(sorted_by(p, lex_order()));
        lemma_dedup_sorted(p);
        let r = dedup_spec(p);
        let z = s.last();
        assert forall|x: Seq<char>| p.contains(x) implies lex_le(x, z) by {
            let k = choose|k: int| 0 <= k < p.len() && p[k] == x;
            assert(lex_order()(s[k], s[s.len() - 1]));
        }
        assert forall|x: Seq<char>| s.contains(x) <==> (p.contains(x) || x == z) by {
            if s.contains(x) {
                let k = choose|k: int| 0 <= k < s.len() && s[k] == x;
                if k < s.len() - 1 {
                    assert(p[k] == x);
                }
            }
            if p.contains(x) {
                let k = choose|k: int| 0 <= k < p.len() && p[k] == x;
                assert(s[k] == x);
            }
            if x == z {
                assert(s[s.len() - 1] == x);
            }
        }
        if r.len() > 0 && r.last() == z {
        } else {
            let r2 = r.push(z);
            assert forall|x: Seq<char>| r2.contains(x) <==> (r.contains(x) || x == z) by {
                if r2.contains(x) {
                    let k = choose|k: int| 0 <= k < r2.len() && r2[k] == x;
                    if k < r.len() {
                        assert(r[k] == x);
                    }
                }
                if r.contains(x) {
                    let k = choose|k: int| 0 <= k < r.len() && r[k] == x;
                    assert(r2[k] == x);
                }
                if x == z {
                    assert(r2[r.len() as int] == x);
                }
            }
            assert forall|i: int, j: int| 0 <= i < j < r2.len() implies lex_le(r2[i], r2[j])
                && r2[i] != r2[j] by {
                assert(r2[i] == r[i]);
                if j < r.len() {
                    assert(r2[j] == r[j]);
                } else {
                    assert(r2[j] == z);
                    assert(r.contains(r[i]));
                    assert(p.contains(r[i]));
                    assert(lex_le(r[i], z));
                    if r[i] == z {
                        let k = choose|k: int| 0 <= k < p.len() && p[k] == z;
                        assert(lex_order()(s[k], s[p.len() - 1]));
                        assert(lex_order()(s[p.len() - 1], s[s.len() - 1]));
                        lemma_lex_antisym(p.last(), z);
                        assert(r.last() == p.last());
                        assert(false);
                    }
                }
            }
        }
    }
}

/// The distinct strings of a list in order hold exactly the strings of the
/// list, each once, each before the next in the order of strings.
pub proof fn lemma_sorted_distinct(q: Seq<Seq<char>>)
    ensures
        forall|x: Seq<char>| #[trigger] sorted_distinct(q).contains(x) <==> q.contains(x),
        forall|i: int, j: int|
            0 <= i < j < sorted_distinct(q).len() ==> lex_le(
                #[trigger] sorted_distinct(q)[i],
                #[trigger] sorted_distinct(q)[j],
            ) && sorted_distinct(q)[i] != sorted_distinct(q)[j],
{
    lemma_lex_total_ordering();
    q.lemma_sort_by_ensures(lex_order());
    let s = q.sort_by(lex_order());
    lemma_dedup_sorted(s);
    assert forall|x: Seq<char>| s.contains(x) <==> q.contains(x) by {
        if q.contains(x) {
            assert(q.to_multiset().count(x) > 0);
            assert(s.to_multiset().count(x) > 0);
        }
    }
}

} // verus!
