//! Ordered collections of texts: sequences sorted without repetition, as
//! an ordered set or map holds its keys.
use vstd::prelude::*;

use crate::text::{chars_eq, chars_lt, lemma_lex_total, lemma_lex_trans, lex_lt, views};

verus! {

/// A strict total order: irreflexive, transitive and total.
pub open spec fn strict_total_order<K>(lt: spec_fn(K, K) -> bool) -> bool {
    &&& forall|a: K| !#[trigger] lt(a, a)
    &&& forall|a: K, b: K| #![trigger lt(a, b), lt(b, a)] lt(a, b) || lt(b, a) || a == b
    &&& forall|a: K, b: K, c: K| #![trigger lt(a, b), lt(b, c)] lt(a, b) && lt(b, c) ==> lt(a, c)
}

/// True if `s` is strictly increasing under `lt`.
pub open spec fn sorted_by<K>(s: Seq<K>, lt: spec_fn(K, K) -> bool) -> bool {
    forall|i: int, j: int| 0 <= i < j < s.len() ==> lt(#[trigger] s[i], #[trigger] s[j])
}

/// Two strictly increasing sequences with the same elements are equal.
pub proof fn lemma_sorted_unique<K>(a: Seq<K>, b: Seq<K>, lt: spec_fn(K, K) -> bool)
    requires
        strict_total_order(lt),
        sorted_by(a, lt),
        sorted_by(b, lt),
        a.to_set() == b.to_set(),
    ensures
        a == b,
    decreases a.len(),
{
    if a.len() == 0 {
        if b.len() > 0 {
            assert(b.to_set().contains(b[0]));
            assert(a.to_set().contains(b[0]));
        }
        assert(a =~= b);
    } else {
        assert(a.to_set().contains(a[0]));
        assert(b.to_set().contains(a[0]));
        let j = choose|j: int| 0 <= j < b.len() && b[j] == a[0];
        assert(b.to_set().contains(b[0]));
        assert(a.to_set().contains(b[0]));
        let i = choose|i: int| 0 <= i < a.len() && a[i] == b[0];
        if j > 0 {
            assert(lt(b[0], b[j]));
            if i > 0 {
                assert(lt(a[0], a[i]));
                assert(lt(a[0], a[0]));
            }
            assert(false);
        }
        let a1 = a.drop_first();
        let b1 = b.drop_first();
        assert forall|x: K| a1.to_set().contains(x) implies b1.to_set().contains(x) by {
            let k = choose|k: int| 0 <= k < a1.len() && a1[k] == x;
            assert(a[k + 1] == x);
            assert(lt(a[0], a[k + 1]));
            assert(a.to_set().contains(x));
            let m = choose|m: int| 0 <= m < b.len() && b[m] == x;
            if m == 0 {
                assert(lt(x, x));
            }
            assert(b1[m - 1] == x);
        }
        assert forall|x: K| b1.to_set().contains(x) implies a1.to_set().contains(x) by {
            let k = choose|k: int| 0 <= k < b1.len() && b1[k] == x;
            assert(b[k + 1] == x);
            assert(lt(b[0], b[k + 1]));
            assert(b.to_set().contains(x));
            let m = choose|m: int| 0 <= m < a.len() && a[m] == x;
            if m == 0 {
                assert(lt(x, x));
            }
            assert(a1[m - 1] == x);
        }
        assert(a1.to_set() =~= b1.to_set());
        assert(sorted_by(a1, lt)) by {
            assert forall|p: int, q: int| 0 <= p < q < a1.len() implies lt(#[trigger] a1[p], #[trigger] a1[q]) by {
                assert(a1[p] == a[p + 1] && a1[q] == a[q + 1]);
            }
        }
        assert(sorted_by(b1, lt)) by {
            assert forall|p: int, q: int| 0 <= p < q < b1.len() implies lt(#[trigger] b1[p], #[trigger] b1[q]) by {
                assert(b1[p] == b[p + 1] && b1[q] == b[q + 1]);
            }
        }
        lemma_sorted_unique(a1, b1, lt);
        assert forall|k: int| 0 <= k < a.len() implies a[k] == b[k] by {
            if k > 0 {
                assert(a[k] == a1[k - 1] && b[k] == b1[k - 1]);
            }
        }
        assert(a =~= b);
    }
}

// ------------------------------------------------------------------ texts

/// The order of texts: `str` ordering.
pub open spec fn text_order() -> spec_fn(Seq<char>, Seq<char>) -> bool {
    |a: Seq<char>, b: Seq<char>| lex_lt(a, b)
}

/// The order of texts is a strict total order.
pub proof fn lemma_text_order()
    ensures
        strict_total_order(text_order()),
{
    assert forall|a: Seq<char>| !#[trigger] text_order()(a, a) by {
        lemma_lex_total(a, a);
    }
    assert forall|a: Seq<char>, b: Seq<char>| #![trigger text_order()(a, b), text_order()(b, a)]
        text_order()(a, b) || text_order()(b, a) || a == b by {
        lemma_lex_total(a, b);
    }
    assert forall|a: Seq<char>, b: Seq<char>, c: Seq<char>| #![trigger text_order()(a, b), text_order()(b, c)]
        text_order()(a, b) && text_order()(b, c) implies text_order()(a, c) by {
        lemma_lex_trans(a, b, c);
    }
}

/// The texts of a finite set, in increasing order without repetition.
pub open spec fn sorted_texts(s: Set<Seq<char>>) -> Seq<Seq<char>> {
    choose|l: Seq<Seq<char>>| sorted_by(l, text_order()) && l.to_set() == s
}

/// A sorted sequence of texts is the sorted form of its set.
pub proof fn lemma_sorted_texts(l: Seq<Seq<char>>)
    requires
        sorted_by(l, text_order()),
    ensures
        sorted_texts(l.to_set()) == l,
{
    let c = sorted_texts(l.to_set());
    assert(sorted_by(c, text_order()) && c.to_set() == l.to_set());
    lemma_text_order();
    lemma_sorted_unique(c, l, text_order());
}

/// True if `v` holds a text equal to `k`.
pub fn contains_text(v: &Vec<Vec<char>>, k: &Vec<char>) -> (r: bool)
    ensures
        r == views(v@).contains(k@),
{
    let mut i: usize = 0;
    while i < v.len()
        invariant
            i <= v.len(),
            forall|j: int| 0 <= j < i ==> views(v@)[j] != k@,
        decreases v.len() - i,
    {
        if chars_eq(&v[i], k) {
            assert(views(v@)[i as int] == k@);
            return true;
        }
        i += 1;
    }
    false
}

/// Inserts `k` into the sorted texts of `v`, unless it is already there.
pub fn insert_text(v: &mut Vec<Vec<char>>, k: &Vec<char>)
    requires
        sorted_by(views(old(v)@), text_order()),
    ensures
        sorted_by(views(final(v)@), text_order()),
        views(final(v)@).to_set() == views(old(v)@).to_set().insert(k@),
{
    let ghost old_v = views(v@);
    let mut i: usize = 0;
    while i < v.len() && chars_lt(&v[i], k)
        invariant
            i <= v.len(),
            views(v@) == old_v,
            forall|j: int| 0 <= j < i ==> lex_lt(old_v[j], k@),
        decreases v.len() - i,
    {
        i += 1;
    }
    proof {
        lemma_text_order();
    }
    if i < v.len() && chars_eq(&v[i], k) {
        assert(old_v.to_set().insert(k@) =~= old_v.to_set()) by {
            assert(old_v.to_set().contains(old_v[i as int]));
        }
        return;
    }
    proof {
        if i < v.len() {
            lemma_lex_total(old_v[i as int], k@);
        }
    }
    v.insert(i, k.clone());
    let ghost nv = views(v@);
    assert(nv =~= old_v.insert(i as int, k@));
    assert forall|p: int, q: int| 0 <= p < q < nv.len() implies text_order()(#[trigger] nv[p], #[trigger] nv[q]) by {
        if q < i {
            assert(nv[p] == old_v[p] && nv[q] == old_v[q]);
        } else if q == i {
            assert(nv[p] == old_v[p]);
        } else if p == i {
            assert(nv[q] == old_v[q - 1]);
            if q - 1 > i {
                assert(text_order()(old_v[i as int], old_v[q - 1]));
                assert(text_order()(k@, old_v[i as int]));
            }
        } else if p < i {
            assert(nv[p] == old_v[p] && nv[q] == old_v[q - 1]);
            assert(text_order()(old_v[p], k@));
            if q - 1 > i {
                assert(text_order()(old_v[i as int], old_v[q - 1]));
            }
            assert(text_order()(k@, old_v[i as int]));
            assert(text_order()(k@, old_v[q - 1]));
        } else {
            assert(nv[p] == old_v[p - 1] && nv[q] == old_v[q - 1]);
        }
    }
    assert forall|x: Seq<char>| nv.to_set().contains(x) <==> old_v.to_set().insert(k@).contains(x) by {
        if nv.to_set().contains(x) {
            let m = choose|m: int| 0 <= m < nv.len() && nv[m] == x;
            if m < i {
                assert(old_v[m] == x);
            } else if m > i {
                assert(old_v[m - 1] == x);
            }
        }
        if old_v.to_set().contains(x) {
            let m = choose|m: int| 0 <= m < old_v.len() && old_v[m] == x;
            if m < i {
                assert(nv[m] == x);
            } else {
                assert(nv[m + 1] == x);
            }
        }
        if x == k@ {
            assert(nv[i as int] == x);
        }
    }
    assert(nv.to_set() =~= old_v.to_set().insert(k@));
}

// ---------------------------------------------------------------- triples

/// A triple of texts.
pub type TextTriple = (Seq<char>, Seq<char>, Seq<char>);

/// The order of text triples: by the first text, then the second, then the
/// third (tuple ordering).
pub open spec fn triple_order() -> spec_fn(TextTriple, TextTriple) -> bool {
    |a: TextTriple, b: TextTriple|
        lex_lt(a.0, b.0) || (a.0 == b.0 && (lex_lt(a.1, b.1) || (a.1 == b.1 && lex_lt(a.2, b.2))))
}

/// The order of text triples is a strict total order.
pub proof fn lemma_triple_order()
    ensures
        strict_total_order(triple_order()),
{
    assert forall|a: TextTriple| !#[trigger] triple_order()(a, a) by {
        lemma_lex_total(a.0, a.0);
        lemma_lex_total(a.1, a.1);
        lemma_lex_total(a.2, a.2);
    }
    assert forall|a: TextTriple, b: TextTriple| #![trigger triple_order()(a, b), triple_order()(b, a)]
        triple_order()(a, b) || triple_order()(b, a) || a == b by {
        lemma_lex_total(a.0, b.0);
        lemma_lex_total(a.1, b.1);
        lemma_lex_total(a.2, b.2);
    }
    assert forall|a: TextTriple, b: TextTriple, c: TextTriple| #![trigger triple_order()(a, b), triple_order()(b, c)]
        triple_order()(a, b) && triple_order()(b, c) implies triple_order()(a, c) by {
        lemma_lex_total(a.0, b.0);
        lemma_lex_total(b.0, c.0);
        lemma_lex_total(a.1, b.1);
        lemma_lex_total(b.1, c.1);
        if lex_lt(a.0, b.0) && lex_lt(b.0, c.0) {
            lemma_lex_trans(a.0, b.0, c.0);
        }
        if lex_lt(a.1, b.1) && lex_lt(b.1, c.1) {
            lemma_lex_trans(a.1, b.1, c.1);
        }
        if lex_lt(a.2, b.2) && lex_lt(b.2, c.2) {
            lemma_lex_trans(a.2, b.2, c.2);
        }
    }
}

/// The triples of a finite set, in increasing order without repetition.
pub open spec fn sorted_triples(s: Set<TextTriple>) -> Seq<TextTriple> {
    choose|l: Seq<TextTriple>| sorted_by(l, triple_order()) && l.to_set() == s
}

/// A sorted sequence of triples is the sorted form of its set.
pub proof fn lemma_sorted_triples(l: Seq<TextTriple>)
    requires
        sorted_by(l, triple_order()),
    ensures
        sorted_triples(l.to_set()) == l,
{
    let c = sorted_triples(l.to_set());
    assert(sorted_by(c, triple_order()) && c.to_set() == l.to_set());
    lemma_triple_order();
    lemma_sorted_unique(c, l, triple_order());
}

/// A triple of character buffers.
pub type CharTriple = (Vec<char>, Vec<char>, Vec<char>);

/// The texts held by buffer triples.
pub open spec fn triple_views(v: Seq<CharTriple>) -> Seq<TextTriple> {
    v.map_values(|t: CharTriple| (t.0@, t.1@, t.2@))
}

/// Compares two triples: true if `a` comes before `b`.
fn triple_lt(a: &CharTriple, b: &CharTriple) -> (r: bool)
    ensures
        r == triple_order()((a.0@, a.1@, a.2@), (b.0@, b.1@, b.2@)),
{
    if chars_lt(&a.0, &b.0) {
        true
    } else if !chars_eq(&a.0, &b.0) {
        false
    } else if chars_lt(&a.1, &b.1) {
        true
    } else if !chars_eq(&a.1, &b.1) {
        false
    } else {
        chars_lt(&a.2, &b.2)
    }
}

/// True if both triples hold the same texts.
fn triple_eq(a: &CharTriple, b: &CharTriple) -> (r: bool)
    ensures
        r == ((a.0@, a.1@, a.2@) == (b.0@, b.1@, b.2@)),
{
    chars_eq(&a.0, &b.0) && chars_eq(&a.1, &b.1) && chars_eq(&a.2, &b.2)
}

/// Inserts `k` into the sorted triples of `v`, unless it is already there.
pub fn insert_triple(v: &mut Vec<CharTriple>, k: CharTriple)
    requires
        sorted_by(triple_views(old(v)@), triple_order()),
    ensures
        sorted_by(triple_views(final(v)@), triple_order()),
        triple_views(final(v)@).to_set() == triple_views(old(v)@).to_set().insert((k.0@, k.1@, k.2@)),
{
    let ghost old_v = triple_views(v@);
    let ghost kv: TextTriple = (k.0@, k.1@, k.2@);
    let mut i: usize = 0;
    while i < v.len() && triple_lt(&v[i], &k)
        invariant
            i <= v.len(),
            triple_views(v@) == old_v,
            kv == (k.0@, k.1@, k.2@),
            forall|j: int| 0 <= j < i ==> triple_order()(old_v[j], kv),
        decreases v.len() - i,
    {
        assert(old_v[i as int] == (v@[i as int].0@, v@[i as int].1@, v@[i as int].2@));
        i += 1;
    }
    proof {
        lemma_triple_order();
    }
    if i < v.len() {
        assert(old_v[i as int] == (v@[i as int].0@, v@[i as int].1@, v@[i as int].2@));
    }
    if i < v.len() && triple_eq(&v[i], &k) {
        assert(old_v.to_set().insert(kv) =~= old_v.to_set()) by {
            assert(old_v.to_set().contains(old_v[i as int]));
        }
        return;
    }
    if i < v.len() {
        assert(triple_order()(kv, old_v[i as int]));
    }
    v.insert(i, k);
    let ghost nv = triple_views(v@);
    assert(nv =~= old_v.insert(i as int, kv));
    assert forall|p: int, q: int| 0 <= p < q < nv.len() implies triple_order()(#[trigger] nv[p], #[trigger] nv[q]) by {
        if q < i {
            assert(nv[p] == old_v[p] && nv[q] == old_v[q]);
        } else if q == i {
            assert(nv[p] == old_v[p]);
        } else if p == i {
            assert(nv[q] == old_v[q - 1]);
            if q - 1 > i {
                assert(triple_order()(old_v[i as int], old_v[q - 1]));
            }
        } else if p < i {
            assert(nv[p] == old_v[p] && nv[q] == old_v[q - 1]);
            assert(triple_order()(old_v[p], kv));
            if q - 1 > i {
                assert(triple_order()(old_v[i as int], old_v[q - 1]));
            }
            assert(triple_order()(kv, old_v[q - 1]));
        } else {
            assert(nv[p] == old_v[p - 1] && nv[q] == old_v[q - 1]);
        }
    }
    assert forall|x: TextTriple| nv.to_set().contains(x) <==> old_v.to_set().insert(kv).contains(x) by {
        if nv.to_set().contains(x) {
            let m = choose|m: int| 0 <= m < nv.len() && nv[m] == x;
            if m < i {
                assert(old_v[m] == x);
            } else if m > i {
                assert(old_v[m - 1] == x);
            }
        }
        if old_v.to_set().contains(x) {
            let m = choose|m: int| 0 <= m < old_v.len() && old_v[m] == x;
            if m < i {
                assert(nv[m] == x);
            } else {
                assert(nv[m + 1] == x);
            }
        }
        if x == kv {
            assert(nv[i as int] == x);
        }
    }
    assert(nv.to_set() =~= old_v.to_set().insert(kv));
}

} // verus!
