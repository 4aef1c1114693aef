use vstd::multiset::Multiset;
use vstd::prelude::*;

use std::cmp::Ordering;

use crate::card::{card_cmp, lemma_card_order, reversed, Card};

verus! {

/// How many cards of `s` carry catalog id `id`.
pub open spec fn count_id(s: Seq<Card>, id: usize) -> nat
    decreases s.len(),
{
    if s.len() == 0 {
        0
    } else {
        count_id(s.drop_last(), id) + if s.last().id == id {
            1nat
        } else {
            0nat
        }
    }
}

/// The listing order of aggregated entries: display order, ties broken by catalog id.
#[verifier::opaque]
pub open spec fn entry_lt(a: Card, b: Card) -> bool {
    card_cmp(a, b) == Ordering::Less || (card_cmp(a, b) == Ordering::Equal && a.id < b.id)
}

/// The mathematical value of a list of (card, count) entries.
pub open spec fn counted(r: Seq<(&Card, usize)>) -> Seq<(Card, nat)> {
    r.map_values(|e: (&Card, usize)| (*e.0, e.1 as nat))
}

pub open spec fn total_count(v: Seq<(Card, nat)>) -> nat
    decreases v.len(),
{
    if v.len() == 0 {
        0
    } else {
        total_count(v.drop_last()) + v.last().1
    }
}

pub open spec fn distinct_ids(v: Seq<(Card, nat)>) -> bool {
    forall|i: int, j: int| 0 <= i < v.len() && 0 <= j < v.len() && i != j ==> v[i].0.id != v[j].0.id
}

/// `c` is the first card of `cards` with its catalog id.
pub open spec fn first_of_id(cards: Seq<Card>, c: Card) -> bool {
    exists|j: int|
        0 <= j < cards.len() && cards[j] == c && forall|j2: int| 0 <= j2 < j ==> #[trigger] cards[j2].id != c.id
}

/// Some entry of `v` is for catalog id `id`.
pub open spec fn has_entry(v: Seq<(Card, nat)>, id: usize) -> bool {
    exists|k: int| 0 <= k < v.len() && v[k].0.id == id
}

pub open spec fn strictly_sorted(v: Seq<(Card, nat)>) -> bool {
    forall|i: int, j: int| 0 <= i < j < v.len() ==> entry_lt(#[trigger] v[i].0, #[trigger] v[j].0)
}

/// `v` groups `cards` by catalog id: each entry holds the first card of the list with
/// its id and the number of cards with that id, every card's id has an entry, and the
/// entries are listed in display order with ties broken by id.
pub open spec fn is_aggregation(cards: Seq<Card>, v: Seq<(Card, nat)>) -> bool {
    &&& forall|k: int|
        0 <= k < v.len() ==> first_of_id(cards, #[trigger] v[k].0) && v[k].1 == count_id(cards, v[k].0.id)
    &&& forall|j: int| 0 <= j < cards.len() ==> #[trigger] has_entry(v, cards[j].id)
    &&& strictly_sorted(v)
}

proof fn lemma_entry_lt_laws(a: Card, b: Card, c: Card)
    ensures
        !entry_lt(a, a),
        entry_lt(a, b) ==> !entry_lt(b, a),
        a.id != b.id ==> entry_lt(a, b) || entry_lt(b, a),
        entry_lt(a, b) && entry_lt(b, c) ==> entry_lt(a, c),
{
    reveal(entry_lt);
    lemma_card_order(a, b, c);
    lemma_card_order(a, a, a);
    lemma_card_order(b, c, a);
    lemma_card_order(a, c, b);
    if card_cmp(a, b) == Ordering::Equal {
        assert(card_cmp(a, c) == card_cmp(b, c));
    }
    if card_cmp(b, c) == Ordering::Equal {
        assert(card_cmp(a, c) == card_cmp(a, b));
    }
}

proof fn lemma_count_id_push(s: Seq<Card>, x: Card, id: usize)
    ensures
        count_id(s.push(x), id) == count_id(s, id) + if x.id == id {
            1nat
        } else {
            0nat
        },
{
    assert(s.push(x).drop_last() =~= s);
}

proof fn lemma_count_id_bounds(s: Seq<Card>, id: usize)
    ensures
        count_id(s, id) <= s.len(),
        count_id(s, id) > 0 ==> exists|j: int| 0 <= j < s.len() && s[j].id == id,
    decreases s.len(),
{
    if s.len() > 0 {
        lemma_count_id_bounds(s.drop_last(), id);
        if count_id(s.drop_last(), id) > 0 {
            let j = choose|j: int| 0 <= j < s.drop_last().len() && s.drop_last()[j].id == id;
            assert(s[j].id == id);
        }
    }
}

pub proof fn lemma_count_id_present(s: Seq<Card>, j: int)
    requires
        0 <= j < s.len(),
    ensures
        count_id(s, s[j].id) >= 1,
    decreases s.len(),
{
    if j < s.len() - 1 {
        lemma_count_id_present(s.drop_last(), j);
    }
}

proof fn lemma_count_id_multiset(s: Seq<Card>, c: Card)
    requires
        forall|i: int| 0 <= i < s.len() && #[trigger] s[i].id == c.id ==> s[i] == c,
    ensures
        count_id(s, c.id) == s.to_multiset().count(c),
    decreases s.len(),
{
    broadcast use vstd::seq_lib::group_to_multiset_ensures;

    if s.len() > 0 {
        let t = s.drop_last();
        assert forall|i: int| 0 <= i < t.len() && #[trigger] t[i].id == c.id implies t[i] == c by {
            assert(s[i] == t[i]);
        }
        lemma_count_id_multiset(t, c);
        assert(s =~= t.push(s.last()));
        assert(s.to_multiset() =~= t.to_multiset().insert(s.last()));
    } else {
        assert(s.to_multiset() =~= Multiset::empty());
    }
}

proof fn lemma_first_of_id_push(t: Seq<Card>, x: Card, c: Card)
    requires
        first_of_id(t, c),
    ensures
        first_of_id(t.push(x), c),
{
    let j = choose|j: int|
        0 <= j < t.len() && t[j] == c && forall|j2: int| 0 <= j2 < j ==> #[trigger] t[j2].id != c.id;
    assert forall|j2: int| 0 <= j2 < j implies #[trigger] t.push(x)[j2].id != c.id by {
        assert(t.push(x)[j2] == t[j2]);
    }
    assert(t.push(x)[j] == c);
}

proof fn lemma_total_update(v: Seq<(Card, nat)>, k: int, e: (Card, nat))
    requires
        0 <= k < v.len(),
    ensures
        total_count(v.update(k, e)) + v[k].1 == total_count(v) + e.1,
    decreases v.len(),
{
    let w = v.update(k, e);
    if k == v.len() - 1 {
        assert(w.drop_last() =~= v.drop_last());
    } else {
        assert(w.drop_last() =~= v.drop_last().update(k, e));
        lemma_total_update(v.drop_last(), k, e);
    }
}

proof fn lemma_total_insert(v: Seq<(Card, nat)>, p: int, e: (Card, nat))
    requires
        0 <= p <= v.len(),
    ensures
        total_count(v.insert(p, e)) == total_count(v) + e.1,
    decreases v.len(),
{
    let w = v.insert(p, e);
    if p == v.len() {
        assert(w.drop_last() =~= v);
    } else {
        assert(w.drop_last() =~= v.drop_last().insert(p, e));
        lemma_total_insert(v.drop_last(), p, e);
    }
}

proof fn lemma_aggregate_bump(t: Seq<Card>, x: Card, v: Seq<(Card, nat)>, k: int)
    requires
        is_aggregation(t, v),
        distinct_ids(v),
        0 <= k < v.len(),
        v[k].0.id == x.id,
    ensures
        is_aggregation(t.push(x), v.update(k, (v[k].0, v[k].1 + 1))),
        distinct_ids(v.update(k, (v[k].0, v[k].1 + 1))),
        total_count(v.update(k, (v[k].0, v[k].1 + 1))) == total_count(v) + 1,
{
    let t2 = t.push(x);
    let w = v.update(k, (v[k].0, v[k].1 + 1));
    lemma_total_update(v, k, (v[k].0, v[k].1 + 1));
    assert forall|m: int| 0 <= m < w.len() implies first_of_id(t2, #[trigger] w[m].0) && w[m].1
        == count_id(t2, w[m].0.id) by {
        lemma_count_id_push(t, x, w[m].0.id);
        lemma_first_of_id_push(t, x, v[m].0);
    }
    assert forall|j: int| 0 <= j < t2.len() implies #[trigger] has_entry(w, t2[j].id) by {
        if j < t.len() {
            assert(t2[j] == t[j]);
            assert(has_entry(v, t[j].id));
            let m = choose|m: int| 0 <= m < v.len() && v[m].0.id == t[j].id;
            assert(w[m].0.id == t2[j].id);
        } else {
            assert(w[k].0.id == t2[j].id);
        }
    }
    assert(strictly_sorted(w)) by {
        assert forall|i: int, j: int| 0 <= i < j < w.len() implies entry_lt(
            #[trigger] w[i].0,
            #[trigger] w[j].0,
        ) by {
            assert(entry_lt(v[i].0, v[j].0));
        }
    }
}

proof fn lemma_aggregate_insert(t: Seq<Card>, x: Card, v: Seq<(Card, nat)>, p: int)
    requires
        is_aggregation(t, v),
        distinct_ids(v),
        forall|m: int| 0 <= m < v.len() ==> #[trigger] v[m].0.id != x.id,
        0 <= p <= v.len(),
        forall|m: int| 0 <= m < p ==> entry_lt(#[trigger] v[m].0, x),
        forall|m: int| p <= m < v.len() ==> entry_lt(x, #[trigger] v[m].0),
    ensures
        is_aggregation(t.push(x), v.insert(p, (x, 1nat))),
        distinct_ids(v.insert(p, (x, 1nat))),
        total_count(v.insert(p, (x, 1nat))) == total_count(v) + 1,
{
    let t2 = t.push(x);
    let w = v.insert(p, (x, 1nat));
    lemma_total_insert(v, p, (x, 1nat));
    lemma_count_id_bounds(t, x.id);
    if count_id(t, x.id) > 0 {
        let j = choose|j: int| 0 <= j < t.len() && t[j].id == x.id;
        assert(has_entry(v, t[j].id));
        let m = choose|m: int| 0 <= m < v.len() && v[m].0.id == t[j].id;
        assert(false);
    }
    assert(t2[t.len() as int] == x);
    assert forall|j2: int| 0 <= j2 < t.len() implies #[trigger] t2[j2].id != x.id by {
        assert(t2[j2] == t[j2]);
        assert(has_entry(v, t[j2].id));
    }
    assert(first_of_id(t2, x));
    assert forall|m: int| 0 <= m < w.len() implies first_of_id(t2, #[trigger] w[m].0) && w[m].1
        == count_id(t2, w[m].0.id) by {
        lemma_count_id_push(t, x, w[m].0.id);
        if m < p {
            assert(w[m] == v[m]);
            lemma_first_of_id_push(t, x, v[m].0);
        } else if m > p {
            assert(w[m] == v[m - 1]);
            lemma_first_of_id_push(t, x, v[m - 1].0);
        }
    }
    assert forall|j: int| 0 <= j < t2.len() implies #[trigger] has_entry(w, t2[j].id) by {
        if j < t.len() {
            assert(t2[j] == t[j]);
            assert(has_entry(v, t[j].id));
            let m = choose|m: int| 0 <= m < v.len() && v[m].0.id == t[j].id;
            if m < p {
                assert(w[m].0.id == t2[j].id);
            } else {
                assert(w[m + 1].0.id == t2[j].id);
            }
        } else {
            assert(w[p].0.id == t2[j].id);
        }
    }
    assert forall|i: int, j: int| 0 <= i < w.len() && 0 <= j < w.len() && i != j implies w[i].0.id
        != w[j].0.id by {
        let vi = if i < p { i } else { i - 1 };
        let vj = if j < p { j } else { j - 1 };
        if i != p && j != p {
            assert(w[i] == v[vi] && w[j] == v[vj]);
        } else if i != p {
            assert(w[i] == v[vi]);
        } else {
            assert(w[j] == v[vj]);
        }
    }
    assert(strictly_sorted(w)) by {
        assert forall|i: int, j: int| 0 <= i < j < w.len() implies entry_lt(
            #[trigger] w[i].0,
            #[trigger] w[j].0,
        ) by {
            if j < p {
                assert(entry_lt(v[i].0, v[j].0));
            } else if j == p {
                assert(w[i] == v[i]);
            } else if i < p {
                assert(entry_lt(v[i].0, v[j - 1].0));
            } else if i == p {
                assert(w[j] == v[j - 1]);
            } else {
                assert(entry_lt(v[i - 1].0, v[j - 1].0));
            }
        }
    }
}

proof fn lemma_sorted_unique(va: Seq<(Card, nat)>, vb: Seq<(Card, nat)>)
    requires
        strictly_sorted(va),
        strictly_sorted(vb),
        forall|x: (Card, nat)| va.contains(x) <==> vb.contains(x),
    ensures
        va == vb,
    decreases va.len(),
{
    if va.len() == 0 {
        if vb.len() > 0 {
            assert(vb.contains(vb[0]));
        }
        assert(va =~= vb);
    } else {
        assert(va.contains(va[0]));
        assert(vb.len() > 0);
        assert(vb.contains(vb[0]));
        let ka = choose|k: int| 0 <= k < vb.len() && vb[k] == va[0];
        let kb = choose|k: int| 0 <= k < va.len() && va[k] == vb[0];
        if ka > 0 && kb > 0 {
            assert(entry_lt(vb[0].0, vb[ka].0));
            assert(entry_lt(va[0].0, va[kb].0));
            lemma_entry_lt_laws(va[0].0, vb[0].0, va[0].0);
        } else if ka > 0 {
            assert(entry_lt(vb[0].0, vb[ka].0));
            lemma_entry_lt_laws(va[0].0, va[0].0, va[0].0);
        } else if kb > 0 {
            assert(entry_lt(va[0].0, va[kb].0));
            lemma_entry_lt_laws(vb[0].0, vb[0].0, vb[0].0);
        }
        assert(va[0] == vb[0]);
        let ta = va.drop_first();
        let tb = vb.drop_first();
        assert forall|x: (Card, nat)| ta.contains(x) <==> tb.contains(x) by {
            if ta.contains(x) {
                let i = choose|i: int| 0 <= i < ta.len() && ta[i] == x;
                assert(va[i + 1] == x);
                assert(entry_lt(va[0].0, va[i + 1].0));
                lemma_entry_lt_laws(x.0, x.0, x.0);
                assert(va.contains(x));
                let j = choose|j: int| 0 <= j < vb.len() && vb[j] == x;
                assert(j != 0);
                assert(tb[j - 1] == x);
            }
            if tb.contains(x) {
                let i = choose|i: int| 0 <= i < tb.len() && tb[i] == x;
                assert(vb[i + 1] == x);
                assert(entry_lt(vb[0].0, vb[i + 1].0));
                lemma_entry_lt_laws(x.0, x.0, x.0);
                assert(vb.contains(x));
                let j = choose|j: int| 0 <= j < va.len() && va[j] == x;
                assert(j != 0);
                assert(ta[j - 1] == x);
            }
        }
        lemma_sorted_unique(ta, tb);
        assert(va =~= seq![va[0]] + ta);
        assert(vb =~= seq![vb[0]] + tb);
    }
}

proof fn lemma_aggregation_contained(cards: Seq<Card>, v1: Seq<(Card, nat)>, v2: Seq<(Card, nat)>)
    requires
        is_aggregation(cards, v1),
        is_aggregation(cards, v2),
    ensures
        forall|x: (Card, nat)| v1.contains(x) ==> v2.contains(x),
{
    assert forall|x: (Card, nat)| v1.contains(x) implies v2.contains(x) by {
        let k = choose|k: int| 0 <= k < v1.len() && v1[k] == x;
        assert(first_of_id(cards, v1[k].0));
        let j = choose|j: int|
            0 <= j < cards.len() && cards[j] == x.0 && forall|j2: int| 0 <= j2 < j ==> #[trigger] cards[j2].id != x.0.id;
        assert(has_entry(v2, cards[j].id));
        let m = choose|m: int| 0 <= m < v2.len() && v2[m].0.id == cards[j].id;
        assert(first_of_id(cards, v2[m].0));
        let j3 = choose|j3: int|
            0 <= j3 < cards.len() && cards[j3] == v2[m].0 && forall|j2: int| 0 <= j2 < j3 ==> #[trigger] cards[j2].id != v2[m].0.id;
        if j < j3 {
            assert(cards[j].id != v2[m].0.id);
        } else if j3 < j {
            assert(cards[j3].id != x.0.id);
        }
        assert(v2[m] == x);
    }
}

/// A card list has at most one aggregation.
pub proof fn lemma_aggregation_unique(cards: Seq<Card>, v1: Seq<(Card, nat)>, v2: Seq<(Card, nat)>)
    requires
        is_aggregation(cards, v1),
        is_aggregation(cards, v2),
    ensures
        v1 == v2,
{
    lemma_aggregation_contained(cards, v1, v2);
    lemma_aggregation_contained(cards, v2, v1);
    lemma_sorted_unique(v1, v2);
}

/// The aggregation of a card list.
pub open spec fn aggregation_of(cards: Seq<Card>) -> Seq<(Card, nat)> {
    choose|v: Seq<(Card, nat)>| is_aggregation(cards, v)
}

/// Within `s`, cards that share a catalog id are the same record.
pub open spec fn consistent_ids(s: Seq<Card>) -> bool {
    forall|i: int, j: int|
        0 <= i < s.len() && 0 <= j < s.len() && #[trigger] s[i].id == #[trigger] s[j].id ==> s[i] == s[j]
}

proof fn lemma_first_index(s: Seq<Card>, j: int)
    requires
        0 <= j < s.len(),
    ensures
        exists|j0: int|
            0 <= j0 <= j && s[j0].id == s[j].id && forall|j2: int| 0 <= j2 < j0 ==> #[trigger] s[j2].id != s[j].id,
    decreases j,
{
    if exists|j2: int| 0 <= j2 < j && #[trigger] s[j2].id == s[j].id {
        let j2 = choose|j2: int| 0 <= j2 < j && #[trigger] s[j2].id == s[j].id;
        lemma_first_index(s, j2);
    } else {
        assert(forall|j2: int| 0 <= j2 < j ==> #[trigger] s[j2].id != s[j].id);
    }
}

proof fn lemma_aggregations_agree(
    a: Seq<Card>,
    b: Seq<Card>,
    va: Seq<(Card, nat)>,
    vb: Seq<(Card, nat)>,
)
    requires
        a.to_multiset() == b.to_multiset(),
        consistent_ids(a),
        is_aggregation(a, va),
        is_aggregation(b, vb),
    ensures
        va == vb,
{
    broadcast use vstd::seq_lib::group_to_multiset_ensures;

    assert forall|k: int| 0 <= k < va.len() implies first_of_id(b, #[trigger] va[k].0) && va[k].1
        == count_id(b, va[k].0.id) by {
        let c = va[k].0;
        assert(first_of_id(a, c));
        assert(a.contains(c));
        assert(a.to_multiset().count(c) > 0);
        assert(b.contains(c));
        let jb = choose|jb: int| 0 <= jb < b.len() && b[jb] == c;
        lemma_first_index(b, jb);
        let j0 = choose|j0: int|
            0 <= j0 <= jb && b[j0].id == b[jb].id && forall|j2: int| 0 <= j2 < j0 ==> #[trigger] b[j2].id != b[jb].id;
        assert forall|i2: int| 0 <= i2 < b.len() && #[trigger] b[i2].id == c.id implies b[i2] == c by {
            assert(b.to_multiset().count(b[i2]) > 0);
            assert(a.contains(b[i2]));
            let i3 = choose|i3: int| 0 <= i3 < a.len() && a[i3] == b[i2];
            let i4 = choose|i4: int| 0 <= i4 < a.len() && a[i4] == c;
            assert(a[i3].id == a[i4].id);
        }
        assert(b[j0] == c);
        assert forall|i2: int| 0 <= i2 < a.len() && #[trigger] a[i2].id == c.id implies a[i2] == c by {
            let i4 = choose|i4: int| 0 <= i4 < a.len() && a[i4] == c;
            assert(a[i2].id == a[i4].id);
        }
        lemma_count_id_multiset(a, c);
        lemma_count_id_multiset(b, c);
    }
    assert forall|j: int| 0 <= j < b.len() implies #[trigger] has_entry(va, b[j].id) by {
        assert(b.to_multiset().count(b[j]) > 0);
        assert(a.contains(b[j]));
        let i = choose|i: int| 0 <= i < a.len() && a[i] == b[j];
        assert(has_entry(va, a[i].id));
    }
    assert(is_aggregation(b, va));
    lemma_aggregation_unique(b, va, vb);
}

proof fn lemma_insert_position(v: Seq<(Card, nat)>, x: Card) -> (p: int)
    requires
        strictly_sorted(v),
        forall|m: int| 0 <= m < v.len() ==> #[trigger] v[m].0.id != x.id,
    ensures
        0 <= p <= v.len(),
        forall|m: int| 0 <= m < p ==> entry_lt(#[trigger] v[m].0, x),
        forall|m: int| p <= m < v.len() ==> entry_lt(x, #[trigger] v[m].0),
    decreases v.len(),
{
    if v.len() == 0 {
        0
    } else {
        let n = v.len() - 1;
        let last = v[n].0;
        lemma_entry_lt_laws(last, x, x);
        if entry_lt(last, x) {
            assert forall|m: int| 0 <= m < v.len() implies entry_lt(#[trigger] v[m].0, x) by {
                if m < n {
                    assert(entry_lt(v[m].0, v[n].0));
                    lemma_entry_lt_laws(v[m].0, last, x);
                }
            }
            v.len() as int
        } else {
            let u = v.drop_last();
            assert(strictly_sorted(u)) by {
                assert forall|i: int, j: int| 0 <= i < j < u.len() implies entry_lt(
                    #[trigger] u[i].0,
                    #[trigger] u[j].0,
                ) by {
                    assert(entry_lt(v[i].0, v[j].0));
                }
            }
            assert forall|m: int| 0 <= m < u.len() implies #[trigger] u[m].0.id != x.id by {
                assert(u[m] == v[m]);
            }
            let p = lemma_insert_position(u, x);
            assert forall|m: int| 0 <= m < p implies entry_lt(#[trigger] v[m].0, x) by {
                assert(u[m] == v[m]);
            }
            assert forall|m: int| p <= m < v.len() implies entry_lt(x, #[trigger] v[m].0) by {
                if m < n {
                    assert(u[m] == v[m]);
                }
            }
            p
        }
    }
}

/// Every card list has an aggregation, and its counts add up to the list's length.
proof fn lemma_aggregation_exists(cards: Seq<Card>)
    ensures
        is_aggregation(cards, aggregation_of(cards)),
        distinct_ids(aggregation_of(cards)),
        total_count(aggregation_of(cards)) == cards.len(),
    decreases cards.len(),
{
    if cards.len() == 0 {
        let v = Seq::<(Card, nat)>::empty();
        assert(is_aggregation(cards, v));
        lemma_aggregation_unique(cards, v, aggregation_of(cards));
    } else {
        let t = cards.drop_last();
        let x = cards.last();
        lemma_aggregation_exists(t);
        let v = aggregation_of(t);
        assert(cards =~= t.push(x));
        if has_entry(v, x.id) {
            let k = choose|k: int| 0 <= k < v.len() && v[k].0.id == x.id;
            lemma_aggregate_bump(t, x, v, k);
            let w = v.update(k, (v[k].0, v[k].1 + 1));
            lemma_aggregation_unique(cards, w, aggregation_of(cards));
        } else {
            assert forall|m: int| 0 <= m < v.len() implies #[trigger] v[m].0.id != x.id by {
                if v[m].0.id == x.id {
                    assert(has_entry(v, x.id));
                }
            }
            let p = lemma_insert_position(v, x);
            lemma_aggregate_insert(t, x, v, p);
            let w = v.insert(p, (x, 1nat));
            lemma_aggregation_unique(cards, w, aggregation_of(cards));
        }
    }
}

/// Aggregation counts every card once, and does not depend on the order of its input:
/// the counts of a list's aggregation add up to the list's length, and two lists that
/// hold the same cards, the same number of times each, in any order, have the same
/// aggregation, where cards that share a catalog id are the same record.
pub proof fn lemma_aggregation_law(a: Seq<Card>, b: Seq<Card>)
    requires
        a.to_multiset() == b.to_multiset(),
        consistent_ids(a),
    ensures
        total_count(aggregation_of(a)) == a.len(),
        aggregation_of(a) == aggregation_of(b),
{
    lemma_aggregation_exists(a);
    lemma_aggregation_exists(b);
    lemma_aggregations_agree(a, b, aggregation_of(a), aggregation_of(b));
}

fn precedes(a: &Card, b: &Card) -> (r: bool)
    ensures
        r == entry_lt(*a, *b),
{
    reveal(entry_lt);
    match a.compare(b) {
        Ordering::Less => true,
        Ordering::Equal => a.id < b.id,
        Ordering::Greater => false,
    }
}

fn find_id(r: &Vec<(&Card, usize)>, id: usize) -> (k: usize)
    ensures
        k <= r.len(),
        k < r.len() ==> r@[k as int].0.id == id,
        forall|m: int| 0 <= m < k ==> #[trigger] r@[m].0.id != id,
{
    let mut k: usize = 0;
    while k < r.len()
        invariant
            k <= r.len(),
            forall|m: int| 0 <= m < k ==> #[trigger] r@[m].0.id != id,
        decreases r.len() - k,
    {
        if r[k].0.id == id {
            return k;
        }
        k += 1;
    }
    k
}

fn insert_position(r: &Vec<(&Card, usize)>, x: &Card) -> (p: usize)
    ensures
        p <= r.len(),
        forall|m: int| 0 <= m < p ==> !entry_lt(*x, *(#[trigger] r@[m]).0),
        p < r.len() ==> entry_lt(*x, *r@[p as int].0),
{
    let mut p: usize = 0;
    while p < r.len()
        invariant
            p <= r.len(),
            forall|m: int| 0 <= m < p ==> !entry_lt(*x, *(#[trigger] r@[m]).0),
        decreases r.len() - p,
    {
        if precedes(x, r[p].0) {
            return p;
        }
        p += 1;
    }
    p
}

/// Groups cards by catalog id into (card, count) entries listed in display order,
/// ties broken by id. The counts add up to the number of cards.
pub fn aggregate<'a>(cards: &'a Vec<Card>) -> (r: Vec<(&'a Card, usize)>)
    ensures
        is_aggregation(cards@, counted(r@)),
        counted(r@) == aggregation_of(cards@),
        total_count(counted(r@)) == cards@.len(),
{
    let mut r: Vec<(&'a Card, usize)> = Vec::new();
    let mut i: usize = 0;
    assert(counted(r@) =~= Seq::empty());
    while i < cards.len()
        invariant
            i <= cards.len(),
            is_aggregation(cards@.take(i as int), counted(r@)),
            distinct_ids(counted(r@)),
            total_count(counted(r@)) == i,
        decreases cards.len() - i,
    {
        let x = &cards[i];
        let ghost t = cards@.take(i as int);
        let ghost v = counted(r@);
        proof {
            assert(cards@.take(i + 1) =~= t.push(*x));
        }
        let k = find_id(&r, x.id);
        if k < r.len() {
            let (card, n) = r[k];
            proof {
                lemma_aggregate_bump(t, *x, v, k as int);
                lemma_count_id_bounds(t, x.id);
            }
            r.set(k, (card, n + 1));
            assert(counted(r@) =~= v.update(k as int, (v[k as int].0, v[k as int].1 + 1)));
        } else {
            let p = insert_position(&r, x);
            proof {
                assert forall|m: int| 0 <= m < p implies entry_lt(#[trigger] v[m].0, *x) by {
                    lemma_entry_lt_laws(v[m].0, *x, *x);
                }
                assert forall|m: int| p <= m < v.len() implies entry_lt(*x, #[trigger] v[m].0) by {
                    if m > p {
                        lemma_entry_lt_laws(*x, v[p as int].0, v[m].0);
                    }
                }
                lemma_aggregate_insert(t, *x, v, p as int);
            }
            r.insert(p, (x, 1));
            assert(counted(r@) =~= v.insert(p as int, (*x, 1nat)));
        }
        i += 1;
    }
    assert(cards@.take(cards.len() as int) =~= cards@);
    proof {
        lemma_aggregation_unique(cards@, counted(r@), aggregation_of(cards@));
    }
    r
}

} // verus!
