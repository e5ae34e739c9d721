//! Deterministic ordering of query results.
//!
//! `sort_ordered` is the specification of every ordered listing the
//! store answers: elements are taken in append order and each is placed
//! in front of the first already-placed element it comes before. With a
//! strict "comes before" relation this is a stable insertion sort, so a
//! listing is pinned down exactly, ties included.

use vstd::prelude::*;
use vstd::string::StrSliceExecFns;

verus! {

/// `x` placed in front of the first element of `s` it comes before
/// (`s` is expected to be already ordered by `bef`).
pub open spec fn insert_ordered<T>(s: Seq<T>, x: T, bef: spec_fn(T, T) -> bool) -> Seq<T>
    decreases s.len(),
{
    if s.len() == 0 {
        seq![x]
    } else if bef(x, s[0]) {
        seq![x] + s
    } else {
        seq![s[0]] + insert_ordered(s.drop_first(), x, bef)
    }
}

/// The elements of `s`, placed one after another in append order: a
/// stable insertion sort by `bef`.
pub open spec fn sort_ordered<T>(s: Seq<T>, bef: spec_fn(T, T) -> bool) -> Seq<T>
    decreases s.len(),
{
    if s.len() == 0 {
        Seq::empty()
    } else {
        insert_ordered(sort_ordered(s.drop_last(), bef), s.last(), bef)
    }
}

/// Placing one element grows the sequence by exactly one.
pub proof fn lemma_insert_ordered_len<T>(s: Seq<T>, x: T, bef: spec_fn(T, T) -> bool)
    ensures
        insert_ordered(s, x, bef).len() == s.len() + 1,
    decreases s.len(),
{
    if s.len() == 0 {
    } else if bef(x, s[0]) {
    } else {
        lemma_insert_ordered_len(s.drop_first(), x, bef);
    }
}

/// Sorting keeps the length.
pub proof fn lemma_sort_ordered_len<T>(s: Seq<T>, bef: spec_fn(T, T) -> bool)
    ensures
        sort_ordered(s, bef).len() == s.len(),
    decreases s.len(),
{
    if s.len() == 0 {
    } else {
        lemma_sort_ordered_len(s.drop_last(), bef);
        lemma_insert_ordered_len(sort_ordered(s.drop_last(), bef), s.last(), bef);
    }
}

/// Placing `x` at the first position `p` whose element `x` comes before
/// is exactly what `insert_ordered` does.
pub proof fn lemma_insert_ordered_at<T>(s: Seq<T>, x: T, bef: spec_fn(T, T) -> bool, p: int)
    requires
        0 <= p <= s.len(),
        forall|j: int| 0 <= j < p ==> !bef(x, #[trigger] s[j]),
        p < s.len() ==> bef(x, s[p]),
    ensures
        insert_ordered(s, x, bef) == s.take(p) + seq![x] + s.skip(p),
    decreases s.len(),
{
    if s.len() == 0 {
        assert(insert_ordered(s, x, bef) =~= s.take(0) + seq![x] + s.skip(0));
    } else if p == 0 {
        assert(insert_ordered(s, x, bef) == seq![x] + s);
        assert(s.take(0) + seq![x] + s.skip(0) =~= seq![x] + s);
    } else {
        assert(!bef(x, s[0]));
        let sub = s.drop_first();
        assert forall|j: int| 0 <= j < p - 1 implies !bef(x, #[trigger] sub[j]) by {
            assert(sub[j] == s[j + 1]);
        }
        if p - 1 < sub.len() {
            assert(sub[p - 1] == s[p]);
        }
        lemma_insert_ordered_at(sub, x, bef, p - 1);
        assert(seq![s[0]] + (sub.take(p - 1) + seq![x] + sub.skip(p - 1)) =~= s.take(p) + seq![x]
            + s.skip(p));
    }
}

/// Everything `insert_ordered` places came from `s` or is `x`.
pub proof fn lemma_insert_ordered_membership<T>(s: Seq<T>, x: T, bef: spec_fn(T, T) -> bool)
    ensures
        forall|k: int|
            0 <= k < insert_ordered(s, x, bef).len() ==> (s.contains(
                #[trigger] insert_ordered(s, x, bef)[k],
            ) || insert_ordered(s, x, bef)[k] == x),
    decreases s.len(),
{
    let out = insert_ordered(s, x, bef);
    if s.len() == 0 {
    } else if bef(x, s[0]) {
        assert forall|k: int| 0 <= k < out.len() implies (s.contains(#[trigger] out[k]) || out[k]
            == x) by {
            if k > 0 {
                assert(out[k] == s[k - 1]);
            }
        }
    } else {
        let sub = s.drop_first();
        lemma_insert_ordered_membership(sub, x, bef);
        assert forall|k: int| 0 <= k < out.len() implies (s.contains(#[trigger] out[k]) || out[k]
            == x) by {
            if k == 0 {
                assert(out[0] == s[0]);
                assert(s.contains(s[0]));
            } else {
                let inner = insert_ordered(sub, x, bef);
                assert(out[k] == inner[k - 1]);
                if inner[k - 1] != x {
                    assert(sub.contains(inner[k - 1]));
                    let w = choose|w: int| 0 <= w < sub.len() && sub[w] == inner[k - 1];
                    assert(s[w + 1] == sub[w]);
                    assert(s.contains(s[w + 1]));
                }
            }
        }
    }
}

/// Everything `sort_ordered` yields came from `s`.
pub proof fn lemma_sort_ordered_membership<T>(s: Seq<T>, bef: spec_fn(T, T) -> bool)
    ensures
        forall|k: int|
            0 <= k < sort_ordered(s, bef).len() ==> s.contains(#[trigger] sort_ordered(s, bef)[k]),
    decreases s.len(),
{
    let out = sort_ordered(s, bef);
    if s.len() == 0 {
    } else {
        let sub = s.drop_last();
        let inner = sort_ordered(sub, bef);
        lemma_sort_ordered_membership(sub, bef);
        lemma_insert_ordered_membership(inner, s.last(), bef);
        assert forall|k: int| 0 <= k < out.len() implies s.contains(#[trigger] out[k]) by {
            if out[k] == s.last() {
                assert(s.contains(s[s.len() - 1]));
            } else {
                assert(inner.contains(out[k]));
                let w = choose|w: int| 0 <= w < inner.len() && inner[w] == out[k];
                assert(sub.contains(inner[w]));
                let v = choose|v: int| 0 <= v < sub.len() && sub[v] == inner[w];
                assert(s[v] == sub[v]);
                assert(s.contains(s[v]));
            }
        }
    }
}

/// An element that comes before everything already placed goes to the
/// front.
pub proof fn lemma_insert_ordered_front<T>(s: Seq<T>, x: T, bef: spec_fn(T, T) -> bool)
    requires
        forall|k: int| 0 <= k < s.len() ==> bef(x, #[trigger] s[k]),
    ensures
        insert_ordered(s, x, bef) == seq![x] + s,
{
    if s.len() == 0 {
        assert(insert_ordered(s, x, bef) =~= seq![x] + s);
    }
}

/// An element appended last that comes before every earlier element
/// heads the sorted listing.
pub proof fn lemma_sort_ordered_newest_first<T>(s: Seq<T>, bef: spec_fn(T, T) -> bool)
    requires
        s.len() > 0,
        forall|k: int| 0 <= k < s.len() - 1 ==> bef(s.last(), #[trigger] s[k]),
    ensures
        sort_ordered(s, bef) == seq![s.last()] + sort_ordered(s.drop_last(), bef),
        sort_ordered(s, bef)[0] == s.last(),
{
    let sub = s.drop_last();
    let inner = sort_ordered(sub, bef);
    lemma_sort_ordered_membership(sub, bef);
    assert forall|k: int| 0 <= k < inner.len() implies bef(s.last(), #[trigger] inner[k]) by {
        assert(sub.contains(inner[k]));
        let w = choose|w: int| 0 <= w < sub.len() && sub[w] == inner[k];
        assert(bef(s.last(), s[w]));
        assert(s[w] == sub[w]);
    }
    lemma_insert_ordered_front(inner, s.last(), bef);
    assert((seq![s.last()] + inner)[0] == s.last());
}

/// No element of an ordered listing comes before an earlier one.
pub open spec fn ordered_by<T>(s: Seq<T>, bef: spec_fn(T, T) -> bool) -> bool {
    forall|i: int, j: int| #![trigger s[i], s[j]] 0 <= i < j < s.len() ==> !bef(s[j], s[i])
}

/// Placing one element adds exactly it to the bag of elements.
pub proof fn lemma_insert_ordered_multiset<T>(s: Seq<T>, x: T, bef: spec_fn(T, T) -> bool)
    ensures
        insert_ordered(s, x, bef).to_multiset() == s.to_multiset().insert(x),
    decreases s.len(),
{
    broadcast use vstd::seq_lib::group_to_multiset_ensures;

    if s.len() == 0 {
        assert(seq![x] =~= s.push(x));
    } else if bef(x, s[0]) {
        vstd::seq_lib::lemma_multiset_commutative(seq![x], s);
        assert(seq![x] =~= Seq::<T>::empty().push(x));
        assert(seq![x].to_multiset() =~= Seq::<T>::empty().to_multiset().insert(x));
        assert(seq![x].to_multiset().add(s.to_multiset()) =~= s.to_multiset().insert(x));
    } else {
        let sub = s.drop_first();
        let inner = insert_ordered(sub, x, bef);
        lemma_insert_ordered_multiset(sub, x, bef);
        vstd::seq_lib::lemma_multiset_commutative(seq![s[0]], inner);
        vstd::seq_lib::lemma_multiset_commutative(seq![s[0]], sub);
        assert(s =~= seq![s[0]] + sub);
        assert(seq![s[0]].to_multiset().add(sub.to_multiset().insert(x)) =~= (seq![s[0]]
            + sub).to_multiset().insert(x));
    }
}

/// Law: an ordered listing holds exactly the elements it was built
/// from, multiplicities included.
pub proof fn lemma_sort_ordered_permutes<T>(s: Seq<T>, bef: spec_fn(T, T) -> bool)
    ensures
        sort_ordered(s, bef).to_multiset() == s.to_multiset(),
    decreases s.len(),
{
    broadcast use vstd::seq_lib::group_to_multiset_ensures;

    if s.len() == 0 {
    } else {
        let sub = s.drop_last();
        lemma_sort_ordered_permutes(sub, bef);
        lemma_insert_ordered_multiset(sort_ordered(sub, bef), s.last(), bef);
        assert(s =~= sub.push(s.last()));
    }
}

/// Placing an element into an ordered listing keeps it ordered, for a
/// transitive and asymmetric "comes before".
proof fn lemma_insert_ordered_keeps_order<T>(s: Seq<T>, x: T, bef: spec_fn(T, T) -> bool)
    requires
        ordered_by(s, bef),
        forall|a: T, b: T, c: T| #![trigger bef(a, b), bef(b, c)] bef(a, b) && bef(b, c) ==> bef(a, c),
        forall|a: T, b: T| #![trigger bef(a, b), bef(b, a)] bef(a, b) ==> !bef(b, a),
    ensures
        ordered_by(insert_ordered(s, x, bef), bef),
    decreases s.len(),
{
    let out = insert_ordered(s, x, bef);
    if s.len() == 0 {
    } else if bef(x, s[0]) {
        assert forall|i: int, j: int| 0 <= i < j < out.len() implies !bef(
            #[trigger] out[j],
            #[trigger] out[i],
        ) by {
            if i == 0 {
                assert(out[0] == x);
                assert(out[j] == s[j - 1]);
                if bef(s[j - 1], x) {
                    assert(bef(s[j - 1], s[0]));
                    if j > 1 {
                        assert(!bef(s[j - 1], s[0]));
                    } else {
                        assert(!bef(s[0], x));
                    }
                }
            } else {
                assert(out[i] == s[i - 1]);
                assert(out[j] == s[j - 1]);
            }
        }
    } else {
        let sub = s.drop_first();
        assert forall|i: int, j: int| 0 <= i < j < sub.len() implies !bef(
            #[trigger] sub[j],
            #[trigger] sub[i],
        ) by {
            assert(sub[i] == s[i + 1]);
            assert(sub[j] == s[j + 1]);
        }
        lemma_insert_ordered_keeps_order(sub, x, bef);
        lemma_insert_ordered_membership(sub, x, bef);
        let inner = insert_ordered(sub, x, bef);
        assert forall|i: int, j: int| 0 <= i < j < out.len() implies !bef(
            #[trigger] out[j],
            #[trigger] out[i],
        ) by {
            if i == 0 {
                assert(out[0] == s[0]);
                assert(out[j] == inner[j - 1]);
                if inner[j - 1] == x {
                    assert(!bef(x, s[0]));
                } else {
                    assert(sub.contains(inner[j - 1]));
                    let w = choose|w: int| 0 <= w < sub.len() && sub[w] == inner[j - 1];
                    assert(sub[w] == s[w + 1]);
                    assert(!bef(s[w + 1], s[0]));
                }
            } else {
                assert(out[i] == inner[i - 1]);
                assert(out[j] == inner[j - 1]);
            }
        }
    }
}

/// Law: a listing built by `sort_ordered` is ordered, for a transitive
/// and asymmetric "comes before".
pub proof fn lemma_sort_ordered_is_ordered<T>(s: Seq<T>, bef: spec_fn(T, T) -> bool)
    requires
        forall|a: T, b: T, c: T| #![trigger bef(a, b), bef(b, c)] bef(a, b) && bef(b, c) ==> bef(a, c),
        forall|a: T, b: T| #![trigger bef(a, b), bef(b, a)] bef(a, b) ==> !bef(b, a),
    ensures
        ordered_by(sort_ordered(s, bef), bef),
    decreases s.len(),
{
    if s.len() == 0 {
    } else {
        lemma_sort_ordered_is_ordered(s.drop_last(), bef);
        lemma_insert_ordered_keeps_order(sort_ordered(s.drop_last(), bef), s.last(), bef);
    }
}

/// Every element of a filtered sequence comes from the sequence and
/// satisfies the predicate.
pub proof fn lemma_filter_element<T>(s: Seq<T>, pred: spec_fn(T) -> bool, k: int)
    requires
        0 <= k < s.filter(pred).len(),
    ensures
        s.contains(s.filter(pred)[k]),
        pred(s.filter(pred)[k]),
    decreases s.len(),
{
    reveal(Seq::filter);
    if s.len() == 0 {
    } else {
        let sub = s.drop_last();
        if pred(s.last()) {
            if k < s.filter(pred).len() - 1 {
                assert(s.filter(pred)[k] == sub.filter(pred)[k]);
                lemma_filter_element(sub, pred, k);
                let w = choose|w: int| 0 <= w < sub.len() && sub[w] == sub.filter(pred)[k];
                assert(s[w] == sub[w]);
                assert(s.contains(s[w]));
            } else {
                assert(s.filter(pred)[k] == s.last());
                assert(s.contains(s[s.len() - 1]));
            }
        } else {
            assert(s.filter(pred) == sub.filter(pred));
            lemma_filter_element(sub, pred, k);
            let w = choose|w: int| 0 <= w < sub.len() && sub[w] == sub.filter(pred)[k];
            assert(s[w] == sub[w]);
            assert(s.contains(s[w]));
        }
    }
}

/// Strict lexicographic order on character sequences, by code point;
/// for valid text this coincides with byte order of its encoding.
pub open spec fn lex_lt(a: Seq<char>, b: Seq<char>) -> bool
    decreases a.len(),
{
    if b.len() == 0 {
        false
    } else if a.len() == 0 {
        true
    } else if (a[0] as u32) < (b[0] as u32) {
        true
    } else if (b[0] as u32) < (a[0] as u32) {
        false
    } else {
        lex_lt(a.drop_first(), b.drop_first())
    }
}

/// Lexicographic order is asymmetric.
pub proof fn lemma_lex_lt_asymmetric(a: Seq<char>, b: Seq<char>)
    requires
        lex_lt(a, b),
    ensures
        !lex_lt(b, a),
    decreases a.len(),
{
    if b.len() == 0 {
    } else if a.len() == 0 {
    } else if (a[0] as u32) < (b[0] as u32) {
    } else if (b[0] as u32) < (a[0] as u32) {
    } else {
        lemma_lex_lt_asymmetric(a.drop_first(), b.drop_first());
    }
}

/// Lexicographic order is transitive.
pub proof fn lemma_lex_lt_transitive(a: Seq<char>, b: Seq<char>, c: Seq<char>)
    requires
        lex_lt(a, b),
        lex_lt(b, c),
    ensures
        lex_lt(a, c),
    decreases a.len(),
{
    if c.len() == 0 {
    } else if a.len() == 0 {
    } else {
        assert(b.len() > 0);
        if (a[0] as u32) == (b[0] as u32) && (b[0] as u32) == (c[0] as u32) {
            lemma_lex_lt_transitive(a.drop_first(), b.drop_first(), c.drop_first());
        }
    }
}

/// Lexicographic comparison of the tails of `a` and `b` from position
/// `i` on.
fn str_lex_lt_from(a: &str, b: &str, i: usize) -> (r: bool)
    requires
        i <= a@.len(),
        i <= b@.len(),
    ensures
        r == lex_lt(a@.skip(i as int), b@.skip(i as int)),
    decreases a@.len() - i,
{
    if i == b.unicode_len() {
        false
    } else if i == a.unicode_len() {
        true
    } else {
        let ca = a.get_char(i);
        let cb = b.get_char(i);
        proof {
            assert(a@.skip(i as int)[0] == a@[i as int]);
            assert(b@.skip(i as int)[0] == b@[i as int]);
        }
        if (ca as u32) < (cb as u32) {
            true
        } else if (cb as u32) < (ca as u32) {
            false
        } else {
            let r = str_lex_lt_from(a, b, i + 1);
            proof {
                assert(a@.skip(i as int).drop_first() =~= a@.skip(i + 1 as int));
                assert(b@.skip(i as int).drop_first() =~= b@.skip(i + 1 as int));
            }
            r
        }
    }
}

/// Whether `a` comes strictly before `b` in lexicographic order.
pub fn str_lex_lt(a: &String, b: &String) -> (r: bool)
    ensures
        r == lex_lt(a@, b@),
{
    let r = str_lex_lt_from(a.as_str(), b.as_str(), 0);
    proof {
        assert(a@.skip(0) =~= a@);
        assert(b@.skip(0) =~= b@);
    }
    r
}

} // verus!
