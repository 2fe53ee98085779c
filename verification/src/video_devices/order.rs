//! Facts about moving one element of a sequence towards the front, and the
//! lexicographic order on byte strings. Both sorts of the device model rest
//! on them.

use vstd::prelude::*;
use vstd::seq_lib::*;

verus! {

/// The sequence `s` after the element at `from` has been taken out and put
/// back at `to`.
pub open spec fn moved<T>(s: Seq<T>, from: int, to: int) -> Seq<T> {
    s.remove(from).insert(to, s[from])
}

/// Moving an element towards the front shifts the elements it passes by one
/// place, leaves all others where they were, and keeps the multiset.
pub proof fn lemma_moved_elements<T>(s: Seq<T>, from: int, to: int)
    requires
        0 <= to <= from < s.len(),
    ensures
        moved(s, from, to).len() == s.len(),
        forall|j: int| 0 <= j < to ==> #[trigger] moved(s, from, to)[j] == s[j],
        moved(s, from, to)[to] == s[from],
        forall|j: int| to < j <= from ==> #[trigger] moved(s, from, to)[j] == s[j - 1],
        forall|j: int| from < j < s.len() ==> #[trigger] moved(s, from, to)[j] == s[j],
        moved(s, from, to).to_multiset() == s.to_multiset(),
{
    let r = s.remove(from);
    s.remove_ensures(from);
    r.insert_ensures(to, s[from]);
    to_multiset_remove(s, from);
    to_multiset_insert(r, to, s[from]);
    s.to_multiset_ensures();
    assert(s.to_multiset().remove(s[from]).insert(s[from]) =~= s.to_multiset());
    assert forall|j: int| to < j <= from implies #[trigger] moved(s, from, to)[j] == s[j - 1] by {
        assert(r.insert(to, s[from])[(j - 1) + 1] == r[j - 1]);
    }
    assert forall|j: int| from < j < s.len() implies #[trigger] moved(s, from, to)[j] == s[j] by {
        assert(r.insert(to, s[from])[(j - 1) + 1] == r[j - 1]);
    }
}

/// Moving an element towards the front keeps the subsequence selected by
/// `pred`, provided that the moved element, if selected, passes no selected
/// element.
pub proof fn lemma_moved_filter<T>(s: Seq<T>, from: int, to: int, pred: spec_fn(T) -> bool)
    requires
        0 <= to <= from < s.len(),
        pred(s[from]) ==> forall|j: int| to <= j < from ==> !pred(#[trigger] s[j]),
    ensures
        moved(s, from, to).filter(pred) == s.filter(pred),
{
    let head = s.subrange(0, to);
    let passed = s.subrange(to, from);
    let one = seq![s[from]];
    let tail = s.subrange(from + 1, s.len() as int);
    assert(s =~= ((head + passed) + one) + tail);
    assert(moved(s, from, to) =~= ((head + one) + passed) + tail);
    Seq::filter_distributes_over_add((head + passed) + one, tail, pred);
    Seq::filter_distributes_over_add(head + passed, one, pred);
    Seq::filter_distributes_over_add(head, passed, pred);
    Seq::filter_distributes_over_add((head + one) + passed, tail, pred);
    Seq::filter_distributes_over_add(head + one, passed, pred);
    Seq::filter_distributes_over_add(head, one, pred);
    if pred(s[from]) {
        assert(passed.all(|x: T| !pred(x))) by {
            assert forall|j: int| 0 <= j < passed.len() implies !pred(#[trigger] passed[j]) by {
                assert(passed[j] == s[to + j]);
            }
        }
        passed.lemma_all_neg_filter_empty(pred);
        assert(passed.filter(pred) =~= Seq::<T>::empty());
        assert(s.filter(pred) =~= moved(s, from, to).filter(pred));
    } else {
        assert(one.all(|x: T| !pred(x)));
        one.lemma_all_neg_filter_empty(pred);
        assert(one.filter(pred) =~= Seq::<T>::empty());
        assert(s.filter(pred) =~= moved(s, from, to).filter(pred));
    }
}

/// Every element of a sequence stands in each sequence with the same
/// multiset.
pub proof fn lemma_permutation_has_source<T>(before: Seq<T>, after: Seq<T>, i: int) -> (j: int)
    requires
        after.to_multiset() == before.to_multiset(),
        0 <= i < after.len(),
    ensures
        0 <= j < before.len(),
        before[j] == after[i],
{
    before.to_multiset_ensures();
    after.to_multiset_ensures();
    assert(after.contains(after[i]));
    assert(after.to_multiset().count(after[i]) > 0);
    assert(before.to_multiset().count(after[i]) > 0);
    assert(before.contains(after[i]));
    choose|j: int| 0 <= j < before.len() && before[j] == after[i]
}

/// Sequences with the same multiset are of the same length.
pub proof fn lemma_permutation_len<T>(before: Seq<T>, after: Seq<T>)
    requires
        after.to_multiset() == before.to_multiset(),
    ensures
        after.len() == before.len(),
{
    before.to_multiset_ensures();
    after.to_multiset_ensures();
}

/// Where the elements of a sequence differ in their keys, so do the elements
/// of each sequence with the same multiset.
pub proof fn lemma_permutation_keeps_keys_distinct<T, K>(
    before: Seq<T>,
    after: Seq<T>,
    key: spec_fn(T) -> K,
)
    requires
        after.to_multiset() == before.to_multiset(),
        before.map_values(key).no_duplicates(),
    ensures
        after.map_values(key).no_duplicates(),
{
    assert(before.no_duplicates()) by {
        assert forall|i: int, j: int|
            0 <= i < before.len() && 0 <= j < before.len() && i != j implies before[i]
            != before[j] by {
            assert(before.map_values(key)[i] != before.map_values(key)[j]);
        }
    }
    before.lemma_multiset_has_no_duplicates();
    after.lemma_multiset_has_no_duplicates_conv();
    let keys = after.map_values(key);
    assert forall|i: int, j: int| 0 <= i < keys.len() && 0 <= j < keys.len() && i != j implies keys[i]
        != keys[j] by {
        let a = lemma_permutation_has_source(before, after, i);
        let b = lemma_permutation_has_source(before, after, j);
        assert(after[i] != after[j]);
        assert(before.map_values(key)[a] != before.map_values(key)[b]);
    }
}

/// Lexicographic order on byte strings: `a` comes no later than `b` when `a`
/// is a prefix of `b`, or when at the first place where they differ `a` has
/// the smaller byte.
pub open spec fn lex_le(a: Seq<u8>, b: Seq<u8>) -> bool {
    exists|k: int| lex_le_at(a, b, k)
}

/// `a` and `b` agree on their first `k` bytes, and there `a` ends or has the
/// smaller byte.
pub open spec fn lex_le_at(a: Seq<u8>, b: Seq<u8>, k: int) -> bool {
    &&& 0 <= k <= a.len()
    &&& k <= b.len()
    &&& a.subrange(0, k) == b.subrange(0, k)
    &&& (k == a.len() || (k < b.len() && a[k] < b[k]))
}

/// Every byte string comes no later than itself.
pub proof fn lemma_lex_le_reflexive(a: Seq<u8>)
    ensures
        lex_le(a, a),
{
    assert(lex_le_at(a, a, a.len() as int));
}

proof fn lemma_lex_le_total_from(a: Seq<u8>, b: Seq<u8>, k: int)
    requires
        0 <= k <= a.len(),
        k <= b.len(),
        a.subrange(0, k) == b.subrange(0, k),
    ensures
        lex_le(a, b) || lex_le(b, a),
    decreases a.len() - k,
{
    if k == a.len() {
        assert(lex_le_at(a, b, k));
    } else if k == b.len() {
        assert(lex_le_at(b, a, k));
    } else if a[k] < b[k] {
        assert(lex_le_at(a, b, k));
    } else if b[k] < a[k] {
        assert(lex_le_at(b, a, k));
    } else {
        assert(a.subrange(0, k + 1) =~= a.subrange(0, k).push(a[k]));
        assert(b.subrange(0, k + 1) =~= b.subrange(0, k).push(b[k]));
        lemma_lex_le_total_from(a, b, k + 1);
    }
}

/// Of two byte strings, one comes no later than the other.
pub proof fn lemma_lex_le_total(a: Seq<u8>, b: Seq<u8>)
    ensures
        lex_le(a, b) || lex_le(b, a),
{
    assert(a.subrange(0, 0) =~= b.subrange(0, 0));
    lemma_lex_le_total_from(a, b, 0);
}

/// The order is transitive.
pub proof fn lemma_lex_le_transitive(a: Seq<u8>, b: Seq<u8>, c: Seq<u8>)
    requires
        lex_le(a, b),
        lex_le(b, c),
    ensures
        lex_le(a, c),
{
    let k1 = choose|k: int| lex_le_at(a, b, k);
    let k2 = choose|k: int| lex_le_at(b, c, k);
    let k = if k1 <= k2 { k1 } else { k2 };
    assert(a.subrange(0, k) =~= c.subrange(0, k)) by {
        assert forall|j: int| 0 <= j < k implies a[j] == c[j] by {
            assert(a.subrange(0, k1)[j] == b.subrange(0, k1)[j]);
            assert(b.subrange(0, k2)[j] == c.subrange(0, k2)[j]);
        }
    }
    if k2 < k1 {
        assert(a.subrange(0, k1)[k2] == b.subrange(0, k1)[k2]);
    } else if k1 < k2 {
        if k1 < a.len() {
            assert(b.subrange(0, k2)[k1] == c.subrange(0, k2)[k1]);
        }
    }
    assert(lex_le_at(a, c, k));
}

/// Two byte strings that each come no later than the other are equal.
pub proof fn lemma_lex_le_antisymmetric(a: Seq<u8>, b: Seq<u8>)
    requires
        lex_le(a, b),
        lex_le(b, a),
    ensures
        a == b,
{
    let k1 = choose|k: int| lex_le_at(a, b, k);
    let k2 = choose|k: int| lex_le_at(b, a, k);
    if k1 < k2 {
        assert(b.subrange(0, k2)[k1] == a.subrange(0, k2)[k1]);
    } else if k2 < k1 {
        assert(a.subrange(0, k1)[k2] == b.subrange(0, k1)[k2]);
    }
    assert(a =~= a.subrange(0, k1));
    assert(b =~= b.subrange(0, k1));
}

/// Decides the lexicographic order of two byte strings.
pub fn bytes_le(a: &[u8], b: &[u8]) -> (r: bool)
    ensures
        r == lex_le(a@, b@),
{
    let mut i: usize = 0;
    while i < a.len() && i < b.len()
        invariant
            i <= a.len(),
            i <= b.len(),
            a@.subrange(0, i as int) == b@.subrange(0, i as int),
        decreases a.len() - i,
    {
        if a[i] != b[i] {
            let r = a[i] < b[i];
            proof {
                if r {
                    assert(lex_le_at(a@, b@, i as int));
                } else {
                    assert(lex_le_at(b@, a@, i as int));
                    if lex_le(a@, b@) {
                        lemma_lex_le_antisymmetric(a@, b@);
                    }
                }
            }
            return r;
        }
        proof {
            assert(a@.subrange(0, i + 1) =~= a@.subrange(0, i as int).push(a@[i as int]));
            assert(b@.subrange(0, i + 1) =~= b@.subrange(0, i as int).push(b@[i as int]));
        }
        i += 1;
    }
    let r = a.len() <= b.len();
    proof {
        if r {
            assert(lex_le_at(a@, b@, i as int));
        } else {
            assert(lex_le_at(b@, a@, i as int));
            if lex_le(a@, b@) {
                lemma_lex_le_antisymmetric(a@, b@);
            }
        }
    }
    r
}

} // verus!
