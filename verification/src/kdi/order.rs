//! Deterministic ordering: sort keys and a stable sort over keyed records.
use crate::kdi::text::{
    lemma_lex_le_antisymmetric, lemma_lex_le_reflexive, lemma_lex_le_total, lemma_lex_le_transitive,
    lex_le, str_eq, str_le,
};
use vstd::prelude::*;
use vstd::multiset::{
    group_multiset_axioms, lemma_insert_increases_count_by_1, lemma_insert_other_elements_unchanged,
    lemma_multiset_empty_len, Multiset,
};
use vstd::seq_lib::{
    lemma_multiset_commutative, to_multiset_build, to_multiset_contains, to_multiset_len,
};

verus! {

/// The key by which records of one kind are ordered: two texts, then a
/// number, compared in that order.
pub struct SortKey {
    pub primary: Seq<char>,
    pub secondary: Seq<char>,
    pub rank: nat,
}

/// The key of a record that is ordered by one text alone.
pub open spec fn text_key(t: Seq<char>) -> SortKey {
    SortKey { primary: t, secondary: Seq::<char>::empty(), rank: 0 }
}

/// The key of a record that is ordered by two texts.
pub open spec fn pair_key(first: Seq<char>, second: Seq<char>) -> SortKey {
    SortKey { primary: first, secondary: second, rank: 0 }
}

/// The key of a record that is ordered by a text, then by a number.
pub open spec fn ranked_key(t: Seq<char>, rank: nat) -> SortKey {
    SortKey { primary: t, secondary: Seq::<char>::empty(), rank }
}

/// `a <= b`: by the first text, then by the second, then by the number.
pub open spec fn key_le(a: SortKey, b: SortKey) -> bool {
    if a.primary != b.primary {
        lex_le(a.primary, b.primary)
    } else if a.secondary != b.secondary {
        lex_le(a.secondary, b.secondary)
    } else {
        a.rank <= b.rank
    }
}

/// Every key is comparable with itself.
pub proof fn lemma_key_le_reflexive(a: SortKey)
    ensures
        key_le(a, a),
{
}

/// Any two keys are comparable.
pub proof fn lemma_key_le_total(a: SortKey, b: SortKey)
    ensures
        key_le(a, b) || key_le(b, a),
{
    lemma_lex_le_total(a.primary, b.primary);
    lemma_lex_le_total(a.secondary, b.secondary);
}

/// Two keys that precede each other are the same key.
pub proof fn lemma_key_le_antisymmetric(a: SortKey, b: SortKey)
    requires
        key_le(a, b),
        key_le(b, a),
    ensures
        a == b,
{
    if a.primary != b.primary {
        lemma_lex_le_antisymmetric(a.primary, b.primary);
    } else if a.secondary != b.secondary {
        lemma_lex_le_antisymmetric(a.secondary, b.secondary);
    }
}

/// The order of keys is transitive.
pub proof fn lemma_key_le_transitive(a: SortKey, b: SortKey, c: SortKey)
    requires
        key_le(a, b),
        key_le(b, c),
    ensures
        key_le(a, c),
{
    lemma_lex_le_reflexive(a.primary);
    lemma_lex_le_reflexive(a.secondary);
    lemma_lex_le_reflexive(b.primary);
    lemma_lex_le_reflexive(b.secondary);
    if a.primary != b.primary {
        if b.primary != c.primary {
            lemma_lex_le_transitive(a.primary, b.primary, c.primary);
            if a.primary == c.primary {
                lemma_lex_le_antisymmetric(a.primary, b.primary);
            }
        }
    } else if b.primary == c.primary {
        if a.secondary != b.secondary {
            if b.secondary != c.secondary {
                lemma_lex_le_transitive(a.secondary, b.secondary, c.secondary);
                if a.secondary == c.secondary {
                    lemma_lex_le_antisymmetric(a.secondary, b.secondary);
                }
            }
        }
    }
}

/// Compares two records that are ordered by one text.
pub fn text_key_le(a: &str, b: &str) -> (r: bool)
    ensures
        r == key_le(text_key(a@), text_key(b@)),
{
    proof {
        lemma_lex_le_reflexive(a@);
    }
    str_le(a, b)
}

/// Compares two records that are ordered by two texts.
pub fn text_pair_key_le(a1: &str, a2: &str, b1: &str, b2: &str) -> (r: bool)
    ensures
        r == key_le(pair_key(a1@, a2@), pair_key(b1@, b2@)),
{
    proof {
        lemma_lex_le_reflexive(a2@);
    }
    if str_eq(a1, b1) {
        str_le(a2, b2)
    } else {
        str_le(a1, b1)
    }
}

/// Compares two records that are ordered by a text, then by a number.
pub fn ranked_key_le(a: &str, a_rank: usize, b: &str, b_rank: usize) -> (r: bool)
    ensures
        r == key_le(ranked_key(a@, a_rank as nat), ranked_key(b@, b_rank as nat)),
{
    if str_eq(a, b) {
        a_rank <= b_rank
    } else {
        str_le(a, b)
    }
}

/// A kind of record with a sort key.
pub trait Keyed: DeepView {
    /// The key of a record, read from its view.
    spec fn sort_key(v: Self::V) -> SortKey;

    /// Whether this record's key precedes or equals the other's.
    fn le(&self, other: &Self) -> (r: bool)
        ensures
            r == key_le(Self::sort_key(self.deep_view()), Self::sort_key(other.deep_view())),
    ;
}

/// Whether the keys of a sequence never descend.
pub open spec fn sorted<T: Keyed>(s: Seq<T::V>) -> bool {
    forall|i: int, j: int|
        0 <= i < j < s.len() ==> key_le(T::sort_key(#[trigger] s[i]), T::sort_key(#[trigger] s[j]))
}

/// The records of a sequence that have a given key, in their order.
pub open spec fn select<T: Keyed>(s: Seq<T::V>, k: SortKey) -> Seq<T::V>
    decreases s.len(),
{
    if s.len() == 0 {
        Seq::<T::V>::empty()
    } else if T::sort_key(s.last()) == k {
        select::<T>(s.drop_last(), k).push(s.last())
    } else {
        select::<T>(s.drop_last(), k)
    }
}

/// Whether `out` is `inp` sorted by key with ties left in their order: the
/// keys never descend, the records are the same, each as often, and the
/// records of any one key stand as they stood.
pub open spec fn is_stable_sort<T: Keyed>(out: Seq<T::V>, inp: Seq<T::V>) -> bool {
    &&& sorted::<T>(out)
    &&& out.to_multiset() == inp.to_multiset()
    &&& forall|k: SortKey| #[trigger] select::<T>(out, k) == select::<T>(inp, k)
}

/// Selecting from a concatenation selects from each part.
pub proof fn lemma_select_concat<T: Keyed>(a: Seq<T::V>, b: Seq<T::V>, k: SortKey)
    ensures
        select::<T>(a + b, k) == select::<T>(a, k) + select::<T>(b, k),
    decreases b.len(),
{
    if b.len() == 0 {
        assert(a + b =~= a);
        assert(select::<T>(a, k) + select::<T>(b, k) =~= select::<T>(a, k));
    } else {
        lemma_select_concat::<T>(a, b.drop_last(), k);
        assert((a + b).drop_last() =~= a + b.drop_last());
        assert((a + b).last() == b.last());
        if T::sort_key(b.last()) == k {
            assert(select::<T>(a, k) + select::<T>(b.drop_last(), k).push(b.last()) =~= (
            select::<T>(a, k) + select::<T>(b.drop_last(), k)).push(b.last()));
        }
    }
}

/// A sequence none of whose keys is `k` has nothing to select for `k`.
pub proof fn lemma_select_absent<T: Keyed>(s: Seq<T::V>, k: SortKey)
    requires
        forall|i: int| 0 <= i < s.len() ==> T::sort_key(#[trigger] s[i]) != k,
    ensures
        select::<T>(s, k) == Seq::<T::V>::empty(),
    decreases s.len(),
{
    if s.len() > 0 {
        assert(T::sort_key(s[s.len() - 1]) != k);
        assert forall|i: int| 0 <= i < s.drop_last().len() implies T::sort_key(
            #[trigger] s.drop_last()[i],
        ) != k by {
            assert(s.drop_last()[i] == s[i]);
        }
        lemma_select_absent::<T>(s.drop_last(), k);
    }
}

/// Sorting what was sorted and then extended sorts the whole.
pub proof fn lemma_stable_sort_extends<T: Keyed>(
    first: Seq<T::V>,
    sorted_first: Seq<T::V>,
    more: Seq<T::V>,
    out: Seq<T::V>,
)
    requires
        is_stable_sort::<T>(sorted_first, first),
        is_stable_sort::<T>(out, sorted_first + more),
    ensures
        is_stable_sort::<T>(out, first + more),
{
    lemma_multiset_commutative(sorted_first, more);
    lemma_multiset_commutative(first, more);
    assert forall|k: SortKey| #[trigger] select::<T>(out, k) == select::<T>(first + more, k) by {
        lemma_select_concat::<T>(sorted_first, more, k);
        lemma_select_concat::<T>(first, more, k);
        assert(select::<T>(sorted_first, k) == select::<T>(first, k));
    }
}

/// An empty sequence holds no record.
pub proof fn lemma_empty_to_multiset<A>(s: Seq<A>)
    requires
        s.len() == 0,
    ensures
        s.to_multiset() == Multiset::<A>::empty(),
{
    to_multiset_len(s);
    lemma_multiset_empty_len(s.to_multiset());
}

/// Whether no two records of a sequence have the same key.
pub open spec fn distinct_keys<T: Keyed>(s: Seq<T::V>) -> bool {
    forall|i: int, j: int|
        0 <= i < j < s.len() ==> T::sort_key(#[trigger] s[i]) != T::sort_key(#[trigger] s[j])
}

/// A sorted sequence without its last record is sorted, and holds the same
/// records but that one.
proof fn lemma_drop_last_sorted<T: Keyed>(a: Seq<T::V>)
    requires
        sorted::<T>(a),
        a.len() > 0,
    ensures
        sorted::<T>(a.drop_last()),
        a.to_multiset() == a.drop_last().to_multiset().insert(a.last()),
        forall|i: int| 0 <= i < a.len() ==> key_le(
            T::sort_key(#[trigger] a[i]),
            T::sort_key(a.last()),
        ),
{
    let rest = a.drop_last();
    assert forall|i: int, j: int| 0 <= i < j < rest.len() implies key_le(
        T::sort_key(#[trigger] rest[i]),
        T::sort_key(#[trigger] rest[j]),
    ) by {
        assert(rest[i] == a[i] && rest[j] == a[j]);
    }
    assert(a =~= rest.push(a.last()));
    to_multiset_build(rest, a.last());
    assert forall|i: int| 0 <= i < a.len() implies key_le(
        T::sort_key(#[trigger] a[i]),
        T::sort_key(a.last()),
    ) by {
        if i < a.len() - 1 {
            assert(key_le(T::sort_key(a[i]), T::sort_key(a[a.len() - 1])));
        } else {
            lemma_key_le_reflexive(T::sort_key(a[i]));
        }
    }
}

/// Two sorted sequences of the same records end with records of one key.
proof fn lemma_last_keys_agree<T: Keyed>(a: Seq<T::V>, b: Seq<T::V>)
    requires
        sorted::<T>(a),
        sorted::<T>(b),
        a.to_multiset() == b.to_multiset(),
        a.len() > 0,
    ensures
        b.len() == a.len(),
        T::sort_key(a.last()) == T::sort_key(b.last()),
        a.contains(b.last()),
        b.contains(a.last()),
{
    to_multiset_len(a);
    to_multiset_len(b);
    let x = a.last();
    let y = b.last();
    assert(a.contains(x)) by {
        assert(a[a.len() - 1] == x);
    }
    assert(b.contains(y)) by {
        assert(b[b.len() - 1] == y);
    }
    to_multiset_contains(a, x);
    to_multiset_contains(b, x);
    to_multiset_contains(a, y);
    to_multiset_contains(b, y);
    let i = choose|i: int| 0 <= i < a.len() && a[i] == y;
    let j = choose|j: int| 0 <= j < b.len() && b[j] == x;
    lemma_drop_last_sorted::<T>(a);
    lemma_drop_last_sorted::<T>(b);
    assert(key_le(T::sort_key(a[i]), T::sort_key(x)));
    assert(key_le(T::sort_key(b[j]), T::sort_key(y)));
    lemma_key_le_antisymmetric(T::sort_key(x), T::sort_key(y));
}

/// Taking the same record off two collections of the same records leaves
/// the same records.
pub proof fn lemma_multiset_cancel<A>(m1: Multiset<A>, m2: Multiset<A>, x: A)
    requires
        m1.insert(x) == m2.insert(x),
    ensures
        m1 == m2,
{
    broadcast use group_multiset_axioms;

    assert forall|v: A| m1.count(v) == m2.count(v) by {
        assert(m1.insert(x).count(v) == m2.insert(x).count(v));
        if v == x {
            lemma_insert_increases_count_by_1(m1, x);
            lemma_insert_increases_count_by_1(m2, x);
        } else {
            lemma_insert_other_elements_unchanged(m1, x, v);
            lemma_insert_other_elements_unchanged(m2, x, v);
        }
    }
    assert(m1 =~= m2);
}

/// The sorted form of a sequence is one: whatever sorts it by key and leaves
/// ties in their order, the outcome is the same.
pub proof fn lemma_stable_sort_unique<T: Keyed>(a: Seq<T::V>, b: Seq<T::V>, inp: Seq<T::V>)
    requires
        is_stable_sort::<T>(a, inp),
        is_stable_sort::<T>(b, inp),
    ensures
        a == b,
{
    assert forall|k: SortKey| #[trigger] select::<T>(a, k) == select::<T>(b, k) by {
        assert(select::<T>(a, k) == select::<T>(inp, k));
        assert(select::<T>(b, k) == select::<T>(inp, k));
    }
    lemma_same_ties_equal::<T>(a, b);
}

/// Two sorted sequences of the same records, in which the records of any
/// one key stand in the same order, are the same sequence.
proof fn lemma_same_ties_equal<T: Keyed>(a: Seq<T::V>, b: Seq<T::V>)
    requires
        sorted::<T>(a),
        sorted::<T>(b),
        a.to_multiset() == b.to_multiset(),
        forall|k: SortKey| #[trigger] select::<T>(a, k) == select::<T>(b, k),
    ensures
        a == b,
    decreases a.len(),
{
    to_multiset_len(a);
    to_multiset_len(b);
    if a.len() == 0 {
        assert(a =~= b);
    } else {
        lemma_last_keys_agree::<T>(a, b);
        let k0 = T::sort_key(a.last());
        let a1 = a.drop_last();
        let b1 = b.drop_last();
        assert(select::<T>(a, k0) == select::<T>(a1, k0).push(a.last()));
        assert(select::<T>(b, k0) == select::<T>(b1, k0).push(b.last()));
        assert(select::<T>(a, k0) == select::<T>(b, k0));
        assert(a.last() == b.last()) by {
            let n = select::<T>(a1, k0).len() as int;
            assert(select::<T>(a1, k0).push(a.last())[n] == a.last());
            assert(select::<T>(b1, k0).len() == n) by {
                assert(select::<T>(b1, k0).push(b.last()).len() == n + 1);
            }
            assert(select::<T>(b1, k0).push(b.last())[n] == b.last());
        }
        lemma_drop_last_sorted::<T>(a);
        lemma_drop_last_sorted::<T>(b);
        lemma_multiset_cancel(a1.to_multiset(), b1.to_multiset(), a.last());
        assert forall|k: SortKey| #[trigger] select::<T>(a1, k) == select::<T>(b1, k) by {
            assert(select::<T>(a, k) == select::<T>(b, k));
            if k == k0 {
                assert(select::<T>(a1, k) =~= select::<T>(a1, k).push(a.last()).drop_last());
                assert(select::<T>(b1, k) =~= select::<T>(b1, k).push(b.last()).drop_last());
            }
        }
        lemma_same_ties_equal::<T>(a1, b1);
        assert(a =~= a1.push(a.last()));
        assert(b =~= b1.push(b.last()));
    }
}

/// Sequences of the same records have keys that are distinct in both or in
/// neither.
pub proof fn lemma_distinct_keys_of_same_records<T: Keyed>(a: Seq<T::V>, b: Seq<T::V>)
    requires
        a.to_multiset() == b.to_multiset(),
        distinct_keys::<T>(a),
    ensures
        distinct_keys::<T>(b),
{
    assert(a.no_duplicates()) by {
        assert forall|i: int, j: int| 0 <= i < a.len() && 0 <= j < a.len() && i != j implies a[i]
            != a[j] by {
            if i < j {
                assert(T::sort_key(a[i]) != T::sort_key(a[j]));
            } else {
                assert(T::sort_key(a[j]) != T::sort_key(a[i]));
            }
        }
    }
    a.lemma_multiset_has_no_duplicates();
    b.lemma_multiset_has_no_duplicates_conv();
    assert forall|i: int, j: int| 0 <= i < j < b.len() implies T::sort_key(#[trigger] b[i])
        != T::sort_key(#[trigger] b[j]) by {
        assert(b[i] != b[j]);
        assert(b.contains(b[i]) && b.contains(b[j]));
        to_multiset_contains(a, b[i]);
        to_multiset_contains(b, b[i]);
        to_multiset_contains(a, b[j]);
        to_multiset_contains(b, b[j]);
        let p = choose|p: int| 0 <= p < a.len() && a[p] == b[i];
        let q = choose|q: int| 0 <= q < a.len() && a[q] == b[j];
        if p < q {
            assert(T::sort_key(a[p]) != T::sort_key(a[q]));
        } else {
            assert(T::sort_key(a[q]) != T::sort_key(a[p]));
        }
    }
}

/// Two sorted sequences of the same records, no two of them with the same
/// key, are the same sequence.
pub proof fn lemma_sorted_records_equal<T: Keyed>(a: Seq<T::V>, b: Seq<T::V>)
    requires
        sorted::<T>(a),
        sorted::<T>(b),
        a.to_multiset() == b.to_multiset(),
        distinct_keys::<T>(a),
    ensures
        a == b,
    decreases a.len(),
{
    to_multiset_len(a);
    to_multiset_len(b);
    if a.len() == 0 {
        assert(a =~= b);
    } else {
        lemma_last_keys_agree::<T>(a, b);
        let a1 = a.drop_last();
        let b1 = b.drop_last();
        let i = choose|i: int| 0 <= i < a.len() && a[i] == b.last();
        assert(a.last() == b.last()) by {
            if i < a.len() - 1 {
                assert(T::sort_key(a[i]) != T::sort_key(a[a.len() - 1]));
            }
        }
        lemma_drop_last_sorted::<T>(a);
        lemma_drop_last_sorted::<T>(b);
        lemma_multiset_cancel(a1.to_multiset(), b1.to_multiset(), a.last());
        assert forall|i: int, j: int| 0 <= i < j < a1.len() implies T::sort_key(#[trigger] a1[i])
            != T::sort_key(#[trigger] a1[j]) by {
            assert(a1[i] == a[i] && a1[j] == a[j]);
        }
        lemma_sorted_records_equal::<T>(a1, b1);
        assert(a =~= a1.push(a.last()));
        assert(b =~= b1.push(b.last()));
    }
}

/// The order in which records come does not show once they are sorted: two
/// sequences of the same records, no two of them with the same key, have the
/// same sorted form.
pub proof fn lemma_stable_sort_ignores_order<T: Keyed>(
    inp1: Seq<T::V>,
    inp2: Seq<T::V>,
    out1: Seq<T::V>,
    out2: Seq<T::V>,
)
    requires
        is_stable_sort::<T>(out1, inp1),
        is_stable_sort::<T>(out2, inp2),
        inp1.to_multiset() == inp2.to_multiset(),
        distinct_keys::<T>(inp1),
    ensures
        out1 == out2,
{
    lemma_distinct_keys_of_same_records::<T>(inp1, out1);
    lemma_sorted_records_equal::<T>(out1, out2);
}

/// What holds between two sorted runs that are being merged from their ends
/// and the sorted tail that was taken off them so far.
pub open spec fn merging<T: Keyed>(
    a0: Seq<T::V>,
    b0: Seq<T::V>,
    a: Seq<T::V>,
    b: Seq<T::V>,
    tail: Seq<T::V>,
) -> bool {
    &&& sorted::<T>(a)
    &&& sorted::<T>(b)
    &&& sorted::<T>(tail)
    &&& forall|i: int, j: int|
        0 <= i < a.len() && 0 <= j < tail.len() ==> key_le(
            T::sort_key(#[trigger] a[i]),
            T::sort_key(#[trigger] tail[j]),
        )
    &&& forall|i: int, j: int|
        0 <= i < b.len() && 0 <= j < tail.len() ==> key_le(
            T::sort_key(#[trigger] b[i]),
            T::sort_key(#[trigger] tail[j]),
        )
    &&& a.to_multiset().add(b.to_multiset()).add(tail.to_multiset()) == (a0 + b0).to_multiset()
    &&& forall|k: SortKey|
        select::<T>(a0, k) + select::<T>(b0, k) == select::<T>(a, k) + select::<T>(b, k)
            + #[trigger] select::<T>(tail, k)
}

/// Two sorted runs, with nothing taken off them yet, are being merged.
proof fn lemma_merging_start<T: Keyed>(a0: Seq<T::V>, b0: Seq<T::V>)
    requires
        sorted::<T>(a0),
        sorted::<T>(b0),
    ensures
        merging::<T>(a0, b0, a0, b0, Seq::<T::V>::empty()),
{
    broadcast use group_multiset_axioms;

    let tail = Seq::<T::V>::empty();
    lemma_multiset_commutative(a0, b0);
    lemma_empty_to_multiset(tail);
    assert(a0.to_multiset().add(b0.to_multiset()).add(tail.to_multiset()) =~= a0.to_multiset().add(
        b0.to_multiset(),
    ));
    assert forall|k: SortKey|
        select::<T>(a0, k) + select::<T>(b0, k) == select::<T>(a0, k) + select::<T>(b0, k)
            + #[trigger] select::<T>(tail, k) by {
        assert(select::<T>(a0, k) + select::<T>(b0, k) + select::<T>(tail, k) =~= select::<T>(a0, k)
            + select::<T>(b0, k));
    }
}

/// Selecting from a sequence with one more record in front.
proof fn lemma_select_front<T: Keyed>(x: T::V, tail: Seq<T::V>, k: SortKey)
    ensures
        select::<T>(seq![x] + tail, k) == if T::sort_key(x) == k {
            seq![x] + select::<T>(tail, k)
        } else {
            select::<T>(tail, k)
        },
{
    lemma_select_concat::<T>(seq![x], tail, k);
    let one = seq![x];
    assert(one.drop_last() =~= Seq::<T::V>::empty());
    assert(one.last() == x);
    assert(select::<T>(one.drop_last(), k) =~= Seq::<T::V>::empty());
    if T::sort_key(x) == k {
        assert(select::<T>(one, k) =~= seq![x]);
    } else {
        assert(select::<T>(one, k) =~= Seq::<T::V>::empty());
        assert(select::<T>(one, k) + select::<T>(tail, k) =~= select::<T>(tail, k));
    }
}

/// The last record of the first run goes in front of the tail where its key
/// is greater than that of the last record of the second run.
proof fn lemma_merging_take_first<T: Keyed>(
    a0: Seq<T::V>,
    b0: Seq<T::V>,
    a: Seq<T::V>,
    b: Seq<T::V>,
    tail: Seq<T::V>,
)
    requires
        merging::<T>(a0, b0, a, b, tail),
        a.len() > 0,
        b.len() > 0,
        !key_le(T::sort_key(a.last()), T::sort_key(b.last())),
    ensures
        merging::<T>(a0, b0, a.drop_last(), b, seq![a.last()] + tail),
{
    let x = a.last();
    let a1 = a.drop_last();
    let t1 = seq![x] + tail;
    lemma_key_le_total(T::sort_key(x), T::sort_key(b.last()));
    assert forall|i: int| 0 <= i < b.len() implies key_le(
        T::sort_key(#[trigger] b[i]),
        T::sort_key(x),
    ) && T::sort_key(b[i]) != T::sort_key(x) by {
        if i < b.len() - 1 {
            assert(key_le(T::sort_key(b[i]), T::sort_key(b[b.len() - 1])));
        } else {
            lemma_key_le_reflexive(T::sort_key(b[i]));
        }
        lemma_key_le_transitive(T::sort_key(b[i]), T::sort_key(b.last()), T::sort_key(x));
    }
    assert forall|i: int, j: int| 0 <= i < j < t1.len() implies key_le(
        T::sort_key(#[trigger] t1[i]),
        T::sort_key(#[trigger] t1[j]),
    ) by {
        assert(t1[j] == tail[j - 1]);
        if i == 0 {
            assert(key_le(T::sort_key(a[a.len() - 1]), T::sort_key(tail[j - 1])));
        } else {
            assert(t1[i] == tail[i - 1] && t1[j] == tail[j - 1]);
        }
    }
    assert forall|i: int, j: int| 0 <= i < a1.len() && 0 <= j < t1.len() implies key_le(
        T::sort_key(#[trigger] a1[i]),
        T::sort_key(#[trigger] t1[j]),
    ) by {
        assert(a1[i] == a[i]);
        if j == 0 {
            assert(key_le(T::sort_key(a[i]), T::sort_key(a[a.len() - 1])));
        } else {
            assert(t1[j] == tail[j - 1]);
        }
    }
    assert forall|i: int, j: int| 0 <= i < b.len() && 0 <= j < t1.len() implies key_le(
        T::sort_key(#[trigger] b[i]),
        T::sort_key(#[trigger] t1[j]),
    ) by {
        if j > 0 {
            assert(t1[j] == tail[j - 1]);
        }
    }
    assert(sorted::<T>(a1)) by {
        assert forall|i: int, j: int| 0 <= i < j < a1.len() implies key_le(
            T::sort_key(#[trigger] a1[i]),
            T::sort_key(#[trigger] a1[j]),
        ) by {
            assert(a1[i] == a[i] && a1[j] == a[j]);
        }
    }
    assert(a1.to_multiset().add(b.to_multiset()).add(t1.to_multiset()) == (a0 + b0).to_multiset())
        by {
        broadcast use group_multiset_axioms;

        assert(a =~= a1.push(x));
        to_multiset_build(a1, x);
        lemma_multiset_commutative(seq![x], tail);
        assert(seq![x] =~= Seq::<T::V>::empty().push(x));
        to_multiset_build(Seq::<T::V>::empty(), x);
        lemma_empty_to_multiset(Seq::<T::V>::empty());
        assert(a1.to_multiset().add(b.to_multiset()).add(t1.to_multiset()) =~= a.to_multiset().add(
            b.to_multiset(),
        ).add(tail.to_multiset()));
    }
    assert forall|k: SortKey|
        select::<T>(a0, k) + select::<T>(b0, k) == select::<T>(a1, k) + select::<T>(b, k)
            + #[trigger] select::<T>(t1, k) by {
        lemma_select_front::<T>(x, tail, k);
        assert(select::<T>(a0, k) + select::<T>(b0, k) == select::<T>(a, k) + select::<T>(b, k)
            + select::<T>(tail, k));
        if T::sort_key(x) == k {
            lemma_select_absent::<T>(b, k);
            assert(select::<T>(a1, k) + select::<T>(b, k) + (seq![x] + select::<T>(tail, k))
                =~= select::<T>(a1, k).push(x) + select::<T>(b, k) + select::<T>(tail, k));
        }
    }
}

/// The last record of the second run goes in front of the tail where its
/// key is not less than that of the last record of the first run.
proof fn lemma_merging_take_second<T: Keyed>(
    a0: Seq<T::V>,
    b0: Seq<T::V>,
    a: Seq<T::V>,
    b: Seq<T::V>,
    tail: Seq<T::V>,
)
    requires
        merging::<T>(a0, b0, a, b, tail),
        b.len() > 0,
        a.len() > 0 ==> key_le(T::sort_key(a.last()), T::sort_key(b.last())),
    ensures
        merging::<T>(a0, b0, a, b.drop_last(), seq![b.last()] + tail),
{
    let y = b.last();
    let b1 = b.drop_last();
    let t1 = seq![y] + tail;
    assert forall|i: int| 0 <= i < a.len() implies key_le(
        T::sort_key(#[trigger] a[i]),
        T::sort_key(y),
    ) by {
        if i < a.len() - 1 {
            assert(key_le(T::sort_key(a[i]), T::sort_key(a[a.len() - 1])));
        } else {
            lemma_key_le_reflexive(T::sort_key(a[i]));
        }
        lemma_key_le_transitive(T::sort_key(a[i]), T::sort_key(a.last()), T::sort_key(y));
    }
    assert forall|i: int, j: int| 0 <= i < j < t1.len() implies key_le(
        T::sort_key(#[trigger] t1[i]),
        T::sort_key(#[trigger] t1[j]),
    ) by {
        assert(t1[j] == tail[j - 1]);
        if i == 0 {
            assert(key_le(T::sort_key(b[b.len() - 1]), T::sort_key(tail[j - 1])));
        } else {
            assert(t1[i] == tail[i - 1] && t1[j] == tail[j - 1]);
        }
    }
    assert forall|i: int, j: int| 0 <= i < b1.len() && 0 <= j < t1.len() implies key_le(
        T::sort_key(#[trigger] b1[i]),
        T::sort_key(#[trigger] t1[j]),
    ) by {
        assert(b1[i] == b[i]);
        if j == 0 {
            assert(key_le(T::sort_key(b[i]), T::sort_key(b[b.len() - 1])));
        } else {
            assert(t1[j] == tail[j - 1]);
        }
    }
    assert forall|i: int, j: int| 0 <= i < a.len() && 0 <= j < t1.len() implies key_le(
        T::sort_key(#[trigger] a[i]),
        T::sort_key(#[trigger] t1[j]),
    ) by {
        if j > 0 {
            assert(t1[j] == tail[j - 1]);
        }
    }
    assert(sorted::<T>(b1)) by {
        assert forall|i: int, j: int| 0 <= i < j < b1.len() implies key_le(
            T::sort_key(#[trigger] b1[i]),
            T::sort_key(#[trigger] b1[j]),
        ) by {
            assert(b1[i] == b[i] && b1[j] == b[j]);
        }
    }
    assert(a.to_multiset().add(b1.to_multiset()).add(t1.to_multiset()) == (a0 + b0).to_multiset())
        by {
        broadcast use group_multiset_axioms;

        assert(b =~= b1.push(y));
        to_multiset_build(b1, y);
        lemma_multiset_commutative(seq![y], tail);
        assert(seq![y] =~= Seq::<T::V>::empty().push(y));
        to_multiset_build(Seq::<T::V>::empty(), y);
        lemma_empty_to_multiset(Seq::<T::V>::empty());
        assert(a.to_multiset().add(b1.to_multiset()).add(t1.to_multiset()) =~= a.to_multiset().add(
            b.to_multiset(),
        ).add(tail.to_multiset()));
    }
    assert forall|k: SortKey|
        select::<T>(a0, k) + select::<T>(b0, k) == select::<T>(a, k) + select::<T>(b1, k)
            + #[trigger] select::<T>(t1, k) by {
        lemma_select_front::<T>(y, tail, k);
        assert(select::<T>(a0, k) + select::<T>(b0, k) == select::<T>(a, k) + select::<T>(b, k)
            + select::<T>(tail, k));
        if T::sort_key(y) == k {
            assert(select::<T>(a, k) + select::<T>(b1, k) + (seq![y] + select::<T>(tail, k))
                =~= select::<T>(a, k) + select::<T>(b1, k).push(y) + select::<T>(tail, k));
        }
    }
}

/// Once the second run is used up, what is left of the first run and the
/// tail after it are the two runs merged.
proof fn lemma_merging_done<T: Keyed>(
    a0: Seq<T::V>,
    b0: Seq<T::V>,
    a: Seq<T::V>,
    b: Seq<T::V>,
    tail: Seq<T::V>,
)
    requires
        merging::<T>(a0, b0, a, b, tail),
        b.len() == 0,
    ensures
        sorted::<T>(a + tail),
        (a + tail).to_multiset() == (a0 + b0).to_multiset(),
        forall|k: SortKey| #[trigger]
            select::<T>(a + tail, k) == select::<T>(a0, k) + select::<T>(b0, k),
{
    let r = a + tail;
    assert forall|i: int, j: int| 0 <= i < j < r.len() implies key_le(
        T::sort_key(#[trigger] r[i]),
        T::sort_key(#[trigger] r[j]),
    ) by {
        if j < a.len() {
            assert(r[i] == a[i] && r[j] == a[j]);
        } else if i < a.len() {
            assert(r[i] == a[i] && r[j] == tail[j - a.len()]);
        } else {
            assert(r[i] == tail[i - a.len()] && r[j] == tail[j - a.len()]);
        }
    }
    broadcast use group_multiset_axioms;

    lemma_multiset_commutative(a, tail);
    assert(b =~= Seq::<T::V>::empty());
    lemma_empty_to_multiset(b);
    assert(a.to_multiset().add(b.to_multiset()).add(tail.to_multiset()) =~= a.to_multiset().add(
        tail.to_multiset(),
    ));
    assert forall|k: SortKey| #[trigger]
        select::<T>(a + tail, k) == select::<T>(a0, k) + select::<T>(b0, k) by {
        lemma_select_concat::<T>(a, tail, k);
        assert(select::<T>(a, k) + select::<T>(b, k) + select::<T>(tail, k) =~= select::<T>(a, k)
            + select::<T>(tail, k));
    }
}

/// Merges two sorted runs into one; where keys tie, the records of the first
/// run come first.
fn merge<T: Keyed>(a: Vec<T>, b: Vec<T>) -> (r: Vec<T>)
    requires
        sorted::<T>(a.deep_view()),
        sorted::<T>(b.deep_view()),
    ensures
        sorted::<T>(r.deep_view()),
        r.deep_view().to_multiset() == (a.deep_view() + b.deep_view()).to_multiset(),
        forall|k: SortKey| #[trigger]
            select::<T>(r.deep_view(), k) == select::<T>(a.deep_view(), k) + select::<T>(
                b.deep_view(),
                k,
            ),
{
    let ghost a0 = a.deep_view();
    let ghost b0 = b.deep_view();
    let mut a = a;
    let mut b = b;
    // The greatest records taken off so far, greatest first.
    let mut top: Vec<T> = Vec::new();
    proof {
        lemma_merging_start::<T>(a0, b0);
        assert(top.deep_view().reverse() =~= Seq::<T::V>::empty());
    }
    while a.len() > 0 && b.len() > 0
        invariant
            merging::<T>(a0, b0, a.deep_view(), b.deep_view(), top.deep_view().reverse()),
        decreases a.len() + b.len(),
    {
        let ghost av = a.deep_view();
        let ghost bv = b.deep_view();
        let ghost tv = top.deep_view();
        if !a[a.len() - 1].le(&b[b.len() - 1]) {
            let x = a.pop().unwrap();
            proof {
                assert(x.deep_view() == av.last());
                assert(a.deep_view() =~= av.drop_last());
                lemma_merging_take_first::<T>(a0, b0, av, bv, tv.reverse());
            }
            top.push(x);
            assert(top.deep_view().reverse() =~= seq![av.last()] + tv.reverse());
        } else {
            let y = b.pop().unwrap();
            proof {
                assert(y.deep_view() == bv.last());
                assert(b.deep_view() =~= bv.drop_last());
                lemma_merging_take_second::<T>(a0, b0, av, bv, tv.reverse());
            }
            top.push(y);
            assert(top.deep_view().reverse() =~= seq![bv.last()] + tv.reverse());
        }
    }
    // Whatever is left of the second run is greater than all of the first.
    while b.len() > 0
        invariant
            merging::<T>(a0, b0, a.deep_view(), b.deep_view(), top.deep_view().reverse()),
            a.len() == 0 || b.len() == 0,
        decreases b.len(),
    {
        let ghost av = a.deep_view();
        let ghost bv = b.deep_view();
        let ghost tv = top.deep_view();
        let y = b.pop().unwrap();
        proof {
            assert(y.deep_view() == bv.last());
            assert(b.deep_view() =~= bv.drop_last());
            lemma_merging_take_second::<T>(a0, b0, av, bv, tv.reverse());
        }
        top.push(y);
        assert(top.deep_view().reverse() =~= seq![bv.last()] + tv.reverse());
    }
    let ghost rest = a.deep_view();
    let ghost tail = top.deep_view().reverse();
    proof {
        lemma_merging_done::<T>(a0, b0, rest, b.deep_view(), tail);
    }
    while top.len() > 0
        invariant
            a.deep_view() + top.deep_view().reverse() == rest + tail,
        decreases top.len(),
    {
        let ghost av = a.deep_view();
        let ghost tv = top.deep_view();
        let x = top.pop().unwrap();
        a.push(x);
        assert(a.deep_view() + top.deep_view().reverse() =~= av + tv.reverse());
    }
    assert(a.deep_view() =~= a.deep_view() + top.deep_view().reverse());
    a
}

/// Sorts a sequence of records by key; records whose keys tie keep their
/// order.
fn merge_sort<T: Keyed>(v: Vec<T>) -> (r: Vec<T>)
    ensures
        is_stable_sort::<T>(r.deep_view(), v.deep_view()),
    decreases v.len(),
{
    let ghost inp = v.deep_view();
    if v.len() <= 1 {
        return v;
    }
    let mut left = v;
    let mid: usize = left.len() / 2;
    let right = left.split_off(mid);
    let ghost lv = left.deep_view();
    let ghost rv = right.deep_view();
    assert(inp =~= lv + rv);
    let left = merge_sort(left);
    let right = merge_sort(right);
    let ghost ls = left.deep_view();
    let ghost rs = right.deep_view();
    let r = merge(left, right);
    proof {
        lemma_multiset_commutative(ls, rs);
        lemma_multiset_commutative(lv, rv);
        assert forall|k: SortKey| #[trigger]
            select::<T>(r.deep_view(), k) == select::<T>(inp, k) by {
            lemma_select_concat::<T>(lv, rv, k);
            assert(select::<T>(ls, k) == select::<T>(lv, k));
            assert(select::<T>(rs, k) == select::<T>(rv, k));
        }
    }
    r
}

/// Sorts records in place by key; records whose keys tie keep their order.
pub fn sort<T: Keyed>(v: &mut Vec<T>)
    ensures
        is_stable_sort::<T>(final(v).deep_view(), old(v).deep_view()),
{
    let mut taken: Vec<T> = Vec::new();
    core::mem::swap(v, &mut taken);
    let mut done = merge_sort(taken);
    core::mem::swap(v, &mut done);
}

} // verus!
