//! Building and merging in general: what a builder makes of a sequence of
//! source records, what a call of a builder does to the merged collection,
//! and what holds of both whatever the builder.
use crate::kdi::error::AlignError;
use crate::kdi::order::{
    distinct_keys, is_stable_sort, lemma_multiset_cancel, lemma_stable_sort_ignores_order,
    lemma_stable_sort_unique, sort, Keyed,
};
use vstd::multiset::group_multiset_axioms;
use vstd::prelude::*;
use vstd::seq_lib::{
    lemma_multiset_commutative, to_multiset_build, to_multiset_contains, to_multiset_insert,
    to_multiset_len,
};

verus! {

/// What a builder makes of a sequence of source records: the records that
/// `f` makes of each with its position, in their order, or the fault of the
/// first record that has one.
pub open spec fn try_map<A, B>(
    s: Seq<A>,
    f: spec_fn(int, A) -> Result<B, AlignError>,
) -> Result<Seq<B>, AlignError>
    decreases s.len(),
{
    if s.len() == 0 {
        Ok(Seq::<B>::empty())
    } else {
        match try_map(s.drop_last(), f) {
            Err(e) => Err(e),
            Ok(done) => match f(s.len() - 1, s.last()) {
                Err(e) => Err(e),
                Ok(b) => Ok(done.push(b)),
            },
        }
    }
}

/// A fault among the first records is the fault of the whole.
pub proof fn lemma_try_map_fails<A, B>(
    s: Seq<A>,
    f: spec_fn(int, A) -> Result<B, AlignError>,
    n: int,
)
    requires
        0 <= n <= s.len(),
        try_map(s.take(n), f) is Err,
    ensures
        try_map(s, f) == try_map(s.take(n), f),
    decreases s.len(),
{
    if n < s.len() {
        assert(s.drop_last().take(n) =~= s.take(n));
        lemma_try_map_fails(s.drop_last(), f, n);
    } else {
        assert(s.take(n) =~= s);
    }
}

/// What one more record adds to what was made of the records before it.
pub proof fn lemma_try_map_step<A, B>(
    s: Seq<A>,
    f: spec_fn(int, A) -> Result<B, AlignError>,
    n: int,
)
    requires
        0 <= n < s.len(),
        try_map(s.take(n), f) is Ok,
    ensures
        try_map(s.take(n + 1), f) == match f(n, s[n]) {
            Err(e) => Err::<Seq<B>, AlignError>(e),
            Ok(b) => Ok(try_map(s.take(n), f)->Ok_0.push(b)),
        },
{
    assert(s.take(n + 1).drop_last() =~= s.take(n));
    assert(s.take(n + 1).last() == s[n]);
}

/// What is built of a sequence is built record by record: there is no fault
/// exactly when no record has one, and the records built are then as many
/// as the source records, each made of the source record at its position.
pub proof fn lemma_try_map_elements<A, B>(s: Seq<A>, f: spec_fn(int, A) -> Result<B, AlignError>)
    ensures
        try_map(s, f) is Ok <==> forall|i: int| 0 <= i < s.len() ==> f(i, #[trigger] s[i]) is Ok,
        try_map(s, f) is Ok ==> try_map(s, f)->Ok_0.len() == s.len(),
        try_map(s, f) is Ok ==> forall|i: int|
            0 <= i < s.len() ==> try_map(s, f)->Ok_0[i] == f(i, #[trigger] s[i])->Ok_0,
    decreases s.len(),
{
    if s.len() > 0 {
        let rest = s.drop_last();
        lemma_try_map_elements(rest, f);
        assert forall|i: int| 0 <= i < rest.len() implies rest[i] == s[i] by {}
        if try_map(s, f) is Ok {
            assert forall|i: int| 0 <= i < s.len() implies f(i, #[trigger] s[i]) is Ok by {
                if i < rest.len() {
                    assert(rest[i] == s[i]);
                }
            }
            assert forall|i: int| 0 <= i < s.len() implies try_map(s, f)->Ok_0[i] == f(
                i,
                #[trigger] s[i],
            )->Ok_0 by {
                if i < rest.len() {
                    assert(rest[i] == s[i]);
                }
            }
        }
        if forall|i: int| 0 <= i < s.len() ==> f(i, #[trigger] s[i]) is Ok {
            assert forall|i: int| 0 <= i < rest.len() implies f(i, #[trigger] rest[i]) is Ok by {
                assert(rest[i] == s[i]);
            }
            assert(f(s.len() - 1, s[s.len() - 1]) is Ok);
        }
    }
}

/// Whether what is made of a record does not depend on where the record
/// stands in its source.
pub open spec fn same_at_every_position<A, B>(f: spec_fn(int, A) -> Result<B, AlignError>) -> bool {
    forall|i: int, j: int, a: A| #[trigger] f(i, a) == #[trigger] f(j, a)
}

/// Where the place of a record does not matter, the same source records in
/// another order give the same records built, in another order: there is a
/// fault in both orders or in neither.
pub proof fn lemma_try_map_same_records<A, B>(
    s1: Seq<A>,
    s2: Seq<A>,
    f: spec_fn(int, A) -> Result<B, AlignError>,
)
    requires
        s1.to_multiset() == s2.to_multiset(),
        same_at_every_position(f),
    ensures
        try_map(s1, f) is Ok <==> try_map(s2, f) is Ok,
        try_map(s1, f) is Ok ==> try_map(s1, f)->Ok_0.to_multiset() == try_map(
            s2,
            f,
        )->Ok_0.to_multiset(),
    decreases s1.len(),
{
    to_multiset_len(s1);
    to_multiset_len(s2);
    if s1.len() == 0 {
        assert(s1 =~= s2);
    } else {
        let n = s1.len() - 1;
        let x = s1.last();
        let rest1 = s1.drop_last();
        assert(s1.contains(x)) by {
            assert(s1[n] == x);
        }
        to_multiset_contains(s1, x);
        to_multiset_contains(s2, x);
        let j = choose|j: int| 0 <= j < s2.len() && s2[j] == x;
        let rest2 = s2.remove(j);
        assert(rest2.insert(j, x) =~= s2);
        to_multiset_insert(rest2, j, x);
        assert(s1 =~= rest1.push(x));
        to_multiset_build(rest1, x);
        lemma_multiset_cancel(rest1.to_multiset(), rest2.to_multiset(), x);
        lemma_try_map_same_records(rest1, rest2, f);
        lemma_try_map_elements(s1, f);
        lemma_try_map_elements(rest1, f);
        lemma_try_map_elements(s2, f);
        lemma_try_map_elements(rest2, f);
        assert forall|i: int| 0 <= i < rest1.len() implies rest1[i] == s1[i] by {}
        assert forall|i: int| 0 <= i < rest2.len() implies #[trigger] rest2[i] == (if i < j {
            s2[i]
        } else {
            s2[i + 1]
        }) by {}
        if try_map(s1, f) is Ok {
            assert(f(n, s1[n]) is Ok);
            assert forall|i: int| 0 <= i < rest1.len() implies f(i, #[trigger] rest1[i]) is Ok by {
                assert(f(i, s1[i]) is Ok);
            }
            assert forall|i: int| 0 <= i < s2.len() implies f(i, #[trigger] s2[i]) is Ok by {
                if i < j {
                    assert(f(i, rest2[i]) is Ok);
                } else if i == j {
                    assert(f(i, x) == f(n, x));
                } else {
                    assert(f(i - 1, rest2[i - 1]) is Ok);
                    assert(f(i, s2[i]) == f(i - 1, s2[i]));
                }
            }
        }
        if try_map(s2, f) is Ok {
            assert(f(j, s2[j]) is Ok);
            assert(f(n, x) == f(j, x));
            assert forall|i: int| 0 <= i < rest2.len() implies f(i, #[trigger] rest2[i]) is Ok by {
                if i < j {
                    assert(f(i, s2[i]) is Ok);
                } else {
                    assert(f(i + 1, s2[i + 1]) is Ok);
                    assert(f(i, s2[i + 1]) == f(i + 1, s2[i + 1]));
                }
            }
            assert forall|i: int| 0 <= i < s1.len() implies f(i, #[trigger] s1[i]) is Ok by {
                if i < n {
                    assert(f(i, rest1[i]) is Ok);
                }
            }
        }
        if try_map(s1, f) is Ok {
            let y = f(n, x)->Ok_0;
            let built1 = try_map(s1, f)->Ok_0;
            let built2 = try_map(s2, f)->Ok_0;
            let part1 = try_map(rest1, f)->Ok_0;
            let part2 = try_map(rest2, f)->Ok_0;
            assert(built1 =~= part1.push(y)) by {
                assert forall|i: int| 0 <= i < built1.len() implies built1[i] == part1.push(
                    y,
                )[i] by {
                    assert(built1[i] == f(i, s1[i])->Ok_0);
                    if i < n {
                        assert(part1[i] == f(i, rest1[i])->Ok_0);
                    }
                }
            }
            assert(built2 =~= part2.insert(j, y)) by {
                assert forall|i: int| 0 <= i < built2.len() implies built2[i] == part2.insert(
                    j,
                    y,
                )[i] by {
                    assert(built2[i] == f(i, s2[i])->Ok_0);
                    if i < j {
                        assert(part2[i] == f(i, rest2[i])->Ok_0);
                    } else if i == j {
                        assert(f(j, x) == f(n, x));
                    } else {
                        assert(part2[i - 1] == f(i - 1, rest2[i - 1])->Ok_0);
                        assert(f(i, s2[i]) == f(i - 1, s2[i]));
                    }
                }
            }
            to_multiset_build(part1, y);
            to_multiset_insert(part2, j, y);
        }
    }
}

/// A builder of records of the model: how a record is made of a source
/// record and of the place where the source record stands in its source.
pub trait Builder {
    /// The kind of the source records.
    type Source;

    /// The kind of the records of the model.
    type Target: DeepView;

    /// The record that the builder makes, or the fault of the source record.
    spec fn makes(&self, i: int, source: Self::Source) -> Result<
        <Self::Target as DeepView>::V,
        AlignError,
    >;

    /// Makes the record, or finds the fault.
    fn make(&self, i: usize, source: &Self::Source) -> (r: Result<Self::Target, AlignError>)
        ensures
            match self.makes(i as int, *source) {
                Ok(v) => r is Ok && r->Ok_0.deep_view() == v,
                Err(e) => r == Err::<Self::Target, AlignError>(e),
            },
    ;
}

/// What a builder builds of a sequence of source records: the records that it
/// makes of each, in their order, or the fault of the first record that has
/// one.
pub open spec fn built_by<B: Builder>(builder: B, s: Seq<B::Source>) -> Result<
    Seq<<B::Target as DeepView>::V>,
    AlignError,
> {
    try_map(s, |i: int, source: B::Source| builder.makes(i, source))
}

/// What a builder builds is built record by record: there is no fault exactly
/// when no record has one, and the records built are then as many as the
/// source records, each made of the source record at its position.
pub proof fn lemma_built_elements<B: Builder>(builder: B, s: Seq<B::Source>)
    ensures
        built_by(builder, s) is Ok <==> forall|i: int|
            0 <= i < s.len() ==> builder.makes(i, #[trigger] s[i]) is Ok,
        built_by(builder, s) is Ok ==> built_by(builder, s)->Ok_0.len() == s.len(),
        built_by(builder, s) is Ok ==> forall|i: int|
            0 <= i < s.len() ==> built_by(builder, s)->Ok_0[i] == builder.makes(
                i,
                #[trigger] s[i],
            )->Ok_0,
{
    lemma_try_map_elements(s, |i: int, source: B::Source| builder.makes(i, source));
}

/// The records that a builder builds are those that it makes of the source
/// records.
pub proof fn lemma_built_members<B: Builder>(
    builder: B,
    s: Seq<B::Source>,
    y: <B::Target as DeepView>::V,
)
    requires
        built_by(builder, s) is Ok,
    ensures
        built_by(builder, s)->Ok_0.contains(y) <==> exists|i: int|
            0 <= i < s.len() && builder.makes(i, #[trigger] s[i]) == Ok::<
                <B::Target as DeepView>::V,
                AlignError,
            >(y),
{
    lemma_built_elements(builder, s);
    let built = built_by(builder, s)->Ok_0;
    if built.contains(y) {
        let p = choose|p: int| 0 <= p < built.len() && built[p] == y;
        assert(builder.makes(p, s[p]) is Ok);
        assert(builder.makes(p, s[p])->Ok_0 == y);
    }
    if exists|i: int|
        0 <= i < s.len() && builder.makes(i, #[trigger] s[i]) == Ok::<
            <B::Target as DeepView>::V,
            AlignError,
        >(y) {
        let i = choose|i: int|
            0 <= i < s.len() && builder.makes(i, #[trigger] s[i]) == Ok::<
                <B::Target as DeepView>::V,
                AlignError,
            >(y);
        assert(built[i] == y);
    }
}

/// Whether what a builder makes of a record does not depend on where the
/// record stands in its source.
pub open spec fn ignores_position<B: Builder>(builder: B) -> bool {
    forall|i: int, j: int, source: B::Source|
        #[trigger] builder.makes(i, source) == #[trigger] builder.makes(j, source)
}

/// Where the place of a record does not matter to a builder, the same source
/// records in another order give the same records built, in another order:
/// there is a fault in both orders or in neither.
pub proof fn lemma_built_same_records<B: Builder>(
    builder: B,
    s1: Seq<B::Source>,
    s2: Seq<B::Source>,
)
    requires
        s1.to_multiset() == s2.to_multiset(),
        ignores_position(builder),
    ensures
        built_by(builder, s1) is Ok <==> built_by(builder, s2) is Ok,
        built_by(builder, s1) is Ok ==> built_by(builder, s1)->Ok_0.to_multiset() == built_by(
            builder,
            s2,
        )->Ok_0.to_multiset(),
{
    let f = |i: int, source: B::Source| builder.makes(i, source);
    assert forall|i: int, j: int, a: B::Source| #[trigger] f(i, a) == #[trigger] f(j, a) by {
        assert(builder.makes(i, a) == builder.makes(j, a));
    }
    lemma_try_map_same_records(s1, s2, f);
}

/// What a builder makes of a sequence of source records of which each
/// gives a run of records: the runs that `f` makes of each, one after the
/// other, or the fault of the first record that has one.
pub open spec fn try_flat_map<A, B>(
    s: Seq<A>,
    f: spec_fn(A) -> Result<Seq<B>, AlignError>,
) -> Result<Seq<B>, AlignError>
    decreases s.len(),
{
    if s.len() == 0 {
        Ok(Seq::<B>::empty())
    } else {
        match try_flat_map(s.drop_last(), f) {
            Err(e) => Err(e),
            Ok(done) => match f(s.last()) {
                Err(e) => Err(e),
                Ok(more) => Ok(done + more),
            },
        }
    }
}

/// A fault among the first records is the fault of the whole.
pub proof fn lemma_try_flat_map_fails<A, B>(
    s: Seq<A>,
    f: spec_fn(A) -> Result<Seq<B>, AlignError>,
    n: int,
)
    requires
        0 <= n <= s.len(),
        try_flat_map(s.take(n), f) is Err,
    ensures
        try_flat_map(s, f) == try_flat_map(s.take(n), f),
    decreases s.len(),
{
    if n < s.len() {
        assert(s.drop_last().take(n) =~= s.take(n));
        lemma_try_flat_map_fails(s.drop_last(), f, n);
    } else {
        assert(s.take(n) =~= s);
    }
}

/// What one more source record, put anywhere among the others, adds to what
/// is built of them: its run of records, wherever they come to stand.
pub proof fn lemma_try_flat_map_insert<A, B>(
    s: Seq<A>,
    j: int,
    x: A,
    f: spec_fn(A) -> Result<Seq<B>, AlignError>,
)
    requires
        0 <= j <= s.len(),
    ensures
        try_flat_map(s.insert(j, x), f) is Ok <==> try_flat_map(s, f) is Ok && f(x) is Ok,
        try_flat_map(s.insert(j, x), f) is Ok ==> try_flat_map(
            s.insert(j, x),
            f,
        )->Ok_0.to_multiset() == try_flat_map(s, f)->Ok_0.to_multiset().add(
            f(x)->Ok_0.to_multiset(),
        ),
    decreases s.len(),
{
    broadcast use group_multiset_axioms;

    let t = s.insert(j, x);
    if j == s.len() {
        assert(t.drop_last() =~= s);
        assert(t.last() == x);
        if try_flat_map(t, f) is Ok {
            lemma_multiset_commutative(try_flat_map(s, f)->Ok_0, f(x)->Ok_0);
        }
    } else {
        let rest = s.drop_last();
        assert(t.drop_last() =~= rest.insert(j, x));
        assert(t.last() == s.last());
        lemma_try_flat_map_insert(rest, j, x, f);
        if try_flat_map(t, f) is Ok {
            let more = f(s.last())->Ok_0;
            lemma_multiset_commutative(try_flat_map(rest.insert(j, x), f)->Ok_0, more);
            lemma_multiset_commutative(try_flat_map(rest, f)->Ok_0, more);
            assert(try_flat_map(t, f)->Ok_0.to_multiset() =~= try_flat_map(
                s,
                f,
            )->Ok_0.to_multiset().add(f(x)->Ok_0.to_multiset()));
        }
    }
}

/// The same source records in another order give the same records built, in
/// another order: there is a fault in both orders or in neither.
pub proof fn lemma_try_flat_map_same_records<A, B>(
    s1: Seq<A>,
    s2: Seq<A>,
    f: spec_fn(A) -> Result<Seq<B>, AlignError>,
)
    requires
        s1.to_multiset() == s2.to_multiset(),
    ensures
        try_flat_map(s1, f) is Ok <==> try_flat_map(s2, f) is Ok,
        try_flat_map(s1, f) is Ok ==> try_flat_map(s1, f)->Ok_0.to_multiset() == try_flat_map(
            s2,
            f,
        )->Ok_0.to_multiset(),
    decreases s1.len(),
{
    to_multiset_len(s1);
    to_multiset_len(s2);
    if s1.len() == 0 {
        assert(s1 =~= s2);
    } else {
        let x = s1.last();
        let rest1 = s1.drop_last();
        assert(s1.contains(x)) by {
            assert(s1[s1.len() - 1] == x);
        }
        to_multiset_contains(s1, x);
        to_multiset_contains(s2, x);
        let j = choose|j: int| 0 <= j < s2.len() && s2[j] == x;
        let rest2 = s2.remove(j);
        assert(rest2.insert(j, x) =~= s2);
        to_multiset_insert(rest2, j, x);
        assert(s1 =~= rest1.push(x));
        to_multiset_build(rest1, x);
        lemma_multiset_cancel(rest1.to_multiset(), rest2.to_multiset(), x);
        lemma_try_flat_map_same_records(rest1, rest2, f);
        lemma_try_flat_map_insert(rest2, j, x, f);
        if try_flat_map(s1, f) is Ok {
            lemma_multiset_commutative(try_flat_map(rest1, f)->Ok_0, f(x)->Ok_0);
        }
    }
}

/// Every record built of a sequence of runs was built of one of the source
/// records, and every record built of a source record is among them.
pub proof fn lemma_try_flat_map_members<A, B>(
    s: Seq<A>,
    f: spec_fn(A) -> Result<Seq<B>, AlignError>,
)
    requires
        try_flat_map(s, f) is Ok,
    ensures
        forall|i: int| 0 <= i < s.len() ==> f(#[trigger] s[i]) is Ok,
        forall|y: B| #[trigger]
            try_flat_map(s, f)->Ok_0.contains(y) <==> exists|i: int|
                0 <= i < s.len() && f(#[trigger] s[i])->Ok_0.contains(y),
    decreases s.len(),
{
    if s.len() > 0 {
        let rest = s.drop_last();
        let n = s.len() - 1;
        lemma_try_flat_map_members(rest, f);
        let done = try_flat_map(rest, f)->Ok_0;
        let more = f(s.last())->Ok_0;
        assert forall|i: int| 0 <= i < s.len() implies f(#[trigger] s[i]) is Ok by {
            if i < n {
                assert(rest[i] == s[i]);
            }
        }
        assert forall|y: B| #[trigger]
            try_flat_map(s, f)->Ok_0.contains(y) <==> exists|i: int|
                0 <= i < s.len() && f(#[trigger] s[i])->Ok_0.contains(y) by {
            if (done + more).contains(y) {
                let p = choose|p: int| 0 <= p < (done + more).len() && (done + more)[p] == y;
                if p < done.len() {
                    assert(done[p] == y);
                    assert(done.contains(y));
                    let i = choose|i: int|
                        0 <= i < rest.len() && f(#[trigger] rest[i])->Ok_0.contains(y);
                    assert(rest[i] == s[i]);
                } else {
                    assert(more[p - done.len()] == y);
                    assert(more.contains(y));
                    assert(s[n] == s.last());
                }
            }
            if exists|i: int| 0 <= i < s.len() && f(#[trigger] s[i])->Ok_0.contains(y) {
                let i = choose|i: int| 0 <= i < s.len() && f(#[trigger] s[i])->Ok_0.contains(y);
                if i < n {
                    assert(rest[i] == s[i]);
                    assert(done.contains(y));
                    let p = choose|p: int| 0 <= p < done.len() && done[p] == y;
                    assert((done + more)[p] == y);
                } else {
                    let p = choose|p: int| 0 <= p < more.len() && more[p] == y;
                    assert((done + more)[done.len() + p] == y);
                }
            }
        }
    } else {
        assert forall|y: B| #[trigger]
            try_flat_map(s, f)->Ok_0.contains(y) <==> exists|i: int|
                0 <= i < s.len() && f(#[trigger] s[i])->Ok_0.contains(y) by {
            if try_flat_map(s, f)->Ok_0.contains(y) {
                let p = choose|p: int| 0 <= p < 0 && Seq::<B>::empty()[p] == y;
            }
        }
    }
}

/// What a call of a builder does to the merged collection: where the
/// sources have no fault, what was built is added and the whole is sorted,
/// ties left in their order; where they have one, the call fails with it and
/// the collection is as it was.
pub open spec fn aligned<T: Keyed>(
    before: Seq<T::V>,
    after: Seq<T::V>,
    built: Result<Seq<T::V>, AlignError>,
    r: Result<(), AlignError>,
) -> bool {
    match built {
        Ok(new) => r is Ok && is_stable_sort::<T>(after, before + new),
        Err(e) => r == Err::<(), AlignError>(e) && after == before,
    }
}

/// A call of a builder has one outcome: whatever meets its contract on the
/// same collection and the same sources leaves the same collection and the
/// same result.
pub proof fn lemma_aligned_unique<T: Keyed>(
    before: Seq<T::V>,
    built: Result<Seq<T::V>, AlignError>,
    after1: Seq<T::V>,
    r1: Result<(), AlignError>,
    after2: Seq<T::V>,
    r2: Result<(), AlignError>,
)
    requires
        aligned::<T>(before, after1, built, r1),
        aligned::<T>(before, after2, built, r2),
    ensures
        after1 == after2,
        r1 == r2,
{
    if built is Ok {
        lemma_stable_sort_unique::<T>(after1, after2, before + built->Ok_0);
        assert(r1->Ok_0 == r2->Ok_0);
    }
}

/// The order in which a source hands out its records does not show in the
/// merged collection: where the place of a record in its source does not
/// matter to the builder and no two records of the collection have the same
/// key, the same source records in another order leave the same collection.
/// There is a fault in both orders or in neither.
pub proof fn lemma_aligned_ignores_source_order<B: Builder>(
    builder: B,
    before: Seq<<B::Target as DeepView>::V>,
    s1: Seq<B::Source>,
    after1: Seq<<B::Target as DeepView>::V>,
    r1: Result<(), AlignError>,
    s2: Seq<B::Source>,
    after2: Seq<<B::Target as DeepView>::V>,
    r2: Result<(), AlignError>,
)
    where
        B::Target: Keyed,
    requires
        s1.to_multiset() == s2.to_multiset(),
        ignores_position(builder),
        aligned::<B::Target>(before, after1, built_by(builder, s1), r1),
        aligned::<B::Target>(before, after2, built_by(builder, s2), r2),
        built_by(builder, s1) is Ok ==> distinct_keys::<B::Target>(
            before + built_by(builder, s1)->Ok_0,
        ),
    ensures
        after1 == after2,
        r1 is Ok <==> r2 is Ok,
{
    lemma_built_same_records(builder, s1, s2);
    if built_by(builder, s1) is Ok {
        let new1 = built_by(builder, s1)->Ok_0;
        let new2 = built_by(builder, s2)->Ok_0;
        lemma_multiset_commutative(before, new1);
        lemma_multiset_commutative(before, new2);
        lemma_stable_sort_ignores_order::<B::Target>(before + new1, before + new2, after1, after2);
    }
}

/// The views of a vector that grew by one record.
proof fn lemma_pushed<T: DeepView>(before: Vec<T>, after: Vec<T>, x: T)
    requires
        after@ == before@.push(x),
    ensures
        after.deep_view() == before.deep_view().push(x.deep_view()),
{
    assert(after.deep_view() =~= before.deep_view().push(x.deep_view()));
}

/// Adds what was built to the merged collection and sorts the whole.
pub(crate) fn commit<T: Keyed>(merged: &mut Vec<T>, built: Vec<T>)
    ensures
        is_stable_sort::<T>(
            final(merged).deep_view(),
            old(merged).deep_view() + built.deep_view(),
        ),
{
    let mut built = built;
    let ghost a = merged.deep_view();
    let ghost b = built.deep_view();
    merged.append(&mut built);
    assert(merged.deep_view() =~= a + b);
    sort(merged);
}

/// Builds a record of every source record and adds it to what was built
/// before, up to the first fault.
pub(crate) fn collect<B: Builder>(
    builder: &B,
    src: &[B::Source],
    built: &mut Vec<B::Target>,
) -> (r: Result<(), AlignError>)
    ensures
        match built_by(*builder, src@) {
            Ok(v) => r is Ok && final(built).deep_view() == old(built).deep_view() + v,
            Err(e) => r == Err::<(), AlignError>(e),
        },
{
    let ghost f = |i: int, source: B::Source| builder.makes(i, source);
    let mut i: usize = 0;
    assert(src@.take(0) =~= Seq::<B::Source>::empty());
    assert(built.deep_view() =~= old(built).deep_view() + Seq::<
        <B::Target as DeepView>::V,
    >::empty());
    while i < src.len()
        invariant
            0 <= i <= src.len(),
            f == |i: int, source: B::Source| builder.makes(i, source),
            try_map(src@.take(i as int), f) is Ok,
            built.deep_view() == old(built).deep_view() + try_map(src@.take(i as int), f)->Ok_0,
        decreases src.len() - i,
    {
        proof {
            lemma_try_map_step(src@, f, i as int);
        }
        match builder.make(i, &src[i]) {
            Err(e) => {
                proof {
                    lemma_try_map_fails(src@, f, i + 1);
                }
                return Err(e);
            },
            Ok(x) => {
                let ghost before = *built;
                built.push(x);
                proof {
                    lemma_pushed(before, *built, x);
                    assert(built.deep_view() =~= old(built).deep_view() + try_map(
                        src@.take(i + 1),
                        f,
                    )->Ok_0);
                }
            },
        }
        i = i + 1;
    }
    assert(src@.take(i as int) =~= src@);
    Ok(())
}

/// Runs a builder: builds a record of every source record, adds them to the
/// merged collection and sorts the whole. Where a source record has a
/// fault, the collection is left as it was.
pub(crate) fn align<B: Builder>(
    builder: &B,
    src: &[B::Source],
    merged: &mut Vec<B::Target>,
) -> (r: Result<(), AlignError>)
    where
        B::Target: Keyed,
    ensures
        aligned::<B::Target>(
            old(merged).deep_view(),
            final(merged).deep_view(),
            built_by(*builder, src@),
            r,
        ),
{
    let mut built: Vec<B::Target> = Vec::new();
    assert(built.deep_view() =~= Seq::<<B::Target as DeepView>::V>::empty());
    match collect(builder, src, &mut built) {
        Err(e) => {
            return Err(e);
        },
        Ok(()) => {},
    }
    commit(merged, built);
    Ok(())
}

} // verus!
