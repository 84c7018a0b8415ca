//! The constraint classifier: partitions a table's constraint sets into
//! column-scoped (exactly one covered position) and table-scoped (any
//! other arity) groups, merging the constraints of sets that share a
//! key. Classification is purely arity-based; no constraint kind is
//! filtered here.

use vstd::prelude::*;

use crate::column::Position;
use crate::constraint::{merge_view, ConstraintMap, ConstraintMapView, ConstraintSet};

verus! {

/// `x` inserted in front of the first element of `s` not below it.
pub open spec fn insert_sorted(x: Position, s: Seq<Position>) -> Seq<Position>
    decreases s.len(),
{
    if s.len() == 0 {
        seq![x]
    } else if x <= s[0] {
        seq![x] + s
    } else {
        seq![s[0]] + insert_sorted(x, s.skip(1))
    }
}

/// `s` rearranged into ascending order by insertion.
pub open spec fn sort_seq(s: Seq<Position>) -> Seq<Position>
    decreases s.len(),
{
    if s.len() == 0 {
        Seq::empty()
    } else {
        insert_sorted(s[0], sort_seq(s.skip(1)))
    }
}

/// Inserting grows a sequence by exactly one element.
pub proof fn lemma_insert_sorted_len(x: Position, s: Seq<Position>)
    ensures
        insert_sorted(x, s).len() == s.len() + 1,
    decreases s.len(),
{
    if s.len() > 0 && !(x <= s[0]) {
        lemma_insert_sorted_len(x, s.skip(1));
    }
}

/// Sorting preserves length.
pub proof fn lemma_sort_seq_len(s: Seq<Position>)
    ensures
        sort_seq(s).len() == s.len(),
    decreases s.len(),
{
    if s.len() > 0 {
        lemma_sort_seq_len(s.skip(1));
        lemma_insert_sorted_len(s[0], sort_seq(s.skip(1)));
    }
}

/// Whether a position list is in ascending order.
pub open spec fn ascending(s: Seq<Position>) -> bool {
    forall|i: int, j: int| 0 <= i < j < s.len() ==> s[i] <= s[j]
}

/// Insertion keeps a sequence ascending, and begins with the smaller of
/// `x` and the old head.
pub proof fn lemma_insert_sorted_ordered(x: Position, s: Seq<Position>)
    requires
        ascending(s),
    ensures
        ascending(insert_sorted(x, s)),
        insert_sorted(x, s)[0] == if s.len() == 0 || x <= s[0] {
            x
        } else {
            s[0]
        },
    decreases s.len(),
{
    lemma_insert_sorted_len(x, s);
    if s.len() == 0 {
    } else if x <= s[0] {
        let r = seq![x] + s;
        assert forall|i: int, j: int| 0 <= i < j < r.len() implies r[i] <= r[j] by {
            if i > 0 {
                assert(s[i - 1] <= s[j - 1]);
            } else if j > 1 {
                assert(s[0] <= s[j - 1]);
            }
        }
    } else {
        assert forall|i: int, j: int| 0 <= i < j < s.skip(1).len() implies s.skip(1)[i] <= s.skip(
            1,
        )[j] by {
            assert(s[i + 1] <= s[j + 1]);
        }
        lemma_insert_sorted_ordered(x, s.skip(1));
        let inner = insert_sorted(x, s.skip(1));
        let r = seq![s[0]] + inner;
        assert forall|i: int, j: int| 0 <= i < j < r.len() implies r[i] <= r[j] by {
            if i > 0 {
                assert(inner[i - 1] <= inner[j - 1]);
            } else if j > 1 {
                assert(inner[0] <= inner[j - 1]);
                assert(s[0] <= inner[0]);
            } else {
                assert(s[0] <= inner[0]);
            }
        }
    }
}

/// Sorting returns an ascending sequence.
pub proof fn lemma_sort_seq_ordered(s: Seq<Position>)
    ensures
        ascending(sort_seq(s)),
    decreases s.len(),
{
    if s.len() > 0 {
        lemma_sort_seq_ordered(s.skip(1));
        lemma_insert_sorted_ordered(s[0], sort_seq(s.skip(1)));
    }
}

/// Insertion adds exactly the inserted element.
pub proof fn lemma_insert_sorted_multiset(x: Position, s: Seq<Position>)
    ensures
        insert_sorted(x, s).to_multiset() == s.to_multiset().insert(x),
    decreases s.len(),
{
    broadcast use vstd::seq_lib::group_to_multiset_ensures;

    if s.len() == 0 {
        assert(seq![x] =~= Seq::<Position>::empty().push(x));
        assert(insert_sorted(x, s).to_multiset() =~= s.to_multiset().insert(x));
    } else if x <= s[0] {
        vstd::seq_lib::lemma_multiset_commutative(seq![x], s);
        assert(seq![x] =~= Seq::<Position>::empty().push(x));
        assert(insert_sorted(x, s).to_multiset() =~= s.to_multiset().insert(x));
    } else {
        lemma_insert_sorted_multiset(x, s.skip(1));
        vstd::seq_lib::lemma_multiset_commutative(seq![s[0]], insert_sorted(x, s.skip(1)));
        assert(s =~= seq![s[0]] + s.skip(1));
        vstd::seq_lib::lemma_multiset_commutative(seq![s[0]], s.skip(1));
        assert(insert_sorted(x, s).to_multiset() =~= s.to_multiset().insert(x));
    }
}

/// Sorting permutes: the sorted list holds exactly the positions it
/// was given, multiplicities included.
pub proof fn lemma_sort_seq_multiset(s: Seq<Position>)
    ensures
        sort_seq(s).to_multiset() == s.to_multiset(),
    decreases s.len(),
{
    broadcast use vstd::seq_lib::group_to_multiset_ensures;

    if s.len() > 0 {
        lemma_sort_seq_multiset(s.skip(1));
        lemma_insert_sorted_multiset(s[0], sort_seq(s.skip(1)));
        assert(s =~= seq![s[0]] + s.skip(1));
        vstd::seq_lib::lemma_multiset_commutative(seq![s[0]], s.skip(1));
        assert(seq![s[0]] =~= Seq::<Position>::empty().push(s[0]));
        assert(sort_seq(s).to_multiset() =~= s.to_multiset());
    }
}

/// Inserting at the first position whose element is not below `x` is
/// the same as the recursive insertion.
proof fn lemma_insert_sorted_at(x: Position, s: Seq<Position>, idx: int)
    requires
        0 <= idx <= s.len(),
        forall|k: int| 0 <= k < idx ==> s[k] < x,
        idx == s.len() || x <= s[idx],
    ensures
        insert_sorted(x, s) == s.insert(idx, x),
    decreases s.len(),
{
    if s.len() == 0 {
        assert(insert_sorted(x, s) =~= s.insert(0, x));
    } else if idx == 0 {
        assert(insert_sorted(x, s) =~= s.insert(0, x));
    } else {
        assert(s[0] < x);
        lemma_insert_sorted_at(x, s.skip(1), idx - 1);
        assert(seq![s[0]] + s.skip(1).insert(idx - 1, x) =~= s.insert(idx, x));
    }
}

/// Inserts `x` into the ascending vector `v`, keeping it ascending.
fn insert_position(x: Position, v: Vec<Position>) -> (r: Vec<Position>)
    ensures
        r@ == insert_sorted(x, v@),
{
    let mut v = v;
    let mut idx: usize = 0;
    while idx < v.len() && v[idx] < x
        invariant
            idx <= v@.len(),
            forall|k: int| 0 <= k < idx ==> v@[k] < x,
        decreases v@.len() - idx,
    {
        idx += 1;
    }
    proof {
        lemma_insert_sorted_at(x, v@, idx as int);
    }
    v.insert(idx, x);
    v
}

/// Returns `v` sorted ascending.
pub fn sort_positions(v: &Vec<Position>) -> (r: Vec<Position>)
    ensures
        r@ == sort_seq(v@),
{
    let mut r: Vec<Position> = Vec::new();
    let mut i: usize = v.len();
    proof {
        assert(v@.skip(v@.len() as int) =~= Seq::<Position>::empty());
    }
    while i > 0
        invariant
            i <= v@.len(),
            r@ == sort_seq(v@.skip(i as int)),
        decreases i,
    {
        i -= 1;
        r = insert_position(v[i], r);
        proof {
            assert(v@.skip(i as int)[0] == v@[i as int]);
            assert(v@.skip(i as int).skip(1) =~= v@.skip(i as int + 1));
        }
    }
    proof {
        assert(v@.skip(0) =~= v@);
    }
    r
}

/// The constraint maps contributed to column position `p`: those of the
/// sets covering exactly the one position `p`, in order.
pub open spec fn singleton_maps(sets: Seq<ConstraintSet>, p: Position) -> Seq<ConstraintMapView>
    decreases sets.len(),
{
    if sets.len() == 0 {
        Seq::empty()
    } else {
        let rest = singleton_maps(sets.drop_last(), p);
        let s = sets.last();
        if s.columns@.len() == 1 && s.columns@[0] == p {
            rest.push(s.constraint_map@)
        } else {
            rest
        }
    }
}

/// The constraint maps contributed to the sorted column list `key`:
/// those of the sets covering more (or fewer) than one position, whose
/// sorted position list is `key`, in order.
pub open spec fn multi_maps(sets: Seq<ConstraintSet>, key: Seq<Position>) -> Seq<ConstraintMapView>
    decreases sets.len(),
{
    if sets.len() == 0 {
        Seq::empty()
    } else {
        let rest = multi_maps(sets.drop_last(), key);
        let s = sets.last();
        if s.columns@.len() != 1 && sort_seq(s.columns@) == key {
            rest.push(s.constraint_map@)
        } else {
            rest
        }
    }
}

/// The kind-wise merge of a group of constraint maps, left to right.
pub open spec fn merge_fold(ms: Seq<ConstraintMapView>) -> ConstraintMapView
    decreases ms.len(),
{
    if ms.len() == 0 {
        ConstraintMapView {
            check: None,
            exclusion: None,
            foreign_key: None,
            primary_key: None,
            uniqueness: None,
        }
    } else if ms.len() == 1 {
        ms[0]
    } else {
        merge_view(merge_fold(ms.drop_last()), ms.last())
    }
}

/// Whether an entry for position `p` exists.
pub open spec fn has_column_key(entries: Seq<(Position, ConstraintMap)>, p: Position) -> bool {
    exists|e: int| 0 <= e < entries.len() && (#[trigger] entries[e]).0 == p
}

/// Whether an entry for the sorted position list `key` exists.
pub open spec fn has_table_key(entries: Seq<(Vec<Position>, ConstraintMap)>, key: Seq<Position>) -> bool {
    exists|e: int| 0 <= e < entries.len() && (#[trigger] entries[e]).0@ == key
}

/// A set covering exactly one position contributes to that position's
/// column-constraint group.
pub proof fn lemma_singleton_contributes(sets: Seq<ConstraintSet>, i: int)
    requires
        0 <= i < sets.len(),
        sets[i].columns@.len() == 1,
    ensures
        singleton_maps(sets, sets[i].columns@[0]).len() > 0,
    decreases sets.len(),
{
    if i < sets.len() - 1 {
        lemma_singleton_contributes(sets.drop_last(), i);
    }
}

/// A set covering any other number of positions contributes to the
/// group of its sorted position list.
pub proof fn lemma_multi_contributes(sets: Seq<ConstraintSet>, i: int)
    requires
        0 <= i < sets.len(),
        sets[i].columns@.len() != 1,
    ensures
        multi_maps(sets, sort_seq(sets[i].columns@)).len() > 0,
    decreases sets.len(),
{
    if i < sets.len() - 1 {
        lemma_multi_contributes(sets.drop_last(), i);
    }
}

/// A non-empty table-constraint group comes from some set whose column
/// list does not cover exactly one position.
pub proof fn lemma_multi_source(sets: Seq<ConstraintSet>, key: Seq<Position>)
    requires
        multi_maps(sets, key).len() > 0,
    ensures
        exists|i: int|
            0 <= i < sets.len() && (#[trigger] sets[i]).columns@.len() != 1 && sort_seq(
                sets[i].columns@,
            ) == key,
    decreases sets.len(),
{
    let s = sets.last();
    if s.columns@.len() != 1 && sort_seq(s.columns@) == key {
        assert(sets[sets.len() - 1] == s);
    } else {
        lemma_multi_source(sets.drop_last(), key);
        let i = choose|i: int|
            0 <= i < sets.drop_last().len() && (#[trigger] sets.drop_last()[i]).columns@.len() != 1
                && sort_seq(sets.drop_last()[i].columns@) == key;
        assert(sets[i] == sets.drop_last()[i]);
    }
}

/// The two constraint groups of one table, keyed by single column
/// position and by sorted column-position list respectively.
#[derive(Debug)]
pub struct PartitionedConstraints {
    /// Column constraints: one entry per position covered by exactly
    /// one-element column lists, its maps merged in order.
    pub by_column: Vec<(Position, ConstraintMap)>,
    /// Table constraints: one entry per distinct sorted column list of
    /// the remaining sets, their maps merged in order.
    pub by_columns: Vec<(Vec<Position>, ConstraintMap)>,
}

/// Whether two position vectors hold the same positions in order.
fn positions_eq(a: &Vec<Position>, b: &Vec<Position>) -> (r: bool)
    ensures
        r == (a@ == b@),
{
    if a.len() != b.len() {
        proof {
            assert(a@ != b@);
        }
        return false;
    }
    let mut i: usize = 0;
    while i < a.len()
        invariant
            i <= a@.len(),
            a@.len() == b@.len(),
            forall|k: int| 0 <= k < i ==> a@[k] == b@[k],
        decreases a@.len() - i,
    {
        if a[i] != b[i] {
            proof {
                assert(a@ != b@);
            }
            return false;
        }
        i += 1;
    }
    proof {
        assert(a@ =~= b@);
    }
    true
}

/// Appending one map to a non-empty group merges it at the right.
proof fn lemma_merge_fold_push(ms: Seq<ConstraintMapView>, m: ConstraintMapView)
    requires
        ms.len() > 0,
    ensures
        merge_fold(ms.push(m)) == merge_view(merge_fold(ms), m),
{
    assert(ms.push(m).drop_last() =~= ms);
}

/// Merges the constraint maps of every set covering exactly the one
/// position `p`, or returns `None` when no set does.
fn merge_for_column(sets: &Vec<ConstraintSet>, p: Position) -> (r: Option<ConstraintMap>)
    ensures
        r is Some <==> singleton_maps(sets@, p).len() > 0,
        r is Some ==> r->0@ == merge_fold(singleton_maps(sets@, p)),
{
    let mut acc: Option<ConstraintMap> = None;
    let mut j: usize = 0;
    while j < sets.len()
        invariant
            j <= sets@.len(),
            acc is Some <==> singleton_maps(sets@.take(j as int), p).len() > 0,
            acc is Some ==> acc->0@ == merge_fold(singleton_maps(sets@.take(j as int), p)),
        decreases sets@.len() - j,
    {
        proof {
            assert(sets@.take(j as int + 1).drop_last() =~= sets@.take(j as int));
            assert(sets@.take(j as int + 1).last() == sets@[j as int]);
        }
        let set = &sets[j];
        if set.columns.len() == 1 && set.columns[0] == p {
            let m = set.constraint_map.clone();
            proof {
                let prev = singleton_maps(sets@.take(j as int), p);
                assert(singleton_maps(sets@.take(j as int + 1), p) == prev.push(
                    set.constraint_map@,
                ));
                if prev.len() > 0 {
                    lemma_merge_fold_push(prev, set.constraint_map@);
                } else {
                    assert(prev.push(set.constraint_map@) =~= seq![set.constraint_map@]);
                }
            }
            acc = match acc {
                None => Some(m),
                Some(a) => Some(a.merge(m)),
            };
        }
        j += 1;
    }
    proof {
        assert(sets@.take(sets@.len() as int) =~= sets@);
    }
    acc
}

/// Merges the constraint maps of every set whose column list does not
/// cover exactly one position and sorts to `key`, or returns `None`
/// when no set does.
fn merge_for_columns(sets: &Vec<ConstraintSet>, key: &Vec<Position>) -> (r: Option<ConstraintMap>)
    ensures
        r is Some <==> multi_maps(sets@, key@).len() > 0,
        r is Some ==> r->0@ == merge_fold(multi_maps(sets@, key@)),
{
    let mut acc: Option<ConstraintMap> = None;
    let mut j: usize = 0;
    while j < sets.len()
        invariant
            j <= sets@.len(),
            acc is Some <==> multi_maps(sets@.take(j as int), key@).len() > 0,
            acc is Some ==> acc->0@ == merge_fold(multi_maps(sets@.take(j as int), key@)),
        decreases sets@.len() - j,
    {
        proof {
            assert(sets@.take(j as int + 1).drop_last() =~= sets@.take(j as int));
            assert(sets@.take(j as int + 1).last() == sets@[j as int]);
        }
        let set = &sets[j];
        if set.columns.len() != 1 {
            let sorted = sort_positions(&set.columns);
            if positions_eq(&sorted, key) {
                let m = set.constraint_map.clone();
                proof {
                    let prev = multi_maps(sets@.take(j as int), key@);
                    assert(multi_maps(sets@.take(j as int + 1), key@) == prev.push(
                        set.constraint_map@,
                    ));
                    if prev.len() > 0 {
                        lemma_merge_fold_push(prev, set.constraint_map@);
                    } else {
                        assert(prev.push(set.constraint_map@) =~= seq![set.constraint_map@]);
                    }
                }
                acc = match acc {
                    None => Some(m),
                    Some(a) => Some(a.merge(m)),
                };
            }
        }
        j += 1;
    }
    proof {
        assert(sets@.take(sets@.len() as int) =~= sets@);
    }
    acc
}

/// Splits a table's constraint sets into column-scoped and table-scoped
/// groups. A set whose column list has exactly one element lands under
/// that position in `by_column`; every other set lands under its sorted
/// column list in `by_columns`. Sets sharing a key have their
/// constraints merged kind by kind, in order.
pub fn partition_constraints(sets: &Vec<ConstraintSet>) -> (r: PartitionedConstraints)
    ensures
        forall|e1: int, e2: int|
            0 <= e1 < e2 < r.by_column@.len() ==> (#[trigger] r.by_column@[e1]).0 != (
            #[trigger] r.by_column@[e2]).0,
        forall|e1: int, e2: int|
            0 <= e1 < e2 < r.by_columns@.len() ==> (#[trigger] r.by_columns@[e1]).0@ != (
            #[trigger] r.by_columns@[e2]).0@,
        forall|p: Position|
            has_column_key(r.by_column@, p) <==> #[trigger] singleton_maps(sets@, p).len() > 0,
        forall|k: Seq<Position>|
            has_table_key(r.by_columns@, k) <==> #[trigger] multi_maps(sets@, k).len() > 0,
        forall|e: int|
            0 <= e < r.by_column@.len() ==> (#[trigger] r.by_column@[e]).1@ == merge_fold(
                singleton_maps(sets@, r.by_column@[e].0),
            ),
        forall|e: int|
            0 <= e < r.by_columns@.len() ==> (#[trigger] r.by_columns@[e]).1@ == merge_fold(
                multi_maps(sets@, r.by_columns@[e].0@),
            ),
        // Arity decides the side: a one-column set's position is keyed in
        // `by_column`, every other set's sorted list in `by_columns`, and
        // no `by_columns` key has length one.
        forall|i: int|
            0 <= i < sets@.len() && (#[trigger] sets@[i]).columns@.len() == 1 ==> has_column_key(
                r.by_column@,
                sets@[i].columns@[0],
            ),
        forall|i: int|
            0 <= i < sets@.len() && (#[trigger] sets@[i]).columns@.len() != 1 ==> has_table_key(
                r.by_columns@,
                sort_seq(sets@[i].columns@),
            ),
        forall|e: int| 0 <= e < r.by_columns@.len() ==> (#[trigger] r.by_columns@[e]).0@.len() != 1,
{
    let mut by_column: Vec<(Position, ConstraintMap)> = Vec::new();
    let mut by_columns: Vec<(Vec<Position>, ConstraintMap)> = Vec::new();
    let mut n: usize = 0;
    while n < sets.len()
        invariant
            n <= sets@.len(),
            forall|e1: int, e2: int|
                0 <= e1 < e2 < by_column@.len() ==> (#[trigger] by_column@[e1]).0 != (
                #[trigger] by_column@[e2]).0,
            forall|e1: int, e2: int|
                0 <= e1 < e2 < by_columns@.len() ==> (#[trigger] by_columns@[e1]).0@ != (
                #[trigger] by_columns@[e2]).0@,
            forall|p: Position|
                has_column_key(by_column@, p) <==> #[trigger] singleton_maps(
                    sets@.take(n as int),
                    p,
                ).len() > 0,
            forall|k: Seq<Position>|
                has_table_key(by_columns@, k) <==> #[trigger] multi_maps(
                    sets@.take(n as int),
                    k,
                ).len() > 0,
            forall|e: int|
                0 <= e < by_column@.len() ==> (#[trigger] by_column@[e]).1@ == merge_fold(
                    singleton_maps(sets@, by_column@[e].0),
                ),
            forall|e: int|
                0 <= e < by_columns@.len() ==> (#[trigger] by_columns@[e]).1@ == merge_fold(
                    multi_maps(sets@, by_columns@[e].0@),
                ),
        decreases sets@.len() - n,
    {
        proof {
            assert(sets@.take(n as int + 1).drop_last() =~= sets@.take(n as int));
            assert(sets@.take(n as int + 1).last() == sets@[n as int]);
        }
        let set = &sets[n];
        if set.columns.len() == 1 {
            let p = set.columns[0];
            let mut e: usize = 0;
            let mut found = false;
            while e < by_column.len() && !found
                invariant
                    e <= by_column@.len(),
                    !found ==> forall|k: int| 0 <= k < e ==> (#[trigger] by_column@[k]).0 != p,
                    found ==> has_column_key(by_column@, p),
                decreases by_column@.len() - e, (if found { 0int } else { 1int }),
            {
                if by_column[e].0 == p {
                    found = true;
                } else {
                    e += 1;
                }
            }
            if !found {
                let merged = merge_for_column(sets, p);
                proof {
                    lemma_singleton_contributes(sets@, n as int);
                }
                let ghost before = by_column@;
                by_column.push((p, merged.unwrap()));
                proof {
                    assert forall|q: Position|
                        has_column_key(by_column@, q) <==> #[trigger] singleton_maps(
                            sets@.take(n as int + 1),
                            q,
                        ).len() > 0 by {
                        assert(singleton_maps(sets@.take(n as int + 1), q)
                            == if q == p {
                            singleton_maps(sets@.take(n as int), q).push(set.constraint_map@)
                        } else {
                            singleton_maps(sets@.take(n as int), q)
                        });
                        if q == p {
                            assert(by_column@[by_column@.len() - 1].0 == p);
                            assert(has_column_key(by_column@, p));
                        } else {
                            if has_column_key(before, q) {
                                let w = choose|w: int|
                                    0 <= w < before.len() && (#[trigger] before[w]).0 == q;
                                assert(by_column@[w].0 == q);
                            }
                            if has_column_key(by_column@, q) {
                                let w = choose|w: int|
                                    0 <= w < by_column@.len() && (#[trigger] by_column@[w]).0 == q;
                                assert(w < before.len() && before[w].0 == q);
                            }
                        }
                    }
                }
            } else {
                proof {
                    assert forall|q: Position|
                        has_column_key(by_column@, q) <==> #[trigger] singleton_maps(
                            sets@.take(n as int + 1),
                            q,
                        ).len() > 0 by {
                        assert(singleton_maps(sets@.take(n as int + 1), q)
                            == if q == p {
                            singleton_maps(sets@.take(n as int), q).push(set.constraint_map@)
                        } else {
                            singleton_maps(sets@.take(n as int), q)
                        });
                    }
                }
            }
            proof {
                assert forall|q: Seq<Position>|
                    has_table_key(by_columns@, q) <==> #[trigger] multi_maps(
                        sets@.take(n as int + 1),
                        q,
                    ).len() > 0 by {
                    assert(multi_maps(sets@.take(n as int + 1), q) == multi_maps(
                        sets@.take(n as int),
                        q,
                    ));
                }
            }
        } else {
            let key = sort_positions(&set.columns);
            let ghost kk = key@;
            let mut e: usize = 0;
            let mut found = false;
            while e < by_columns.len() && !found
                invariant
                    kk == key@,
                    e <= by_columns@.len(),
                    !found ==> forall|j: int| 0 <= j < e ==> (#[trigger] by_columns@[j]).0@ != kk,
                    found ==> has_table_key(by_columns@, kk),
                decreases by_columns@.len() - e, (if found { 0int } else { 1int }),
            {
                if positions_eq(&by_columns[e].0, &key) {
                    found = true;
                } else {
                    e += 1;
                }
            }
            if !found {
                let merged = merge_for_columns(sets, &key);
                proof {
                    lemma_multi_contributes(sets@, n as int);
                }
                let ghost before = by_columns@;
                by_columns.push((key, merged.unwrap()));
                proof {
                    assert forall|q: Seq<Position>|
                        has_table_key(by_columns@, q) <==> #[trigger] multi_maps(
                            sets@.take(n as int + 1),
                            q,
                        ).len() > 0 by {
                        assert(multi_maps(sets@.take(n as int + 1), q)
                            == if q == kk {
                            multi_maps(sets@.take(n as int), q).push(set.constraint_map@)
                        } else {
                            multi_maps(sets@.take(n as int), q)
                        });
                        if q == kk {
                            assert(by_columns@[by_columns@.len() - 1].0@ == kk);
                            assert(has_table_key(by_columns@, kk));
                        } else {
                            if has_table_key(before, q) {
                                let w = choose|w: int|
                                    0 <= w < before.len() && (#[trigger] before[w]).0@ == q;
                                assert(by_columns@[w].0@ == q);
                            }
                            if has_table_key(by_columns@, q) {
                                let w = choose|w: int|
                                    0 <= w < by_columns@.len() && (#[trigger] by_columns@[w]).0@
                                        == q;
                                assert(w < before.len() && before[w].0@ == q);
                            }
                        }
                    }
                }
            } else {
                proof {
                    assert forall|q: Seq<Position>|
                        has_table_key(by_columns@, q) <==> #[trigger] multi_maps(
                            sets@.take(n as int + 1),
                            q,
                        ).len() > 0 by {
                        assert(multi_maps(sets@.take(n as int + 1), q)
                            == if q == kk {
                            multi_maps(sets@.take(n as int), q).push(set.constraint_map@)
                        } else {
                            multi_maps(sets@.take(n as int), q)
                        });
                    }
                }
            }
            proof {
                assert forall|q: Position|
                    has_column_key(by_column@, q) <==> #[trigger] singleton_maps(
                        sets@.take(n as int + 1),
                        q,
                    ).len() > 0 by {
                    assert(singleton_maps(sets@.take(n as int + 1), q) == singleton_maps(
                        sets@.take(n as int),
                        q,
                    ));
                }
            }
        }
        n += 1;
    }
    proof {
        assert(sets@.take(sets@.len() as int) =~= sets@);
        assert forall|i: int|
            0 <= i < sets@.len() && (#[trigger] sets@[i]).columns@.len() == 1 implies has_column_key(
            by_column@,
            sets@[i].columns@[0],
        ) by {
            lemma_singleton_contributes(sets@, i);
        }
        assert forall|i: int|
            0 <= i < sets@.len() && (#[trigger] sets@[i]).columns@.len() != 1 implies has_table_key(
            by_columns@,
            sort_seq(sets@[i].columns@),
        ) by {
            lemma_multi_contributes(sets@, i);
        }
        assert forall|e: int| 0 <= e < by_columns@.len() implies (
        #[trigger] by_columns@[e]).0@.len() != 1 by {
            lemma_multi_source(sets@, by_columns@[e].0@);
            let i = choose|i: int|
                0 <= i < sets@.len() && (#[trigger] sets@[i]).columns@.len() != 1 && sort_seq(
                    sets@[i].columns@,
                ) == by_columns@[e].0@;
            lemma_sort_seq_len(sets@[i].columns@);
        }
    }
    PartitionedConstraints { by_column, by_columns }
}

impl PartitionedConstraints {
    /// Looks up the merged column constraints of position `p`.
    pub fn column_constraints(&self, p: Position) -> (r: Option<&ConstraintMap>)
        ensures
            r is Some <==> has_column_key(self.by_column@, p),
            r is Some ==> exists|e: int|
                0 <= e < self.by_column@.len() && (#[trigger] self.by_column@[e]).0 == p && *r->0
                    == self.by_column@[e].1,
    {
        let mut e: usize = 0;
        while e < self.by_column.len()
            invariant
                e <= self.by_column@.len(),
                forall|k: int| 0 <= k < e ==> (#[trigger] self.by_column@[k]).0 != p,
            decreases self.by_column@.len() - e,
        {
            if self.by_column[e].0 == p {
                return Some(&self.by_column[e].1);
            }
            e += 1;
        }
        None
    }

    /// Looks up the merged table constraints of the sorted position
    /// list `key`.
    pub fn table_constraints(&self, key: &Vec<Position>) -> (r: Option<&ConstraintMap>)
        ensures
            r is Some <==> has_table_key(self.by_columns@, key@),
            r is Some ==> exists|e: int|
                0 <= e < self.by_columns@.len() && (#[trigger] self.by_columns@[e]).0@ == key@ && *r
                    ->0 == self.by_columns@[e].1,
    {
        let mut e: usize = 0;
        while e < self.by_columns.len()
            invariant
                e <= self.by_columns@.len(),
                forall|k: int| 0 <= k < e ==> (#[trigger] self.by_columns@[k]).0@ != key@,
            decreases self.by_columns@.len() - e,
        {
            if positions_eq(&self.by_columns[e].0, key) {
                return Some(&self.by_columns[e].1);
            }
            e += 1;
        }
        None
    }
}

} // verus!
