//! The listing of positions: most recently created first, records created at
//! the same time in the order in which the store returned them, and at most
//! one page of them.

use crate::position::{LedgerError, PositionRow, StoreError};
use vstd::prelude::*;
use vstd::seq_lib::to_multiset_insert;

verus! {

/// The number of records on a page of the listing.
pub const PAGE_SIZE: usize = 100;

/// No record comes before one that was created later.
pub open spec fn is_recent_first(rows: Seq<PositionRow>) -> bool {
    forall|i: int, j: int|
        0 <= i < j < rows.len() ==> (#[trigger] rows[i]).created_at >= (#[trigger] rows[j]).created_at
}

/// Where a record created at `at` enters `rows`: behind the leading records
/// that were created later than `at`.
pub open spec fn slot(rows: Seq<PositionRow>, at: int) -> int
    decreases rows.len(),
{
    if rows.len() == 0 || rows[0].created_at <= at {
        0
    } else {
        1 + slot(rows.skip(1), at)
    }
}

/// The records of `rows`, most recently created first. Each record enters the
/// ordered records that follow it in front of those that are not newer, so
/// records of one creation time stay in the order they had.
pub open spec fn recent_first(rows: Seq<PositionRow>) -> Seq<PositionRow>
    decreases rows.len(),
{
    if rows.len() == 0 {
        rows
    } else {
        let rest = recent_first(rows.skip(1));
        rest.insert(slot(rest, rows[0].created_at as int), rows[0])
    }
}

/// The first page of the listing of `rows`.
pub open spec fn recent_page(rows: Seq<PositionRow>) -> Seq<PositionRow> {
    let ordered = recent_first(rows);
    if ordered.len() <= PAGE_SIZE {
        ordered
    } else {
        ordered.subrange(0, PAGE_SIZE as int)
    }
}

/// The slot lies within the records, every record in front of it is newer
/// than `at`, and the record at it, if there is one, is not.
pub proof fn lemma_slot(rows: Seq<PositionRow>, at: int)
    ensures
        0 <= slot(rows, at) <= rows.len(),
        forall|j: int| 0 <= j < slot(rows, at) ==> (#[trigger] rows[j]).created_at > at,
        slot(rows, at) < rows.len() ==> rows[slot(rows, at)].created_at <= at,
    decreases rows.len(),
{
    if rows.len() == 0 || rows[0].created_at <= at {
    } else {
        let tail = rows.skip(1);
        lemma_slot(tail, at);
        assert forall|j: int| 0 <= j < slot(rows, at) implies (#[trigger] rows[j]).created_at
            > at by {
            if j > 0 {
                assert(rows[j] == tail[j - 1]);
            }
        }
        if slot(rows, at) < rows.len() {
            assert(rows[slot(rows, at)] == tail[slot(tail, at)]);
        }
    }
}

/// Ordering keeps the number of records.
pub proof fn lemma_recent_first_len(rows: Seq<PositionRow>)
    ensures
        recent_first(rows).len() == rows.len(),
    decreases rows.len(),
{
    if rows.len() > 0 {
        let rest = recent_first(rows.skip(1));
        lemma_recent_first_len(rows.skip(1));
        lemma_slot(rest, rows[0].created_at as int);
    }
}

/// The ordered records are most recently created first.
pub proof fn lemma_recent_first_is_ordered(rows: Seq<PositionRow>)
    ensures
        is_recent_first(recent_first(rows)),
    decreases rows.len(),
{
    if rows.len() > 0 {
        let first = rows[0];
        let rest = recent_first(rows.skip(1));
        let at = first.created_at as int;
        let index = slot(rest, at);
        let ordered = rest.insert(index, first);
        lemma_recent_first_is_ordered(rows.skip(1));
        lemma_slot(rest, at);
        assert forall|i: int, j: int| 0 <= i < j < ordered.len() implies (
        #[trigger] ordered[i]).created_at >= (#[trigger] ordered[j]).created_at by {
            if j < index {
                assert(ordered[i] == rest[i] && ordered[j] == rest[j]);
            } else if j == index {
                assert(ordered[i] == rest[i]);
            } else if i < index {
                assert(ordered[i] == rest[i] && ordered[j] == rest[j - 1]);
            } else if i == index {
                assert(ordered[j] == rest[j - 1]);
                if index < j - 1 {
                    assert(rest[index].created_at >= rest[j - 1].created_at);
                }
            } else {
                assert(ordered[i] == rest[i - 1] && ordered[j] == rest[j - 1]);
            }
        }
    }
}

/// Ordering neither drops a record nor adds one: the ordered records are the
/// given ones, each as often as it was given.
pub proof fn lemma_recent_first_is_permutation(rows: Seq<PositionRow>)
    ensures
        recent_first(rows).to_multiset() == rows.to_multiset(),
    decreases rows.len(),
{
    if rows.len() > 0 {
        let rest = recent_first(rows.skip(1));
        lemma_recent_first_is_permutation(rows.skip(1));
        lemma_slot(rest, rows[0].created_at as int);
        to_multiset_insert(rest, slot(rest, rows[0].created_at as int), rows[0]);
        to_multiset_insert(rows.skip(1), 0, rows[0]);
        assert(rows.skip(1).insert(0, rows[0]) =~= rows);
    }
}

/// The records of `rows` that were created at `at`, in their order.
pub open spec fn records_created_at(rows: Seq<PositionRow>, at: int) -> Seq<PositionRow> {
    rows.filter(|row: PositionRow| row.created_at == at)
}

/// Ordering is stable: the records of one creation time come out in the
/// order in which they went in.
pub proof fn lemma_recent_first_is_stable(rows: Seq<PositionRow>, at: int)
    ensures
        records_created_at(recent_first(rows), at) == records_created_at(rows, at),
    decreases rows.len(),
{
    if rows.len() > 0 {
        let same = |row: PositionRow| row.created_at == at;
        let first = rows[0];
        let tail = rows.skip(1);
        let rest = recent_first(tail);
        let index = slot(rest, first.created_at as int);
        let front = rest.take(index);
        let back = rest.skip(index);
        lemma_recent_first_is_stable(tail, at);
        lemma_slot(rest, first.created_at as int);
        assert(rest =~= front + back);
        assert(rest.insert(index, first) =~= (front + seq![first]) + back);
        assert(rows =~= seq![first] + tail);
        Seq::filter_distributes_over_add(front, back, same);
        Seq::filter_distributes_over_add(front + seq![first], back, same);
        Seq::filter_distributes_over_add(front, seq![first], same);
        Seq::filter_distributes_over_add(seq![first], tail, same);
        if first.created_at == at {
            assert(front.all(|row: PositionRow| !same(row))) by {
                assert forall|i: int| 0 <= i < front.len() implies !same(#[trigger] front[i]) by {
                    assert(front[i] == rest[i]);
                }
            }
            front.lemma_all_neg_filter_empty(same);
            assert(front.filter(same) =~= Seq::<PositionRow>::empty());
            assert(records_created_at(recent_first(rows), at) =~= records_created_at(rows, at));
        } else {
            assert(seq![first].all(|row: PositionRow| !same(row)));
            seq![first].lemma_all_neg_filter_empty(same);
            assert(seq![first].filter(same) =~= Seq::<PositionRow>::empty());
            assert(records_created_at(recent_first(rows), at) =~= records_created_at(rows, at));
        }
    }
}

proof fn lemma_created_at_step(rows: Seq<PositionRow>, at: int)
    requires
        rows.len() > 0,
    ensures
        records_created_at(rows, at) == if rows.last().created_at == at {
            records_created_at(rows.drop_last(), at).push(rows.last())
        } else {
            records_created_at(rows.drop_last(), at)
        },
{
    reveal(Seq::filter);
}

proof fn lemma_created_at_some(rows: Seq<PositionRow>, at: int)
    ensures
        records_created_at(rows, at).len() > 0 <==> exists|i: int|
            0 <= i < rows.len() && (#[trigger] rows[i]).created_at == at,
{
    let same = |row: PositionRow| row.created_at == at;
    let kept = rows.filter(same);
    if kept.len() > 0 {
        rows.lemma_filter_pred(same, 0);
        assert(kept.contains(kept[0]));
        rows.lemma_filter_contains_rev(same, kept[0]);
        let i = choose|i: int| 0 <= i < rows.len() && rows[i] == kept[0];
        assert(rows[i].created_at == at);
    }
    if exists|i: int| 0 <= i < rows.len() && (#[trigger] rows[i]).created_at == at {
        let i = choose|i: int| 0 <= i < rows.len() && (#[trigger] rows[i]).created_at == at;
        rows.lemma_filter_contains(same, i);
    }
}

proof fn lemma_drop_last_is_ordered(rows: Seq<PositionRow>)
    requires
        rows.len() > 0,
        is_recent_first(rows),
    ensures
        is_recent_first(rows.drop_last()),
{
    let front = rows.drop_last();
    assert forall|i: int, j: int| 0 <= i < j < front.len() implies (#[trigger] front[i]).created_at
        >= (#[trigger] front[j]).created_at by {
        assert(front[i] == rows[i] && front[j] == rows[j]);
    }
}

proof fn lemma_ordered_with_same_times_are_equal(a: Seq<PositionRow>, b: Seq<PositionRow>)
    requires
        is_recent_first(a),
        is_recent_first(b),
        forall|at: int| #[trigger] records_created_at(a, at) == records_created_at(b, at),
    ensures
        a == b,
    decreases a.len(),
{
    if a.len() == 0 {
        if b.len() > 0 {
            let at = b[0].created_at as int;
            lemma_created_at_some(b, at);
            lemma_created_at_some(a, at);
            assert(records_created_at(a, at) == records_created_at(b, at));
        }
        assert(a =~= b);
    } else {
        let x = a.last();
        let t0 = x.created_at as int;
        lemma_created_at_step(a, t0);
        lemma_created_at_some(a, t0);
        lemma_created_at_some(b, t0);
        assert(records_created_at(a, t0) == records_created_at(b, t0));
        let i = choose|i: int| 0 <= i < b.len() && (#[trigger] b[i]).created_at == t0;
        let y = b.last();
        let t1 = y.created_at as int;
        assert(t0 >= t1) by {
            if i < b.len() - 1 {
                assert(b[i].created_at >= b[b.len() - 1].created_at);
            }
        }
        lemma_created_at_step(b, t1);
        lemma_created_at_some(a, t1);
        lemma_created_at_some(b, t1);
        assert(records_created_at(a, t1) == records_created_at(b, t1));
        let j = choose|j: int| 0 <= j < a.len() && (#[trigger] a[j]).created_at == t1;
        assert(t1 >= t0) by {
            if j < a.len() - 1 {
                assert(a[j].created_at >= a[a.len() - 1].created_at);
            }
        }
        let front_a = a.drop_last();
        let front_b = b.drop_last();
        let kept_a = records_created_at(front_a, t0);
        let kept_b = records_created_at(front_b, t0);
        assert(kept_a.push(x) == kept_b.push(y));
        assert(x == y) by {
            assert(kept_a.push(x).last() == x);
            assert(kept_b.push(y).last() == y);
        }
        assert(kept_a == kept_b) by {
            assert(kept_a.push(x).drop_last() =~= kept_a);
            assert(kept_b.push(y).drop_last() =~= kept_b);
        }
        assert forall|at: int| #[trigger]
            records_created_at(front_a, at) == records_created_at(front_b, at) by {
            lemma_created_at_step(a, at);
            lemma_created_at_step(b, at);
            assert(records_created_at(a, at) == records_created_at(b, at));
        }
        lemma_drop_last_is_ordered(a);
        lemma_drop_last_is_ordered(b);
        lemma_ordered_with_same_times_are_equal(front_a, front_b);
        assert(a =~= front_a.push(x));
        assert(b =~= front_b.push(y));
    }
}

/// The listing is the only arrangement of the records that is most recently
/// created first and keeps the records of each creation time in their order.
pub proof fn lemma_recent_first_is_unique(rows: Seq<PositionRow>, other: Seq<PositionRow>)
    requires
        is_recent_first(other),
        forall|at: int| #[trigger] records_created_at(other, at) == records_created_at(rows, at),
    ensures
        other == recent_first(rows),
{
    lemma_recent_first_is_ordered(rows);
    assert forall|at: int| #[trigger]
        records_created_at(other, at) == records_created_at(recent_first(rows), at) by {
        lemma_recent_first_is_stable(rows, at);
        assert(records_created_at(other, at) == records_created_at(rows, at));
    }
    lemma_ordered_with_same_times_are_equal(other, recent_first(rows));
}

/// Records that are already most recently created first stay as they are.
pub proof fn lemma_recent_first_keeps_ordered(rows: Seq<PositionRow>)
    requires
        is_recent_first(rows),
    ensures
        recent_first(rows) == rows,
    decreases rows.len(),
{
    if rows.len() > 0 {
        let tail = rows.skip(1);
        assert forall|i: int, j: int| 0 <= i < j < tail.len() implies (
        #[trigger] tail[i]).created_at >= (#[trigger] tail[j]).created_at by {
            assert(tail[i] == rows[i + 1] && tail[j] == rows[j + 1]);
        }
        lemma_recent_first_keeps_ordered(tail);
        if tail.len() > 0 {
            assert(tail[0] == rows[1]);
            assert(rows[0].created_at >= rows[1].created_at);
        }
        assert(tail.insert(0, rows[0]) =~= rows);
    }
}

/// The page holds the first records of the ordered listing, as many as there
/// are up to the page size, most recently created first; and of an ordered
/// listing that fits on a page it is the whole.
pub proof fn lemma_recent_page(rows: Seq<PositionRow>)
    ensures
        recent_page(rows).len() == if rows.len() <= PAGE_SIZE {
            rows.len()
        } else {
            PAGE_SIZE as nat
        },
        recent_page(rows) == recent_first(rows).take(recent_page(rows).len() as int),
        is_recent_first(recent_page(rows)),
        is_recent_first(rows) && rows.len() <= PAGE_SIZE ==> recent_page(rows) == rows,
{
    let ordered = recent_first(rows);
    let page = recent_page(rows);
    lemma_recent_first_len(rows);
    lemma_recent_first_is_ordered(rows);
    assert(page =~= ordered.take(page.len() as int));
    assert forall|i: int, j: int| 0 <= i < j < page.len() implies (#[trigger] page[i]).created_at
        >= (#[trigger] page[j]).created_at by {
        assert(page[i] == ordered[i] && page[j] == ordered[j]);
    }
    if is_recent_first(rows) {
        lemma_recent_first_keeps_ordered(rows);
    }
}

fn insertion_slot(ordered: &Vec<PositionRow>, at: i64) -> (index: usize)
    ensures
        index == slot(ordered@, at as int),
        index <= ordered.len(),
{
    let mut index: usize = 0;
    assert(ordered@.skip(0) =~= ordered@);
    while index < ordered.len() && ordered[index].created_at > at
        invariant
            index <= ordered.len(),
            slot(ordered@, at as int) == index + slot(ordered@.skip(index as int), at as int),
        decreases ordered.len() - index,
    {
        proof {
            let here = ordered@.skip(index as int);
            assert(here[0] == ordered@[index as int]);
            assert(here.skip(1) =~= ordered@.skip(index + 1));
        }
        index = index + 1;
    }
    proof {
        let here = ordered@.skip(index as int);
        if index < ordered.len() {
            assert(here[0] == ordered@[index as int]);
        }
    }
    index
}

/// Answers a listing, given the records that the store returned: the first
/// page of them, most recently created first, or a persistence failure when
/// the store returned none.
pub fn list_positions(found: Result<Vec<PositionRow>, StoreError>) -> (result: Result<
    Vec<PositionRow>,
    LedgerError,
>)
    ensures
        found is Err ==> result == Err::<Vec<PositionRow>, LedgerError>(
            LedgerError::PersistenceFailure,
        ),
        found matches Ok(rows) ==> result matches Ok(page) && page@ == recent_page(rows@),
        result matches Ok(page) ==> page.len() <= PAGE_SIZE && is_recent_first(page@),
{
    match found {
        Err(_) => Err(LedgerError::PersistenceFailure),
        Ok(rows) => {
            let ghost all = rows@;
            let mut rest = rows;
            let mut ordered: Vec<PositionRow> = Vec::new();
            assert(all.skip(all.len() as int) =~= Seq::<PositionRow>::empty());
            assert(all.take(all.len() as int) =~= all);
            while rest.len() > 0
                invariant
                    rest.len() <= all.len(),
                    rest@ == all.take(rest.len() as int),
                    ordered@ == recent_first(all.skip(rest.len() as int)),
                decreases rest.len(),
            {
                let ghost before = rest.len() as int;
                let row = rest.pop().unwrap();
                let index = insertion_slot(&ordered, row.created_at);
                proof {
                    let tail = all.skip(before - 1);
                    assert(tail[0] == row);
                    assert(tail.skip(1) =~= all.skip(before));
                    assert(rest@ =~= all.take(before - 1));
                }
                ordered.insert(index, row);
            }
            assert(all.skip(0) =~= all);
            ordered.truncate(PAGE_SIZE);
            proof {
                lemma_recent_page(all);
            }
            Ok(ordered)
        },
    }
}

} // verus!
