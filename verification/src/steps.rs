//! The order in which a component's instructions are read: ascending by
//! step, rows of equal step in the order in which they arrived.

use crate::models::{Instruction, InstructionView};
use vstd::prelude::*;
use vstd::seq_lib::{to_multiset_build, to_multiset_insert};

verus! {

/// Whether `rows` reads in ascending order of step.
pub open spec fn in_step_order(rows: Seq<InstructionView>) -> bool {
    forall|i: int, j: int| 0 <= i <= j < rows.len() ==> rows[i].step <= rows[j].step
}

/// The rows of `rows` that carry the given step, in their order.
pub open spec fn rows_at_step(rows: Seq<InstructionView>, step: int) -> Seq<InstructionView> {
    rows.filter(|row: InstructionView| row.step == step)
}

/// The place at which a row of the given step joins `rows`: directly behind
/// the last row whose step is not greater.
pub open spec fn landing(rows: Seq<InstructionView>, step: int) -> int
    decreases rows.len(),
{
    if rows.len() == 0 || rows.last().step <= step {
        rows.len() as int
    } else {
        landing(rows.drop_last(), step)
    }
}

/// `rows` in step order: each row in turn joins the rows before it at its
/// landing place, so rows of equal step keep their order of arrival.
pub open spec fn by_step(rows: Seq<InstructionView>) -> Seq<InstructionView>
    decreases rows.len(),
{
    if rows.len() == 0 {
        Seq::empty()
    } else {
        let earlier = by_step(rows.drop_last());
        earlier.insert(landing(earlier, rows.last().step), rows.last())
    }
}

/// The landing place lies within `rows`. Every row from it on has a greater
/// step, and the row directly before it has not.
pub proof fn lemma_landing(rows: Seq<InstructionView>, step: int)
    ensures
        0 <= landing(rows, step) <= rows.len(),
        forall|i: int| landing(rows, step) <= i < rows.len() ==> rows[i].step > step,
        landing(rows, step) > 0 ==> rows[landing(rows, step) - 1].step <= step,
    decreases rows.len(),
{
    if rows.len() == 0 || rows.last().step <= step {
    } else {
        let earlier = rows.drop_last();
        lemma_landing(earlier, step);
        assert forall|i: int| landing(rows, step) <= i < rows.len() implies rows[i].step
            > step by {
            if i < earlier.len() {
                assert(rows[i] == earlier[i]);
            }
        }
    }
}

/// A row that joins at its landing place adds itself to the rows of its own
/// step, behind those already there, and leaves the rows of every other
/// step as they were.
pub proof fn lemma_landing_keeps_rows(
    rows: Seq<InstructionView>,
    row: InstructionView,
    step: int,
)
    ensures
        rows_at_step(rows.insert(landing(rows, row.step), row), step) == if row.step == step {
            rows_at_step(rows, step).push(row)
        } else {
            rows_at_step(rows, step)
        },
{
    let at = landing(rows, row.step);
    let of_step = |r: InstructionView| r.step == step;
    let front = rows.take(at);
    let back = rows.skip(at);
    lemma_landing(rows, row.step);
    assert(rows =~= front + back);
    assert(rows.insert(at, row) =~= front.push(row) + back);
    Seq::filter_distributes_over_add(front, back, of_step);
    Seq::filter_distributes_over_add(front.push(row), back, of_step);
    front.lemma_filter_push(row, of_step);
    if row.step == step {
        assert(back.all(|r: InstructionView| !of_step(r)));
        back.lemma_all_neg_filter_empty(of_step);
        assert(back.filter(of_step) =~= Seq::empty());
        assert(front.filter(of_step) + Seq::<InstructionView>::empty() =~= front.filter(of_step));
        assert(front.filter(of_step).push(row) + Seq::<InstructionView>::empty()
            =~= front.filter(of_step).push(row));
    } else {
        assert(front.push(row).filter(of_step) == front.filter(of_step));
    }
}

/// Sorting by step yields step order and keeps the number of rows.
pub proof fn lemma_by_step_ordered(rows: Seq<InstructionView>)
    ensures
        in_step_order(by_step(rows)),
        by_step(rows).len() == rows.len(),
    decreases rows.len(),
{
    if rows.len() > 0 {
        let earlier = by_step(rows.drop_last());
        let row = rows.last();
        let at = landing(earlier, row.step);
        lemma_by_step_ordered(rows.drop_last());
        lemma_landing(earlier, row.step);
        let joined = earlier.insert(at, row);
        assert forall|i: int, j: int| 0 <= i <= j < joined.len() implies joined[i].step
            <= joined[j].step by {
            if i < at && at <= j {
                assert(earlier[i].step <= earlier[at - 1].step);
            }
        }
    }
}

/// Sorting by step is stable and loses nothing: for every step, the rows
/// that carry it come out as they went in, in the same order.
pub proof fn lemma_by_step_keeps_rows(rows: Seq<InstructionView>, step: int)
    ensures
        rows_at_step(by_step(rows), step) == rows_at_step(rows, step),
    decreases rows.len(),
{
    if rows.len() == 0 {
        assert(rows =~= Seq::empty());
    } else {
        let earlier = by_step(rows.drop_last());
        lemma_by_step_keeps_rows(rows.drop_last(), step);
        lemma_landing_keeps_rows(earlier, rows.last(), step);
        rows.drop_last().lemma_filter_push(rows.last(), |r: InstructionView| r.step == step);
        assert(rows.drop_last().push(rows.last()) =~= rows);
    }
}

/// Sorting by step rearranges the rows: each occurs as often as before.
pub proof fn lemma_by_step_rearranges(rows: Seq<InstructionView>)
    ensures
        by_step(rows).to_multiset() == rows.to_multiset(),
    decreases rows.len(),
{
    if rows.len() == 0 {
        assert(rows =~= Seq::empty());
    } else {
        let earlier = by_step(rows.drop_last());
        lemma_by_step_rearranges(rows.drop_last());
        lemma_landing(earlier, rows.last().step);
        to_multiset_insert(earlier, landing(earlier, rows.last().step), rows.last());
        to_multiset_build(rows.drop_last(), rows.last());
        assert(rows.drop_last().push(rows.last()) =~= rows);
    }
}

/// Rows that arrive in step order stay as they are.
pub proof fn lemma_by_step_of_ordered(rows: Seq<InstructionView>)
    requires
        in_step_order(rows),
    ensures
        by_step(rows) == rows,
    decreases rows.len(),
{
    if rows.len() == 0 {
        assert(rows =~= Seq::empty());
    } else {
        let earlier = rows.drop_last();
        lemma_by_step_of_ordered(earlier);
        if earlier.len() > 0 {
            assert(earlier.last() == rows[rows.len() - 2]);
        }
        assert(earlier.insert(earlier.len() as int, rows.last()) =~= rows);
    }
}

/// Taking the last row away takes it from the rows of its step and leaves
/// the rows of every other step as they were.
proof fn lemma_rows_at_step_drop_last(rows: Seq<InstructionView>, step: int)
    requires
        rows.len() > 0,
    ensures
        rows.last().step == step ==> rows_at_step(rows, step).len() > 0 && rows_at_step(
            rows,
            step,
        ).last() == rows.last() && rows_at_step(rows.drop_last(), step) == rows_at_step(
            rows,
            step,
        ).drop_last(),
        rows.last().step != step ==> rows_at_step(rows.drop_last(), step) == rows_at_step(
            rows,
            step,
        ),
{
    let of_step = |r: InstructionView| r.step == step;
    rows.drop_last().lemma_filter_push(rows.last(), of_step);
    assert(rows.drop_last().push(rows.last()) =~= rows);
    if rows.last().step == step {
        assert(rows_at_step(rows, step).drop_last() =~= rows_at_step(rows.drop_last(), step));
    }
}

/// Where the rows of some step are not none, one of the rows has that step.
proof fn lemma_rows_at_step_witness(rows: Seq<InstructionView>, step: int) -> (at: int)
    requires
        rows_at_step(rows, step).len() > 0,
    ensures
        0 <= at < rows.len(),
        rows[at].step == step,
{
    let of_step = |r: InstructionView| r.step == step;
    let found = rows.filter(of_step)[0];
    rows.lemma_filter_pred(of_step, 0);
    assert(rows.filter(of_step).contains(found));
    rows.lemma_filter_contains_rev(of_step, found);
    choose|at: int| 0 <= at < rows.len() && rows[at] == found
}

/// Two sequences in step order that hold the same rows at every step, in
/// the same order, are the same sequence.
pub proof fn lemma_step_order_unique(one: Seq<InstructionView>, other: Seq<InstructionView>)
    requires
        in_step_order(one),
        in_step_order(other),
        forall|step: int| rows_at_step(one, step) == rows_at_step(other, step),
    ensures
        one == other,
    decreases one.len(),
{
    if one.len() == 0 || other.len() == 0 {
        if one.len() > 0 {
            lemma_rows_at_step_drop_last(one, one.last().step);
            assert(rows_at_step(other, one.last().step).len() > 0);
            let at = lemma_rows_at_step_witness(other, one.last().step);
        }
        if other.len() > 0 {
            lemma_rows_at_step_drop_last(other, other.last().step);
            assert(rows_at_step(one, other.last().step).len() > 0);
            let at = lemma_rows_at_step_witness(one, other.last().step);
        }
        assert(one =~= other);
    } else {
        let high = one.last().step;
        let other_high = other.last().step;
        lemma_rows_at_step_drop_last(one, high);
        lemma_rows_at_step_drop_last(other, other_high);
        assert(rows_at_step(other, high).len() > 0);
        assert(rows_at_step(one, other_high).len() > 0);
        let in_other = lemma_rows_at_step_witness(other, high);
        let in_one = lemma_rows_at_step_witness(one, other_high);
        assert(other[in_other].step <= other[other.len() - 1].step);
        assert(one[in_one].step <= one[one.len() - 1].step);
        assert(high == other_high);
        assert(one.last() == other.last());
        assert forall|step: int|
            rows_at_step(one.drop_last(), step) == rows_at_step(other.drop_last(), step) by {
            lemma_rows_at_step_drop_last(one, step);
            lemma_rows_at_step_drop_last(other, step);
        }
        assert(in_step_order(one.drop_last())) by {
            assert forall|i: int, j: int| 0 <= i <= j < one.drop_last().len() implies one.drop_last()[i].step
                <= one.drop_last()[j].step by {
                assert(one[i].step <= one[j].step);
            }
        }
        assert(in_step_order(other.drop_last())) by {
            assert forall|i: int, j: int|
                0 <= i <= j < other.drop_last().len() implies other.drop_last()[i].step
                <= other.drop_last()[j].step by {
                assert(other[i].step <= other[j].step);
            }
        }
        lemma_step_order_unique(one.drop_last(), other.drop_last());
        assert(one =~= one.drop_last().push(one.last()));
        assert(other =~= other.drop_last().push(other.last()));
    }
}

/// Sorting by step is the only rearrangement that is in step order and
/// keeps, for every step, the rows of that step in their order.
pub proof fn lemma_by_step_is_the_stable_order(
    rows: Seq<InstructionView>,
    sorted: Seq<InstructionView>,
)
    requires
        in_step_order(sorted),
        forall|step: int| rows_at_step(sorted, step) == rows_at_step(rows, step),
    ensures
        sorted == by_step(rows),
{
    lemma_by_step_ordered(rows);
    assert forall|step: int| rows_at_step(sorted, step) == rows_at_step(by_step(rows), step) by {
        lemma_by_step_keeps_rows(rows, step);
    }
    lemma_step_order_unique(sorted, by_step(rows));
}

/// Sorts instruction rows by step. The sort is stable, and a run of rows
/// that already arrives in step order costs one comparison per row.
pub fn sort_by_step(rows: Vec<Instruction>) -> (sorted: Vec<Instruction>)
    ensures
        sorted.deep_view() == by_step(rows.deep_view()),
{
    let ghost all = rows.deep_view();
    let mut sorted: Vec<Instruction> = Vec::new();
    for row in it: rows.into_iter()
        invariant
            it.seq().len() == all.len(),
            forall|i: int| 0 <= i < all.len() ==> (#[trigger] it.seq()[i]).deep_view() == all[i],
            sorted.deep_view() == by_step(all.take(it.index() as int)),
    {
        let ghost before = sorted.deep_view();
        let ghost step = row.step as int;
        let mut at: usize = sorted.len();
        assert(before.take(at as int) =~= before);
        while at > 0 && sorted[at - 1].step > row.step
            invariant
                at <= sorted.len(),
                sorted.deep_view() == before,
                step == row.step,
                landing(before, step) == landing(before.take(at as int), step),
            decreases at,
        {
            assert(before.take(at as int).drop_last() =~= before.take(at - 1));
            at -= 1;
        }
        sorted.insert(at, row);
        proof {
            let seen = all.take(it.index() as int);
            let next = all.take(it.index() + 1);
            assert(next.drop_last() =~= seen);
            assert(sorted.deep_view() =~= before.insert(at as int, row.deep_view()));
        }
    }
    assert(all.take(all.len() as int) =~= all);
    sorted
}

} // verus!
