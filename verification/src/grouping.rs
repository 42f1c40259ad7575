//! Rows keyed by the component they belong to.
//!
//! A batched fetch returns the rows of all of a recipe's components in one
//! flat sequence. Grouping splits it into one bucket for each component
//! that has rows, each bucket in the order in which its rows arrived.

use crate::models::{Ingredient, IngredientView, Instruction, InstructionView};
use std::collections::HashMap;
use vstd::prelude::*;

verus! {

/// The ingredient rows of the component `component_id`, in their order.
pub open spec fn ingredients_of(rows: Seq<IngredientView>, component_id: int) -> Seq<
    IngredientView,
> {
    rows.filter(|row: IngredientView| row.component_id == component_id)
}

/// The instruction rows of the component `component_id`, in their order.
pub open spec fn instructions_of(rows: Seq<InstructionView>, component_id: int) -> Seq<
    InstructionView,
> {
    rows.filter(|row: InstructionView| row.component_id == component_id)
}

/// One more row extends the bucket of its own component and no other.
pub proof fn lemma_ingredients_of_next(rows: Seq<IngredientView>, upto: int, component_id: int)
    requires
        0 <= upto < rows.len(),
    ensures
        ingredients_of(rows.take(upto + 1), component_id) == if rows[upto].component_id
            == component_id {
            ingredients_of(rows.take(upto), component_id).push(rows[upto])
        } else {
            ingredients_of(rows.take(upto), component_id)
        },
{
    assert(rows.take(upto + 1) =~= rows.take(upto).push(rows[upto]));
    rows.take(upto).lemma_filter_push(
        rows[upto],
        |row: IngredientView| row.component_id == component_id,
    );
}

/// One more row extends the bucket of its own component and no other.
pub proof fn lemma_instructions_of_next(rows: Seq<InstructionView>, upto: int, component_id: int)
    requires
        0 <= upto < rows.len(),
    ensures
        instructions_of(rows.take(upto + 1), component_id) == if rows[upto].component_id
            == component_id {
            instructions_of(rows.take(upto), component_id).push(rows[upto])
        } else {
            instructions_of(rows.take(upto), component_id)
        },
{
    assert(rows.take(upto + 1) =~= rows.take(upto).push(rows[upto]));
    rows.take(upto).lemma_filter_push(
        rows[upto],
        |row: InstructionView| row.component_id == component_id,
    );
}

/// Groups ingredient rows by component. A component has a bucket exactly
/// when at least one row belongs to it, and its bucket holds its rows in
/// the order of `rows`.
pub fn group_ingredients(rows: Vec<Ingredient>) -> (groups: HashMap<i32, Vec<Ingredient>>)
    ensures
        forall|k: i32| #[trigger]
            groups@.contains_key(k) <==> ingredients_of(rows.deep_view(), k as int).len() > 0,
        forall|k: i32| #[trigger]
            groups@.contains_key(k) ==> groups@[k].deep_view() == ingredients_of(
                rows.deep_view(),
                k as int,
            ),
{
    broadcast use vstd::std_specs::hash::group_hash_axioms;

    let ghost all = rows.deep_view();
    let mut groups: HashMap<i32, Vec<Ingredient>> = HashMap::new();
    assert(all.take(0) =~= Seq::empty());
    for row in it: rows.into_iter()
        invariant
            it.seq().len() == all.len(),
            forall|i: int| 0 <= i < all.len() ==> (#[trigger] it.seq()[i]).deep_view() == all[i],
            forall|k: i32| #[trigger]
                groups@.contains_key(k) <==> ingredients_of(
                    all.take(it.index() as int),
                    k as int,
                ).len() > 0,
            forall|k: i32| #[trigger]
                groups@.contains_key(k) ==> groups@[k].deep_view() == ingredients_of(
                    all.take(it.index() as int),
                    k as int,
                ),
    {
        let ghost upto = it.index() as int;
        let ghost before = groups@;
        let key = row.component_id;
        groups.entry(key).or_insert(Vec::new()).push(row);
        proof {
            assert forall|k: i32| #[trigger]
                groups@.contains_key(k) <==> ingredients_of(all.take(upto + 1), k as int).len()
                    > 0 by {
                lemma_ingredients_of_next(all, upto, k as int);
                assert(before.contains_key(k) <==> ingredients_of(all.take(upto), k as int).len() > 0);
            }
            assert forall|k: i32| #[trigger] groups@.contains_key(k) implies groups@[k].deep_view()
                == ingredients_of(all.take(upto + 1), k as int) by {
                lemma_ingredients_of_next(all, upto, k as int);
                if k == key {
                    if before.contains_key(k) {
                        assert(groups@[k].deep_view() =~= before[k].deep_view().push(all[upto]));
                    } else {
                        assert(ingredients_of(all.take(upto), k as int) =~= Seq::empty());
                        assert(groups@[k].deep_view() =~= Seq::empty().push(all[upto]));
                    }
                } else {
                    assert(before.contains_key(k));
                }
            }
        }
    }
    assert(all.take(all.len() as int) =~= all);
    groups
}

/// Groups instruction rows by component. A component has a bucket exactly
/// when at least one row belongs to it, and its bucket holds its rows in
/// the order of `rows`.
pub fn group_instructions(rows: Vec<Instruction>) -> (groups: HashMap<i32, Vec<Instruction>>)
    ensures
        forall|k: i32| #[trigger]
            groups@.contains_key(k) <==> instructions_of(rows.deep_view(), k as int).len() > 0,
        forall|k: i32| #[trigger]
            groups@.contains_key(k) ==> groups@[k].deep_view() == instructions_of(
                rows.deep_view(),
                k as int,
            ),
{
    broadcast use vstd::std_specs::hash::group_hash_axioms;

    let ghost all = rows.deep_view();
    let mut groups: HashMap<i32, Vec<Instruction>> = HashMap::new();
    assert(all.take(0) =~= Seq::empty());
    for row in it: rows.into_iter()
        invariant
            it.seq().len() == all.len(),
            forall|i: int| 0 <= i < all.len() ==> (#[trigger] it.seq()[i]).deep_view() == all[i],
            forall|k: i32| #[trigger]
                groups@.contains_key(k) <==> instructions_of(
                    all.take(it.index() as int),
                    k as int,
                ).len() > 0,
            forall|k: i32| #[trigger]
                groups@.contains_key(k) ==> groups@[k].deep_view() == instructions_of(
                    all.take(it.index() as int),
                    k as int,
                ),
    {
        let ghost upto = it.index() as int;
        let ghost before = groups@;
        let key = row.component_id;
        groups.entry(key).or_insert(Vec::new()).push(row);
        proof {
            assert forall|k: i32| #[trigger]
                groups@.contains_key(k) <==> instructions_of(all.take(upto + 1), k as int).len()
                    > 0 by {
                lemma_instructions_of_next(all, upto, k as int);
                assert(before.contains_key(k) <==> instructions_of(all.take(upto), k as int).len() > 0);
            }
            assert forall|k: i32| #[trigger] groups@.contains_key(k) implies groups@[k].deep_view()
                == instructions_of(all.take(upto + 1), k as int) by {
                lemma_instructions_of_next(all, upto, k as int);
                if k == key {
                    if before.contains_key(k) {
                        assert(groups@[k].deep_view() =~= before[k].deep_view().push(all[upto]));
                    } else {
                        assert(instructions_of(all.take(upto), k as int) =~= Seq::empty());
                        assert(groups@[k].deep_view() =~= Seq::empty().push(all[upto]));
                    }
                } else {
                    assert(before.contains_key(k));
                }
            }
        }
    }
    assert(all.take(all.len() as int) =~= all);
    groups
}

} // verus!
