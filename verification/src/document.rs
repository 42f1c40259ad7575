//! What the nested document of a recipe holds, as a function of the recipe's
//! header, its components and the flat rows fetched for them.

use crate::grouping::{ingredients_of, instructions_of};
use crate::models::{
    FullComponentView, FullRecipeView, IngredientView, InstructionView, RecipeComponentView,
    RecipeView,
};
use crate::steps::{by_step, in_step_order, lemma_by_step_ordered, lemma_by_step_rearranges};
use vstd::prelude::*;
use vstd::seq_lib::{lemma_multiset_commutative, to_multiset_build, to_multiset_contains};

verus! {

/// Whether one of the first `upto` components has the given id.
pub open spec fn taken_before(components: Seq<RecipeComponentView>, upto: int, id: int) -> bool {
    exists|j: int| 0 <= j < upto && (#[trigger] components[j]).id == id
}

/// Whether the component at `at` is the first one with its id. The rows of
/// an id go to the first component that has it, and to no other.
pub open spec fn first_of_its_id(components: Seq<RecipeComponentView>, at: int) -> bool {
    !taken_before(components, at, components[at].id)
}

/// The component at `at` with its rows: its ingredients in the order of
/// `ingredients`, its instructions in step order.
pub open spec fn full_component(
    components: Seq<RecipeComponentView>,
    at: int,
    ingredients: Seq<IngredientView>,
    instructions: Seq<InstructionView>,
) -> FullComponentView {
    let component = components[at];
    if first_of_its_id(components, at) {
        FullComponentView {
            id: component.id,
            name: component.name,
            ingredients: ingredients_of(ingredients, component.id),
            instructions: by_step(instructions_of(instructions, component.id)),
        }
    } else {
        FullComponentView {
            id: component.id,
            name: component.name,
            ingredients: Seq::empty(),
            instructions: Seq::empty(),
        }
    }
}

/// The components with their rows, in the order of `components`.
pub open spec fn full_components(
    components: Seq<RecipeComponentView>,
    ingredients: Seq<IngredientView>,
    instructions: Seq<InstructionView>,
) -> Seq<FullComponentView> {
    Seq::new(
        components.len(),
        |at: int| full_component(components, at, ingredients, instructions),
    )
}

/// The nested document of `recipe`.
pub open spec fn full_recipe(
    recipe: RecipeView,
    components: Seq<RecipeComponentView>,
    ingredients: Seq<IngredientView>,
    instructions: Seq<InstructionView>,
) -> FullRecipeView {
    FullRecipeView {
        id: recipe.id,
        name: recipe.name,
        components: full_components(components, ingredients, instructions),
    }
}

/// One more component takes its own id and no other.
pub proof fn lemma_taken_next(components: Seq<RecipeComponentView>, upto: int, id: int)
    requires
        0 <= upto < components.len(),
    ensures
        taken_before(components, upto + 1, id) <==> taken_before(components, upto, id)
            || components[upto].id == id,
{
    if taken_before(components, upto + 1, id) {
        let j = choose|j: int| 0 <= j < upto + 1 && (#[trigger] components[j]).id == id;
        if j < upto {
            assert(taken_before(components, upto, id));
        }
    }
    if taken_before(components, upto, id) {
        let j = choose|j: int| 0 <= j < upto && (#[trigger] components[j]).id == id;
        assert(0 <= j < upto + 1 && components[j].id == id);
    }
    if components[upto].id == id {
        assert(0 <= upto < upto + 1 && components[upto].id == id);
    }
}

/// All ingredient rows of a document, component after component.
pub open spec fn placed_ingredients(parts: Seq<FullComponentView>) -> Seq<IngredientView>
    decreases parts.len(),
{
    if parts.len() == 0 {
        Seq::empty()
    } else {
        placed_ingredients(parts.drop_last()) + parts.last().ingredients
    }
}

/// All instruction rows of a document, component after component.
pub open spec fn placed_instructions(parts: Seq<FullComponentView>) -> Seq<InstructionView>
    decreases parts.len(),
{
    if parts.len() == 0 {
        Seq::empty()
    } else {
        placed_instructions(parts.drop_last()) + parts.last().instructions
    }
}

/// The ingredient rows that name one of the first `upto` components.
pub open spec fn ingredients_in_scope(
    rows: Seq<IngredientView>,
    components: Seq<RecipeComponentView>,
    upto: int,
) -> Seq<IngredientView> {
    rows.filter(|row: IngredientView| taken_before(components, upto, row.component_id))
}

/// The instruction rows that name one of the first `upto` components.
pub open spec fn instructions_in_scope(
    rows: Seq<InstructionView>,
    components: Seq<RecipeComponentView>,
    upto: int,
) -> Seq<InstructionView> {
    rows.filter(|row: InstructionView| taken_before(components, upto, row.component_id))
}

/// A recipe without components has a document without components.
pub proof fn lemma_no_components(
    recipe: RecipeView,
    ingredients: Seq<IngredientView>,
    instructions: Seq<InstructionView>,
)
    ensures
        full_recipe(recipe, Seq::empty(), ingredients, instructions) == (FullRecipeView {
            id: recipe.id,
            name: recipe.name,
            components: Seq::empty(),
        }),
{
    assert(full_components(Seq::empty(), ingredients, instructions) =~= Seq::empty());
}

/// A component that no ingredient row names has the empty sequence of
/// ingredients, and one that no instruction row names has the empty
/// sequence of instructions.
pub proof fn lemma_no_rows(
    components: Seq<RecipeComponentView>,
    at: int,
    ingredients: Seq<IngredientView>,
    instructions: Seq<InstructionView>,
)
    requires
        0 <= at < components.len(),
    ensures
        (forall|i: int|
            0 <= i < ingredients.len() ==> (#[trigger] ingredients[i]).component_id
                != components[at].id) ==> full_component(
            components,
            at,
            ingredients,
            instructions,
        ).ingredients == Seq::<IngredientView>::empty(),
        (forall|i: int|
            0 <= i < instructions.len() ==> (#[trigger] instructions[i]).component_id
                != components[at].id) ==> full_component(
            components,
            at,
            ingredients,
            instructions,
        ).instructions == Seq::<InstructionView>::empty(),
{
    let id = components[at].id;
    if forall|i: int|
        0 <= i < ingredients.len() ==> (#[trigger] ingredients[i]).component_id != id {
        let named = |row: IngredientView| row.component_id == id;
        assert(ingredients.all(|row: IngredientView| !named(row)));
        ingredients.lemma_all_neg_filter_empty(named);
        assert(ingredients_of(ingredients, id) =~= Seq::empty());
    }
    if forall|i: int|
        0 <= i < instructions.len() ==> (#[trigger] instructions[i]).component_id != id {
        let named = |row: InstructionView| row.component_id == id;
        assert(instructions.all(|row: InstructionView| !named(row)));
        instructions.lemma_all_neg_filter_empty(named);
        assert(instructions_of(instructions, id) =~= Seq::empty());
    }
}

/// Whether a component's rows are its own: every row names it, and its
/// instructions read in ascending order of step.
pub open spec fn coherent_component(part: FullComponentView) -> bool {
    &&& forall|i: int|
        0 <= i < part.ingredients.len() ==> (#[trigger] part.ingredients[i]).component_id
            == part.id
    &&& forall|i: int|
        0 <= i < part.instructions.len() ==> (#[trigger] part.instructions[i]).component_id
            == part.id
    &&& in_step_order(part.instructions)
}

/// Whether every component of a document is coherent.
pub open spec fn coherent(document: FullRecipeView) -> bool {
    forall|at: int|
        0 <= at < document.components.len() ==> coherent_component(
            #[trigger] document.components[at],
        )
}

/// Every row of a component names that component, and the instructions of
/// every component read in ascending order of step, in whatever order the
/// rows were fetched.
pub proof fn lemma_component_coherent(
    components: Seq<RecipeComponentView>,
    at: int,
    ingredients: Seq<IngredientView>,
    instructions: Seq<InstructionView>,
)
    ensures
        coherent_component(full_component(components, at, ingredients, instructions)),
{
    broadcast use Seq::lemma_filter_pred;

    let id = components[at].id;
    let part = full_component(components, at, ingredients, instructions);
    let steps = instructions_of(instructions, id);
    lemma_by_step_ordered(steps);
    assert forall|i: int| 0 <= i < part.instructions.len() implies (
    #[trigger] part.instructions[i]).component_id == id by {
        let row = part.instructions[i];
        lemma_by_step_rearranges(steps);
        assert(by_step(steps)[i] == row);
        to_multiset_contains(by_step(steps), row);
        to_multiset_contains(steps, row);
        assert(steps.contains(row));
        let j = choose|j: int| 0 <= j < steps.len() && steps[j] == row;
        assert(steps[j].component_id == id);
    }
}

/// The document of a recipe is coherent, whatever rows were fetched.
pub proof fn lemma_document_coherent(
    recipe: RecipeView,
    components: Seq<RecipeComponentView>,
    ingredients: Seq<IngredientView>,
    instructions: Seq<InstructionView>,
)
    ensures
        coherent(full_recipe(recipe, components, ingredients, instructions)),
{
    let document = full_recipe(recipe, components, ingredients, instructions);
    assert forall|at: int| 0 <= at < document.components.len() implies coherent_component(
        #[trigger] document.components[at],
    ) by {
        lemma_component_coherent(components, at, ingredients, instructions);
    }
}

/// Of two components with one id, the later holds no rows: together with
/// the coherence of each component, no row stands under two components.
pub proof fn lemma_one_component_per_id(
    components: Seq<RecipeComponentView>,
    at: int,
    later: int,
    ingredients: Seq<IngredientView>,
    instructions: Seq<InstructionView>,
)
    requires
        0 <= at < later < components.len(),
        components[at].id == components[later].id,
    ensures
        full_component(components, later, ingredients, instructions).ingredients
            == Seq::<IngredientView>::empty(),
        full_component(components, later, ingredients, instructions).instructions
            == Seq::<InstructionView>::empty(),
{
    assert(taken_before(components, later, components[later].id));
}

/// Of two sets of rows picked from one sequence by conditions that exclude
/// each other, the rows picked by either condition are those picked by the
/// one together with those picked by the other.
proof fn lemma_filter_split<A>(
    rows: Seq<A>,
    either: spec_fn(A) -> bool,
    one: spec_fn(A) -> bool,
    other: spec_fn(A) -> bool,
)
    requires
        forall|row: A| #[trigger] either(row) <==> one(row) || other(row),
        forall|row: A| !(#[trigger] one(row) && other(row)),
    ensures
        rows.filter(either).to_multiset() == rows.filter(one).to_multiset().add(
            rows.filter(other).to_multiset(),
        ),
    decreases rows.len(),
{
    broadcast use vstd::multiset::group_multiset_axioms;

    if rows.len() == 0 {
        assert(rows.filter(either) =~= Seq::empty()) by {
            rows.lemma_filter_len(either);
        }
        assert(rows.filter(one) =~= Seq::empty()) by {
            rows.lemma_filter_len(one);
        }
        assert(rows.filter(other) =~= Seq::empty()) by {
            rows.lemma_filter_len(other);
        }
        Seq::<A>::empty().to_multiset_ensures();
        assert(rows.filter(either).to_multiset() =~= rows.filter(one).to_multiset().add(
            rows.filter(other).to_multiset(),
        ));
    } else {
        let earlier = rows.drop_last();
        let row = rows.last();
        lemma_filter_split(earlier, either, one, other);
        assert(earlier.push(row) =~= rows);
        earlier.lemma_filter_push(row, either);
        earlier.lemma_filter_push(row, one);
        earlier.lemma_filter_push(row, other);
        to_multiset_build(earlier.filter(either), row);
        to_multiset_build(earlier.filter(one), row);
        to_multiset_build(earlier.filter(other), row);
        assert(rows.filter(either).to_multiset() =~= rows.filter(one).to_multiset().add(
            rows.filter(other).to_multiset(),
        ));
    }
}

/// The ingredient rows of the first `upto` components are, each as often
/// as it was fetched, the fetched rows that name one of them.
proof fn lemma_ingredients_placed_upto(
    components: Seq<RecipeComponentView>,
    ingredients: Seq<IngredientView>,
    instructions: Seq<InstructionView>,
    upto: int,
)
    requires
        0 <= upto <= components.len(),
    ensures
        placed_ingredients(
            full_components(components, ingredients, instructions).take(upto),
        ).to_multiset() == ingredients_in_scope(ingredients, components, upto).to_multiset(),
    decreases upto,
{
    broadcast use vstd::multiset::group_multiset_axioms;

    let parts = full_components(components, ingredients, instructions);
    if upto == 0 {
        let none = |row: IngredientView| taken_before(components, 0, row.component_id);
        assert(parts.take(0) =~= Seq::empty());
        assert(ingredients.all(|row: IngredientView| !none(row)));
        ingredients.lemma_all_neg_filter_empty(none);
        assert(ingredients_in_scope(ingredients, components, 0) =~= Seq::empty());
    } else {
        let at = upto - 1;
        let id = components[at].id;
        lemma_ingredients_placed_upto(components, ingredients, instructions, at);
        assert(parts.take(upto).drop_last() =~= parts.take(at));
        assert(parts.take(upto).last() == full_component(
            components,
            at,
            ingredients,
            instructions,
        ));
        let placed = placed_ingredients(parts.take(at));
        let added = parts[at].ingredients;
        lemma_multiset_commutative(placed, added);
        let either = |row: IngredientView| taken_before(components, upto, row.component_id);
        let one = |row: IngredientView| taken_before(components, at, row.component_id);
        let other = |row: IngredientView| row.component_id == id && first_of_its_id(components, at);
        assert forall|row: IngredientView| #[trigger] either(row) <==> one(row) || other(row) by {
            lemma_taken_next(components, at, row.component_id);
        }
        lemma_filter_split(ingredients, either, one, other);
        if first_of_its_id(components, at) {
            let named = |row: IngredientView| row.component_id == id;
            assert(ingredients.filter(other) =~= ingredients.filter(named)) by {
                lemma_filter_same(ingredients, other, named);
            }
        } else {
            assert(ingredients.all(|row: IngredientView| !other(row)));
            ingredients.lemma_all_neg_filter_empty(other);
            assert(ingredients.filter(other) =~= Seq::empty());
        }
    }
}

/// The instruction rows of the first `upto` components are, each as often
/// as it was fetched, the fetched rows that name one of them.
proof fn lemma_instructions_placed_upto(
    components: Seq<RecipeComponentView>,
    ingredients: Seq<IngredientView>,
    instructions: Seq<InstructionView>,
    upto: int,
)
    requires
        0 <= upto <= components.len(),
    ensures
        placed_instructions(
            full_components(components, ingredients, instructions).take(upto),
        ).to_multiset() == instructions_in_scope(instructions, components, upto).to_multiset(),
    decreases upto,
{
    broadcast use vstd::multiset::group_multiset_axioms;

    let parts = full_components(components, ingredients, instructions);
    if upto == 0 {
        let none = |row: InstructionView| taken_before(components, 0, row.component_id);
        assert(parts.take(0) =~= Seq::empty());
        assert(instructions.all(|row: InstructionView| !none(row)));
        instructions.lemma_all_neg_filter_empty(none);
        assert(instructions_in_scope(instructions, components, 0) =~= Seq::empty());
    } else {
        let at = upto - 1;
        let id = components[at].id;
        lemma_instructions_placed_upto(components, ingredients, instructions, at);
        assert(parts.take(upto).drop_last() =~= parts.take(at));
        assert(parts.take(upto).last() == full_component(
            components,
            at,
            ingredients,
            instructions,
        ));
        let placed = placed_instructions(parts.take(at));
        let added = parts[at].instructions;
        lemma_multiset_commutative(placed, added);
        let either = |row: InstructionView| taken_before(components, upto, row.component_id);
        let one = |row: InstructionView| taken_before(components, at, row.component_id);
        let other = |row: InstructionView|
            row.component_id == id && first_of_its_id(components, at);
        assert forall|row: InstructionView| #[trigger] either(row) <==> one(row) || other(row) by {
            lemma_taken_next(components, at, row.component_id);
        }
        lemma_filter_split(instructions, either, one, other);
        if first_of_its_id(components, at) {
            let named = |row: InstructionView| row.component_id == id;
            assert(instructions.filter(other) =~= instructions.filter(named)) by {
                lemma_filter_same(instructions, other, named);
            }
            lemma_by_step_rearranges(instructions_of(instructions, id));
        } else {
            assert(instructions.all(|row: InstructionView| !other(row)));
            instructions.lemma_all_neg_filter_empty(other);
            assert(instructions.filter(other) =~= Seq::empty());
        }
    }
}

/// Conditions that agree on every row pick the same rows.
proof fn lemma_filter_same<A>(rows: Seq<A>, one: spec_fn(A) -> bool, other: spec_fn(A) -> bool)
    requires
        forall|row: A| #[trigger] one(row) <==> other(row),
    ensures
        rows.filter(one) == rows.filter(other),
    decreases rows.len(),
{
    reveal(Seq::filter);
    if rows.len() > 0 {
        lemma_filter_same(rows.drop_last(), one, other);
    }
}

/// Partition of the ingredients: taken together, the ingredient rows under
/// the components of a recipe are the fetched rows that name one of its
/// components, each as often as it was fetched.
pub proof fn lemma_ingredients_partitioned(
    components: Seq<RecipeComponentView>,
    ingredients: Seq<IngredientView>,
    instructions: Seq<InstructionView>,
)
    ensures
        placed_ingredients(
            full_components(components, ingredients, instructions),
        ).to_multiset() == ingredients_in_scope(
            ingredients,
            components,
            components.len() as int,
        ).to_multiset(),
{
    let parts = full_components(components, ingredients, instructions);
    lemma_ingredients_placed_upto(components, ingredients, instructions, components.len() as int);
    assert(parts.take(components.len() as int) =~= parts);
}

/// Partition of the instructions: taken together, the instruction rows
/// under the components of a recipe are the fetched rows that name one of
/// its components, each as often as it was fetched.
pub proof fn lemma_instructions_partitioned(
    components: Seq<RecipeComponentView>,
    ingredients: Seq<IngredientView>,
    instructions: Seq<InstructionView>,
)
    ensures
        placed_instructions(
            full_components(components, ingredients, instructions),
        ).to_multiset() == instructions_in_scope(
            instructions,
            components,
            components.len() as int,
        ).to_multiset(),
{
    let parts = full_components(components, ingredients, instructions);
    lemma_instructions_placed_upto(components, ingredients, instructions, components.len() as int);
    assert(parts.take(components.len() as int) =~= parts);
}

} // verus!
