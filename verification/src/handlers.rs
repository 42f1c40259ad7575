//! What each endpoint answers, given what the store returned for it.

use crate::document::{
    coherent, full_component, full_components, full_recipe, lemma_document_coherent,
    lemma_taken_next, taken_before,
};
use crate::grouping::{group_ingredients, group_instructions, ingredients_of, instructions_of};
use crate::error::{CatalogError, CatalogErrorView};
use crate::models::{
    Dish, FullComponent, FullRecipe, Ingredient, Instruction, MatchChecker, MatchList, Recipe,
    RecipeComponent, SearchRecipe,
};
use crate::steps::sort_by_step;
use crate::store::{mismatch, mismatch_cause, Reply, ReplyView};
use vstd::prelude::*;

verus! {

/// The error with which an endpoint answers a reply that holds no rows of
/// its kind: the store's own failure, or a reply of the wrong kind.
pub open spec fn refusal(reply: ReplyView) -> CatalogErrorView {
    match reply {
        ReplyView::Failed(cause) => CatalogErrorView::StoreError { cause },
        _ => CatalogErrorView::StoreError { cause: mismatch() },
    }
}

/// Turns a reply that holds no rows of the wanted kind into the endpoint's
/// error.
fn refuse(reply: Reply) -> (error: CatalogError)
    ensures
        error@ == refusal(reply@),
{
    match reply {
        Reply::Failed(cause) => CatalogError::StoreError { cause },
        _ => CatalogError::StoreError { cause: mismatch_cause() },
    }
}

/// Lists all dishes: the rows as the store gave them, in its order. A dish
/// without a name keeps its place, with no name.
pub fn get_dishes(reply: Reply) -> (answer: Result<Vec<Dish>, CatalogError>)
    ensures
        match reply@ {
            ReplyView::Dishes(rows) => answer is Ok && answer->Ok_0.deep_view() == rows,
            _ => answer is Err && answer->Err_0@ == refusal(reply@),
        },
{
    match reply {
        Reply::Dishes(rows) => Ok(rows),
        other => Err(refuse(other)),
    }
}

/// Lists the recipes of one dish, in summary: the rows as the store gave
/// them. A dish without recipes, or one that does not exist, has the empty
/// list, which is no error.
pub fn get_recipes(reply: Reply) -> (answer: Result<Vec<SearchRecipe>, CatalogError>)
    ensures
        match reply@ {
            ReplyView::Recipes(rows) => answer is Ok && answer->Ok_0.deep_view() == rows,
            _ => answer is Err && answer->Err_0@ == refusal(reply@),
        },
{
    match reply {
        Reply::Recipes(rows) => Ok(rows),
        other => Err(refuse(other)),
    }
}

/// Lists all match checkers, in summary: the rows as the store gave them.
pub fn get_ingredients(reply: Reply) -> (answer: Result<Vec<MatchList>, CatalogError>)
    ensures
        match reply@ {
            ReplyView::MatchLists(rows) => answer is Ok && answer->Ok_0.deep_view() == rows,
            _ => answer is Err && answer->Err_0@ == refusal(reply@),
        },
{
    match reply {
        Reply::MatchLists(rows) => Ok(rows),
        other => Err(refuse(other)),
    }
}

/// Returns the match checker `ingredient_id` in full, as the store gave
/// it, or `NotFound` with that id where the store has none.
pub fn get_ingredient(ingredient_id: i32, reply: Reply) -> (answer: Result<
    MatchChecker,
    CatalogError,
>)
    ensures
        match reply@ {
            ReplyView::MatchChecker(Some(checker)) => answer is Ok && answer->Ok_0@ == checker,
            ReplyView::MatchChecker(None) => answer is Err && answer->Err_0@
                == (CatalogErrorView::NotFound { id: ingredient_id as int }),
            _ => answer is Err && answer->Err_0@ == refusal(reply@),
        },
{
    match reply {
        Reply::MatchChecker(Some(checker)) => Ok(checker),
        Reply::MatchChecker(None) => Err(CatalogError::NotFound { id: ingredient_id }),
        other => Err(refuse(other)),
    }
}

/// Folds the rows fetched for a recipe into its nested document.
///
/// The components keep the order in which they were fetched. Each takes the
/// ingredient rows that name it, in the order in which they were fetched,
/// and the instruction rows that name it, in step order. Rows that name no
/// component of the recipe are left out. Where two components share an id,
/// the rows go to the first of them. The document is coherent: every row
/// stands under the component that it names, and every component's
/// instructions read in ascending order of step.
pub fn get_full_recipe(
    recipe: Recipe,
    components: Vec<RecipeComponent>,
    all_ingredients: Vec<Ingredient>,
    all_instructions: Vec<Instruction>,
) -> (full: FullRecipe)
    ensures
        full@ == full_recipe(
            recipe@,
            components.deep_view(),
            all_ingredients.deep_view(),
            all_instructions.deep_view(),
        ),
        coherent(full@),
{
    broadcast use vstd::std_specs::hash::group_hash_axioms;

    let ghost parts = components.deep_view();
    let ghost ingredients = all_ingredients.deep_view();
    let ghost instructions = all_instructions.deep_view();
    let mut ing_map = group_ingredients(all_ingredients);
    let mut ins_map = group_instructions(all_instructions);
    let ghost ing_groups = ing_map@;
    let ghost ins_groups = ins_map@;
    let mut full_parts: Vec<FullComponent> = Vec::new();
    for c in it: components.into_iter()
        invariant
            it.seq().len() == parts.len(),
            forall|i: int| 0 <= i < parts.len() ==> (#[trigger] it.seq()[i]).deep_view() == parts[i],
            forall|k: i32| #[trigger]
                ing_groups.contains_key(k) <==> ingredients_of(ingredients, k as int).len() > 0,
            forall|k: i32| #[trigger]
                ing_groups.contains_key(k) ==> ing_groups[k].deep_view() == ingredients_of(
                    ingredients,
                    k as int,
                ),
            forall|k: i32| #[trigger]
                ins_groups.contains_key(k) <==> instructions_of(instructions, k as int).len() > 0,
            forall|k: i32| #[trigger]
                ins_groups.contains_key(k) ==> ins_groups[k].deep_view() == instructions_of(
                    instructions,
                    k as int,
                ),
            forall|k: i32| #[trigger]
                ing_map@.contains_key(k) <==> ing_groups.contains_key(k) && !taken_before(
                    parts,
                    it.index() as int,
                    k as int,
                ),
            forall|k: i32| #[trigger] ing_map@.contains_key(k) ==> ing_map@[k] == ing_groups[k],
            forall|k: i32| #[trigger]
                ins_map@.contains_key(k) <==> ins_groups.contains_key(k) && !taken_before(
                    parts,
                    it.index() as int,
                    k as int,
                ),
            forall|k: i32| #[trigger] ins_map@.contains_key(k) ==> ins_map@[k] == ins_groups[k],
            full_parts.len() == it.index(),
            forall|j: int| 0 <= j < it.index() ==> (#[trigger] full_parts@[j])@ == full_component(
                parts,
                j,
                ingredients,
                instructions,
            ),
    {
        let ghost at = it.index() as int;
        let cid = c.id;
        let ghost built = full_parts@;
        let part_ingredients = match ing_map.remove(&cid) {
            Some(rows) => rows,
            None => Vec::new(),
        };
        let part_instructions = match ins_map.remove(&cid) {
            Some(rows) => sort_by_step(rows),
            None => Vec::new(),
        };
        proof {
            assert(c.deep_view() == parts[at]);
            assert forall|k: i32| true implies (taken_before(parts, at + 1, k as int)
                <==> taken_before(parts, at, k as int) || k == cid) by {
                lemma_taken_next(parts, at, k as int);
            }
            if !taken_before(parts, at, cid as int) {
                if !ing_groups.contains_key(cid) {
                    assert(ingredients_of(ingredients, cid as int) =~= Seq::empty());
                }
                if !ins_groups.contains_key(cid) {
                    assert(instructions_of(instructions, cid as int) =~= Seq::empty());
                }
            }
            assert(part_ingredients.deep_view() =~= full_component(
                parts,
                at,
                ingredients,
                instructions,
            ).ingredients);
            assert(part_instructions.deep_view() =~= full_component(
                parts,
                at,
                ingredients,
                instructions,
            ).instructions);
        }
        full_parts.push(
            FullComponent {
                id: cid,
                name: c.name,
                ingredients: part_ingredients,
                instructions: part_instructions,
            },
        );
        proof {
            assert forall|j: int| 0 <= j < at + 1 implies (#[trigger] full_parts@[j])@
                == full_component(parts, j, ingredients, instructions) by {
                if j < at {
                    assert(full_parts@[j] == built[j]);
                }
            }
        }
    }
    let full = FullRecipe { id: recipe.id, name: recipe.name, components: full_parts };
    assert(full.components.deep_view() =~= full_components(parts, ingredients, instructions));
    proof {
        lemma_document_coherent(recipe@, parts, ingredients, instructions);
    }
    full
}

} // verus!
