//! The assembly of one recipe's document, one query at a time.
//!
//! The assembler decides; it does not fetch. It names the query to run,
//! takes the reply, and either names the next query or ends with the
//! document or with the error. Whoever holds the connection runs the
//! queries in between.

use crate::document::{full_recipe, lemma_no_components};
use crate::error::{CatalogError, CatalogErrorView};
use crate::handlers::get_full_recipe;
use crate::models::{
    FullRecipe, FullRecipeView, Ingredient, IngredientView, Instruction, InstructionView, Recipe,
    RecipeComponent,
    RecipeComponentView, RecipeView,
};
use crate::store::{as_ints, mismatch, mismatch_cause, Query, QueryView, Reply, ReplyView};
use vstd::prelude::*;

verus! {

/// How far the assembly of a recipe has come: which reply it waits for,
/// and what it has fetched so far.
#[derive(Debug, PartialEq, Eq)]
pub enum Assembly {
    AwaitingHeader { recipe_id: i32 },
    AwaitingComponents { recipe: Recipe },
    AwaitingIngredients { recipe: Recipe, components: Vec<RecipeComponent> },
    AwaitingInstructions {
        recipe: Recipe,
        components: Vec<RecipeComponent>,
        ingredients: Vec<Ingredient>,
    },
}

/// The view of an [`Assembly`]: the same variants over views.
pub enum AssemblyView {
    AwaitingHeader { recipe_id: int },
    AwaitingComponents { recipe: RecipeView },
    AwaitingIngredients { recipe: RecipeView, components: Seq<RecipeComponentView> },
    AwaitingInstructions {
        recipe: RecipeView,
        components: Seq<RecipeComponentView>,
        ingredients: Seq<IngredientView>,
    },
}

impl View for Assembly {
    type V = AssemblyView;

    open spec fn view(&self) -> AssemblyView {
        match self {
            Assembly::AwaitingHeader { recipe_id } => AssemblyView::AwaitingHeader {
                recipe_id: *recipe_id as int,
            },
            Assembly::AwaitingComponents { recipe } => AssemblyView::AwaitingComponents {
                recipe: recipe@,
            },
            Assembly::AwaitingIngredients { recipe, components } => AssemblyView::AwaitingIngredients {
                recipe: recipe@,
                components: components.deep_view(),
            },
            Assembly::AwaitingInstructions {
                recipe,
                components,
                ingredients,
            } => AssemblyView::AwaitingInstructions {
                recipe: recipe@,
                components: components.deep_view(),
                ingredients: ingredients.deep_view(),
            },
        }
    }
}

/// What the assembler does with a reply: it asks the next query, or it
/// ends with the document, or it ends with an error.
#[derive(Debug, PartialEq, Eq)]
pub enum Step {
    Ask { state: Assembly, query: Query },
    Done(FullRecipe),
    Failed(CatalogError),
}

/// The view of a [`Step`]: the same variants over views.
pub enum StepView {
    Ask { state: AssemblyView, query: QueryView },
    Done(FullRecipeView),
    Failed(CatalogErrorView),
}

impl View for Step {
    type V = StepView;

    open spec fn view(&self) -> StepView {
        match self {
            Step::Ask { state, query } => StepView::Ask { state: state@, query: query@ },
            Step::Done(full) => StepView::Done(full@),
            Step::Failed(error) => StepView::Failed(error@),
        }
    }
}

/// The ids of the components, in their order: the set to which the batched
/// fetches are scoped.
pub open spec fn ids_of(components: Seq<RecipeComponentView>) -> Seq<int> {
    components.map_values(|component: RecipeComponentView| component.id)
}

/// The state and the query with which the assembly of a recipe starts.
pub open spec fn first(recipe_id: int) -> (AssemblyView, QueryView) {
    (AssemblyView::AwaitingHeader { recipe_id }, QueryView::RecipeHeader { recipe_id })
}

/// The step that follows a reply.
///
/// A failure of the store ends the assembly, whatever it was waiting for.
/// A missing header ends it with `NotFound`. A recipe without components is
/// done once its components are known to be none: nothing more is fetched.
/// Otherwise the ingredients and then the instructions of all components
/// are fetched, each in one batch, and the document is folded from them.
pub open spec fn next(state: AssemblyView, reply: ReplyView) -> StepView {
    match (state, reply) {
        (_, ReplyView::Failed(cause)) => StepView::Failed(CatalogErrorView::StoreError { cause }),
        (AssemblyView::AwaitingHeader { recipe_id }, ReplyView::RecipeHeader(None)) => {
            StepView::Failed(CatalogErrorView::NotFound { id: recipe_id })
        },
        (AssemblyView::AwaitingHeader { recipe_id }, ReplyView::RecipeHeader(Some(recipe))) => {
            StepView::Ask {
                state: AssemblyView::AwaitingComponents { recipe },
                query: QueryView::ComponentsOfRecipe { recipe_id },
            }
        },
        (AssemblyView::AwaitingComponents { recipe }, ReplyView::Components(components)) => {
            if components.len() == 0 {
                StepView::Done(full_recipe(recipe, components, Seq::empty(), Seq::empty()))
            } else {
                StepView::Ask {
                    state: AssemblyView::AwaitingIngredients { recipe, components },
                    query: QueryView::IngredientsOfComponents { component_ids: ids_of(components) },
                }
            }
        },
        (
            AssemblyView::AwaitingIngredients { recipe, components },
            ReplyView::Ingredients(ingredients),
        ) => {
            StepView::Ask {
                state: AssemblyView::AwaitingInstructions { recipe, components, ingredients },
                query: QueryView::InstructionsOfComponents { component_ids: ids_of(components) },
            }
        },
        (
            AssemblyView::AwaitingInstructions { recipe, components, ingredients },
            ReplyView::Instructions(instructions),
        ) => { StepView::Done(full_recipe(recipe, components, ingredients, instructions)) },
        _ => StepView::Failed(CatalogErrorView::StoreError { cause: mismatch() }),
    }
}

/// The ids of the components, in their order.
pub fn component_ids(components: &Vec<RecipeComponent>) -> (ids: Vec<i32>)
    ensures
        as_ints(ids@) == ids_of(components.deep_view()),
{
    let mut ids: Vec<i32> = Vec::new();
    for at in 0..components.len()
        invariant
            ids.len() == at,
            forall|i: int| 0 <= i < at ==> ids@[i] == (#[trigger] components@[i]).id,
    {
        ids.push(components[at].id);
    }
    assert(as_ints(ids@) =~= ids_of(components.deep_view()));
    ids
}

/// Starts the assembly of the recipe `recipe_id`: its header is asked for
/// first.
pub fn begin(recipe_id: i32) -> (start: (Assembly, Query))
    ensures
        (start.0@, start.1@) == first(recipe_id as int),
{
    (Assembly::AwaitingHeader { recipe_id }, Query::RecipeHeader { recipe_id })
}

/// Takes the reply to the query that was asked last and decides the next
/// step.
pub fn advance(state: Assembly, reply: Reply) -> (step: Step)
    ensures
        step@ == next(state@, reply@),
{
    match (state, reply) {
        (_, Reply::Failed(cause)) => Step::Failed(CatalogError::StoreError { cause }),
        (Assembly::AwaitingHeader { recipe_id }, Reply::RecipeHeader(None)) => {
            Step::Failed(CatalogError::NotFound { id: recipe_id })
        },
        (Assembly::AwaitingHeader { recipe_id }, Reply::RecipeHeader(Some(recipe))) => {
            Step::Ask {
                state: Assembly::AwaitingComponents { recipe },
                query: Query::ComponentsOfRecipe { recipe_id },
            }
        },
        (Assembly::AwaitingComponents { recipe }, Reply::Components(components)) => {
            if components.len() == 0 {
                let no_ingredients: Vec<Ingredient> = Vec::new();
                let no_instructions: Vec<Instruction> = Vec::new();
                assert(no_ingredients.deep_view() =~= Seq::empty());
                assert(no_instructions.deep_view() =~= Seq::empty());
                Step::Done(get_full_recipe(recipe, components, no_ingredients, no_instructions))
            } else {
                let component_ids = component_ids(&components);
                Step::Ask {
                    state: Assembly::AwaitingIngredients { recipe, components },
                    query: Query::IngredientsOfComponents { component_ids },
                }
            }
        },
        (Assembly::AwaitingIngredients { recipe, components }, Reply::Ingredients(ingredients)) => {
            let component_ids = component_ids(&components);
            Step::Ask {
                state: Assembly::AwaitingInstructions { recipe, components, ingredients },
                query: Query::InstructionsOfComponents { component_ids },
            }
        },
        (
            Assembly::AwaitingInstructions { recipe, components, ingredients },
            Reply::Instructions(instructions),
        ) => Step::Done(get_full_recipe(recipe, components, ingredients, instructions)),
        _ => Step::Failed(CatalogError::StoreError { cause: mismatch_cause() }),
    }
}

/// One assembly from start to end: the queries that were put to the
/// store, in their order, and how the assembly ended.
pub struct Run {
    pub queries: Seq<QueryView>,
    pub outcome: Result<FullRecipeView, CatalogErrorView>,
}

/// The number of replies that a state can still take.
pub open spec fn stages_left(state: AssemblyView) -> nat {
    match state {
        AssemblyView::AwaitingHeader { .. } => 4,
        AssemblyView::AwaitingComponents { .. } => 3,
        AssemblyView::AwaitingIngredients { .. } => 2,
        AssemblyView::AwaitingInstructions { .. } => 1,
    }
}

/// The assembly from `state` on, where `query` has just been asked and
/// `store` gives the reply to each query.
pub open spec fn run(
    state: AssemblyView,
    query: QueryView,
    store: spec_fn(QueryView) -> ReplyView,
) -> Run
    decreases stages_left(state),
{
    match next(state, store(query)) {
        StepView::Ask { state: then, query: then_query } => {
            let rest = run(then, then_query, store);
            Run { queries: seq![query] + rest.queries, outcome: rest.outcome }
        },
        StepView::Done(full) => Run { queries: seq![query], outcome: Ok(full) },
        StepView::Failed(error) => Run { queries: seq![query], outcome: Err(error) },
    }
}

/// The assembly of the recipe `recipe_id` against a store.
pub open spec fn assemble_full_recipe(
    recipe_id: int,
    store: spec_fn(QueryView) -> ReplyView,
) -> Run {
    run(first(recipe_id).0, first(recipe_id).1, store)
}

/// However many components a recipe has, and whatever the store replies,
/// its assembly puts at least one query and at most four.
pub proof fn lemma_at_most_four_queries(recipe_id: int, store: spec_fn(QueryView) -> ReplyView)
    ensures
        1 <= assemble_full_recipe(recipe_id, store).queries.len() <= 4,
{
    reveal_with_fuel(run, 5);
}

/// A recipe with at least one component is assembled with exactly four
/// queries, however many components it has: one for the header, one for
/// the components, one for the ingredients of all components and one for
/// the instructions of all components. The two batches are scoped to the
/// ids of the recipe's components, and the outcome is the document folded
/// from the four replies.
pub proof fn lemma_four_queries(
    recipe_id: int,
    store: spec_fn(QueryView) -> ReplyView,
    recipe: RecipeView,
    components: Seq<RecipeComponentView>,
    ingredients: Seq<IngredientView>,
    instructions: Seq<InstructionView>,
)
    requires
        store(QueryView::RecipeHeader { recipe_id }) == ReplyView::RecipeHeader(Some(recipe)),
        store(QueryView::ComponentsOfRecipe { recipe_id }) == ReplyView::Components(components),
        components.len() > 0,
        store(QueryView::IngredientsOfComponents { component_ids: ids_of(components) })
            == ReplyView::Ingredients(ingredients),
        store(QueryView::InstructionsOfComponents { component_ids: ids_of(components) })
            == ReplyView::Instructions(instructions),
    ensures
        assemble_full_recipe(recipe_id, store).queries == seq![
            QueryView::RecipeHeader { recipe_id },
            QueryView::ComponentsOfRecipe { recipe_id },
            QueryView::IngredientsOfComponents { component_ids: ids_of(components) },
            QueryView::InstructionsOfComponents { component_ids: ids_of(components) },
        ],
        assemble_full_recipe(recipe_id, store).outcome == Ok::<FullRecipeView, CatalogErrorView>(
            full_recipe(recipe, components, ingredients, instructions),
        ),
{
    reveal_with_fuel(run, 5);
    assert(assemble_full_recipe(recipe_id, store).queries =~= seq![
        QueryView::RecipeHeader { recipe_id },
        QueryView::ComponentsOfRecipe { recipe_id },
        QueryView::IngredientsOfComponents { component_ids: ids_of(components) },
        QueryView::InstructionsOfComponents { component_ids: ids_of(components) },
    ]);
}

/// A recipe without components is assembled with two queries, and its
/// document has the header's id and name and no components.
pub proof fn lemma_recipe_without_components(
    recipe_id: int,
    store: spec_fn(QueryView) -> ReplyView,
    recipe: RecipeView,
)
    requires
        store(QueryView::RecipeHeader { recipe_id }) == ReplyView::RecipeHeader(Some(recipe)),
        store(QueryView::ComponentsOfRecipe { recipe_id }) == ReplyView::Components(
            Seq::<RecipeComponentView>::empty(),
        ),
    ensures
        assemble_full_recipe(recipe_id, store).queries == seq![
            QueryView::RecipeHeader { recipe_id },
            QueryView::ComponentsOfRecipe { recipe_id },
        ],
        assemble_full_recipe(recipe_id, store).outcome == Ok::<FullRecipeView, CatalogErrorView>(
            FullRecipeView { id: recipe.id, name: recipe.name, components: Seq::empty() },
        ),
{
    reveal_with_fuel(run, 3);
    lemma_no_components(recipe, Seq::empty(), Seq::empty());
    assert(assemble_full_recipe(recipe_id, store).queries =~= seq![
        QueryView::RecipeHeader { recipe_id },
        QueryView::ComponentsOfRecipe { recipe_id },
    ]);
}

/// The assembly of a recipe that does not exist fails with `NotFound`
/// after the one query for its header.
pub proof fn lemma_missing_recipe(recipe_id: int, store: spec_fn(QueryView) -> ReplyView)
    requires
        store(QueryView::RecipeHeader { recipe_id }) == ReplyView::RecipeHeader(
            None::<RecipeView>,
        ),
    ensures
        assemble_full_recipe(recipe_id, store).queries == seq![
            QueryView::RecipeHeader { recipe_id },
        ],
        assemble_full_recipe(recipe_id, store).outcome == Err::<
            FullRecipeView,
            CatalogErrorView,
        >(CatalogErrorView::NotFound { id: recipe_id }),
{
    reveal_with_fuel(run, 2);
}

/// A failure of the store ends the assembly at once: the query that failed
/// is the last one put, and the outcome is the store's error with its
/// cause. No document is returned.
pub proof fn lemma_failure_ends_run(
    state: AssemblyView,
    query: QueryView,
    store: spec_fn(QueryView) -> ReplyView,
    cause: Seq<char>,
)
    requires
        store(query) == ReplyView::Failed(cause),
    ensures
        run(state, query, store) == (Run {
            queries: seq![query],
            outcome: Err(CatalogErrorView::StoreError { cause }),
        }),
{
}

} // verus!
