//! The queries that the catalog puts to its store, and the replies that it
//! takes back.
//!
//! The store itself is outside: whoever holds the connection runs each
//! query and hands its reply in. A query names its statement and carries
//! its parameters; a reply carries the decoded rows, or the cause of a
//! failure.

use crate::models::{
    Dish, DishView, Ingredient, IngredientView, Instruction, InstructionView, MatchChecker,
    MatchCheckerView, MatchList, MatchListView, Recipe, RecipeComponent, RecipeComponentView,
    RecipeView, SearchRecipe, SearchRecipeView,
};
use vstd::prelude::*;

verus! {

/// A read of the store. Each kind has one statement; its fields are the
/// statement's parameters.
#[derive(Debug, PartialEq, Eq)]
pub enum Query {
    /// All dishes.
    Dishes,
    /// The recipes of one dish, in summary.
    RecipesOfDish { dish_id: i32 },
    /// The header of one recipe.
    RecipeHeader { recipe_id: i32 },
    /// The components of one recipe.
    ComponentsOfRecipe { recipe_id: i32 },
    /// The ingredients of all the given components, in one batch.
    IngredientsOfComponents { component_ids: Vec<i32> },
    /// The instructions of all the given components, in one batch.
    InstructionsOfComponents { component_ids: Vec<i32> },
    /// All match checkers, in summary.
    MatchLists,
    /// One match checker in full.
    MatchCheckerById { id: i32 },
}

/// The view of a [`Query`]: the same variants over views.
pub enum QueryView {
    Dishes,
    RecipesOfDish { dish_id: int },
    RecipeHeader { recipe_id: int },
    ComponentsOfRecipe { recipe_id: int },
    IngredientsOfComponents { component_ids: Seq<int> },
    InstructionsOfComponents { component_ids: Seq<int> },
    MatchLists,
    MatchCheckerById { id: int },
}

/// The ids as unbounded integers.
pub open spec fn as_ints(ids: Seq<i32>) -> Seq<int> {
    ids.map_values(|id: i32| id as int)
}

impl View for Query {
    type V = QueryView;

    open spec fn view(&self) -> QueryView {
        match self {
            Query::Dishes => QueryView::Dishes,
            Query::RecipesOfDish { dish_id } => QueryView::RecipesOfDish { dish_id: *dish_id as int },
            Query::RecipeHeader { recipe_id } => QueryView::RecipeHeader {
                recipe_id: *recipe_id as int,
            },
            Query::ComponentsOfRecipe { recipe_id } => QueryView::ComponentsOfRecipe {
                recipe_id: *recipe_id as int,
            },
            Query::IngredientsOfComponents { component_ids } => QueryView::IngredientsOfComponents {
                component_ids: as_ints(component_ids@),
            },
            Query::InstructionsOfComponents {
                component_ids,
            } => QueryView::InstructionsOfComponents { component_ids: as_ints(component_ids@) },
            Query::MatchLists => QueryView::MatchLists,
            Query::MatchCheckerById { id } => QueryView::MatchCheckerById { id: *id as int },
        }
    }
}

/// The text of the statement behind each kind of query.
pub open spec fn statement_of(query: QueryView) -> Seq<char> {
    match query {
        QueryView::Dishes => "SELECT id, name FROM dish"@,
        QueryView::RecipesOfDish { .. } => "SELECT id, name FROM recipe WHERE dish_id = $1"@,
        QueryView::RecipeHeader { .. } => "SELECT id, dish_id, name FROM recipe WHERE id = $1"@,
        QueryView::ComponentsOfRecipe {
            ..
        } => "SELECT id, recipe_id, name FROM recipe_component WHERE recipe_id = $1"@,
        QueryView::IngredientsOfComponents {
            ..
        } => "SELECT id, component_id, name, quantity, unit FROM ingredient WHERE component_id = ANY($1)"@,
        QueryView::InstructionsOfComponents {
            ..
        } => "SELECT id, component_id, step, text FROM instruction WHERE component_id = ANY($1) ORDER BY step"@,
        QueryView::MatchLists => "SELECT id, title FROM match_checker"@,
        QueryView::MatchCheckerById {
            ..
        } => "SELECT id, title, avoid, affinities, matches FROM match_checker WHERE id = $1"@,
    }
}

impl Query {
    /// The statement to run, with `$1` for the query's parameter.
    pub fn statement(&self) -> (text: &'static str)
        ensures
            text@ == statement_of(self@),
    {
        match self {
            Query::Dishes => "SELECT id, name FROM dish",
            Query::RecipesOfDish { .. } => "SELECT id, name FROM recipe WHERE dish_id = $1",
            Query::RecipeHeader { .. } => "SELECT id, dish_id, name FROM recipe WHERE id = $1",
            Query::ComponentsOfRecipe {
                ..
            } => "SELECT id, recipe_id, name FROM recipe_component WHERE recipe_id = $1",
            Query::IngredientsOfComponents {
                ..
            } => "SELECT id, component_id, name, quantity, unit FROM ingredient WHERE component_id = ANY($1)",
            Query::InstructionsOfComponents {
                ..
            } => "SELECT id, component_id, step, text FROM instruction WHERE component_id = ANY($1) ORDER BY step",
            Query::MatchLists => "SELECT id, title FROM match_checker",
            Query::MatchCheckerById {
                ..
            } => "SELECT id, title, avoid, affinities, matches FROM match_checker WHERE id = $1",
        }
    }
}

/// What the store returned for a query: the decoded rows, in the order in
/// which the store gave them, or the cause of the failure.
#[derive(Debug, PartialEq, Eq)]
pub enum Reply {
    Dishes(Vec<Dish>),
    Recipes(Vec<SearchRecipe>),
    RecipeHeader(Option<Recipe>),
    Components(Vec<RecipeComponent>),
    Ingredients(Vec<Ingredient>),
    Instructions(Vec<Instruction>),
    MatchLists(Vec<MatchList>),
    MatchChecker(Option<MatchChecker>),
    /// The store failed: it could not be reached, timed out, or its rows
    /// did not decode.
    Failed(String),
}

/// The view of a [`Reply`]: the same variants over views.
pub enum ReplyView {
    Dishes(Seq<DishView>),
    Recipes(Seq<SearchRecipeView>),
    RecipeHeader(Option<RecipeView>),
    Components(Seq<RecipeComponentView>),
    Ingredients(Seq<IngredientView>),
    Instructions(Seq<InstructionView>),
    MatchLists(Seq<MatchListView>),
    MatchChecker(Option<MatchCheckerView>),
    Failed(Seq<char>),
}

impl View for Reply {
    type V = ReplyView;

    open spec fn view(&self) -> ReplyView {
        match self {
            Reply::Dishes(rows) => ReplyView::Dishes(rows.deep_view()),
            Reply::Recipes(rows) => ReplyView::Recipes(rows.deep_view()),
            Reply::RecipeHeader(row) => ReplyView::RecipeHeader(
                match row {
                    Some(recipe) => Some(recipe@),
                    None => None,
                },
            ),
            Reply::Components(rows) => ReplyView::Components(rows.deep_view()),
            Reply::Ingredients(rows) => ReplyView::Ingredients(rows.deep_view()),
            Reply::Instructions(rows) => ReplyView::Instructions(rows.deep_view()),
            Reply::MatchLists(rows) => ReplyView::MatchLists(rows.deep_view()),
            Reply::MatchChecker(row) => ReplyView::MatchChecker(
                match row {
                    Some(checker) => Some(checker@),
                    None => None,
                },
            ),
            Reply::Failed(cause) => ReplyView::Failed(cause@),
        }
    }
}

/// The cause given where a reply is not of the kind that its query asks
/// for.
pub open spec fn mismatch() -> Seq<char> {
    "the reply does not answer the query"@
}

/// The cause given where a reply is not of the kind that its query asks
/// for.
pub fn mismatch_cause() -> (cause: String)
    ensures
        cause@ == mismatch(),
{
    "the reply does not answer the query".to_owned()
}

} // verus!
