//! The catalog's entities and the mathematical view of each.
//!
//! Every entity is a plain record. Its view holds the same fields as
//! unbounded integers and character sequences, and the contracts of the
//! library are stated over these views.

use vstd::prelude::*;

verus! {

/// `serde_json::Value`, a parsed JSON tree. Nothing is claimed of what a
/// value holds: the catalog carries it through without looking inside.
#[verifier::external_type_specification]
#[verifier::external_body]
pub struct ExJsonValue(serde_json::Value);

/// A dish: the top of the catalog hierarchy.
#[derive(Debug, PartialEq, Eq)]
pub struct Dish {
    pub id: i32,
    pub name: Option<String>,
}

/// The view of a [`Dish`]: its fields as integers and character sequences.
pub struct DishView {
    pub id: int,
    pub name: Option<Seq<char>>,
}

impl View for Dish {
    type V = DishView;

    open spec fn view(&self) -> DishView {
        DishView {
            id: self.id as int,
            name: match self.name {
                Some(name) => Some(name@),
                None => None,
            },
        }
    }
}

impl DeepView for Dish {
    type V = DishView;

    open spec fn deep_view(&self) -> DishView {
        self@
    }
}

/// A recipe's header row. Every recipe belongs to exactly one dish.
#[derive(Debug, PartialEq, Eq)]
pub struct Recipe {
    pub id: i32,
    pub dish_id: i32,
    pub name: String,
}

/// The view of a [`Recipe`]: its fields as integers and character sequences.
pub struct RecipeView {
    pub id: int,
    pub dish_id: int,
    pub name: Seq<char>,
}

impl View for Recipe {
    type V = RecipeView;

    open spec fn view(&self) -> RecipeView {
        RecipeView { id: self.id as int, dish_id: self.dish_id as int, name: self.name@ }
    }
}

impl DeepView for Recipe {
    type V = RecipeView;

    open spec fn deep_view(&self) -> RecipeView {
        self@
    }
}

/// The summary of a recipe that the listing of a dish's recipes returns.
#[derive(Debug, PartialEq, Eq)]
pub struct SearchRecipe {
    pub id: i32,
    pub name: String,
}

/// The view of a [`SearchRecipe`]: its fields as integers and character sequences.
pub struct SearchRecipeView {
    pub id: int,
    pub name: Seq<char>,
}

impl View for SearchRecipe {
    type V = SearchRecipeView;

    open spec fn view(&self) -> SearchRecipeView {
        SearchRecipeView { id: self.id as int, name: self.name@ }
    }
}

impl DeepView for SearchRecipe {
    type V = SearchRecipeView;

    open spec fn deep_view(&self) -> SearchRecipeView {
        self@
    }
}

/// A part of a recipe, such as a dough or a filling, with its own
/// ingredients and steps.
#[derive(Debug, PartialEq, Eq)]
pub struct RecipeComponent {
    pub id: i32,
    pub recipe_id: i32,
    pub name: String,
}

/// The view of a [`RecipeComponent`]: its fields as integers and character sequences.
pub struct RecipeComponentView {
    pub id: int,
    pub recipe_id: int,
    pub name: Seq<char>,
}

impl View for RecipeComponent {
    type V = RecipeComponentView;

    open spec fn view(&self) -> RecipeComponentView {
        RecipeComponentView {
            id: self.id as int,
            recipe_id: self.recipe_id as int,
            name: self.name@,
        }
    }
}

impl DeepView for RecipeComponent {
    type V = RecipeComponentView;

    open spec fn deep_view(&self) -> RecipeComponentView {
        self@
    }
}

/// An ingredient row. It belongs to the component named by `component_id`.
#[derive(Debug, PartialEq, Eq)]
pub struct Ingredient {
    pub id: i32,
    pub component_id: i32,
    pub name: String,
    pub quantity: String,
    pub unit: String,
}

/// The view of an [`Ingredient`]: its fields as integers and character sequences.
pub struct IngredientView {
    pub id: int,
    pub component_id: int,
    pub name: Seq<char>,
    pub quantity: Seq<char>,
    pub unit: Seq<char>,
}

impl View for Ingredient {
    type V = IngredientView;

    open spec fn view(&self) -> IngredientView {
        IngredientView {
            id: self.id as int,
            component_id: self.component_id as int,
            name: self.name@,
            quantity: self.quantity@,
            unit: self.unit@,
        }
    }
}

impl DeepView for Ingredient {
    type V = IngredientView;

    open spec fn deep_view(&self) -> IngredientView {
        self@
    }
}

/// An instruction row. Within a component, instructions are read in
/// ascending order of `step`.
#[derive(Debug, PartialEq, Eq)]
pub struct Instruction {
    pub id: i32,
    pub component_id: i32,
    pub step: i32,
    pub text: String,
}

/// The view of an [`Instruction`]: its fields as integers and character sequences.
pub struct InstructionView {
    pub id: int,
    pub component_id: int,
    pub step: int,
    pub text: Seq<char>,
}

impl View for Instruction {
    type V = InstructionView;

    open spec fn view(&self) -> InstructionView {
        InstructionView {
            id: self.id as int,
            component_id: self.component_id as int,
            step: self.step as int,
            text: self.text@,
        }
    }
}

impl DeepView for Instruction {
    type V = InstructionView;

    open spec fn deep_view(&self) -> InstructionView {
        self@
    }
}

/// A component together with the rows that belong to it.
#[derive(Debug, PartialEq, Eq)]
pub struct FullComponent {
    pub id: i32,
    pub name: String,
    pub ingredients: Vec<Ingredient>,
    pub instructions: Vec<Instruction>,
}

/// The view of a [`FullComponent`]: its fields as integers, character sequences
/// and sequences of views.
pub struct FullComponentView {
    pub id: int,
    pub name: Seq<char>,
    pub ingredients: Seq<IngredientView>,
    pub instructions: Seq<InstructionView>,
}

impl View for FullComponent {
    type V = FullComponentView;

    open spec fn view(&self) -> FullComponentView {
        FullComponentView {
            id: self.id as int,
            name: self.name@,
            ingredients: self.ingredients.deep_view(),
            instructions: self.instructions.deep_view(),
        }
    }
}

impl DeepView for FullComponent {
    type V = FullComponentView;

    open spec fn deep_view(&self) -> FullComponentView {
        self@
    }
}

/// The nested document of one recipe: its header and its components, each
/// with its ingredients and instructions.
#[derive(Debug, PartialEq, Eq)]
pub struct FullRecipe {
    pub id: i32,
    pub name: String,
    pub components: Vec<FullComponent>,
}

/// The view of a [`FullRecipe`]: its fields as integers, character sequences
/// and sequences of views.
pub struct FullRecipeView {
    pub id: int,
    pub name: Seq<char>,
    pub components: Seq<FullComponentView>,
}

impl View for FullRecipe {
    type V = FullRecipeView;

    open spec fn view(&self) -> FullRecipeView {
        FullRecipeView {
            id: self.id as int,
            name: self.name@,
            components: self.components.deep_view(),
        }
    }
}

impl DeepView for FullRecipe {
    type V = FullRecipeView;

    open spec fn deep_view(&self) -> FullRecipeView {
        self@
    }
}

/// The summary of a match checker that the listing returns.
#[derive(Debug, PartialEq, Eq)]
pub struct MatchList {
    pub id: i32,
    pub title: String,
}

/// The view of a [`MatchList`]: its fields as integers and character sequences.
pub struct MatchListView {
    pub id: int,
    pub title: Seq<char>,
}

impl View for MatchList {
    type V = MatchListView;

    open spec fn view(&self) -> MatchListView {
        MatchListView { id: self.id as int, title: self.title@ }
    }
}

impl DeepView for MatchList {
    type V = MatchListView;

    open spec fn deep_view(&self) -> MatchListView {
        self@
    }
}

/// An ingredient-compatibility record. It stands apart from the recipe
/// hierarchy; `matches` is passed through as it was stored.
#[derive(Debug, PartialEq, Eq)]
pub struct MatchChecker {
    pub id: i32,
    pub title: String,
    pub avoid: Vec<String>,
    pub affinities: Vec<String>,
    pub matches: serde_json::Value,
}

/// The view of a [`MatchChecker`]: its fields as integers and character
/// sequences, and `matches` as it is.
pub struct MatchCheckerView {
    pub id: int,
    pub title: Seq<char>,
    pub avoid: Seq<Seq<char>>,
    pub affinities: Seq<Seq<char>>,
    pub matches: serde_json::Value,
}

impl View for MatchChecker {
    type V = MatchCheckerView;

    open spec fn view(&self) -> MatchCheckerView {
        MatchCheckerView {
            id: self.id as int,
            title: self.title@,
            avoid: self.avoid.deep_view(),
            affinities: self.affinities.deep_view(),
            matches: self.matches,
        }
    }
}

impl DeepView for MatchChecker {
    type V = MatchCheckerView;

    open spec fn deep_view(&self) -> MatchCheckerView {
        self@
    }
}

} // verus!
