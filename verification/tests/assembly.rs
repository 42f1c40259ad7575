use public_server::assembler::{advance, begin, component_ids, Assembly, Step};
use public_server::error::CatalogError;
use public_server::handlers::get_full_recipe;
use public_server::models::{
    FullComponent, FullRecipe, Ingredient, Instruction, Recipe, RecipeComponent,
};
use public_server::store::{Query, Reply};

fn recipe(id: i32, name: &str) -> Recipe {
    Recipe { id, dish_id: 7, name: name.to_string() }
}

fn component(id: i32, recipe_id: i32, name: &str) -> RecipeComponent {
    RecipeComponent { id, recipe_id, name: name.to_string() }
}

fn ingredient(id: i32, component_id: i32, name: &str, quantity: &str, unit: &str) -> Ingredient {
    Ingredient {
        id,
        component_id,
        name: name.to_string(),
        quantity: quantity.to_string(),
        unit: unit.to_string(),
    }
}

fn instruction(id: i32, component_id: i32, step: i32, text: &str) -> Instruction {
    Instruction { id, component_id, step, text: text.to_string() }
}

/// A store held in memory. It answers each query as a relational store
/// would, but returns instructions in the order in which it holds them.
struct Tables {
    recipes: Vec<(i32, i32, &'static str)>,
    components: Vec<(i32, i32, &'static str)>,
    ingredients: Vec<(i32, i32, &'static str, &'static str, &'static str)>,
    instructions: Vec<(i32, i32, i32, &'static str)>,
    broken: Option<usize>,
}

impl Tables {
    fn pie() -> Tables {
        Tables {
            recipes: vec![(1, 7, "Pie"), (2, 7, "Bare")],
            components: vec![(10, 1, "Dough"), (11, 1, "Filling"), (30, 3, "Elsewhere")],
            ingredients: vec![
                (100, 10, "Flour", "200", "g"),
                (101, 11, "Sugar", "50", "g"),
                (102, 30, "Salt", "1", "tsp"),
            ],
            instructions: vec![
                (200, 10, 2, "Knead"),
                (201, 10, 1, "Mix"),
                (202, 11, 1, "Whisk"),
                (203, 30, 1, "Wait"),
            ],
            broken: None,
        }
    }

    fn reply(&self, query: &Query, asked: usize) -> Reply {
        if self.broken == Some(asked) {
            return Reply::Failed("connection reset".to_string());
        }
        match query {
            Query::RecipeHeader { recipe_id } => Reply::RecipeHeader(
                self.recipes
                    .iter()
                    .find(|r| r.0 == *recipe_id)
                    .map(|r| Recipe { id: r.0, dish_id: r.1, name: r.2.to_string() }),
            ),
            Query::ComponentsOfRecipe { recipe_id } => Reply::Components(
                self.components
                    .iter()
                    .filter(|c| c.1 == *recipe_id)
                    .map(|c| component(c.0, c.1, c.2))
                    .collect(),
            ),
            Query::IngredientsOfComponents { component_ids } => Reply::Ingredients(
                self.ingredients
                    .iter()
                    .filter(|i| component_ids.contains(&i.1))
                    .map(|i| ingredient(i.0, i.1, i.2, i.3, i.4))
                    .collect(),
            ),
            Query::InstructionsOfComponents { component_ids } => Reply::Instructions(
                self.instructions
                    .iter()
                    .filter(|i| component_ids.contains(&i.1))
                    .map(|i| instruction(i.0, i.1, i.2, i.3))
                    .collect(),
            ),
            _ => Reply::Failed("not a query of the assembler".to_string()),
        }
    }

    /// Runs one assembly to its end and returns the queries that were put.
    fn assemble(&self, recipe_id: i32) -> (Vec<Query>, Result<FullRecipe, CatalogError>) {
        let mut asked = Vec::new();
        let (mut state, mut query) = begin(recipe_id);
        loop {
            let reply = self.reply(&query, asked.len());
            asked.push(query);
            match advance(state, reply) {
                Step::Ask { state: then, query: then_query } => {
                    state = then;
                    query = then_query;
                }
                Step::Done(full) => return (asked, Ok(full)),
                Step::Failed(error) => return (asked, Err(error)),
            }
        }
    }
}

fn pie_document() -> FullRecipe {
    FullRecipe {
        id: 1,
        name: "Pie".to_string(),
        components: vec![
            FullComponent {
                id: 10,
                name: "Dough".to_string(),
                ingredients: vec![ingredient(100, 10, "Flour", "200", "g")],
                instructions: vec![instruction(201, 10, 1, "Mix"), instruction(200, 10, 2, "Knead")],
            },
            FullComponent {
                id: 11,
                name: "Filling".to_string(),
                ingredients: vec![ingredient(101, 11, "Sugar", "50", "g")],
                instructions: vec![instruction(202, 11, 1, "Whisk")],
            },
        ],
    }
}

#[test]
fn dough_and_filling_are_assembled_in_step_order() {
    let full = get_full_recipe(
        recipe(1, "Pie"),
        vec![component(10, 1, "Dough"), component(11, 1, "Filling")],
        vec![ingredient(100, 10, "Flour", "200", "g"), ingredient(101, 11, "Sugar", "50", "g")],
        vec![
            instruction(200, 10, 2, "Knead"),
            instruction(201, 10, 1, "Mix"),
            instruction(202, 11, 1, "Whisk"),
        ],
    );
    assert_eq!(full, pie_document());
    let texts: Vec<&str> = full.components[0].instructions.iter().map(|i| i.text.as_str()).collect();
    assert_eq!(texts, vec!["Mix", "Knead"]);
    let names: Vec<&str> = full.components[0].ingredients.iter().map(|i| i.name.as_str()).collect();
    assert_eq!(names, vec!["Flour"]);
    let names: Vec<&str> = full.components[1].ingredients.iter().map(|i| i.name.as_str()).collect();
    assert_eq!(names, vec!["Sugar"]);
    let texts: Vec<&str> = full.components[1].instructions.iter().map(|i| i.text.as_str()).collect();
    assert_eq!(texts, vec!["Whisk"]);
}

#[test]
fn assembly_against_a_store_gives_the_same_document() {
    let (asked, outcome) = Tables::pie().assemble(1);
    assert_eq!(outcome, Ok(pie_document()));
    assert_eq!(
        asked,
        vec![
            Query::RecipeHeader { recipe_id: 1 },
            Query::ComponentsOfRecipe { recipe_id: 1 },
            Query::IngredientsOfComponents { component_ids: vec![10, 11] },
            Query::InstructionsOfComponents { component_ids: vec![10, 11] },
        ]
    );
}

#[test]
fn recipe_without_components_has_empty_component_list() {
    let full = get_full_recipe(recipe(2, "Bare"), vec![], vec![], vec![]);
    assert_eq!(full, FullRecipe { id: 2, name: "Bare".to_string(), components: vec![] });
}

#[test]
fn recipe_without_components_is_done_after_two_queries() {
    let (asked, outcome) = Tables::pie().assemble(2);
    assert_eq!(outcome, Ok(FullRecipe { id: 2, name: "Bare".to_string(), components: vec![] }));
    assert_eq!(
        asked,
        vec![Query::RecipeHeader { recipe_id: 2 }, Query::ComponentsOfRecipe { recipe_id: 2 }]
    );
}

#[test]
fn component_without_rows_has_empty_sequences() {
    let full = get_full_recipe(
        recipe(1, "Pie"),
        vec![component(10, 1, "Dough"), component(11, 1, "Filling")],
        vec![ingredient(100, 10, "Flour", "200", "g")],
        vec![instruction(202, 10, 1, "Mix")],
    );
    assert_eq!(full.components.len(), 2);
    assert_eq!(full.components[1].id, 11);
    assert_eq!(full.components[1].name, "Filling");
    assert_eq!(full.components[1].ingredients, vec![]);
    assert_eq!(full.components[1].instructions, vec![]);
    assert_eq!(full.components[0].ingredients.len(), 1);
    assert_eq!(full.components[0].instructions.len(), 1);
}

#[test]
fn components_keep_the_order_of_the_store() {
    let full = get_full_recipe(
        recipe(1, "Pie"),
        vec![component(11, 1, "Filling"), component(3, 1, "Glaze"), component(10, 1, "Dough")],
        vec![],
        vec![],
    );
    let ids: Vec<i32> = full.components.iter().map(|c| c.id).collect();
    assert_eq!(ids, vec![11, 3, 10]);
}

#[test]
fn ingredients_keep_the_order_of_the_store() {
    let full = get_full_recipe(
        recipe(1, "Pie"),
        vec![component(10, 1, "Dough"), component(11, 1, "Filling")],
        vec![
            ingredient(5, 10, "Water", "1", "dl"),
            ingredient(4, 11, "Sugar", "50", "g"),
            ingredient(3, 10, "Flour", "200", "g"),
            ingredient(2, 11, "Apple", "3", ""),
            ingredient(1, 10, "Butter", "100", "g"),
        ],
        vec![],
    );
    let dough: Vec<i32> = full.components[0].ingredients.iter().map(|i| i.id).collect();
    let filling: Vec<i32> = full.components[1].ingredients.iter().map(|i| i.id).collect();
    assert_eq!(dough, vec![5, 3, 1]);
    assert_eq!(filling, vec![4, 2]);
}

#[test]
fn instructions_of_equal_step_keep_the_order_of_the_store() {
    let full = get_full_recipe(
        recipe(1, "Pie"),
        vec![component(10, 1, "Dough")],
        vec![],
        vec![
            instruction(1, 10, 3, "c"),
            instruction(2, 10, 1, "a first"),
            instruction(3, 10, 2, "b"),
            instruction(4, 10, 1, "a second"),
            instruction(5, 10, -4, "before all"),
            instruction(6, 10, 3, "c again"),
        ],
    );
    let ids: Vec<i32> = full.components[0].instructions.iter().map(|i| i.id).collect();
    assert_eq!(ids, vec![5, 2, 4, 3, 1, 6]);
}

#[test]
fn rows_are_partitioned_among_the_components() {
    let full = get_full_recipe(
        recipe(1, "Pie"),
        vec![component(10, 1, "Dough"), component(11, 1, "Filling")],
        vec![
            ingredient(1, 10, "Flour", "200", "g"),
            ingredient(2, 99, "Stray", "1", ""),
            ingredient(3, 11, "Sugar", "50", "g"),
            ingredient(4, 10, "Flour", "200", "g"),
        ],
        vec![
            instruction(1, 11, 1, "Whisk"),
            instruction(2, 98, 1, "Stray"),
            instruction(3, 10, 1, "Mix"),
        ],
    );
    let mut placed: Vec<i32> =
        full.components.iter().flat_map(|c| c.ingredients.iter().map(|i| i.id)).collect();
    placed.sort();
    assert_eq!(placed, vec![1, 3, 4]);
    let mut placed: Vec<i32> =
        full.components.iter().flat_map(|c| c.instructions.iter().map(|i| i.id)).collect();
    placed.sort();
    assert_eq!(placed, vec![1, 3]);
    for part in &full.components {
        assert!(part.ingredients.iter().all(|i| i.component_id == part.id));
        assert!(part.instructions.iter().all(|i| i.component_id == part.id));
    }
}

#[test]
fn rows_of_a_repeated_id_go_to_the_first_component() {
    let full = get_full_recipe(
        recipe(1, "Pie"),
        vec![component(10, 1, "Dough"), component(10, 1, "Dough again")],
        vec![ingredient(1, 10, "Flour", "200", "g")],
        vec![instruction(1, 10, 1, "Mix")],
    );
    assert_eq!(full.components[0].ingredients.len(), 1);
    assert_eq!(full.components[0].instructions.len(), 1);
    assert_eq!(full.components[1].name, "Dough again");
    assert_eq!(full.components[1].ingredients, vec![]);
    assert_eq!(full.components[1].instructions, vec![]);
}

#[test]
fn four_queries_whatever_the_number_of_components() {
    let mut tables = Tables::pie();
    assert_eq!(tables.assemble(1).0.len(), 4);
    for id in 12..40 {
        tables.components.push((id, 1, "More"));
    }
    let (asked, outcome) = tables.assemble(1);
    assert_eq!(asked.len(), 4);
    assert_eq!(outcome.map(|full| full.components.len()), Ok(30));
    tables.components.retain(|c| c.0 == 10);
    assert_eq!(tables.assemble(1).0.len(), 4);
}

#[test]
fn missing_recipe_is_not_found() {
    let (asked, outcome) = Tables::pie().assemble(404);
    assert_eq!(outcome, Err(CatalogError::NotFound { id: 404 }));
    assert_eq!(asked, vec![Query::RecipeHeader { recipe_id: 404 }]);
}

#[test]
fn store_failure_at_any_query_fails_the_assembly() {
    for stage in 0..4 {
        let mut tables = Tables::pie();
        tables.broken = Some(stage);
        let (asked, outcome) = tables.assemble(1);
        assert_eq!(
            outcome,
            Err(CatalogError::StoreError { cause: "connection reset".to_string() })
        );
        assert_eq!(asked.len(), stage + 1);
    }
}

#[test]
fn reply_of_the_wrong_kind_fails_the_assembly() {
    let (state, _) = begin(1);
    let step = advance(state, Reply::Components(vec![]));
    assert_eq!(
        step,
        Step::Failed(CatalogError::StoreError {
            cause: "the reply does not answer the query".to_string()
        })
    );
    let state = Assembly::AwaitingIngredients {
        recipe: recipe(1, "Pie"),
        components: vec![component(10, 1, "Dough")],
    };
    let step = advance(state, Reply::Instructions(vec![]));
    assert!(matches!(step, Step::Failed(CatalogError::StoreError { .. })));
}

#[test]
fn begin_asks_for_the_header() {
    assert_eq!(
        begin(5),
        (Assembly::AwaitingHeader { recipe_id: 5 }, Query::RecipeHeader { recipe_id: 5 })
    );
}

#[test]
fn header_is_followed_by_the_components_of_the_requested_recipe() {
    let (state, _) = begin(5);
    let step = advance(state, Reply::RecipeHeader(Some(recipe(5, "Stew"))));
    assert_eq!(
        step,
        Step::Ask {
            state: Assembly::AwaitingComponents { recipe: recipe(5, "Stew") },
            query: Query::ComponentsOfRecipe { recipe_id: 5 },
        }
    );
}

#[test]
fn batches_are_scoped_to_the_component_ids() {
    let parts = vec![component(3, 5, "Base"), component(1, 5, "Top"), component(3, 5, "Base")];
    assert_eq!(component_ids(&parts), vec![3, 1, 3]);
    assert_eq!(component_ids(&vec![]), Vec::<i32>::new());
    let step = advance(
        Assembly::AwaitingComponents { recipe: recipe(5, "Stew") },
        Reply::Components(vec![component(3, 5, "Base"), component(1, 5, "Top")]),
    );
    assert_eq!(
        step,
        Step::Ask {
            state: Assembly::AwaitingIngredients {
                recipe: recipe(5, "Stew"),
                components: vec![component(3, 5, "Base"), component(1, 5, "Top")],
            },
            query: Query::IngredientsOfComponents { component_ids: vec![3, 1] },
        }
    );
}
