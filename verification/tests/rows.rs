use public_server::grouping::{group_ingredients, group_instructions};
use public_server::models::{Ingredient, Instruction};
use public_server::steps::sort_by_step;

fn step(id: i32, step: i32) -> Instruction {
    Instruction { id, component_id: 1, step, text: format!("step {}", id) }
}

fn ids(rows: &[Instruction]) -> Vec<i32> {
    rows.iter().map(|row| row.id).collect()
}

#[test]
fn sort_by_step_orders_by_step() {
    let sorted = sort_by_step(vec![step(1, 3), step(2, 1), step(3, 2)]);
    assert_eq!(sorted, vec![step(2, 1), step(3, 2), step(1, 3)]);
}

#[test]
fn sort_by_step_is_stable() {
    let sorted = sort_by_step(vec![step(1, 2), step(2, 1), step(3, 2), step(4, 1), step(5, 2)]);
    assert_eq!(ids(&sorted), vec![2, 4, 1, 3, 5]);
}

#[test]
fn sort_by_step_leaves_ordered_rows_alone() {
    let sorted = sort_by_step(vec![step(1, 1), step(2, 2), step(3, 2), step(4, 9)]);
    assert_eq!(ids(&sorted), vec![1, 2, 3, 4]);
    assert_eq!(sort_by_step(vec![]), vec![]);
    assert_eq!(sort_by_step(vec![step(7, 0)]), vec![step(7, 0)]);
}

#[test]
fn sort_by_step_takes_the_whole_range_of_steps() {
    let sorted = sort_by_step(vec![step(1, i32::MAX), step(2, 0), step(3, i32::MIN), step(4, -1)]);
    assert_eq!(ids(&sorted), vec![3, 4, 2, 1]);
}

#[test]
fn sort_by_step_reverses_descending_rows() {
    let rows: Vec<Instruction> = (0..50).map(|i| step(i, 50 - i)).collect();
    let sorted = sort_by_step(rows);
    assert_eq!(ids(&sorted), (0..50).rev().collect::<Vec<i32>>());
}

#[test]
fn ingredients_are_grouped_by_component() {
    let row = |id: i32, component_id: i32| Ingredient {
        id,
        component_id,
        name: "n".to_string(),
        quantity: "q".to_string(),
        unit: "u".to_string(),
    };
    let groups = group_ingredients(vec![row(1, 10), row(2, 11), row(3, 10), row(4, -5)]);
    assert_eq!(groups.len(), 3);
    assert_eq!(groups[&10], vec![row(1, 10), row(3, 10)]);
    assert_eq!(groups[&11], vec![row(2, 11)]);
    assert_eq!(groups[&-5], vec![row(4, -5)]);
    assert!(!groups.contains_key(&12));
    assert!(group_ingredients(vec![]).is_empty());
}

#[test]
fn instructions_are_grouped_in_order_of_arrival() {
    let row = |id: i32, component_id: i32, step: i32| Instruction {
        id,
        component_id,
        step,
        text: "t".to_string(),
    };
    let groups = group_instructions(vec![row(1, 10, 2), row(2, 11, 1), row(3, 10, 1)]);
    assert_eq!(groups.len(), 2);
    assert_eq!(groups[&10], vec![row(1, 10, 2), row(3, 10, 1)]);
    assert_eq!(groups[&11], vec![row(2, 11, 1)]);
}
