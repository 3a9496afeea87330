use factory_data::game_data::Recipe;
use factory_data::table::{build_table, Hashable, KeyedTable};

fn recipe(name: &str, power: i32) -> Recipe {
    Recipe {
        recipe_name: name.to_string(),
        alternate_recipe: false,
        main_recipe: true,
        avg_power: Some(power),
        produced_in: None,
        products: Vec::new(),
        ingredients: Vec::new(),
    }
}

#[test]
fn new_table_is_empty() {
    let table: KeyedTable<Recipe> = KeyedTable::new();
    assert_eq!(table.len(), 0);
    assert!(table.is_empty());
    assert!(table.keys().is_empty());
    assert!(table.get("a").is_none());
    assert!(!table.contains_key("a"));
}

#[test]
fn record_is_held_under_its_key() {
    let mut table = KeyedTable::new();
    table.insert(recipe("Iron Plate", 4));
    assert_eq!(table.len(), 1);
    assert!(!table.is_empty());
    assert!(table.contains_key("Iron Plate"));
    assert_eq!(table.get("Iron Plate").unwrap().avg_power, Some(4));
    assert!(table.get("Iron Rod").is_none());
    assert_eq!(table.keys(), &vec!["Iron Plate".to_string()]);
    assert_eq!(recipe("Iron Plate", 4).get_key(), "Iron Plate");
}

#[test]
fn later_record_replaces_earlier_with_same_key() {
    let mut table = KeyedTable::new();
    table.insert(recipe("Iron Plate", 4));
    table.insert(recipe("Iron Rod", 5));
    table.insert(recipe("Iron Plate", 9));
    assert_eq!(table.len(), 2);
    assert_eq!(table.get("Iron Plate").unwrap().avg_power, Some(9));
    assert_eq!(table.get("Iron Rod").unwrap().avg_power, Some(5));
    assert_eq!(table.keys(), &vec!["Iron Plate".to_string(), "Iron Rod".to_string()]);
}

#[test]
fn build_table_keeps_the_last_of_each_key() {
    let list = vec![
        recipe("a", 1),
        recipe("b", 2),
        recipe("a", 3),
        recipe("c", 4),
        recipe("b", 5),
        recipe("a", 6),
    ];
    let table = build_table(list);
    assert_eq!(table.len(), 3);
    assert_eq!(table.get("a").unwrap().avg_power, Some(6));
    assert_eq!(table.get("b").unwrap().avg_power, Some(5));
    assert_eq!(table.get("c").unwrap().avg_power, Some(4));
    let mut keys = table.keys().clone();
    keys.sort();
    assert_eq!(keys, vec!["a".to_string(), "b".to_string(), "c".to_string()]);
}

#[test]
fn build_table_of_nothing_is_empty() {
    let table = build_table(Vec::<Recipe>::new());
    assert!(table.is_empty());
}

#[test]
fn keys_differ_by_case_and_space() {
    let table = build_table(vec![recipe("a", 1), recipe("A", 2), recipe("a ", 3)]);
    assert_eq!(table.len(), 3);
    assert_eq!(table.get("a").unwrap().avg_power, Some(1));
    assert_eq!(table.get("A").unwrap().avg_power, Some(2));
    assert_eq!(table.get("a ").unwrap().avg_power, Some(3));
}
