use factory_data::building::Building;
use factory_data::cell::Numeric;
use factory_data::fileload::{
    csv_to_hash, load_buildings, load_game_files, load_records, normalize_table, LoadError,
    SourceFile,
};
use factory_data::game_data::RecipeCSV;

#[derive(Clone, Copy, Debug, Default, PartialEq)]
struct Measure(f32);

impl Numeric for Measure {
    fn parse_cell(cell: &str) -> Option<Self> {
        cell.parse::<f32>().ok().map(Measure)
    }
}

fn file(path: &str, text: &str) -> SourceFile {
    SourceFile { path: path.to_string(), contents: Some(text.as_bytes().to_vec()) }
}

fn unread(path: &str) -> SourceFile {
    SourceFile { path: path.to_string(), contents: None }
}

const BUILDINGS: &str = "\
overclockable;name;powerUsage;powerGenerated;inputs;outputs;width;length;height
1;Smelter;4;0;1;1;6;9;9
1;Constructor;4;0;1;1;7.9;9.9;8
0;Biomass Burner;;30;1;0;8;8;7
";

const RECIPES: &str = "\
recipeName;alternateRecipe;mainRecipe;avgPower;producedIn;product;productsPerMinute;product2;productsPerMinute2;ingredient1;quantity1;ingredient2;quantity2
Iron Ingot;0;1;4;Smelter;Iron Ingot;30;;;Iron Ore;30;;
Iron Plate;0;1;4;Constructor;Iron Plate;20;;;Iron Ingot;30;;
Plastic;0;1;30;Refinery;Plastic;20;Heavy Oil Residue;10;Crude Oil;30;;
";

#[test]
fn buildings_are_loaded_under_their_names() {
    let table = csv_to_hash::<Building<Measure>>(&file("data/buildings.csv", BUILDINGS)).unwrap();
    assert_eq!(table.len(), 3);
    let smelter = table.get("Smelter").unwrap();
    assert!(smelter.overclockable);
    assert_eq!(smelter.power_usage, Measure(4.0));
    assert_eq!(smelter.length, Measure(9.0));
    let burner = table.get("Biomass Burner").unwrap();
    assert!(!burner.overclockable);
    assert_eq!(burner.power_usage, Measure(0.0));
    assert_eq!(burner.power_generated, Measure(30.0));
    assert_eq!(table.get("Constructor").unwrap().width, Measure(7.9));
    assert!(table.get("Refinery").is_none());
    assert_eq!(
        table.keys(),
        &vec!["Smelter".to_string(), "Constructor".to_string(), "Biomass Burner".to_string()]
    );
}

#[test]
fn buildings_are_loaded_as_a_list_in_file_order() {
    let list = load_buildings::<Measure>(&file("b.csv", BUILDINGS)).unwrap();
    let names: Vec<&str> = list.iter().map(|b| b.name.as_str()).collect();
    assert_eq!(names, vec!["Smelter", "Constructor", "Biomass Burner"]);
}

#[test]
fn list_keeps_rows_with_the_same_name() {
    let text = "name;width\nA;1\nB;2\nA;3\n";
    let list = load_buildings::<i32>(&file("b.csv", text)).unwrap();
    assert_eq!(list.len(), 3);
    assert_eq!(list[0].width, 1);
    assert_eq!(list[2].name, "A");
    assert_eq!(list[2].width, 3);
}

#[test]
fn later_row_wins_a_key_collision() {
    let text = "name;width\nA;1\nB;2\nA;3\nB;4\nA;5\n";
    let table = csv_to_hash::<Building<i32>>(&file("b.csv", text)).unwrap();
    assert_eq!(table.len(), 2);
    assert_eq!(table.get("A").unwrap().width, 5);
    assert_eq!(table.get("B").unwrap().width, 4);
}

#[test]
fn later_row_wins_with_every_field_of_its_record() {
    let text = "recipeName;avgPower;producedIn;product;productsPerMinute\n\
                R;1;Smelter;X;10\n\
                R;;;Y;\n";
    let table = csv_to_hash::<RecipeCSV>(&file("r.csv", text)).unwrap();
    let record = table.get("R").unwrap();
    assert_eq!(record.avg_power, None);
    assert_eq!(record.produced_in, None);
    assert_eq!(record.product, Some("Y".to_string()));
    assert_eq!(record.products_per_minute, None);
}

#[test]
fn recipes_are_loaded_and_normalized() {
    let raw = csv_to_hash::<RecipeCSV>(&file("data/recipes.csv", RECIPES)).unwrap();
    assert_eq!(raw.len(), 3);
    assert_eq!(raw.get("Plastic").unwrap().product2, Some("Heavy Oil Residue".to_string()));
    let recipes = normalize_table(&raw);
    assert_eq!(recipes.len(), 3);
    let plastic = recipes.get("Plastic").unwrap();
    assert_eq!(
        plastic.products,
        vec![("Plastic".to_string(), 20), ("Heavy Oil Residue".to_string(), 10)]
    );
    assert_eq!(plastic.ingredients, vec![("Crude Oil".to_string(), 30)]);
    assert_eq!(plastic.avg_power, Some(30));
    assert_eq!(plastic.produced_in, Some("Refinery".to_string()));
    assert!(plastic.main_recipe);
    assert!(!plastic.alternate_recipe);
    let ingot = recipes.get("Iron Ingot").unwrap();
    assert_eq!(ingot.products, vec![("Iron Ingot".to_string(), 30)]);
    let mut keys = recipes.keys().clone();
    keys.sort();
    assert_eq!(keys, vec!["Iron Ingot".to_string(), "Iron Plate".to_string(), "Plastic".to_string()]);
}

#[test]
fn game_files_are_loaded_together() {
    let loaded = load_game_files::<Measure>(
        &file("data/buildings.csv", BUILDINGS),
        &file("data/recipes.csv", RECIPES),
    );
    let (recipes, buildings) = loaded.unwrap();
    assert_eq!(recipes.len(), 3);
    assert_eq!(buildings.len(), 3);
    assert_eq!(recipes.get("Iron Plate").unwrap().produced_in, Some("Constructor".to_string()));
    assert_eq!(buildings.get("Constructor").unwrap().height, Measure(8.0));
}

#[test]
fn unread_file_fails_with_its_path() {
    let source = unread("data/missing.csv");
    assert_eq!(
        csv_to_hash::<RecipeCSV>(&source).err(),
        Some(LoadError::Unreadable { path: "data/missing.csv".to_string() })
    );
    assert_eq!(
        load_buildings::<Measure>(&source).err(),
        Some(LoadError::Unreadable { path: "data/missing.csv".to_string() })
    );
    let error = load_records::<RecipeCSV>(&source).err().unwrap();
    assert_eq!(error.path(), "data/missing.csv");
}

#[test]
fn game_files_fail_on_the_buildings_first() {
    let loaded = load_game_files::<Measure>(&unread("b.csv"), &unread("r.csv"));
    assert_eq!(loaded.err(), Some(LoadError::Unreadable { path: "b.csv".to_string() }));
    let loaded = load_game_files::<Measure>(&file("b.csv", BUILDINGS), &unread("r.csv"));
    assert_eq!(loaded.err(), Some(LoadError::Unreadable { path: "r.csv".to_string() }));
    let loaded = load_game_files::<Measure>(&file("b.csv", "name\n\"\"\n"), &file("r.csv", "x;y\n1\n"));
    assert_eq!(loaded.err(), Some(LoadError::MissingKey { path: "b.csv".to_string(), record: 1 }));
}

#[test]
fn row_of_another_length_fails_the_load() {
    let text = "name;width\nA;1\nB\nC;3\n";
    assert_eq!(
        csv_to_hash::<Building<i32>>(&file("b.csv", text)).err(),
        Some(LoadError::Malformed { path: "b.csv".to_string(), record: 2 })
    );
    let text = "name;width\nA;1;extra\n";
    let error = load_records::<Building<i32>>(&file("b.csv", text)).err().unwrap();
    assert_eq!(error, LoadError::Malformed { path: "b.csv".to_string(), record: 1 });
    assert_eq!(error.path(), "b.csv");
}

#[test]
fn bytes_that_are_no_text_fail_the_load() {
    let mut bytes = b"name;width\nA;1\n".to_vec();
    bytes.extend_from_slice(&[0xff, 0xfe, b';', b'2', b'\n']);
    let source = SourceFile { path: "b.csv".to_string(), contents: Some(bytes) };
    assert_eq!(
        csv_to_hash::<Building<i32>>(&source).err(),
        Some(LoadError::Malformed { path: "b.csv".to_string(), record: 2 })
    );
    let source = SourceFile { path: "h.csv".to_string(), contents: Some(vec![0xff, b'\n', b'A', b'\n']) };
    assert_eq!(
        csv_to_hash::<Building<i32>>(&source).err(),
        Some(LoadError::Malformed { path: "h.csv".to_string(), record: 0 })
    );
}

#[test]
fn row_without_key_fails_the_load() {
    let text = "name;width\nA;1\n;2\nC;3\n";
    assert_eq!(
        csv_to_hash::<Building<i32>>(&file("b.csv", text)).err(),
        Some(LoadError::MissingKey { path: "b.csv".to_string(), record: 2 })
    );
    let text = "width;height\n1;2\n";
    assert_eq!(
        csv_to_hash::<Building<i32>>(&file("b.csv", text)).err(),
        Some(LoadError::MissingKey { path: "b.csv".to_string(), record: 1 })
    );
    assert_eq!(
        csv_to_hash::<RecipeCSV>(&file("r.csv", "name\nA\n")).err(),
        Some(LoadError::MissingKey { path: "r.csv".to_string(), record: 1 })
    );
}

#[test]
fn first_flaw_is_the_one_reported() {
    let text = "name;width\n;1\nB\n";
    assert_eq!(
        csv_to_hash::<Building<i32>>(&file("b.csv", text)).err(),
        Some(LoadError::MissingKey { path: "b.csv".to_string(), record: 1 })
    );
    let text = "name;width\nB\n;1\n";
    assert_eq!(
        csv_to_hash::<Building<i32>>(&file("b.csv", text)).err(),
        Some(LoadError::Malformed { path: "b.csv".to_string(), record: 1 })
    );
}

#[test]
fn empty_file_and_lone_header_give_an_empty_table() {
    assert!(csv_to_hash::<Building<i32>>(&file("b.csv", "")).unwrap().is_empty());
    assert!(csv_to_hash::<Building<i32>>(&file("b.csv", "name;width\n")).unwrap().is_empty());
    assert!(csv_to_hash::<Building<i32>>(&file("b.csv", "width\n")).unwrap().is_empty());
    assert!(load_buildings::<i32>(&file("b.csv", "\n\n")).unwrap().is_empty());
}

#[test]
fn semicolon_is_the_delimiter() {
    let text = "name;width\n\"A;B\";1\nC,D;2\n";
    let table = csv_to_hash::<Building<i32>>(&file("b.csv", text)).unwrap();
    assert_eq!(table.get("A;B").unwrap().width, 1);
    assert_eq!(table.get("C,D").unwrap().width, 2);
}

#[test]
fn last_line_needs_no_line_end() {
    let table = csv_to_hash::<Building<i32>>(&file("b.csv", "name;width\r\nA;1\r\nB;2")).unwrap();
    assert_eq!(table.len(), 2);
    assert_eq!(table.get("B").unwrap().width, 2);
}

#[test]
fn invalid_cells_never_fail_a_load() {
    let text = "overclockable;name;powerUsage;width\nmaybe;A;lots;wide\n";
    let table = csv_to_hash::<Building<Measure>>(&file("b.csv", text)).unwrap();
    let a = table.get("A").unwrap();
    assert!(!a.overclockable);
    assert_eq!(a.power_usage, Measure(0.0));
    assert_eq!(a.width, Measure(0.0));
}

#[test]
fn loading_twice_gives_equal_tables() {
    let source = file("data/recipes.csv", RECIPES);
    let first = normalize_table(&csv_to_hash::<RecipeCSV>(&source).unwrap());
    let second = normalize_table(&csv_to_hash::<RecipeCSV>(&source).unwrap());
    assert_eq!(first.len(), second.len());
    let mut first_keys = first.keys().clone();
    let mut second_keys = second.keys().clone();
    first_keys.sort();
    second_keys.sort();
    assert_eq!(first_keys, second_keys);
    for key in first_keys {
        let a = first.get(&key).unwrap();
        let b = second.get(&key).unwrap();
        assert_eq!(a.recipe_name, b.recipe_name);
        assert_eq!(a.alternate_recipe, b.alternate_recipe);
        assert_eq!(a.main_recipe, b.main_recipe);
        assert_eq!(a.avg_power, b.avg_power);
        assert_eq!(a.produced_in, b.produced_in);
        assert_eq!(a.products, b.products);
        assert_eq!(a.ingredients, b.ingredients);
    }
    let source = file("data/buildings.csv", BUILDINGS);
    let first = csv_to_hash::<Building<Measure>>(&source).unwrap();
    let second = csv_to_hash::<Building<Measure>>(&source).unwrap();
    assert_eq!(first.keys(), second.keys());
    for key in first.keys() {
        let a = first.get(key).unwrap();
        let b = second.get(key).unwrap();
        assert_eq!(a.overclockable, b.overclockable);
        assert_eq!(a.power_usage, b.power_usage);
        assert_eq!(a.power_generated, b.power_generated);
        assert_eq!(a.inputs, b.inputs);
        assert_eq!(a.outputs, b.outputs);
        assert_eq!(a.width, b.width);
        assert_eq!(a.length, b.length);
        assert_eq!(a.height, b.height);
    }
}
