use factory_data::row::{cell, cell_either, column_index};

fn strings(cells: &[&str]) -> Vec<String> {
    cells.iter().map(|c| c.to_string()).collect()
}

#[test]
fn column_is_found_by_name() {
    let header = strings(&["name", "width", "height"]);
    assert_eq!(column_index(&header, "name"), Some(0));
    assert_eq!(column_index(&header, "width"), Some(1));
    assert_eq!(column_index(&header, "height"), Some(2));
}

#[test]
fn column_that_is_not_there_is_not_found() {
    let header = strings(&["name", "width"]);
    assert_eq!(column_index(&header, "length"), None);
    assert_eq!(column_index(&header, "Name"), None);
    assert_eq!(column_index(&header, "nam"), None);
    assert_eq!(column_index(&header, ""), None);
    assert_eq!(column_index(&Vec::new(), "name"), None);
}

#[test]
fn first_column_of_a_name_counts() {
    let header = strings(&["a", "b", "a", "b"]);
    assert_eq!(column_index(&header, "a"), Some(0));
    assert_eq!(column_index(&header, "b"), Some(1));
    let row = strings(&["1", "2", "3", "4"]);
    assert_eq!(cell(&header, &row, "a"), Some("1"));
    assert_eq!(cell(&header, &row, "b"), Some("2"));
}

#[test]
fn cell_is_looked_up_whatever_the_order_of_columns() {
    let row_one = strings(&["Smelter", "6", "9"]);
    let header_one = strings(&["name", "width", "length"]);
    let row_two = strings(&["9", "Smelter", "6"]);
    let header_two = strings(&["length", "name", "width"]);
    for column in ["name", "width", "length"] {
        assert_eq!(cell(&header_one, &row_one, column), cell(&header_two, &row_two, column));
    }
    assert_eq!(cell(&header_two, &row_two, "name"), Some("Smelter"));
    assert_eq!(cell(&header_two, &row_two, "width"), Some("6"));
    assert_eq!(cell(&header_two, &row_two, "length"), Some("9"));
}

#[test]
fn cell_is_missing_without_its_column() {
    let header = strings(&["name"]);
    let row = strings(&["Smelter"]);
    assert_eq!(cell(&header, &row, "width"), None);
}

#[test]
fn cell_is_missing_where_the_row_is_short() {
    let header = strings(&["name", "width"]);
    let row = strings(&["Smelter"]);
    assert_eq!(cell(&header, &row, "name"), Some("Smelter"));
    assert_eq!(cell(&header, &row, "width"), None);
}

#[test]
fn empty_cell_is_found_as_empty() {
    let header = strings(&["name", "width"]);
    let row = strings(&["", ""]);
    assert_eq!(cell(&header, &row, "width"), Some(""));
}

#[test]
fn either_name_prefers_the_first() {
    let row = strings(&["x", "y"]);
    assert_eq!(cell_either(&strings(&["product", "product1"]), &row, "product", "product1"), Some("x"));
    assert_eq!(cell_either(&strings(&["product1", "product"]), &row, "product", "product1"), Some("y"));
    assert_eq!(cell_either(&strings(&["product1", "other"]), &row, "product", "product1"), Some("x"));
    assert_eq!(cell_either(&strings(&["none", "other"]), &row, "product", "product1"), None);
}

#[test]
fn either_name_does_not_fall_back_from_a_short_row() {
    let header = strings(&["product1", "product"]);
    let row = strings(&["x"]);
    assert_eq!(cell_either(&header, &row, "product", "product1"), None);
}
