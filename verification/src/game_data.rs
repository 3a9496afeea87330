//! Recipes: the raw record that a row gives, and the recipe it is normalized to.
//!
//! A raw record is flat. It has four product slots and four ingredient slots, each a name and
//! an amount, and each of the eight may be empty. Numbers follow the absent-on-failure policy:
//! a cell that is no integer leaves its field empty. Normalizing folds the slots of a kind into
//! one list that holds the filled slots only, in the order of the slots.

use vstd::prelude::*;
use crate::cell::{
    bool_from_string, flag_cell, i32_from_string, integer_cell, present_text, text_from_string,
};
use crate::row::{cell, cell_either, cell_of, cell_of_either, RowError, RowSchema};
use crate::table::Hashable;

verus! {

/// One numbered slot of a raw recipe: a name and an amount, each there or not.
pub struct Slot {
    pub name: Option<Seq<char>>,
    pub amount: Option<i32>,
}

/// What a raw recipe holds.
pub struct RawRecipe {
    pub recipe_name: Seq<char>,
    pub alternate_recipe: Option<bool>,
    pub main_recipe: Option<bool>,
    pub avg_power: Option<i32>,
    pub produced_in: Option<Seq<char>>,
    /// The four product slots, first to fourth.
    pub products: Seq<Slot>,
    /// The four ingredient slots, first to fourth.
    pub ingredients: Seq<Slot>,
}

/// What a normalized recipe holds.
pub struct RecipeView {
    pub recipe_name: Seq<char>,
    pub alternate_recipe: bool,
    pub main_recipe: bool,
    pub avg_power: Option<i32>,
    pub produced_in: Option<Seq<char>>,
    pub products: Seq<(Seq<char>, i32)>,
    pub ingredients: Seq<(Seq<char>, i32)>,
}

/// A recipe as its row gives it.
#[derive(Clone, Debug)]
pub struct RecipeCSV {
    pub recipe_name: String,
    pub alternate_recipe: Option<bool>,
    pub main_recipe: Option<bool>,
    pub avg_power: Option<i32>,
    pub produced_in: Option<String>,
    pub product: Option<String>,
    pub product2: Option<String>,
    pub product3: Option<String>,
    pub product4: Option<String>,
    pub products_per_minute: Option<i32>,
    pub products_per_minute2: Option<i32>,
    pub products_per_minute3: Option<i32>,
    pub products_per_minute4: Option<i32>,
    pub ingredient1: Option<String>,
    pub ingredient2: Option<String>,
    pub ingredient3: Option<String>,
    pub ingredient4: Option<String>,
    pub quantity1: Option<i32>,
    pub quantity2: Option<i32>,
    pub quantity3: Option<i32>,
    pub quantity4: Option<i32>,
}

/// A recipe with its products and its ingredients as lists.
#[derive(Clone, Debug)]
pub struct Recipe {
    pub recipe_name: String,
    pub alternate_recipe: bool,
    pub main_recipe: bool,
    pub avg_power: Option<i32>,
    pub produced_in: Option<String>,
    pub products: Vec<(String, i32)>,
    pub ingredients: Vec<(String, i32)>,
}

impl View for RecipeCSV {
    type V = RawRecipe;

    open spec fn view(&self) -> RawRecipe {
        RawRecipe {
            recipe_name: self.recipe_name@,
            alternate_recipe: self.alternate_recipe,
            main_recipe: self.main_recipe,
            avg_power: self.avg_power,
            produced_in: self.produced_in.deep_view(),
            products: seq![
                Slot { name: self.product.deep_view(), amount: self.products_per_minute },
                Slot { name: self.product2.deep_view(), amount: self.products_per_minute2 },
                Slot { name: self.product3.deep_view(), amount: self.products_per_minute3 },
                Slot { name: self.product4.deep_view(), amount: self.products_per_minute4 },
            ],
            ingredients: seq![
                Slot { name: self.ingredient1.deep_view(), amount: self.quantity1 },
                Slot { name: self.ingredient2.deep_view(), amount: self.quantity2 },
                Slot { name: self.ingredient3.deep_view(), amount: self.quantity3 },
                Slot { name: self.ingredient4.deep_view(), amount: self.quantity4 },
            ],
        }
    }
}

impl View for Recipe {
    type V = RecipeView;

    open spec fn view(&self) -> RecipeView {
        RecipeView {
            recipe_name: self.recipe_name@,
            alternate_recipe: self.alternate_recipe,
            main_recipe: self.main_recipe,
            avg_power: self.avg_power,
            produced_in: self.produced_in.deep_view(),
            products: self.products.deep_view(),
            ingredients: self.ingredients.deep_view(),
        }
    }
}

impl Hashable for RecipeCSV {
    open spec fn key(&self) -> Seq<char> {
        self.recipe_name@
    }

    fn get_key(&self) -> (key: String) {
        self.recipe_name.clone()
    }
}

impl Hashable for Recipe {
    open spec fn key(&self) -> Seq<char> {
        self.recipe_name@
    }

    fn get_key(&self) -> (key: String) {
        self.recipe_name.clone()
    }
}

/// The slot that a row fills from the cell of a name and the cell of an amount.
pub open spec fn slot_of(name: Option<Seq<char>>, amount: Option<Seq<char>>) -> Slot {
    Slot { name: present_text(name), amount: integer_cell(amount) }
}

/// The raw recipe that the recipe schema reads in a row. The name under `recipeName` is the key
/// and is not part of what this function gives: a row without it gives no record.
///
/// The first product slot is spelled without its number in the header (`product`,
/// `productsPerMinute`); the numbered spelling is read where the plain one is not there.
pub open spec fn recipe_of_row(header: Seq<Seq<char>>, row: Seq<Seq<char>>, key: Seq<char>) -> RawRecipe {
    RawRecipe {
        recipe_name: key,
        alternate_recipe: Some(flag_cell(cell_of(header, row, "alternateRecipe"@))),
        main_recipe: Some(flag_cell(cell_of(header, row, "mainRecipe"@))),
        avg_power: integer_cell(cell_of(header, row, "avgPower"@)),
        produced_in: present_text(cell_of(header, row, "producedIn"@)),
        products: seq![
            slot_of(
                cell_of_either(header, row, "product"@, "product1"@),
                cell_of_either(header, row, "productsPerMinute"@, "productsPerMinute1"@),
            ),
            slot_of(cell_of(header, row, "product2"@), cell_of(header, row, "productsPerMinute2"@)),
            slot_of(cell_of(header, row, "product3"@), cell_of(header, row, "productsPerMinute3"@)),
            slot_of(cell_of(header, row, "product4"@), cell_of(header, row, "productsPerMinute4"@)),
        ],
        ingredients: seq![
            slot_of(cell_of(header, row, "ingredient1"@), cell_of(header, row, "quantity1"@)),
            slot_of(cell_of(header, row, "ingredient2"@), cell_of(header, row, "quantity2"@)),
            slot_of(cell_of(header, row, "ingredient3"@), cell_of(header, row, "quantity3"@)),
            slot_of(cell_of(header, row, "ingredient4"@), cell_of(header, row, "quantity4"@)),
        ],
    }
}

impl RowSchema for RecipeCSV {
    open spec fn row_key(header: Seq<Seq<char>>, row: Seq<Seq<char>>) -> Option<Seq<char>> {
        present_text(cell_of(header, row, "recipeName"@))
    }

    open spec fn reads(header: Seq<Seq<char>>, row: Seq<Seq<char>>, record: Self) -> bool {
        record@ == recipe_of_row(header, row, record.recipe_name@)
    }

    fn from_row(header: &Vec<String>, row: &Vec<String>) -> (made: Result<Self, RowError>) {
        let recipe_name = match text_from_string(cell(header, row, "recipeName")) {
            Some(name) => name,
            None => { return Err(RowError::MissingKey); },
        };
        let record = RecipeCSV {
            recipe_name,
            alternate_recipe: bool_from_string(cell(header, row, "alternateRecipe")),
            main_recipe: bool_from_string(cell(header, row, "mainRecipe")),
            avg_power: i32_from_string(cell(header, row, "avgPower")),
            produced_in: text_from_string(cell(header, row, "producedIn")),
            product: text_from_string(cell_either(header, row, "product", "product1")),
            product2: text_from_string(cell(header, row, "product2")),
            product3: text_from_string(cell(header, row, "product3")),
            product4: text_from_string(cell(header, row, "product4")),
            products_per_minute: i32_from_string(
                cell_either(header, row, "productsPerMinute", "productsPerMinute1"),
            ),
            products_per_minute2: i32_from_string(cell(header, row, "productsPerMinute2")),
            products_per_minute3: i32_from_string(cell(header, row, "productsPerMinute3")),
            products_per_minute4: i32_from_string(cell(header, row, "productsPerMinute4")),
            ingredient1: text_from_string(cell(header, row, "ingredient1")),
            ingredient2: text_from_string(cell(header, row, "ingredient2")),
            ingredient3: text_from_string(cell(header, row, "ingredient3")),
            ingredient4: text_from_string(cell(header, row, "ingredient4")),
            quantity1: i32_from_string(cell(header, row, "quantity1")),
            quantity2: i32_from_string(cell(header, row, "quantity2")),
            quantity3: i32_from_string(cell(header, row, "quantity3")),
            quantity4: i32_from_string(cell(header, row, "quantity4")),
        };
        proof {
            let h = header.deep_view();
            let r = row.deep_view();
            let want = recipe_of_row(h, r, record.recipe_name@);
            assert(record@.products =~= want.products);
            assert(record@.ingredients =~= want.ingredients);
        }
        Ok(record)
    }
}

/// Whether both halves of a slot are there.
pub open spec fn filled(slot: Slot) -> bool {
    slot.name is Some && slot.amount is Some
}

/// What one slot adds to a list: its name and amount where both are there, nothing where either
/// is missing.
pub open spec fn slot_entries(slot: Slot) -> Seq<(Seq<char>, i32)> {
    if filled(slot) {
        seq![(slot.name->0, slot.amount->0)]
    } else {
        Seq::empty()
    }
}

/// The list that slots fold into: what each slot adds, in the order of the slots.
pub open spec fn entries(slots: Seq<Slot>) -> Seq<(Seq<char>, i32)>
    decreases slots.len(),
{
    if slots.len() == 0 {
        Seq::empty()
    } else {
        entries(slots.drop_last()) + slot_entries(slots.last())
    }
}

/// The flag that a normalized recipe keeps of an optional one: set only where it was set.
pub open spec fn flag_or_unset(flag: Option<bool>) -> bool {
    flag == Some(true)
}

/// The recipe that a raw recipe is normalized to. The key and the optional fields are kept as
/// they are.
pub open spec fn normalized(raw: RawRecipe) -> RecipeView {
    RecipeView {
        recipe_name: raw.recipe_name,
        alternate_recipe: flag_or_unset(raw.alternate_recipe),
        main_recipe: flag_or_unset(raw.main_recipe),
        avg_power: raw.avg_power,
        produced_in: raw.produced_in,
        products: entries(raw.products),
        ingredients: entries(raw.ingredients),
    }
}

/// Slots that are all filled fold into a list of the same length, the entry of each slot at the
/// position of the slot, whatever the names are.
pub proof fn lemma_filled_slots_keep_their_order(slots: Seq<Slot>)
    requires
        forall|i: int| 0 <= i < slots.len() ==> filled(#[trigger] slots[i]),
    ensures
        entries(slots).len() == slots.len(),
        forall|i: int|
            0 <= i < slots.len() ==> #[trigger] entries(slots)[i] == (
                slots[i].name->0,
                slots[i].amount->0,
            ),
    decreases slots.len(),
{
    if slots.len() > 0 {
        lemma_filled_slots_keep_their_order(slots.drop_last());
    }
}

/// A slot that lacks its name or its amount adds nothing: the list is that of the other slots.
pub proof fn lemma_unfilled_slot_adds_nothing(slots: Seq<Slot>, at: int)
    requires
        0 <= at < slots.len(),
        !filled(slots[at]),
    ensures
        entries(slots) == entries(slots.remove(at)),
    decreases slots.len(),
{
    if at == slots.len() - 1 {
        assert(slots.remove(at) == slots.drop_last());
    } else {
        lemma_unfilled_slot_adds_nothing(slots.drop_last(), at);
        assert(slots.remove(at).drop_last() == slots.drop_last().remove(at));
        assert(slots.remove(at).last() == slots.last());
    }
}

/// Every entry of the list comes from a filled slot, and entries stand in the order of their
/// slots: the list never holds a pair without a name, and is never reordered.
pub proof fn lemma_entries_follow_slots(slots: Seq<Slot>) -> (from: Seq<int>)
    ensures
        from.len() == entries(slots).len(),
        forall|i: int|
            0 <= i < from.len() ==> {
                &&& 0 <= #[trigger] from[i] < slots.len()
                &&& filled(slots[from[i]])
                &&& entries(slots)[i] == (slots[from[i]].name->0, slots[from[i]].amount->0)
            },
        forall|i: int, j: int| 0 <= i < j < from.len() ==> from[i] < from[j],
    decreases slots.len(),
{
    if slots.len() == 0 {
        Seq::empty()
    } else {
        let before = lemma_entries_follow_slots(slots.drop_last());
        if filled(slots.last()) {
            before.push(slots.len() - 1)
        } else {
            before
        }
    }
}

/// Appends to `list` what the slot of `name` and `amount` adds.
fn push_slot(list: &mut Vec<(String, i32)>, name: &Option<String>, amount: Option<i32>)
    ensures
        final(list).deep_view() == old(list).deep_view() + slot_entries(
            Slot { name: name.deep_view(), amount },
        ),
{
    let ghost before = list.deep_view();
    match (name, amount) {
        (Some(name), Some(amount)) => {
            list.push((name.clone(), amount));
            assert(list.deep_view() =~= before + seq![(name@, amount)]);
        },
        _ => {
            assert(list.deep_view() =~= before + Seq::empty());
        },
    }
}

impl RecipeCSV {
    /// Normalizes the record: the four product slots become one list and the four ingredient
    /// slots another, each holding the slots that have both a name and an amount, first slot
    /// first. A slot that lacks either contributes nothing. The key stays the same.
    pub fn normalize(&self) -> (recipe: Recipe)
        ensures
            recipe@ == normalized(self@),
            recipe.key() == self.key(),
    {
        let mut products: Vec<(String, i32)> = Vec::new();
        assert(products.deep_view() =~= Seq::empty());
        push_slot(&mut products, &self.product, self.products_per_minute);
        push_slot(&mut products, &self.product2, self.products_per_minute2);
        push_slot(&mut products, &self.product3, self.products_per_minute3);
        push_slot(&mut products, &self.product4, self.products_per_minute4);
        let mut ingredients: Vec<(String, i32)> = Vec::new();
        assert(ingredients.deep_view() =~= Seq::empty());
        push_slot(&mut ingredients, &self.ingredient1, self.quantity1);
        push_slot(&mut ingredients, &self.ingredient2, self.quantity2);
        push_slot(&mut ingredients, &self.ingredient3, self.quantity3);
        push_slot(&mut ingredients, &self.ingredient4, self.quantity4);
        proof {
            lemma_entries_of_four(self@.products);
            lemma_entries_of_four(self@.ingredients);
        }
        Recipe {
            recipe_name: self.recipe_name.clone(),
            alternate_recipe: match self.alternate_recipe {
                Some(flag) => flag,
                None => false,
            },
            main_recipe: match self.main_recipe {
                Some(flag) => flag,
                None => false,
            },
            avg_power: self.avg_power,
            produced_in: self.produced_in.clone(),
            products,
            ingredients,
        }
    }
}

/// The list of four slots, written out.
pub proof fn lemma_entries_of_four(slots: Seq<Slot>)
    requires
        slots.len() == 4,
    ensures
        entries(slots) == slot_entries(slots[0]) + slot_entries(slots[1]) + slot_entries(slots[2])
            + slot_entries(slots[3]),
{
    let three = slots.drop_last();
    let two = three.drop_last();
    let one = two.drop_last();
    assert(entries(one.drop_last()) == Seq::<(Seq<char>, i32)>::empty());
    assert(entries(one) =~= slot_entries(slots[0]));
    assert(entries(two) =~= entries(one) + slot_entries(slots[1]));
    assert(entries(three) =~= entries(two) + slot_entries(slots[2]));
    assert(entries(slots) =~= entries(three) + slot_entries(slots[3]));
}

/// The table of raw recipes is under the absent-on-failure policy throughout: the power and
/// the amount of every slot are absent exactly where the cell is no integer, and are never
/// replaced by a default.
pub proof fn lemma_recipe_numbers_absent_on_failure(
    header: Seq<Seq<char>>,
    row: Seq<Seq<char>>,
    record: RecipeCSV,
)
    requires
        <RecipeCSV as RowSchema>::reads(header, row, record),
    ensures
        record.avg_power == integer_cell(cell_of(header, row, "avgPower"@)),
        record.products_per_minute == integer_cell(
            cell_of_either(header, row, "productsPerMinute"@, "productsPerMinute1"@),
        ),
        record.products_per_minute2 == integer_cell(cell_of(header, row, "productsPerMinute2"@)),
        record.products_per_minute3 == integer_cell(cell_of(header, row, "productsPerMinute3"@)),
        record.products_per_minute4 == integer_cell(cell_of(header, row, "productsPerMinute4"@)),
        record.quantity1 == integer_cell(cell_of(header, row, "quantity1"@)),
        record.quantity2 == integer_cell(cell_of(header, row, "quantity2"@)),
        record.quantity3 == integer_cell(cell_of(header, row, "quantity3"@)),
        record.quantity4 == integer_cell(cell_of(header, row, "quantity4"@)),
{
    let want = recipe_of_row(header, row, record.recipe_name@);
    assert(record@.products[0] == want.products[0]);
    assert(record@.products[1] == want.products[1]);
    assert(record@.products[2] == want.products[2]);
    assert(record@.products[3] == want.products[3]);
    assert(record@.ingredients[0] == want.ingredients[0]);
    assert(record@.ingredients[1] == want.ingredients[1]);
    assert(record@.ingredients[2] == want.ingredients[2]);
    assert(record@.ingredients[3] == want.ingredients[3]);
}

} // verus!
