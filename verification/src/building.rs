//! Buildings, and the schema that reads one from a row.
//!
//! A building's measurements follow the zero-default policy: a cell that is missing or is no
//! number gives the default value of the numeric type, which for the usual types is zero. The
//! type of the measurements is a parameter, so that the table can be loaded with whatever
//! numbers its user reads the cells as.

use vstd::prelude::*;
use crate::cell::{
    bool_from_int, flag_cell, lemma_policies_on_a_cell, num_from_string, present_text, reads_as,
    reads_one_way, text_from_string, zero_default_cell, Numeric,
};
use crate::row::{cell, cell_of, RowError, RowSchema};
use crate::table::Hashable;

verus! {

/// A building, known by its name.
#[derive(Clone, Debug)]
pub struct Building<N> {
    pub overclockable: bool,
    pub name: String,
    pub power_usage: N,
    pub power_generated: N,
    pub inputs: N,
    pub outputs: N,
    pub width: N,
    pub length: N,
    pub height: N,
}

impl<N> Hashable for Building<N> {
    open spec fn key(&self) -> Seq<char> {
        self.name@
    }

    fn get_key(&self) -> (key: String) {
        self.name.clone()
    }
}

impl<N: Numeric> RowSchema for Building<N> {
    /// The key is the text under `name`. A cell that is empty is no name.
    open spec fn row_key(header: Seq<Seq<char>>, row: Seq<Seq<char>>) -> Option<Seq<char>> {
        present_text(cell_of(header, row, "name"@))
    }

    /// `overclockable` is a flag; the seven measurements are numbers under the zero-default
    /// policy, each under the column of its own name.
    open spec fn reads(header: Seq<Seq<char>>, row: Seq<Seq<char>>, record: Self) -> bool {
        &&& record.overclockable == flag_cell(cell_of(header, row, "overclockable"@))
        &&& zero_default_cell(cell_of(header, row, "powerUsage"@), record.power_usage)
        &&& zero_default_cell(cell_of(header, row, "powerGenerated"@), record.power_generated)
        &&& zero_default_cell(cell_of(header, row, "inputs"@), record.inputs)
        &&& zero_default_cell(cell_of(header, row, "outputs"@), record.outputs)
        &&& zero_default_cell(cell_of(header, row, "width"@), record.width)
        &&& zero_default_cell(cell_of(header, row, "length"@), record.length)
        &&& zero_default_cell(cell_of(header, row, "height"@), record.height)
    }

    fn from_row(header: &Vec<String>, row: &Vec<String>) -> (made: Result<Self, RowError>) {
        let name = match text_from_string(cell(header, row, "name")) {
            Some(name) => name,
            None => { return Err(RowError::MissingKey); },
        };
        Ok(
            Building {
                overclockable: bool_from_int(cell(header, row, "overclockable")),
                name,
                power_usage: num_from_string(cell(header, row, "powerUsage")),
                power_generated: num_from_string(cell(header, row, "powerGenerated")),
                inputs: num_from_string(cell(header, row, "inputs")),
                outputs: num_from_string(cell(header, row, "outputs")),
                width: num_from_string(cell(header, row, "width")),
                length: num_from_string(cell(header, row, "length")),
                height: num_from_string(cell(header, row, "height")),
            },
        )
    }
}

/// Whether `value` is the default value of its type.
pub open spec fn is_default<N: Numeric>(value: N) -> bool {
    call_ensures(N::default, (), value)
}

/// Whether the cell under `column` is no number of type `N`: it is missing, or reading it fails.
pub open spec fn fails_to_read<N: Numeric>(
    header: Seq<Seq<char>>,
    row: Seq<Seq<char>>,
    column: Seq<char>,
) -> bool {
    reads_as::<N>(cell_of(header, row, column), None)
}

/// The table of buildings is under the zero-default policy throughout: whichever of the seven
/// measurements has a cell that is no number holds the default value, and none is ever absent.
pub proof fn lemma_building_numbers_default<N: Numeric>(
    header: Seq<Seq<char>>,
    row: Seq<Seq<char>>,
    record: Building<N>,
)
    requires
        reads_one_way::<N>(),
        <Building<N> as RowSchema>::reads(header, row, record),
    ensures
        fails_to_read::<N>(header, row, "powerUsage"@) ==> is_default(record.power_usage),
        fails_to_read::<N>(header, row, "powerGenerated"@) ==> is_default(record.power_generated),
        fails_to_read::<N>(header, row, "inputs"@) ==> is_default(record.inputs),
        fails_to_read::<N>(header, row, "outputs"@) ==> is_default(record.outputs),
        fails_to_read::<N>(header, row, "width"@) ==> is_default(record.width),
        fails_to_read::<N>(header, row, "length"@) ==> is_default(record.length),
        fails_to_read::<N>(header, row, "height"@) ==> is_default(record.height),
{
    let none = Option::<N>::None;
    if fails_to_read::<N>(header, row, "powerUsage"@) {
        lemma_policies_on_a_cell(cell_of(header, row, "powerUsage"@), none, record.power_usage, none);
    }
    if fails_to_read::<N>(header, row, "powerGenerated"@) {
        lemma_policies_on_a_cell(
            cell_of(header, row, "powerGenerated"@),
            none,
            record.power_generated,
            none,
        );
    }
    if fails_to_read::<N>(header, row, "inputs"@) {
        lemma_policies_on_a_cell(cell_of(header, row, "inputs"@), none, record.inputs, none);
    }
    if fails_to_read::<N>(header, row, "outputs"@) {
        lemma_policies_on_a_cell(cell_of(header, row, "outputs"@), none, record.outputs, none);
    }
    if fails_to_read::<N>(header, row, "width"@) {
        lemma_policies_on_a_cell(cell_of(header, row, "width"@), none, record.width, none);
    }
    if fails_to_read::<N>(header, row, "length"@) {
        lemma_policies_on_a_cell(cell_of(header, row, "length"@), none, record.length, none);
    }
    if fails_to_read::<N>(header, row, "height"@) {
        lemma_policies_on_a_cell(cell_of(header, row, "height"@), none, record.height, none);
    }
}

} // verus!
