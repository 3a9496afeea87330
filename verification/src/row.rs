//! Lookup of a cell by the name of its column.
//!
//! A row is read against the header of its table. The order of the columns is never assumed: a
//! schema names the column it wants, and the first column of that name is the one that counts.

use vstd::prelude::*;
use crate::cell::cell_text;
use crate::table::Hashable;

verus! {

/// Whether `i` is the first position in `header` that holds `name`.
pub open spec fn is_column(header: Seq<Seq<char>>, name: Seq<char>, i: int) -> bool {
    &&& 0 <= i < header.len()
    &&& header[i] == name
    &&& forall|j: int| 0 <= j < i ==> header[j] != name
}

/// The position of the first column called `name`, if there is one.
pub open spec fn column_of(header: Seq<Seq<char>>, name: Seq<char>) -> Option<int> {
    header.index_of_first(name)
}

/// The cell of `row` under the first column called `name`. There is none where the header has no
/// such column, or where the row ends before it.
pub open spec fn cell_of(header: Seq<Seq<char>>, row: Seq<Seq<char>>, name: Seq<char>) -> Option<
    Seq<char>,
> {
    match column_of(header, name) {
        Some(i) => if i < row.len() {
            Some(row[i])
        } else {
            None
        },
        None => None,
    }
}

/// `column_of` answers with the first position that holds the name, and with nothing exactly
/// when no position holds it.
pub proof fn lemma_column_of(header: Seq<Seq<char>>, name: Seq<char>)
    ensures
        match column_of(header, name) {
            Some(i) => is_column(header, name, i),
            None => forall|j: int| 0 <= j < header.len() ==> header[j] != name,
        },
{
    header.index_of_first_ensures(name);
}

/// A first position that holds the name is the one that `column_of` answers with.
pub proof fn lemma_column_found(header: Seq<Seq<char>>, name: Seq<char>, i: int)
    requires
        is_column(header, name, i),
    ensures
        column_of(header, name) == Some(i),
{
    lemma_column_of(header, name);
}

/// Finds the first column called `name`.
pub fn column_index(header: &Vec<String>, name: &str) -> (found: Option<usize>)
    ensures
        match found {
            Some(i) => column_of(header.deep_view(), name@) == Some(i as int),
            None => column_of(header.deep_view(), name@) is None,
        },
{
    let wanted = name.to_owned();
    let mut i: usize = 0;
    while i < header.len()
        invariant
            i <= header.len(),
            wanted@ == name@,
            forall|j: int| 0 <= j < i ==> header.deep_view()[j] != name@,
        decreases header.len() - i,
    {
        if header[i] == wanted {
            proof {
                lemma_column_found(header.deep_view(), name@, i as int);
            }
            return Some(i);
        }
        i += 1;
    }
    proof {
        lemma_column_of(header.deep_view(), name@);
    }
    None
}

/// Looks up the cell of `row` under the column called `name`.
pub fn cell<'a>(header: &Vec<String>, row: &'a Vec<String>, name: &str) -> (found: Option<&'a str>)
    ensures
        cell_text(found) == cell_of(header.deep_view(), row.deep_view(), name@),
{
    match column_index(header, name) {
        Some(i) => if i < row.len() {
            Some(row[i].as_str())
        } else {
            None
        },
        None => None,
    }
}

/// The cell under the column called `name`, or, where the header has no such column, the cell
/// under the column called `other`.
pub open spec fn cell_of_either(
    header: Seq<Seq<char>>,
    row: Seq<Seq<char>>,
    name: Seq<char>,
    other: Seq<char>,
) -> Option<Seq<char>> {
    if column_of(header, name) is Some {
        cell_of(header, row, name)
    } else {
        cell_of(header, row, other)
    }
}

/// Looks up a cell whose column goes by one of two names, `name` first.
pub fn cell_either<'a>(
    header: &Vec<String>,
    row: &'a Vec<String>,
    name: &str,
    other: &str,
) -> (found: Option<&'a str>)
    ensures
        cell_text(found) == cell_of_either(header.deep_view(), row.deep_view(), name@, other@),
{
    match column_index(header, name) {
        Some(_) => cell(header, row, name),
        None => cell(header, row, other),
    }
}

/// Why a row gives no record.
#[derive(Clone, Copy, Debug, PartialEq, Eq)]
pub enum RowError {
    /// The row has nothing under the column that its key is taken from.
    MissingKey,
}

/// The schema of one entity type: which columns it reads, under which rule, and where the key
/// of a record comes from.
///
/// Applying a schema to a row fails in one case only, a row without a key. Every other cell is
/// coerced, whatever it holds.
pub trait RowSchema: Hashable + Sized {
    /// The key that the schema finds in the row, if the row has one.
    spec fn row_key(header: Seq<Seq<char>>, row: Seq<Seq<char>>) -> Option<Seq<char>>;

    /// Whether `record` holds, field by field, what the schema reads in the row.
    spec fn reads(header: Seq<Seq<char>>, row: Seq<Seq<char>>, record: Self) -> bool;

    /// Applies the schema to one row.
    fn from_row(header: &Vec<String>, row: &Vec<String>) -> (made: Result<Self, RowError>)
        ensures
            match made {
                Ok(record) => {
                    &&& Self::row_key(header.deep_view(), row.deep_view()) == Some(record.key())
                    &&& Self::reads(header.deep_view(), row.deep_view(), record)
                },
                Err(error) => {
                    &&& Self::row_key(header.deep_view(), row.deep_view()) is None
                    &&& error == RowError::MissingKey
                },
            },
    ;
}

} // verus!
