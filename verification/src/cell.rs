//! Coercion of a single cell.
//!
//! A cell is the text under one column of one row, or nothing where the row has no such column.
//! Every rule here is total: a cell that cannot be read as the wanted type is resolved to a
//! value, never to an error.
//!
//! * A flag is `true` exactly for a cell that reads as the integer 1.
//! * A text is present unless the cell is missing or empty.
//! * A number is read under one of two policies, and a schema uses one of them throughout:
//!   *zero default*, which turns a cell that does not read as a number into the type's default
//!   value, and *absent on failure*, which turns it into `None`.

use vstd::prelude::*;
use crate::source::{cell_as_i32, cell_as_u8, parse_i32, parse_u8};

verus! {

/// The text of a cell that may be missing.
pub open spec fn cell_text(cell: Option<&str>) -> Option<Seq<char>> {
    match cell {
        Some(text) => Some(text@),
        None => None,
    }
}

/// The flag that an integer stands for: 1 is `true`, every other outcome is `false`.
pub open spec fn flag_of(parsed: Option<u8>) -> bool {
    parsed == Some(1u8)
}

/// The flag that a cell stands for.
pub open spec fn flag_cell(cell: Option<Seq<char>>) -> bool {
    match cell {
        Some(text) => flag_of(cell_as_u8(text)),
        None => false,
    }
}

/// The flag rule, applied to what reading the cell as an integer gave.
pub fn flag_from_parsed(parsed: Option<u8>) -> (flag: bool)
    ensures
        flag == flag_of(parsed),
{
    match parsed {
        Some(value) => value == 1,
        None => false,
    }
}

/// Reads a flag cell: `true` for the integer 1; `false` for any other integer, for text that is
/// no integer and for a missing cell.
pub fn bool_from_int(cell: Option<&str>) -> (flag: bool)
    ensures
        flag == flag_cell(cell_text(cell)),
{
    match cell {
        Some(text) => flag_from_parsed(parse_u8(text)),
        None => false,
    }
}

/// Reads a flag cell into an optional field. The field is always filled: the flag rule keeps no
/// difference between a cell that says "no" and one that says nothing.
pub fn bool_from_string(cell: Option<&str>) -> (flag: Option<bool>)
    ensures
        flag == Some(flag_cell(cell_text(cell))),
{
    Some(bool_from_int(cell))
}

/// The text that a cell holds: nothing for a missing or an empty cell.
pub open spec fn present_text(cell: Option<Seq<char>>) -> Option<Seq<char>> {
    match cell {
        Some(text) => if text.len() == 0 {
            None
        } else {
            cell
        },
        None => None,
    }
}

/// Reads a text cell.
pub fn text_from_string(cell: Option<&str>) -> (text: Option<String>)
    ensures
        match text {
            Some(t) => present_text(cell_text(cell)) == Some(t@),
            None => present_text(cell_text(cell)) is None,
        },
{
    match cell {
        Some(t) => if t.is_empty() {
            None
        } else {
            Some(t.to_owned())
        },
        None => None,
    }
}

/// A type of number that a cell can be read as.
///
/// `parse_cell` answers `None` for text that is no number of this type. `Default::default()` is
/// the value that the zero-default policy falls back to.
pub trait Numeric: Sized + Default {
    /// Reads the text of a cell as a number.
    fn parse_cell(cell: &str) -> Option<Self>;
}

impl Numeric for i32 {
    fn parse_cell(cell: &str) -> (parsed: Option<i32>)
        ensures
            parsed == cell_as_i32(cell@),
    {
        parse_i32(cell)
    }
}

/// Whether `parsed` is an outcome of reading `cell` as a number of type `N`. A missing cell reads
/// as no number.
pub open spec fn reads_as<N: Numeric>(cell: Option<Seq<char>>, parsed: Option<N>) -> bool {
    match cell {
        Some(text) => exists|s: &str| s@ == text && call_ensures(N::parse_cell, (s,), parsed),
        None => parsed is None,
    }
}

/// Whether `value` is what the zero-default policy makes of `parsed`.
pub open spec fn zero_default<N: Default>(parsed: Option<N>, value: N) -> bool {
    match parsed {
        Some(number) => value == number,
        None => call_ensures(N::default, (), value),
    }
}

/// Whether `value` is what the zero-default policy makes of `cell`.
pub open spec fn zero_default_cell<N: Numeric>(cell: Option<Seq<char>>, value: N) -> bool {
    exists|parsed: Option<N>| reads_as(cell, parsed) && zero_default(parsed, value)
}

/// Reads a numeric cell of any type, single precision among them, under the absent-on-failure
/// policy: a cell that is missing or is no number gives `None`.
pub fn f32_from_string<N: Numeric>(cell: Option<&str>) -> (value: Option<N>)
    ensures
        reads_as(cell_text(cell), value),
{
    match cell {
        Some(text) => N::parse_cell(text),
        None => None,
    }
}

/// The zero-default policy, applied to what reading the cell gave.
pub fn num_from_parsed<N: Default>(parsed: Option<N>) -> (value: N)
    ensures
        zero_default(parsed, value),
{
    match parsed {
        Some(number) => number,
        None => N::default(),
    }
}

/// Reads a numeric cell under the zero-default policy: a cell that is missing or is no number
/// gives the default value, so that the two cannot be told from a cell that holds it.
pub fn num_from_string<N: Numeric>(cell: Option<&str>) -> (value: N)
    ensures
        zero_default_cell(cell_text(cell), value),
{
    num_from_parsed(f32_from_string(cell))
}

/// What the absent-on-failure policy makes of an integer cell.
pub open spec fn integer_cell(cell: Option<Seq<char>>) -> Option<i32> {
    match cell {
        Some(text) => cell_as_i32(text),
        None => None,
    }
}

/// Reads an integer cell under the absent-on-failure policy.
pub fn i32_from_string(cell: Option<&str>) -> (value: Option<i32>)
    ensures
        value == integer_cell(cell_text(cell)),
{
    f32_from_string::<i32>(cell)
}

/// Whether reading a cell as a number of type `N` has one outcome only, and the type one default
/// value: the same text always gives the same number or the same failure.
pub open spec fn reads_one_way<N: Numeric>() -> bool {
    &&& forall|s: &str, t: &str, a: Option<N>, b: Option<N>|
        #![trigger call_ensures(N::parse_cell, (s,), a), call_ensures(N::parse_cell, (t,), b)]
        s@ == t@ && call_ensures(N::parse_cell, (s,), a) && call_ensures(N::parse_cell, (t,), b)
            ==> a == b
    &&& forall|a: N, b: N|
        #![trigger call_ensures(N::default, (), a), call_ensures(N::default, (), b)]
        call_ensures(N::default, (), a) && call_ensures(N::default, (), b) ==> a == b
}

/// Integers are read one way: as the `csv` crate reads them, with 0 as the default.
pub proof fn lemma_integers_read_one_way()
    ensures
        reads_one_way::<i32>(),
        forall|cell: Option<Seq<char>>, parsed: Option<i32>| #[trigger]
            reads_as(cell, parsed) ==> parsed == integer_cell(cell),
        forall|value: i32| #[trigger] call_ensures(i32::default, (), value) ==> value == 0,
{
}

/// The flag rule: a cell is `true` exactly where it reads as the integer 1. A cell that reads as
/// another integer, one that reads as no integer and one that is missing are all `false`.
pub proof fn lemma_flag_rule(cell: Option<Seq<char>>)
    ensures
        cell is None ==> !flag_cell(cell),
        cell matches Some(text) && cell_as_u8(text) == Some(1u8) ==> flag_cell(cell),
        cell matches Some(text) && cell_as_u8(text) is None ==> !flag_cell(cell),
        cell matches Some(text) && cell_as_u8(text) matches Some(other) && other != 1 ==> !flag_cell(
            cell,
        ),
{
}

/// The two numeric policies on a cell that is no number, or is missing: zero default gives the
/// default value of the type, absent on failure gives nothing. On a cell that is a number both
/// give that number.
pub proof fn lemma_policies_on_a_cell<N: Numeric>(
    cell: Option<Seq<char>>,
    parsed: Option<N>,
    lenient: N,
    strict: Option<N>,
)
    requires
        reads_one_way::<N>(),
        reads_as(cell, parsed),
        zero_default_cell(cell, lenient),
        reads_as(cell, strict),
    ensures
        strict == parsed,
        parsed is None ==> call_ensures(N::default, (), lenient),
        parsed matches Some(number) ==> lenient == number,
{
    lemma_reads_one_way(cell, parsed, strict);
    let other = choose|other: Option<N>| reads_as(cell, other) && zero_default(other, lenient);
    lemma_reads_one_way(cell, parsed, other);
}

/// Where a type is read one way, a cell has one outcome.
pub proof fn lemma_reads_one_way<N: Numeric>(cell: Option<Seq<char>>, a: Option<N>, b: Option<N>)
    requires
        reads_one_way::<N>(),
        reads_as(cell, a),
        reads_as(cell, b),
    ensures
        a == b,
{
    if let Some(text) = cell {
        let s = choose|s: &str| s@ == text && call_ensures(N::parse_cell, (s,), a);
        let t = choose|t: &str| t@ == text && call_ensures(N::parse_cell, (t,), b);
        assert(call_ensures(N::parse_cell, (s,), a) && call_ensures(N::parse_cell, (t,), b));
    }
}

/// Where a type is read one way, the zero-default policy gives a cell one value.
pub proof fn lemma_zero_default_one_way<N: Numeric>(cell: Option<Seq<char>>, a: N, b: N)
    requires
        reads_one_way::<N>(),
        zero_default_cell(cell, a),
        zero_default_cell(cell, b),
    ensures
        a == b,
{
    let pa = choose|p: Option<N>| reads_as(cell, p) && zero_default(p, a);
    let pb = choose|p: Option<N>| reads_as(cell, p) && zero_default(p, b);
    lemma_reads_one_way(cell, pa, pb);
    if pa is None {
        assert(call_ensures(N::default, (), a) && call_ensures(N::default, (), b));
    }
}

/// A text that is present is not empty.
pub proof fn lemma_present_text_is_not_empty(cell: Option<Seq<char>>)
    ensures
        present_text(cell) matches Some(text) ==> text.len() > 0 && cell == Some(text),
{
}

} // verus!
