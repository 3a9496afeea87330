//! Lenient loading of the semicolon-delimited tables that describe a game's buildings and recipes.
//!
//! A table is a header record followed by data rows. Each row is turned into a typed record by
//! the schema of its entity type: cells are looked up by column name and coerced under a lenient
//! rule that never fails the row. Records are then collected under their key, a later row
//! replacing an earlier one with the same key.
//!
//! * [`source`] turns the bytes of a file into records of cells.
//! * [`cell`] holds the coercion rules for a single cell.
//! * [`row`] finds a cell by the name of its column.
//! * [`table`] is the keyed table itself.
//! * [`building`] and [`game_data`] are the two entity types with their schemas.
//! * [`fileload`] runs a whole load.
//! * [`fe`] is what a record shows to a front end.

pub mod building;
pub mod cell;
pub mod fe;
pub mod fileload;
pub mod game_data;
pub mod row;
pub mod source;
pub mod table;
