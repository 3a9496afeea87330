//! Loading a whole table.
//!
//! The caller reads the file and hands over what it got: the path, and the bytes or the fact
//! that there were none to be had. A load either gives the complete table or fails; it never
//! gives part of one. It fails when the source could not be read, at the first record that the
//! reader rejects, and at the first row without a key, whichever comes first. What a cell holds
//! never makes a load fail.

use vstd::prelude::*;
use crate::building::Building;
use crate::cell::Numeric;
use crate::game_data::{normalized, Recipe, RecipeCSV};
use crate::row::{cell_of, RowSchema};
use crate::source::{csv_records, read_records};
use crate::cell::{lemma_zero_default_one_way, reads_one_way};
use crate::table::{build_table, keyed, lemma_keyed_entry, KeyedTable};

verus! {

/// A file as its reader found it.
#[derive(Clone, Debug)]
pub struct SourceFile {
    /// Where the file is.
    pub path: String,
    /// What the file holds, or `None` where it could not be opened or read.
    pub contents: Option<Vec<u8>>,
}

/// Why a load gave no table. Every error names the file.
#[derive(Clone, Debug, PartialEq, Eq)]
pub enum LoadError {
    /// The file could not be opened or read.
    Unreadable { path: String },
    /// The record at `record` is not one that the reader accepts. The header is record 0.
    Malformed { path: String, record: usize },
    /// The row at `record` has no key. The first row after the header is record 1.
    MissingKey { path: String, record: usize },
}

/// What a load error says.
pub enum Fault {
    Unreadable { path: Seq<char> },
    Malformed { path: Seq<char>, record: int },
    MissingKey { path: Seq<char>, record: int },
}

impl View for LoadError {
    type V = Fault;

    open spec fn view(&self) -> Fault {
        match self {
            LoadError::Unreadable { path } => Fault::Unreadable { path: path@ },
            LoadError::Malformed { path, record } => Fault::Malformed {
                path: path@,
                record: *record as int,
            },
            LoadError::MissingKey { path, record } => Fault::MissingKey {
                path: path@,
                record: *record as int,
            },
        }
    }
}

impl LoadError {
    /// The file that the load failed on.
    pub fn path(&self) -> (path: &String)
        ensures
            path@ == match self@ {
                Fault::Unreadable { path } => path,
                Fault::Malformed { path, .. } => path,
                Fault::MissingKey { path, .. } => path,
            },
    {
        match self {
            LoadError::Unreadable { path } => path,
            LoadError::Malformed { path, .. } => path,
            LoadError::MissingKey { path, .. } => path,
        }
    }
}

/// What is wrong with a record.
pub enum Flaw {
    /// The reader gave an error in its place.
    Malformed,
    /// It is a row, and the schema finds no key in it.
    MissingKey,
}

/// What is wrong with the record at `at`, if anything, for a table of records of type `T`. The
/// first record is the header and is never asked for a key.
pub open spec fn flaw_at<T: RowSchema>(records: Seq<Option<Seq<Seq<char>>>>, at: int) -> Option<
    Flaw,
> {
    match records[at] {
        None => Some(Flaw::Malformed),
        Some(row) => if at > 0 && records[0] is Some && T::row_key(records[0]->0, row) is None {
            Some(Flaw::MissingKey)
        } else {
            None
        },
    }
}

/// Whether no record has a flaw.
pub open spec fn sound<T: RowSchema>(records: Seq<Option<Seq<Seq<char>>>>) -> bool {
    forall|at: int| 0 <= at < records.len() ==> flaw_at::<T>(records, at) is None
}

/// Whether the record at `at` is the first with a flaw.
pub open spec fn is_first_flaw<T: RowSchema>(records: Seq<Option<Seq<Seq<char>>>>, at: int) -> bool {
    &&& 0 <= at < records.len()
    &&& flaw_at::<T>(records, at) is Some
    &&& forall|before: int| 0 <= before < at ==> flaw_at::<T>(records, before) is None
}

/// The error that a flaw at `at` in the file at `path` is reported as.
pub open spec fn fault_of(path: Seq<char>, at: int, flaw: Flaw) -> Fault {
    match flaw {
        Flaw::Malformed => Fault::Malformed { path, record: at },
        Flaw::MissingKey => Fault::MissingKey { path, record: at },
    }
}

/// Whether `fault` is the error that loading `source` as a table of `T` fails with: that the
/// file was not read, or else the first flaw among its records.
pub open spec fn load_fails<T: RowSchema>(source: &SourceFile, fault: Fault) -> bool {
    match source.contents {
        None => fault == Fault::Unreadable { path: source.path@ },
        Some(data) => exists|at: int|
            is_first_flaw::<T>(csv_records(data@), at) && fault == fault_of(
                source.path@,
                at,
                flaw_at::<T>(csv_records(data@), at)->0,
            ),
    }
}

/// Whether `list` holds one record for each row of `records`, in the order of the rows, each
/// being what the schema of `T` reads in its row and carrying the key of its row.
pub open spec fn rows_read<T: RowSchema>(
    records: Seq<Option<Seq<Seq<char>>>>,
    list: Seq<T>,
) -> bool {
    &&& list.len() == if records.len() == 0 {
        0
    } else {
        records.len() - 1
    }
    &&& forall|i: int|
        0 <= i < list.len() ==> {
            &&& T::row_key(records[0]->0, records[i + 1]->0) == Some((#[trigger] list[i]).key())
            &&& T::reads(records[0]->0, records[i + 1]->0, list[i])
        }
}

/// Whether loading `source` gives `list`: the file was read, none of its records has a flaw, and
/// `list` holds its rows.
pub open spec fn loads_list<T: RowSchema>(source: &SourceFile, list: Seq<T>) -> bool {
    &&& source.contents matches Some(data)
    &&& sound::<T>(csv_records(data@))
    &&& rows_read(csv_records(data@), list)
}

/// Whether loading `source` gives `table`: the table of a list that loading gives.
pub open spec fn loads_table<T: RowSchema>(source: &SourceFile, table: Map<Seq<char>, T>) -> bool {
    exists|list: Seq<T>| loads_list(source, list) && table == keyed(list)
}

/// Loads the rows of `source` as records of type `T`, in the order of the file.
///
/// An empty file has no header and no rows, and gives an empty list.
pub fn load_records<T: RowSchema>(source: &SourceFile) -> (loaded: Result<Vec<T>, LoadError>)
    ensures
        match loaded {
            Ok(list) => loads_list(source, list@),
            Err(error) => load_fails::<T>(source, error@),
        },
{
    let data = match &source.contents {
        Some(data) => data,
        None => { return Err(LoadError::Unreadable { path: source.path.clone() }); },
    };
    let records = read_records(data.as_slice());
    let ghost all = csv_records(data@);
    let mut list: Vec<T> = Vec::new();
    if records.len() == 0 {
        return Ok(list);
    }
    assert(records.deep_view()[0] == records@[0].deep_view());
    let header = match &records[0] {
        Some(header) => header,
        None => {
            assert(is_first_flaw::<T>(all, 0));
            return Err(LoadError::Malformed { path: source.path.clone(), record: 0 });
        },
    };
    let mut at: usize = 1;
    while at < records.len()
        invariant
            1 <= at <= records.len(),
            source.contents matches Some(bytes) && csv_records(bytes@) == all,
            records.deep_view() == all,
            all[0] == Some(header.deep_view()),
            list.len() == at - 1,
            forall|before: int| 0 <= before < at ==> flaw_at::<T>(all, before) is None,
            forall|i: int|
                0 <= i < list.len() ==> {
                    &&& T::row_key(all[0]->0, all[i + 1]->0) == Some((#[trigger] list@[i]).key())
                    &&& T::reads(all[0]->0, all[i + 1]->0, list@[i])
                },
        decreases records.len() - at,
    {
        assert(records.deep_view()[at as int] == records@[at as int].deep_view());
        match &records[at] {
            None => {
                assert(is_first_flaw::<T>(all, at as int));
                return Err(LoadError::Malformed { path: source.path.clone(), record: at });
            },
            Some(row) => {
                match T::from_row(header, row) {
                    Ok(record) => {
                        list.push(record);
                    },
                    Err(_) => {
                        assert(is_first_flaw::<T>(all, at as int));
                        return Err(
                            LoadError::MissingKey { path: source.path.clone(), record: at },
                        );
                    },
                }
            },
        }
        at += 1;
    }
    Ok(list)
}

/// Loads `source` into a table of records of type `T`, each under its key. Of two rows with
/// one key the later one stays.
pub fn csv_to_hash<T: RowSchema>(source: &SourceFile) -> (loaded: Result<
    KeyedTable<T>,
    LoadError,
>)
    ensures
        match loaded {
            Ok(table) => loads_table(source, table@),
            Err(error) => load_fails::<T>(source, error@),
        },
{
    match load_records::<T>(source) {
        Ok(list) => Ok(build_table(list)),
        Err(error) => Err(error),
    }
}

/// Loads the buildings of `source` as a list, in the order of the file. Rows with the same name
/// all stay.
pub fn load_buildings<N: Numeric>(source: &SourceFile) -> (loaded: Result<
    Vec<Building<N>>,
    LoadError,
>)
    ensures
        match loaded {
            Ok(list) => loads_list(source, list@),
            Err(error) => load_fails::<Building<N>>(source, error@),
        },
{
    load_records::<Building<N>>(source)
}

/// Whether `recipes` is the table of raw recipes `raw` with every record normalized: the same
/// keys, and under each the normal form of what `raw` has there.
pub open spec fn normalizes(
    raw: Map<Seq<char>, RecipeCSV>,
    recipes: Map<Seq<char>, Recipe>,
) -> bool {
    &&& forall|k: Seq<char>| recipes.contains_key(k) <==> raw.contains_key(k)
    &&& forall|k: Seq<char>| #[trigger]
        raw.contains_key(k) ==> recipes[k]@ == normalized(raw[k]@)
}

/// Normalizes every record of a table of raw recipes. Each recipe stays under its key.
pub fn normalize_table(raw: &KeyedTable<RecipeCSV>) -> (recipes: KeyedTable<Recipe>)
    ensures
        normalizes(raw@, recipes@),
{
    let keys = raw.keys();
    let mut recipes: KeyedTable<Recipe> = KeyedTable::new();
    let mut at: usize = 0;
    while at < keys.len()
        invariant
            at <= keys.len(),
            keys.deep_view().no_duplicates(),
            forall|k: Seq<char>| keys.deep_view().contains(k) <==> raw@.contains_key(k),
            forall|k: Seq<char>|
                recipes@.contains_key(k) <==> exists|i: int|
                    0 <= i < at && keys.deep_view()[i] == k,
            forall|k: Seq<char>| #[trigger]
                recipes@.contains_key(k) ==> recipes@[k]@ == normalized(raw@[k]@),
        decreases keys.len() - at,
    {
        let ghost before = recipes@;
        let ghost key = keys.deep_view()[at as int];
        assert(keys.deep_view().contains(key));
        if let Some(record) = raw.get(keys[at].as_str()) {
            let recipe = record.normalize();
            recipes.insert(recipe);
            assert(recipes@ == before.insert(key, recipe));
        }
        proof {
            assert forall|k: Seq<char>|
                recipes@.contains_key(k) <==> exists|i: int|
                    0 <= i < at + 1 && keys.deep_view()[i] == k by {
                if k == key {
                    assert(keys.deep_view()[at as int] == k);
                } else if before.contains_key(k) {
                    let i = choose|i: int| 0 <= i < at && keys.deep_view()[i] == k;
                    assert(0 <= i < at + 1 && keys.deep_view()[i] == k);
                }
            }
        }
        at += 1;
    }
    proof {
        assert forall|k: Seq<char>| recipes@.contains_key(k) <==> raw@.contains_key(k) by {
            if raw@.contains_key(k) {
                assert(keys.deep_view().contains(k));
                let i = choose|i: int| 0 <= i < keys.deep_view().len() && keys.deep_view()[i] == k;
                assert(0 <= i < at && keys.deep_view()[i] == k);
            }
            if recipes@.contains_key(k) {
                let i = choose|i: int| 0 <= i < at && keys.deep_view()[i] == k;
                assert(0 <= i < keys.deep_view().len() && keys.deep_view()[i] == k);
                assert(keys.deep_view().contains(k));
            }
        }
    }
    recipes
}

/// Loads both tables of the game: the buildings first, then the recipes, which are normalized.
///
/// The first error ends the load: one in the buildings is reported even where the recipes have
/// one too.
pub fn load_game_files<N: Numeric>(buildings: &SourceFile, recipes: &SourceFile) -> (loaded:
    Result<(KeyedTable<Recipe>, KeyedTable<Building<N>>), LoadError>)
    ensures
        match loaded {
            Ok((recipe_table, building_table)) => {
                &&& loads_table(buildings, building_table@)
                &&& exists|raw: Map<Seq<char>, RecipeCSV>|
                    loads_table(recipes, raw) && normalizes(raw, recipe_table@)
            },
            Err(error) => {
                ||| load_fails::<Building<N>>(buildings, error@)
                ||| (exists|table: Map<Seq<char>, Building<N>>| loads_table(buildings, table))
                    && load_fails::<RecipeCSV>(recipes, error@)
            },
        },
{
    let building_table = match csv_to_hash::<Building<N>>(buildings) {
        Ok(table) => table,
        Err(error) => { return Err(error); },
    };
    let raw = match csv_to_hash::<RecipeCSV>(recipes) {
        Ok(table) => table,
        Err(error) => {
            assert(loads_table(buildings, building_table@));
            return Err(error);
        },
    };
    let recipe_table = normalize_table(&raw);
    assert(loads_table(recipes, raw@) && normalizes(raw@, recipe_table@));
    Ok((recipe_table, building_table))
}

/// Loading one source twice gives two tables with the same keys, and under each key two
/// records that are alike, for any likeness `alike` that holds of two records read in one row.
pub proof fn lemma_reload_gives_like_tables<T: RowSchema>(
    source: &SourceFile,
    first: Map<Seq<char>, T>,
    second: Map<Seq<char>, T>,
    alike: spec_fn(T, T) -> bool,
)
    requires
        loads_table(source, first),
        loads_table(source, second),
        forall|header: Seq<Seq<char>>, row: Seq<Seq<char>>, a: T, b: T|
            #![trigger T::reads(header, row, a), T::reads(header, row, b)]
            T::reads(header, row, a) && T::reads(header, row, b) && a.key() == b.key() ==> alike(
                a,
                b,
            ),
    ensures
        forall|k: Seq<char>| first.contains_key(k) <==> second.contains_key(k),
        forall|k: Seq<char>| #[trigger] first.contains_key(k) ==> alike(first[k], second[k]),
{
    let a = choose|list: Seq<T>| loads_list(source, list) && first == keyed(list);
    let b = choose|list: Seq<T>| loads_list(source, list) && second == keyed(list);
    let records = csv_records(source.contents->0@);
    assert forall|i: int| 0 <= i < a.len() implies a[i].key() == b[i].key() && alike(
        a[i],
        b[i],
    ) by {
        assert(T::row_key(records[0]->0, records[i + 1]->0) == Some(a[i].key()));
        assert(T::row_key(records[0]->0, records[i + 1]->0) == Some(b[i].key()));
        assert(T::reads(records[0]->0, records[i + 1]->0, a[i]));
        assert(T::reads(records[0]->0, records[i + 1]->0, b[i]));
    }
    assert forall|k: Seq<char>|
        (first.contains_key(k) <==> second.contains_key(k)) && (first.contains_key(k) ==> alike(
            first[k],
            second[k],
        )) by {
        let at = lemma_keyed_entry(a, k);
        let bt = lemma_keyed_entry(b, k);
        if at >= 0 {
            assert(b[at].key() == k);
            if bt > at {
                assert(a[bt].key() == k);
            }
        } else if bt >= 0 {
            assert(a[bt].key() == k);
        }
    }
}

/// Loading the same recipes twice gives two tables equal in content: the same keys, and under
/// each the same raw recipe.
pub proof fn lemma_recipes_reload(
    source: &SourceFile,
    first: Map<Seq<char>, RecipeCSV>,
    second: Map<Seq<char>, RecipeCSV>,
)
    requires
        loads_table(source, first),
        loads_table(source, second),
    ensures
        forall|k: Seq<char>| first.contains_key(k) <==> second.contains_key(k),
        forall|k: Seq<char>| #[trigger] first.contains_key(k) ==> first[k]@ == second[k]@,
{
    lemma_reload_gives_like_tables(
        source,
        first,
        second,
        |a: RecipeCSV, b: RecipeCSV| a@ == b@,
    );
}

/// Whether two buildings are equal in content.
pub open spec fn same_building<N>(a: Building<N>, b: Building<N>) -> bool {
    &&& a.name@ == b.name@
    &&& a.overclockable == b.overclockable
    &&& a.power_usage == b.power_usage
    &&& a.power_generated == b.power_generated
    &&& a.inputs == b.inputs
    &&& a.outputs == b.outputs
    &&& a.width == b.width
    &&& a.length == b.length
    &&& a.height == b.height
}

/// Loading the same buildings twice gives two tables equal in content, where the numeric type
/// is read one way.
pub proof fn lemma_buildings_reload<N: Numeric>(
    source: &SourceFile,
    first: Map<Seq<char>, Building<N>>,
    second: Map<Seq<char>, Building<N>>,
)
    requires
        reads_one_way::<N>(),
        loads_table(source, first),
        loads_table(source, second),
    ensures
        forall|k: Seq<char>| first.contains_key(k) <==> second.contains_key(k),
        forall|k: Seq<char>| #[trigger]
            first.contains_key(k) ==> same_building(first[k], second[k]),
{
    assert forall|header: Seq<Seq<char>>, row: Seq<Seq<char>>, a: Building<N>, b: Building<N>|
        #![trigger
            <Building<N> as RowSchema>::reads(header, row, a),
            <Building<N> as RowSchema>::reads(header, row, b)]
        <Building<N> as RowSchema>::reads(header, row, a) && <Building<N> as RowSchema>::reads(
            header,
            row,
            b,
        ) && a.name@ == b.name@ implies same_building(a, b) by {
        lemma_zero_default_one_way(cell_of(header, row, "powerUsage"@), a.power_usage, b.power_usage);
        lemma_zero_default_one_way(
            cell_of(header, row, "powerGenerated"@),
            a.power_generated,
            b.power_generated,
        );
        lemma_zero_default_one_way(cell_of(header, row, "inputs"@), a.inputs, b.inputs);
        lemma_zero_default_one_way(cell_of(header, row, "outputs"@), a.outputs, b.outputs);
        lemma_zero_default_one_way(cell_of(header, row, "width"@), a.width, b.width);
        lemma_zero_default_one_way(cell_of(header, row, "length"@), a.length, b.length);
        lemma_zero_default_one_way(cell_of(header, row, "height"@), a.height, b.height);
    }
    lemma_reload_gives_like_tables(
        source,
        first,
        second,
        |a: Building<N>, b: Building<N>| same_building(a, b),
    );
}

/// No record of a loaded list is without a key: the key of each is the text of a cell that is
/// not empty, when the schema takes its key from the text of a cell.
pub proof fn lemma_loaded_recipes_are_named(source: &SourceFile, list: Seq<RecipeCSV>)
    requires
        loads_list(source, list),
    ensures
        forall|i: int| 0 <= i < list.len() ==> (#[trigger] list[i]).recipe_name@.len() > 0,
{
}

/// Every building of a loaded list has a name that is not empty.
pub proof fn lemma_loaded_buildings_are_named<N: Numeric>(
    source: &SourceFile,
    list: Seq<Building<N>>,
)
    requires
        loads_list(source, list),
    ensures
        forall|i: int| 0 <= i < list.len() ==> (#[trigger] list[i]).name@.len() > 0,
{
}

} // verus!
