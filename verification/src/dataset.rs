//! Random datasets for the tables of a schema.
//!
//! A dataset holds one buffer per column, all of the same number of rows,
//! which is drawn once per table from a range that the caller gives.
//! Floating-point numbers cannot be held here: for a `Float32` column the
//! buffer records how many values the writer has to draw.

use crate::random::{is_uuid_v4_text, random_in_range, random_uuid_text};
use crate::schema::{Column, DataType, Table};
use crate::storage::{map_sql_to_storage_type, storage_type_of, StorageColumnType};
use crate::synth::{generate_fake_string_data, shape_of, text_kind_of};
use crate::text::{digits_of, push_decimal};
use vstd::string::StringExecFns;
use vstd::prelude::*;

verus! {

/// The largest integer and the largest day offset that are drawn; the
/// smallest is zero.
pub const MAX_DRAW: i32 = 100;

/// The bounds, both included, between which the number of rows is drawn.
#[derive(Clone, Copy, Debug, PartialEq, Eq, Structural)]
pub struct RowRange {
    pub min: usize,
    pub max: usize,
}

impl RowRange {
    /// A range holds at least one number.
    pub open spec fn wf(&self) -> bool {
        self.min <= self.max
    }

    /// The range from `min` to `max`, or `None` where it would be empty.
    pub fn new(min: usize, max: usize) -> (r: Option<RowRange>)
        ensures
            r == if min <= max {
                Some(RowRange { min, max })
            } else {
                None
            },
    {
        if min <= max {
            Some(RowRange { min, max })
        } else {
            None
        }
    }

    /// From a thousand rows to a hundred thousand.
    pub fn standard() -> (r: RowRange)
        ensures
            r == (RowRange { min: 1000, max: 100000 }),
            r.wf(),
    {
        RowRange { min: 1000, max: 100000 }
    }
}

/// The values of one column.
#[derive(Debug, PartialEq, Eq)]
pub enum ColumnValues {
    Int32(Vec<i32>),
    /// The number of values that the writer draws from 0 to 100.
    Float32(usize),
    Utf8(Vec<String>),
    Date32(Vec<i32>),
    Boolean(Vec<bool>),
}

impl ColumnValues {
    /// The number of rows.
    pub open spec fn rows(&self) -> nat {
        match self {
            ColumnValues::Int32(v) => v@.len(),
            ColumnValues::Float32(n) => *n as nat,
            ColumnValues::Utf8(v) => v@.len(),
            ColumnValues::Date32(v) => v@.len(),
            ColumnValues::Boolean(v) => v@.len(),
        }
    }

    /// The type under which the values are stored.
    pub open spec fn storage_type(&self) -> StorageColumnType {
        match self {
            ColumnValues::Int32(_) => StorageColumnType::Int32,
            ColumnValues::Float32(_) => StorageColumnType::Float32,
            ColumnValues::Utf8(_) => StorageColumnType::Utf8,
            ColumnValues::Date32(_) => StorageColumnType::Date32,
            ColumnValues::Boolean(_) => StorageColumnType::Boolean,
        }
    }

    /// Integers and day offsets lie between 0 and [`MAX_DRAW`].
    pub open spec fn in_bounds(&self) -> bool {
        match self {
            ColumnValues::Int32(v) => forall|i: int|
                0 <= i < v@.len() ==> 0 <= #[trigger] v@[i] <= MAX_DRAW,
            ColumnValues::Date32(v) => forall|i: int|
                0 <= i < v@.len() ==> 0 <= #[trigger] v@[i] <= MAX_DRAW,
            _ => true,
        }
    }

    /// Computes [`Self::rows`].
    pub fn len(&self) -> (n: usize)
        ensures
            n == self.rows(),
    {
        match self {
            ColumnValues::Int32(v) => v.len(),
            ColumnValues::Float32(n) => *n,
            ColumnValues::Utf8(v) => v.len(),
            ColumnValues::Date32(v) => v.len(),
            ColumnValues::Boolean(v) => v.len(),
        }
    }
}

/// Whether `values` may fill the column `name` of type `data_type`: the
/// storage type is that of the column, the numbers are in bounds, a UUID
/// column holds version 4 UUIDs in hyphenated form, and a text column holds
/// texts of the shape that its name calls for.
pub open spec fn fills(values: ColumnValues, name: Seq<char>, data_type: DataType) -> bool {
    &&& values.storage_type() == storage_type_of(data_type)
    &&& values.in_bounds()
    &&& data_type == DataType::UUID ==> (values matches ColumnValues::Utf8(v) && forall|i: int|
        0 <= i < v@.len() ==> is_uuid_v4_text(#[trigger] v@[i]@))
    &&& (data_type == DataType::String || data_type is VarChar) ==> (values matches ColumnValues::Utf8(
        v,
    ) && forall|i: int| 0 <= i < v@.len() ==> shape_of(text_kind_of(name), #[trigger] v@[i]@))
}

fn draw_integers(num_rows: usize) -> (data: Vec<i32>)
    ensures
        data@.len() == num_rows,
        forall|i: int| 0 <= i < num_rows ==> 0 <= #[trigger] data@[i] <= MAX_DRAW,
{
    let mut data: Vec<i32> = Vec::new();
    let mut i: usize = 0;
    while i < num_rows
        invariant
            i <= num_rows,
            data@.len() == i,
            forall|k: int| 0 <= k < i ==> 0 <= #[trigger] data@[k] <= MAX_DRAW,
        decreases num_rows - i,
    {
        let n = random_in_range(0, MAX_DRAW as u64);
        data.push(n as i32);
        i += 1;
    }
    data
}

fn draw_booleans(num_rows: usize) -> (data: Vec<bool>)
    ensures
        data@.len() == num_rows,
{
    let mut data: Vec<bool> = Vec::new();
    let mut i: usize = 0;
    while i < num_rows
        invariant
            i <= num_rows,
            data@.len() == i,
        decreases num_rows - i,
    {
        let coin = random_in_range(0, 1);
        data.push(coin == 1);
        i += 1;
    }
    data
}

fn draw_uuids(num_rows: usize) -> (data: Vec<String>)
    ensures
        data@.len() == num_rows,
        forall|i: int| 0 <= i < num_rows ==> is_uuid_v4_text(#[trigger] data@[i]@),
{
    let mut data: Vec<String> = Vec::new();
    let mut i: usize = 0;
    while i < num_rows
        invariant
            i <= num_rows,
            data@.len() == i,
            forall|k: int| 0 <= k < i ==> is_uuid_v4_text(#[trigger] data@[k]@),
        decreases num_rows - i,
    {
        let text = random_uuid_text();
        data.push(text);
        i += 1;
    }
    data
}

/// Draws `num_rows` values for `column`: integers and day offsets from 0 to
/// 100, fair coins, fresh UUIDs, and for text what the column's name calls
/// for.
pub fn generate_column(column: &Column, num_rows: usize) -> (values: ColumnValues)
    ensures
        values.rows() == num_rows,
        fills(values, column.name@, column.data_type),
{
    match column.data_type {
        DataType::Int => ColumnValues::Int32(draw_integers(num_rows)),
        DataType::Float => ColumnValues::Float32(num_rows),
        DataType::String => ColumnValues::Utf8(
            generate_fake_string_data(column.name.as_str(), num_rows),
        ),
        DataType::VarChar(_) => ColumnValues::Utf8(
            generate_fake_string_data(column.name.as_str(), num_rows),
        ),
        DataType::DateTime => ColumnValues::Date32(draw_integers(num_rows)),
        DataType::UUID => ColumnValues::Utf8(draw_uuids(num_rows)),
        DataType::Boolean => ColumnValues::Boolean(draw_booleans(num_rows)),
    }
}

/// One column of a dataset: its name, its storage type and its values.
#[derive(Debug, PartialEq, Eq)]
pub struct ColumnData {
    pub name: String,
    pub storage_type: StorageColumnType,
    pub values: ColumnValues,
}

/// The dataset of one table.
#[derive(Debug, PartialEq, Eq)]
pub struct TableData {
    pub table_name: String,
    pub num_rows: usize,
    pub columns: Vec<ColumnData>,
}

impl ColumnData {
    /// Whether this is a column of `num_rows` rows made for `column`.
    pub open spec fn made_for(&self, column: Column, num_rows: usize) -> bool {
        &&& self.name@ == column.name@
        &&& self.storage_type == storage_type_of(column.data_type)
        &&& self.values.rows() == num_rows
        &&& fills(self.values, column.name@, column.data_type)
    }
}

impl TableData {
    /// Every column has `num_rows` rows, stored under its own type.
    pub open spec fn wf(&self) -> bool {
        forall|i: int|
            0 <= i < self.columns@.len() ==> {
                &&& (#[trigger] self.columns@[i]).values.rows() == self.num_rows
                &&& self.columns@[i].values.storage_type() == self.columns@[i].storage_type
                &&& self.columns@[i].values.in_bounds()
            }
    }

    /// Whether this is a dataset made for `table`: one column for each of
    /// the table's, in the same order.
    pub open spec fn made_for(&self, table: Table) -> bool {
        &&& self.table_name@ == table.name@
        &&& self.columns@.len() == table.columns@.len()
        &&& forall|i: int|
            0 <= i < self.columns@.len() ==> (#[trigger] self.columns@[i]).made_for(
                table.columns@[i],
                self.num_rows,
            )
    }
}

/// Draws a number of rows from `range`.
pub fn draw_row_count(range: &RowRange) -> (num_rows: usize)
    requires
        range.wf(),
    ensures
        range.min <= num_rows <= range.max,
{
    random_in_range(range.min as u64, range.max as u64) as usize
}

/// Makes a dataset of `num_rows` rows for `table`.
pub fn generate_table(table: &Table, num_rows: usize) -> (data: TableData)
    ensures
        data.num_rows == num_rows,
        data.made_for(*table),
        data.wf(),
{
    let mut columns: Vec<ColumnData> = Vec::new();
    let mut i: usize = 0;
    while i < table.columns.len()
        invariant
            i <= table.columns.len(),
            columns@.len() == i,
            forall|k: int|
                0 <= k < i ==> (#[trigger] columns@[k]).made_for(table.columns@[k], num_rows),
        decreases table.columns.len() - i,
    {
        let column = &table.columns[i];
        let values = generate_column(column, num_rows);
        columns.push(
            ColumnData {
                name: column.name.clone(),
                storage_type: map_sql_to_storage_type(&column.data_type),
                values,
            },
        );
        i += 1;
    }
    TableData { table_name: table.name.clone(), num_rows, columns }
}

/// Makes a dataset for `table` whose number of rows is drawn, once, from
/// `range`.
pub fn generate_random_table(table: &Table, range: &RowRange) -> (data: TableData)
    requires
        range.wf(),
    ensures
        range.min <= data.num_rows <= range.max,
        data.made_for(*table),
        data.wf(),
{
    generate_table(table, draw_row_count(range))
}

/// All columns of a dataset have the same number of rows.
pub proof fn columns_have_equal_rows(data: TableData, i: int, j: int)
    requires
        data.wf(),
        0 <= i < data.columns@.len(),
        0 <= j < data.columns@.len(),
    ensures
        data.columns@[i].values.rows() == data.columns@[j].values.rows(),
{
}

/// The youngest and the oldest person of a sample.
pub const MIN_AGE: i32 = 18;

pub const MAX_AGE: i32 = 65;

/// A small dataset of people, for trying out a writer: the column `id`
/// counts from zero, `name` is `Person` and the id, and `age` is drawn from
/// 18 to 65.
pub struct People {
    pub ids: Vec<i32>,
    pub names: Vec<String>,
    pub ages: Vec<i32>,
}

/// The name of the person with the id `id`.
pub open spec fn person_name_of(id: nat) -> Seq<char> {
    "Person "@ + digits_of(id)
}

/// Makes a sample of `count` people.
pub fn sample_people(count: usize) -> (people: People)
    requires
        count <= i32::MAX,
    ensures
        people.ids@.len() == count,
        people.names@.len() == count,
        people.ages@.len() == count,
        forall|i: int| 0 <= i < count ==> #[trigger] people.ids@[i] == i,
        forall|i: int| 0 <= i < count ==> (#[trigger] people.names@[i])@ == person_name_of(i as nat),
        forall|i: int| 0 <= i < count ==> MIN_AGE <= #[trigger] people.ages@[i] <= MAX_AGE,
{
    let mut ids: Vec<i32> = Vec::new();
    let mut names: Vec<String> = Vec::new();
    let mut ages: Vec<i32> = Vec::new();
    let mut i: usize = 0;
    while i < count
        invariant
            i <= count <= i32::MAX,
            ids@.len() == i,
            names@.len() == i,
            ages@.len() == i,
            forall|k: int| 0 <= k < i ==> #[trigger] ids@[k] == k,
            forall|k: int| 0 <= k < i ==> (#[trigger] names@[k])@ == person_name_of(k as nat),
            forall|k: int| 0 <= k < i ==> MIN_AGE <= #[trigger] ages@[k] <= MAX_AGE,
        decreases count - i,
    {
        ids.push(i as i32);
        let mut name = String::from_str("Person ");
        push_decimal(&mut name, i as u64);
        names.push(name);
        let age = random_in_range(MIN_AGE as u64, MAX_AGE as u64);
        ages.push(age as i32);
        i += 1;
    }
    People { ids, names, ages }
}

} // verus!
