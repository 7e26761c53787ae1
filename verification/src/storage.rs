//! The column types of the columnar file and the mapping onto them.

use crate::schema::DataType;
use vstd::prelude::*;

verus! {

/// The type under which a column is stored.
#[derive(Clone, Copy, Debug, PartialEq, Eq, Structural)]
pub enum StorageColumnType {
    /// 32-bit signed integer.
    Int32,
    /// 32-bit floating point.
    Float32,
    /// UTF-8 text.
    Utf8,
    /// Days since the epoch, as a 32-bit signed integer.
    Date32,
    /// Boolean.
    Boolean,
}

/// The storage type of each schema type. Text of either kind and UUIDs are
/// stored as UTF-8 text.
pub open spec fn storage_type_of(data_type: DataType) -> StorageColumnType {
    match data_type {
        DataType::Int => StorageColumnType::Int32,
        DataType::Float => StorageColumnType::Float32,
        DataType::String => StorageColumnType::Utf8,
        DataType::VarChar(_) => StorageColumnType::Utf8,
        DataType::DateTime => StorageColumnType::Date32,
        DataType::UUID => StorageColumnType::Utf8,
        DataType::Boolean => StorageColumnType::Boolean,
    }
}

/// Computes [`storage_type_of`].
pub fn map_sql_to_storage_type(sql_type: &DataType) -> (storage: StorageColumnType)
    ensures
        storage == storage_type_of(*sql_type),
{
    match sql_type {
        DataType::Int => StorageColumnType::Int32,
        DataType::Float => StorageColumnType::Float32,
        DataType::String => StorageColumnType::Utf8,
        DataType::VarChar(_) => StorageColumnType::Utf8,
        DataType::DateTime => StorageColumnType::Date32,
        DataType::UUID => StorageColumnType::Utf8,
        DataType::Boolean => StorageColumnType::Boolean,
    }
}

} // verus!
