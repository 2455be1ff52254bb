//! The generic, column-oriented, typed result container.
//!
//! A `DataFrame` is an ordered sequence of named, typed columns; a
//! well-formed frame has every column of identical length. The closed
//! set of column types covers signed 32/64-bit integers, 32/64-bit
//! floating-point values (carried as their IEEE 754 bit patterns, so
//! that the container stays free of float arithmetic), booleans, UTF-8
//! text, and a nullable counterpart of each. The boolean variants are
//! for backends that deliver truth values; ClickHouse delivers them as
//! 8-bit integers, so its adapter never constructs them.

use vstd::prelude::*;

verus! {

/// The typed values of one column.
///
/// Floating-point data is held as raw bit patterns (`u32`/`u64`); the
/// consumer reinterprets them as IEEE 754 values when rendering.
pub enum ColumnData {
    Int32(Vec<i32>),
    Int64(Vec<i64>),
    Float32Bits(Vec<u32>),
    Float64Bits(Vec<u64>),
    Bool(Vec<bool>),
    Text(Vec<String>),
    NullableInt32(Vec<Option<i32>>),
    NullableInt64(Vec<Option<i64>>),
    NullableFloat32Bits(Vec<Option<u32>>),
    NullableFloat64Bits(Vec<Option<u64>>),
    NullableBool(Vec<Option<bool>>),
    NullableText(Vec<Option<String>>),
}

impl ColumnData {
    /// The number of rows this column holds.
    pub open spec fn spec_len(&self) -> nat {
        match self {
            ColumnData::Int32(v) => v@.len(),
            ColumnData::Int64(v) => v@.len(),
            ColumnData::Float32Bits(v) => v@.len(),
            ColumnData::Float64Bits(v) => v@.len(),
            ColumnData::Bool(v) => v@.len(),
            ColumnData::Text(v) => v@.len(),
            ColumnData::NullableInt32(v) => v@.len(),
            ColumnData::NullableInt64(v) => v@.len(),
            ColumnData::NullableFloat32Bits(v) => v@.len(),
            ColumnData::NullableFloat64Bits(v) => v@.len(),
            ColumnData::NullableBool(v) => v@.len(),
            ColumnData::NullableText(v) => v@.len(),
        }
    }

    /// The number of rows this column holds.
    pub fn len(&self) -> (r: usize)
        ensures
            r == self.spec_len(),
    {
        match self {
            ColumnData::Int32(v) => v.len(),
            ColumnData::Int64(v) => v.len(),
            ColumnData::Float32Bits(v) => v.len(),
            ColumnData::Float64Bits(v) => v.len(),
            ColumnData::Bool(v) => v.len(),
            ColumnData::Text(v) => v.len(),
            ColumnData::NullableInt32(v) => v.len(),
            ColumnData::NullableInt64(v) => v.len(),
            ColumnData::NullableFloat32Bits(v) => v.len(),
            ColumnData::NullableFloat64Bits(v) => v.len(),
            ColumnData::NullableBool(v) => v.len(),
            ColumnData::NullableText(v) => v.len(),
        }
    }
}

/// One named, typed column.
pub struct Column {
    pub name: String,
    pub data: ColumnData,
}

impl Column {
    /// Builds a named column.
    pub fn new(name: String, data: ColumnData) -> (r: Column)
        ensures
            r.name == name,
            r.data == data,
    {
        Column { name, data }
    }
}

/// An ordered sequence of named, typed columns.
pub struct DataFrame {
    pub columns: Vec<Column>,
}

impl DataFrame {
    /// Every column holds the same number of rows.
    pub open spec fn well_formed(&self) -> bool {
        forall|i: int|
            0 <= i < self.columns@.len() ==> #[trigger] self.columns@[i].data.spec_len()
                == self.columns@[0].data.spec_len()
    }

    /// The row count: the length shared by all columns, or zero for a
    /// frame with no columns.
    pub open spec fn spec_num_rows(&self) -> nat {
        if self.columns@.len() == 0 {
            0
        } else {
            self.columns@[0].data.spec_len()
        }
    }

    /// An empty frame.
    pub fn new() -> (r: DataFrame)
        ensures
            r.columns@.len() == 0,
            r.well_formed(),
    {
        DataFrame { columns: Vec::new() }
    }

    /// Wraps columns into a frame. The caller is responsible for the
    /// columns agreeing on their length; well-formedness is stated, not
    /// assumed.
    pub fn from_vec(columns: Vec<Column>) -> (r: DataFrame)
        ensures
            r.columns == columns,
    {
        DataFrame { columns }
    }

    /// The row count of a frame.
    pub fn num_rows(&self) -> (r: usize)
        ensures
            r == self.spec_num_rows(),
    {
        if self.columns.len() == 0 {
            0
        } else {
            self.columns[0].data.len()
        }
    }
}

} // verus!
