//! Core of an OLAP aggregation engine: identifier parsing, schema metadata,
//! query intermediate representation, SQL compilation for the ClickHouse
//! dialect, cube auto-detection, and a typed columnar result container.
//!
//! Execution against a live database (connection pooling, streaming I/O,
//! HTTP handling) lives outside this crate; this library does everything
//! that can be computed from plain values.

pub mod backend;
pub mod detection;
pub mod error;
pub mod dataframe;
pub mod names;
pub mod query;
pub mod schema;
pub mod sql;
pub mod text;

pub use backend::{block_to_df, blocks_to_dataframes, check_user_settings, NativeBlock, NativeColumn, NativeValues};
pub use dataframe::{Column, ColumnData, DataFrame};
pub use detection::detect_cube;
pub use error::Error;
pub use names::{Cut, Drilldown, LevelName, Measure, Property};
pub use query::{AggregateQueryOpt, Query};
pub use schema::{Cube, Database, Schema};
