//! Column type inference for delimited text.
//!
//! Each field of a column is classified into the narrowest storage type that
//! can hold it; per-batch tallies of those types merge commutatively, and a
//! resolution policy reduces a column's tally to one type.
//!
//! The stages, in the order data flows through them:
//! - `schema_names` fixes the columns from the header, or from the first data
//!   line when there is no header; `col<N>` names what the header leaves empty.
//! - `transpose_batch` splits a batch of lines on the delimiter and gathers
//!   the fields by column, dropping fields past the known column count.
//! - `tally_column` classifies each value (`infer_sql_type`) and counts tags.
//! - `TypeCounts::merge` combines tallies; it is commutative and associative,
//!   so batches may be tallied in any order or concurrently.
//! - `assemble_schema` resolves each column under a `Policy` and pairs it with
//!   its name, in column order.
//!
//! Whether a field reads as a float is determined by the caller and passed in
//! as a `FloatForm`, since floating-point arithmetic stays outside the library.
pub mod classify;
pub mod counts;
pub mod schema;
pub mod tag;
pub mod text;

pub use tag::{Policy, TypeTag};
pub use text::{chars_of, decimal_string, split_fields, synthesized_column_name};
pub use classify::{classify_with, infer_sql_type, outside_checks_of, parse_integer, FloatForm, ParseChecks};
pub use counts::TypeCounts;
pub use schema::{
    assemble_schema, column_names, infer_column_type, merge_columns, schema_names, tally_column, transpose_batch,
    ColumnSchema, BATCH_SIZE,
};
