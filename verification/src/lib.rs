//! Data skipping for table scans.
//!
//! Each data file of a table comes with statistics: the number of records,
//! and for each column the minimum, the maximum and the number of NULLs. A
//! query predicate over the columns of the table is rewritten into a
//! predicate over these statistics, and a file on whose statistics the
//! rewritten predicate is FALSE is left out of the scan. A file that holds a
//! matching row is not left out; the one exception is the test that `!=` is
//! rewritten to, which [`soundness`] sets apart.
//!
//! * [`expressions`], [`operators`], [`scalars`]: the expression tree.
//! * [`schema`]: table schemas, and the shape of the statistics record.
//! * [`skipping`]: the rewrite; [`laws`]: the equations it obeys.
//! * [`semantics`], [`evaluation`]: three-valued logic, as a definition and
//!   as an evaluator; [`soundness`]: why a skipped file holds no match.
//! * [`engine`], [`filter`]: the filter that an engine runs on batches of
//!   file metadata.

pub mod engine;
pub mod evaluation;
pub mod expressions;
pub mod filter;
pub mod laws;
pub mod operators;
pub mod scalars;
pub mod schema;
pub mod semantics;
pub mod skipping;
pub mod soundness;

pub use crate::engine::{Engine, EngineData, Error, ExpressionEvaluator, JsonHandler};
pub use crate::expressions::{ColumnName, Expr, SharedExpression};
pub use crate::filter::DataSkippingFilter;
pub use crate::scalars::Scalar;
pub use crate::schema::{DataType, StructField, StructType};
