//! Turns benchmark measurements, named `table/column/row`, into aligned
//! comparison tables.
//!
//! The model is built one record at a time ([`CriterionTableData::add_benchmark`])
//! and then handed to a [`Formatter`] by [`CriterionTableData::make_tables`].
//! Magnitudes of measurements are floating-point values that live with the
//! caller: the library carries their rendered figures and decides everything
//! else.

pub mod columns;
pub mod config;
pub mod data;
pub mod error;
pub mod formatter;
pub mod gfm;
pub mod ident;
pub mod keyed;
pub mod positions;
pub mod render;
pub mod table;
pub mod text;
pub mod units;

pub use columns::{ColumnInfo, ColumnInfoVec};
pub use config::{encode_key, TablesConfig};
pub use data::CriterionTableData;
pub use error::BuildError;
pub use formatter::Formatter;
pub use gfm::GFMFormatter;
pub use ident::BenchmarkId;
pub use positions::ColumnPosition;
pub use render::process;
pub use table::{Column, Row, Table, WIDTH_LIMIT};
pub use units::{Comparison, Direction, TimeUnit, UnitScale, TEXT_LIMIT};
