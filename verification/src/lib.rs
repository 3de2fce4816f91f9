//! Conversion of CSV text into a JSON document.
//!
//! The first record of the text names the columns. Every later record becomes
//! either one object of a JSON array, or, in keyed mode, one entry of a JSON
//! object under the value of its first cell.

pub mod args;
pub mod convert;
pub mod document;
pub mod file_names;
pub mod laws;
pub mod row;
pub mod table;

pub use crate::args::Args;
pub use crate::convert::{convert_table, parse_csv, ConvertError};
pub use crate::file_names::{contains_part, get_file_names};
pub use crate::row::update_json_with_record_row;
