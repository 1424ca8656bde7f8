//! Column-typed validation of tabular data (spreadsheet or CSV rows) and the
//! construction of the JSON objects that a valid row exports to.

pub mod model;
pub mod text;
pub mod dates;
pub mod parsing;
pub mod validation;
pub mod export;
pub mod preview;
pub mod laws;
