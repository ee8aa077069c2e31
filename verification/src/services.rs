//! Reading delimited text into a table, and rendering a table as text.

pub mod formatter;
pub mod reader;
