//! The options the command line hands to the library.

use std::path::PathBuf;
use vstd::prelude::*;

verus! {

/// The options of one run, as given on the command line.
#[derive(Debug)]
pub struct Args {
    /// The file to preview.
    pub file: PathBuf,
    /// The field delimiter.
    pub delimiter: char,
    /// The largest number of rows to render.
    pub rows: usize,
    /// Set when the file has no header row.
    pub no_header: bool,
}

} // verus!
