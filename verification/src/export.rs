//! Where an export goes, and in which format.

use vstd::prelude::*;
use crate::text::lowercase;
use crate::text::same_text;

verus! {

/// The file formats in which a result can be exported.
#[derive(Clone, Copy, Debug, PartialEq, Eq, Structural)]
pub enum ExportFormat {
    Csv,
    Parquet,
}

/// The format that a lowercase name stands for: `csv` or `parquet`, and no
/// other.
pub open spec fn format_named(lower: Seq<char>) -> Option<ExportFormat> {
    if lower == "csv"@ {
        Some(ExportFormat::Csv)
    } else if lower == "parquet"@ {
        Some(ExportFormat::Parquet)
    } else {
        None
    }
}

impl ExportFormat {
    /// The format that a lowercase name stands for.
    pub fn from_lowercase(lower: &str) -> (r: Option<ExportFormat>)
        ensures
            r == format_named(lower@),
    {
        if same_text(lower, "csv") {
            Some(ExportFormat::Csv)
        } else if same_text(lower, "parquet") {
            Some(ExportFormat::Parquet)
        } else {
            None
        }
    }

    /// The format that a name stands for, whatever the case of its letters.
    pub fn parse(name: &str) -> (r: Option<ExportFormat>)
        ensures
            r == format_named(lowercase(name@)),
    {
        let lower = name.to_lowercase();
        ExportFormat::from_lowercase(lower.as_str())
    }
}

/// An export that is settled: the URL to write to, and the format.
#[derive(Debug, PartialEq, Eq)]
pub struct ExportPlan {
    pub location: String,
    pub format: ExportFormat,
}

} // verus!
