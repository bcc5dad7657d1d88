//! The failures that the library reports.

use vstd::prelude::*;
use crate::text::join2;
use crate::text::join3;

verus! {

/// Why a storage descriptor was turned down.
#[derive(Clone, Copy, Debug, PartialEq, Eq, Structural)]
pub enum ConfigIssue {
    /// The access key is absent or empty.
    MissingAccessKey,
    /// The access secret is absent or empty.
    MissingAccessSecret,
    /// The region is absent or empty.
    MissingRegion,
    /// The bucket is absent or empty.
    MissingBucket,
    /// The scheme is absent or empty.
    MissingScheme,
    /// The scheme is not the default provider's and no endpoint is given.
    MissingEndpoint,
    /// `scheme://bucket` is no URL, or not one that stands for itself.
    MalformedUrl,
}

/// A failure of the library.
#[derive(Debug, PartialEq, Eq)]
pub enum CacheError {
    /// A descriptor lacks a field or is malformed.
    Configuration { name: String, issue: ConfigIssue },
    /// A storage of this name is registered already.
    DuplicateName { name: String },
    /// No storage of this name is registered.
    UnknownStorage { name: String },
    /// The storage client could not be built.
    BackendConnect { name: String, message: String },
    /// The engine turned a statement down; the message is the engine's own.
    Query { message: String },
    /// Columns and schema disagree in number, type or length.
    SchemaMismatch { column: usize },
    /// A column has a type outside the supported scalar kinds.
    UnsupportedType { data_type: String },
    /// A row does not decode into the row type.
    RowDecode { row_index: usize, cause: String },
    /// An export format other than CSV and Parquet.
    UnsupportedFormat { format: String },
}

/// A [`CacheError`] with its texts as character sequences.
pub enum ErrorView {
    Configuration { name: Seq<char>, issue: ConfigIssue },
    DuplicateName { name: Seq<char> },
    UnknownStorage { name: Seq<char> },
    BackendConnect { name: Seq<char>, message: Seq<char> },
    Query { message: Seq<char> },
    SchemaMismatch { column: usize },
    UnsupportedType { data_type: Seq<char> },
    RowDecode { row_index: usize, cause: Seq<char> },
    UnsupportedFormat { format: Seq<char> },
}

impl View for CacheError {
    type V = ErrorView;

    open spec fn view(&self) -> ErrorView {
        match *self {
            CacheError::Configuration { name, issue } => ErrorView::Configuration {
                name: name@,
                issue,
            },
            CacheError::DuplicateName { name } => ErrorView::DuplicateName { name: name@ },
            CacheError::UnknownStorage { name } => ErrorView::UnknownStorage { name: name@ },
            CacheError::BackendConnect { name, message } => ErrorView::BackendConnect {
                name: name@,
                message: message@,
            },
            CacheError::Query { message } => ErrorView::Query { message: message@ },
            CacheError::SchemaMismatch { column } => ErrorView::SchemaMismatch { column },
            CacheError::UnsupportedType { data_type } => ErrorView::UnsupportedType {
                data_type: data_type@,
            },
            CacheError::RowDecode { row_index, cause } => ErrorView::RowDecode {
                row_index,
                cause: cause@,
            },
            CacheError::UnsupportedFormat { format } => ErrorView::UnsupportedFormat {
                format: format@,
            },
        }
    }
}

impl ConfigIssue {
    /// What the issue is, in words.
    pub open spec fn text(self) -> Seq<char> {
        match self {
            ConfigIssue::MissingAccessKey => "access key is missing"@,
            ConfigIssue::MissingAccessSecret => "access secret is missing"@,
            ConfigIssue::MissingRegion => "region is missing"@,
            ConfigIssue::MissingBucket => "bucket is missing"@,
            ConfigIssue::MissingScheme => "scheme is missing"@,
            ConfigIssue::MissingEndpoint => "endpoint is missing"@,
            ConfigIssue::MalformedUrl => "storage URL is malformed"@,
        }
    }

    /// What the issue is, in words.
    pub fn describe(&self) -> (r: &'static str)
        ensures
            r@ == self.text(),
    {
        match self {
            ConfigIssue::MissingAccessKey => "access key is missing",
            ConfigIssue::MissingAccessSecret => "access secret is missing",
            ConfigIssue::MissingRegion => "region is missing",
            ConfigIssue::MissingBucket => "bucket is missing",
            ConfigIssue::MissingScheme => "scheme is missing",
            ConfigIssue::MissingEndpoint => "endpoint is missing",
            ConfigIssue::MalformedUrl => "storage URL is malformed",
        }
    }
}

impl ErrorView {
    /// The kind of failure, as the first words of its message.
    pub open spec fn heading(self) -> Seq<char> {
        match self {
            ErrorView::Configuration { .. } => "Configuration error: "@,
            ErrorView::DuplicateName { .. } => "Storage already registered: "@,
            ErrorView::UnknownStorage { .. } => "Unknown storage: "@,
            ErrorView::BackendConnect { .. } => "Backend connect error: "@,
            ErrorView::Query { .. } => "Query error: "@,
            ErrorView::SchemaMismatch { .. } => "Schema mismatch"@,
            ErrorView::UnsupportedType { .. } => "Unsupported data type: "@,
            ErrorView::RowDecode { .. } => "Row decode error: "@,
            ErrorView::UnsupportedFormat { .. } => "Unsupported format: "@,
        }
    }

    /// What follows the heading.
    pub open spec fn detail(self) -> Seq<char> {
        match self {
            ErrorView::Configuration { name, issue } => name + ": "@ + issue.text(),
            ErrorView::DuplicateName { name } => name,
            ErrorView::UnknownStorage { name } => name,
            ErrorView::BackendConnect { name, message } => name + ": "@ + message,
            ErrorView::Query { message } => message,
            ErrorView::SchemaMismatch { .. } => Seq::empty(),
            ErrorView::UnsupportedType { data_type } => data_type,
            ErrorView::RowDecode { cause, .. } => cause,
            ErrorView::UnsupportedFormat { format } => format,
        }
    }

    /// The whole message.
    pub open spec fn message(self) -> Seq<char> {
        self.heading() + self.detail()
    }
}

impl CacheError {
    /// The failure as one line of text: its heading, then its detail.
    pub fn message(&self) -> (r: String)
        ensures
            r@ == self@.message(),
    {
        match self {
            CacheError::Configuration { name, issue } => {
                let detail = join3(name.as_str(), ": ", issue.describe());
                join2("Configuration error: ", detail.as_str())
            },
            CacheError::DuplicateName { name } => join2(
                "Storage already registered: ",
                name.as_str(),
            ),
            CacheError::UnknownStorage { name } => join2("Unknown storage: ", name.as_str()),
            CacheError::BackendConnect { name, message } => {
                let detail = join3(name.as_str(), ": ", message.as_str());
                join2("Backend connect error: ", detail.as_str())
            },
            CacheError::Query { message } => join2("Query error: ", message.as_str()),
            CacheError::SchemaMismatch { .. } => "Schema mismatch".to_string(),
            CacheError::UnsupportedType { data_type } => join2(
                "Unsupported data type: ",
                data_type.as_str(),
            ),
            CacheError::RowDecode { cause, .. } => join2("Row decode error: ", cause.as_str()),
            CacheError::UnsupportedFormat { format } => join2(
                "Unsupported format: ",
                format.as_str(),
            ),
        }
    }
}

} // verus!
