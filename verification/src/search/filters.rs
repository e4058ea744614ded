//! Filter types of the search syntax: extension, size, type, modification
//! date and path scope.

use vstd::prelude::*;

verus! {

/// A parsed search filter.
#[derive(Debug, Clone, PartialEq)]
pub enum Filter {
    /// Extension filter, e.g. `ext:pdf`.
    Extension(String),
    /// Size filter with the value in bytes, e.g. `size:>10mb`.
    Size(SizeOp, i64),
    /// Type filter, e.g. `type:folder`.
    Type(FileType),
    /// Modification-date filter with the value as an epoch second.
    Modified(DateOp, i64),
    /// Path-scope filter, e.g. `path:C:\Projects`.
    PathScope(String),
}

/// Comparison operators for size filters.
#[derive(Debug, Clone, Copy, PartialEq, Eq, Structural)]
pub enum SizeOp {
    /// Strictly greater.
    GreaterThan,
    /// Greater or equal.
    GreaterEqual,
    /// Strictly smaller.
    LessThan,
    /// Smaller or equal.
    LessEqual,
}

impl SizeOp {
    /// The comparison operator's SQL spelling.
    pub open spec fn spec_sql(self) -> Seq<char> {
        match self {
            SizeOp::GreaterThan => ">"@,
            SizeOp::GreaterEqual => ">="@,
            SizeOp::LessThan => "<"@,
            SizeOp::LessEqual => "<="@,
        }
    }

    /// Convert to the SQL comparison operator.
    pub fn to_sql(&self) -> (r: &'static str)
        ensures
            r@ == self.spec_sql(),
    {
        match self {
            SizeOp::GreaterThan => ">",
            SizeOp::GreaterEqual => ">=",
            SizeOp::LessThan => "<",
            SizeOp::LessEqual => "<=",
        }
    }
}

/// Comparison operators for date filters.
#[derive(Debug, Clone, Copy, PartialEq, Eq, Structural)]
pub enum DateOp {
    /// After.
    GreaterThan,
    /// At or after.
    GreaterEqual,
    /// Before.
    LessThan,
    /// At or before.
    LessEqual,
}

impl DateOp {
    /// The comparison operator's SQL spelling.
    pub open spec fn spec_sql(self) -> Seq<char> {
        match self {
            DateOp::GreaterThan => ">"@,
            DateOp::GreaterEqual => ">="@,
            DateOp::LessThan => "<"@,
            DateOp::LessEqual => "<="@,
        }
    }

    /// Convert to the SQL comparison operator.
    pub fn to_sql(&self) -> (r: &'static str)
        ensures
            r@ == self.spec_sql(),
    {
        match self {
            DateOp::GreaterThan => ">",
            DateOp::GreaterEqual => ">=",
            DateOp::LessThan => "<",
            DateOp::LessEqual => "<=",
        }
    }
}

/// File type for type filters.
#[derive(Debug, Clone, Copy, PartialEq, Eq, Structural)]
pub enum FileType {
    /// Regular file.
    File,
    /// Directory.
    Folder,
}

} // verus!
