//! Errors of URN parsing, source registration, source lookup and binding,
//! each with a view whose text fields are character sequences.

use vstd::prelude::*;

verus! {

/// Errors that can occur when parsing a secret URN string.
#[derive(Debug, PartialEq, Eq)]
pub enum UrnParseError {
    /// The URN does not have exactly four `:`-separated segments; holds how
    /// many it has.
    WrongSegmentCount(usize),
    /// The scheme is not `urn` (compared ignoring ASCII case).
    InvalidScheme(String),
    /// The NID is not `secrets-rs` (compared ignoring ASCII case).
    InvalidNid(String),
    /// The `source_id` segment is empty.
    EmptySourceId,
    /// The `source_id` segment holds a character outside the allowed set.
    InvalidSourceId(String),
    /// The `name` segment is empty.
    EmptyName,
}

/// [`UrnParseError`] with its text fields as character sequences.
pub enum UrnParseErrorView {
    WrongSegmentCount(nat),
    InvalidScheme(Seq<char>),
    InvalidNid(Seq<char>),
    EmptySourceId,
    InvalidSourceId(Seq<char>),
    EmptyName,
}

impl View for UrnParseError {
    type V = UrnParseErrorView;

    open spec fn view(&self) -> UrnParseErrorView {
        match self {
            UrnParseError::WrongSegmentCount(n) => UrnParseErrorView::WrongSegmentCount(*n as nat),
            UrnParseError::InvalidScheme(s) => UrnParseErrorView::InvalidScheme(s@),
            UrnParseError::InvalidNid(s) => UrnParseErrorView::InvalidNid(s@),
            UrnParseError::EmptySourceId => UrnParseErrorView::EmptySourceId,
            UrnParseError::InvalidSourceId(s) => UrnParseErrorView::InvalidSourceId(s@),
            UrnParseError::EmptyName => UrnParseErrorView::EmptyName,
        }
    }
}

/// Errors produced by a source during secret retrieval.
#[derive(Debug, PartialEq, Eq)]
pub enum SourceError {
    /// The source has no secret of this name.
    NotFound { name: String },
    /// Any other failure, described in words.
    Other(String),
}

/// [`SourceError`] with its text fields as character sequences.
pub enum SourceErrorView {
    NotFound { name: Seq<char> },
    Other(Seq<char>),
}

impl View for SourceError {
    type V = SourceErrorView;

    open spec fn view(&self) -> SourceErrorView {
        match self {
            SourceError::NotFound { name } => SourceErrorView::NotFound { name: name@ },
            SourceError::Other(s) => SourceErrorView::Other(s@),
        }
    }
}

/// Errors returned when a source is registered.
#[derive(Debug, PartialEq, Eq)]
pub enum SourceRegisterError {
    /// The id is empty or holds a character that a URN `source_id` cannot hold.
    InvalidSourceId(String),
}

impl View for SourceRegisterError {
    type V = Seq<char>;

    /// The rejected id.
    open spec fn view(&self) -> Seq<char> {
        match self {
            SourceRegisterError::InvalidSourceId(s) => s@,
        }
    }
}

/// Errors that can occur while binding a secret to its value.
#[derive(Debug, PartialEq, Eq)]
pub enum BindError {
    /// No source is registered under the URN's `source_id`.
    SourceNotFound { source_id: String },
    /// The source has no secret of the URN's name.
    NameNotFound { source_id: String, name: String },
    /// The bytes from the source could not be turned into the secret's type.
    TypeConversion { urn: String, detail: String },
    /// The source failed for another reason.
    Source { urn: String, source: SourceError },
}

/// [`BindError`] with its text fields as character sequences.
pub enum BindErrorView {
    SourceNotFound { source_id: Seq<char> },
    NameNotFound { source_id: Seq<char>, name: Seq<char> },
    TypeConversion { urn: Seq<char>, detail: Seq<char> },
    Source { urn: Seq<char>, source: SourceErrorView },
}

impl View for BindError {
    type V = BindErrorView;

    open spec fn view(&self) -> BindErrorView {
        match self {
            BindError::SourceNotFound { source_id } => BindErrorView::SourceNotFound {
                source_id: source_id@,
            },
            BindError::NameNotFound { source_id, name } => BindErrorView::NameNotFound {
                source_id: source_id@,
                name: name@,
            },
            BindError::TypeConversion { urn, detail } => BindErrorView::TypeConversion {
                urn: urn@,
                detail: detail@,
            },
            BindError::Source { urn, source } => BindErrorView::Source {
                urn: urn@,
                source: source@,
            },
        }
    }
}

/// Error returned when the value of a secret is read before it has been bound.
#[derive(Debug, PartialEq, Eq)]
pub struct UnboundError {
    /// The text of the secret's URN.
    pub urn: String,
}

} // verus!
