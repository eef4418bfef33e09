//! Queries that select HTML elements and the data to take from them.

use vstd::prelude::*;
use crate::regex_action::{Regex, Replace};

verus! {

/// What an element must be to be selected.
#[derive(Debug, Clone, PartialEq, Eq)]
pub enum ElementKind {
    Tag(String),
    Class(String),
    Attr { name: String, value: String },
}

/// Where the data of a selected element is read from.
#[derive(Debug, Clone, PartialEq, Eq)]
pub enum DataLocation {
    Text,
    Attr(String),
}

/// Every descendant element of the given kind, except those of (or inside) an
/// ignored kind.
#[derive(Debug, Clone, PartialEq, Eq)]
pub struct ElementQuery {
    pub kind: ElementKind,
    pub ignore: Option<Vec<ElementKind>>,
}

/// Which data to read from the elements a chain of queries selects.
#[derive(Debug)]
pub struct ElementDataQuery {
    /// A missing value is no error.
    pub optional: bool,
    /// Applied as nested refinements: each searches within what the previous selected.
    pub query: Vec<ElementQuery>,
    pub data_location: DataLocation,
    /// Applied to the extracted text.
    pub regex: Option<Regex<Replace>>,
}

} // verus!
