//! Sources: where entries come from.

use vstd::prelude::*;
use crate::entry::{Entry, entries_view};
use crate::http::Http;

verus! {

/// Why fetching from a source failed.
#[derive(Debug, PartialEq, Eq)]
pub enum SourceError {
    /// The network could not be reached; the next tick may succeed.
    Network(String),
    /// The credentials were refused.
    Auth(String),
    /// The source answered with something that could not be understood.
    Parse(String),
    /// A shared read-filter source list was empty.
    EmptySourceList,
    /// A shared read-filter source list mixed different kinds of source.
    SourceListHasDifferentVariants,
}

impl SourceError {
    /// Whether the failure is transient: a network failure, worth retrying next tick.
    pub fn is_transient(&self) -> (r: bool)
        ensures
            r == (self is Network),
    {
        match self {
            SourceError::Network(_) => true,
            _ => false,
        }
    }
}

/// Fetches entries, and for sources that keep track of what was read themselves,
/// marks an entry as read on their side.
pub trait Source {
    fn fetch(&mut self) -> Result<Vec<Entry>, SourceError>;

    fn mark_as_read(&mut self, id: &str) -> Result<(), SourceError>;
}

/// Sources that filter out read entries on their own side.
#[derive(Debug)]
pub enum WithCustomRF {
    Email(crate::email::Email),
}

impl WithCustomRF {
    /// Leaves `entries` as they are: such sources only ever return unread entries.
    pub fn remove_read(&self, entries: &mut Vec<Entry>)
        ensures
            entries_view(final(entries)@) == entries_view(old(entries)@),
    {
        match self {
            WithCustomRF::Email(_) => {},
        }
    }
}

/// A source that relies on the task's read-filter.
#[derive(Debug)]
pub enum WithSharedRFKind {
    /// A local file, read whole.
    File { path: String },
    Http(Http),
}

/// Whether two sources are of the same kind.
pub open spec fn same_kind(a: WithSharedRFKind, b: WithSharedRFKind) -> bool {
    (a is File && b is File) || (a is Http && b is Http)
}

/// One or several sources of the same kind, sharing the task's read-filter.
#[derive(Debug)]
pub struct WithSharedRF(Vec<WithSharedRFKind>);

impl WithSharedRF {
    pub closed spec fn spec_sources(&self) -> Seq<WithSharedRFKind> {
        self.0@
    }

    /// Groups the sources, which must be at least one and all of the same kind.
    pub fn new(sources: Vec<WithSharedRFKind>) -> (r: Result<WithSharedRF, SourceError>)
        ensures
            sources@.len() == 0 ==> r == Err::<WithSharedRF, SourceError>(SourceError::EmptySourceList),
            sources@.len() > 0 && (forall|i: int| 0 <= i < sources@.len() ==> same_kind(sources@[0], #[trigger] sources@[i]))
                ==> (r matches Ok(x) && x.spec_sources() == sources@),
            sources@.len() > 0 && !(forall|i: int| 0 <= i < sources@.len() ==> same_kind(sources@[0], #[trigger] sources@[i]))
                ==> r == Err::<WithSharedRF, SourceError>(SourceError::SourceListHasDifferentVariants),
    {
        if sources.len() == 0 {
            return Err(SourceError::EmptySourceList);
        }
        let mut i: usize = 1;
        while i < sources.len()
            invariant
                1 <= i <= sources@.len(),
                forall|k: int| 0 <= k < i ==> same_kind(sources@[0], #[trigger] sources@[k]),
            decreases sources.len() - i,
        {
            let same = match (&sources[0], &sources[i]) {
                (WithSharedRFKind::File { .. }, WithSharedRFKind::File { .. }) => true,
                (WithSharedRFKind::Http(_), WithSharedRFKind::Http(_)) => true,
                _ => false,
            };
            if !same {
                return Err(SourceError::SourceListHasDifferentVariants);
            }
            i = i + 1;
        }
        Ok(WithSharedRF(sources))
    }

    /// The sources, in order.
    pub fn sources(&self) -> (r: &Vec<WithSharedRFKind>)
        ensures
            r@ == self.spec_sources(),
    {
        &self.0
    }
}

} // verus!
