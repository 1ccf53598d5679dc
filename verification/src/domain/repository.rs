//! Failures of the stores of reservations, identity links and tokens.
use vstd::prelude::*;

verus! {

/// Why a store could not do what was asked.
#[derive(Debug)]
pub enum RepositoryError {
    /// The item does not exist.
    NotFound,
    /// The store could not be reached or written.
    ConnectionError(String),
    /// Anything else, with its explanation.
    Unknown(String),
}

/// Model of a store failure.
pub enum RepositoryErrorView {
    NotFound,
    ConnectionError(Seq<char>),
    Unknown(Seq<char>),
}

impl View for RepositoryError {
    type V = RepositoryErrorView;

    open spec fn view(&self) -> RepositoryErrorView {
        match self {
            RepositoryError::NotFound => RepositoryErrorView::NotFound,
            RepositoryError::ConnectionError(m) => RepositoryErrorView::ConnectionError(m@),
            RepositoryError::Unknown(m) => RepositoryErrorView::Unknown(m@),
        }
    }
}

} // verus!
