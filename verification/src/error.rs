//! The ways in which a request fails, and what the client is told.

use vstd::prelude::*;

verus! {

/// The status that every failed request is answered with.
pub const INTERNAL_SERVER_ERROR: u16 = 500;

/// Why a request failed. A failed request has no partial answer.
#[derive(Debug, PartialEq, Eq)]
pub enum CatalogError {
    /// The one record that was asked for does not exist.
    NotFound { id: i32 },
    /// The store could not be reached, timed out, or returned rows that do
    /// not decode; `cause` is what it reported.
    StoreError { cause: String },
    /// A path parameter was malformed.
    InvalidInput,
}

/// The view of a [`CatalogError`]: the same variants over views.
pub enum CatalogErrorView {
    NotFound { id: int },
    StoreError { cause: Seq<char> },
    InvalidInput,
}

impl View for CatalogError {
    type V = CatalogErrorView;

    open spec fn view(&self) -> CatalogErrorView {
        match self {
            CatalogError::NotFound { id } => CatalogErrorView::NotFound { id: *id as int },
            CatalogError::StoreError { cause } => CatalogErrorView::StoreError { cause: cause@ },
            CatalogError::InvalidInput => CatalogErrorView::InvalidInput,
        }
    }
}

impl CatalogError {
    /// The status of the response. Every kind of failure is answered with
    /// the same generic server error.
    pub fn status_code(&self) -> (code: u16)
        ensures
            code == INTERNAL_SERVER_ERROR,
    {
        match self {
            CatalogError::NotFound { .. } => INTERNAL_SERVER_ERROR,
            CatalogError::StoreError { .. } => INTERNAL_SERVER_ERROR,
            CatalogError::InvalidInput => INTERNAL_SERVER_ERROR,
        }
    }
}

} // verus!
