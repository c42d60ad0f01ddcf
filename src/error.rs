//! Error kinds of the library.
use vstd::prelude::*;

verus! {

/// Why an operation failed.
#[derive(Clone, Copy, Debug, PartialEq, Eq, Structural)]
pub enum ScholarError {
    /// The query asks for nothing: a search needs words or authors.
    InvalidQuery,
    /// A page was fetched but does not have the expected structure.
    BadHtml,
    /// The page is an anti-automation interstitial instead of content.
    Blocked,
    /// The page could not be fetched.
    Network,
}

} // verus!
