//! The page shown while the client starts.

use vstd::prelude::*;

verus! {

/// The loading page, which holds nothing.
#[derive(Debug, Clone, Copy, PartialEq, Eq, Structural)]
pub struct LoadingPage {}

impl LoadingPage {
    /// The loading page.
    pub fn default() -> (p: Self)
        ensures
            p == (LoadingPage {  }),
    {
        LoadingPage {  }
    }
}

} // verus!
