//! Search result records.
use vstd::prelude::*;
use vstd::string::StringExecFns;

verus! {

/// One repository found by a provider.
pub struct Repository {
    pub name: String,
    pub owner: String,
    pub private: bool,
    /// Display name of the provider that found it.
    pub provider: String,
    pub url: String,
    pub full_name: String,
    pub description: Option<String>,
}

/// The aggregate handed to the presenter.
pub struct SearchResults {
    pub repositories: Vec<Repository>,
    pub total: usize,
}

impl SearchResults {
    /// Wraps a result list with its count.
    pub fn new(repositories: Vec<Repository>) -> (r: Self)
        ensures
            r.repositories@ == repositories@,
            r.total == repositories@.len(),
    {
        let total = repositories.len();
        SearchResults { repositories, total }
    }
}

/// How a visibility flag is shown in a table.
pub fn display_bool(b: &bool) -> (r: String)
    ensures
        r@ == if *b {
            "Yes"@
        } else {
            "No"@
        },
{
    if *b {
        String::from_str("Yes")
    } else {
        String::from_str("No")
    }
}

} // verus!
