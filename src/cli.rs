//! The command line's values and the checks made on them before any search.
use vstd::prelude::*;
use vstd::string::StringExecFns;

verus! {

/// Results per provider when neither the command line nor the configuration
/// gives a limit.
pub const DEFAULT_LIMIT: usize = 10;

/// The parsed command line.
pub struct Args {
    /// Search query; required unless providers are listed.
    pub query: Option<String>,
    /// Provider selectors; `all` stands for every known provider.
    pub provider: Vec<String>,
    /// Base URL that replaces the URL of every selected provider.
    pub url: Option<String>,
    /// Only repositories of the authenticated caller.
    pub mine: bool,
    /// Only repositories of this owner.
    pub owner: Option<String>,
    /// Results per provider.
    pub limit: Option<usize>,
    /// Print JSON instead of a table.
    pub json: bool,
    /// List the known providers and stop.
    pub list_providers: bool,
}

/// A usage error, found before any work begins.
#[derive(Debug, Clone, Copy, PartialEq, Eq, Structural)]
pub enum UsageError {
    /// The caller-only filter and an owner filter were both given.
    MineWithOwner,
    /// A search was asked for without a query.
    MissingQuery,
}

impl UsageError {
    /// A human-readable cause.
    pub fn message(&self) -> (r: String)
        ensures
            r@ == match *self {
                UsageError::MineWithOwner => "--owner and --mine cannot be used together"@,
                UsageError::MissingQuery => "Search query is required"@,
            },
    {
        match self {
            UsageError::MineWithOwner => String::from_str("--owner and --mine cannot be used together"),
            UsageError::MissingQuery => String::from_str("Search query is required"),
        }
    }
}

impl Args {
    /// The limit in effect: the command line's, else the configured one, else
    /// `DEFAULT_LIMIT`.
    pub fn effective_limit(&self, configured: Option<usize>) -> (r: usize)
        ensures
            r == match self.limit {
                Some(l) => l,
                None => match configured {
                    Some(c) => c,
                    None => DEFAULT_LIMIT,
                },
            },
    {
        match self.limit {
            Some(l) => l,
            None => match configured {
                Some(c) => c,
                None => DEFAULT_LIMIT,
            },
        }
    }

    /// The query of a search, once the flags are checked: the caller-only and
    /// owner filters exclude each other, and a query is required.
    pub fn search_query(&self) -> (r: Result<String, UsageError>)
        ensures
            self.mine && self.owner is Some ==> r == Err::<String, UsageError>(
                UsageError::MineWithOwner,
            ),
            !(self.mine && self.owner is Some) && self.query is None ==> r == Err::<
                String,
                UsageError,
            >(UsageError::MissingQuery),
            !(self.mine && self.owner is Some) && self.query is Some ==> r is Ok && r->Ok_0@
                == self.query->Some_0@,
    {
        if self.mine && self.owner.is_some() {
            return Err(UsageError::MineWithOwner);
        }
        match &self.query {
            Some(q) => Ok(q.clone()),
            None => Err(UsageError::MissingQuery),
        }
    }
}

} // verus!
