//! The resolved configuration handed in by the caller: which account to
//! fetch, the query credential, where images go and how many workers run.

use vstd::prelude::*;

verus! {

/// Resolved configuration. The caller reads it from wherever it keeps
/// settings and hands it over as plain values.
pub struct Config {
    /// Identifier of the account whose followers are enumerated.
    pub user_to_fetch: String,
    /// Credential appended as a query parameter on every request.
    pub client_token: String,
    /// Directory that downloaded avatar images are written into.
    pub img_out_path: String,
    /// Number of concurrent download workers.
    pub threads: usize,
}

} // verus!
