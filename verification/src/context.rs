//! The explicit application context: configuration and credential store
//! are loaded once by the caller and passed into each component, instead
//! of living in ambient global state.

use vstd::prelude::*;
use crate::credentials::CredentialStore;

verus! {

/// The configuration values the core needs, already parsed into plain
/// values by the caller.
pub struct Config {
    /// The characters a client-chosen name may keep.
    pub whitelist: String,
    /// The maximum length of a sanitized name.
    pub name_length: usize,
    /// Seconds between two janitor sweeps.
    pub clean_tmp_files: u64,
}

/// The read-only, process-lifetime state of the service.
pub struct AppContext {
    /// The parsed configuration.
    pub config: Config,
    /// The credential store, loaded once at startup.
    pub credentials: CredentialStore,
    /// The home page, rendered once at startup.
    pub home_page: String,
}

/// The home page of the service, as rendered at startup.
pub fn home(ctx: &AppContext) -> (r: String)
    ensures
        r@ == ctx.home_page@,
{
    ctx.home_page.clone()
}

} // verus!
