//! Version 1 of the API: its route table.

pub mod auth;
pub mod meta;

use vstd::prelude::*;
use self::auth::Auth;
use self::meta::Meta;

verus! {

/// The route table of the whole API.
pub struct Routes {
    pub auth: Auth,
    pub meta: Meta,
}

impl Routes {
    /// All routes of version 1.
    pub fn new() -> (r: Routes)
        ensures
            r.auth.login@ == "/api/v1/signin"@,
            r.auth.logout@ == "/logout"@,
            r.auth.register@ == "/api/v1/signup"@,
            r.meta.build_details@ == "/api/v1/meta/build"@,
            r.meta.health@ == "/api/v1/meta/health"@,
    {
        Routes { auth: Auth::new(), meta: Meta::new() }
    }
}

} // verus!
