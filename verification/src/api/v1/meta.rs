//! Meta endpoints of the v1 API: build details and health.

use vstd::prelude::*;

verus! {

/// What the build-details endpoint reports.
pub struct BuildDetails {
    pub version: &'static str,
    pub git_commit_hash: &'static str,
}

/// The paths under which the meta endpoints serve.
pub struct Meta {
    pub build_details: &'static str,
    pub health: &'static str,
}

impl Meta {
    /// The route table of the meta endpoints.
    pub fn new() -> (r: Meta)
        ensures
            r.build_details@ == "/api/v1/meta/build"@,
            r.health@ == "/api/v1/meta/health"@,
    {
        Meta { build_details: "/api/v1/meta/build", health: "/api/v1/meta/health" }
    }
}

/// Health check return datatype: whether the database answered a ping in
/// time.
pub struct Health {
    pub db: bool,
}

} // verus!
