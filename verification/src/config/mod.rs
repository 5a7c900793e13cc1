//! Configuration keys and types.
use vstd::prelude::*;
use vstd::string::*;

pub mod config_type;
pub mod core_model;

verus! {

/// The tenant a configuration is filed under when its tenant is empty.
pub const DEFAULT_TENANT: &'static str = "public";

/// Helpers on configuration requests.
pub struct ConfigUtils {}

impl ConfigUtils {
    /// The tenant to file under: `tenant`, or `"public"` when it is empty.
    pub open spec fn tenant_or_default(tenant: Seq<char>) -> Seq<char> {
        if tenant.len() == 0 {
            DEFAULT_TENANT@
        } else {
            tenant
        }
    }

    /// Picks the tenant a configuration is filed under.
    pub fn default_tenant(tenant: String) -> (out: String)
        ensures
            out@ == ConfigUtils::tenant_or_default(tenant@),
    {
        if tenant.as_str().is_empty() {
            DEFAULT_TENANT.to_owned()
        } else {
            tenant
        }
    }
}

} // verus!
