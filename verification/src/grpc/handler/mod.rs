//! Handlers of the requests that arrive in an envelope.
pub mod config_publish;

use vstd::prelude::*;

verus! {

/// The type tag of the envelope that carries naming changes between nodes.
pub const NAMING_ROUTE_REQUEST: &'static str = "NamingRouteRequest";

} // verus!
