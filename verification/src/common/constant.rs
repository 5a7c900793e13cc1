//! Names that several modules agree on.
use vstd::prelude::*;

verus! {

/// The header that names the node a forwarded request comes from.
pub const GRPC_HEAD_KEY_CLUSTER_ID: &'static str = "cluster-id";

/// The header that selects the handler of a forwarded request.
pub const GRPC_HEAD_KEY_SUB_NAME: &'static str = "sub-name";

/// The code of an answer that reports a failure inside the server.
pub const ERROR_CODE_SYSTEM_ERROR: &'static str = "SYSTEM_ERROR";

/// The code of an answer that refuses a namespace to the caller.
pub const ERROR_CODE_NO_NAMESPACE_PERMISSION: &'static str = "NO_NAMESPACE_PERMISSION";

} // verus!
