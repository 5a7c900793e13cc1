//! The roles of users.
use std::sync::Arc;
use vstd::prelude::*;

verus! {

/// Lookup of roles by name.
pub struct UserRoleHelper {}

impl UserRoleHelper {
    /// The shared name of the role `role_value`.
    pub fn get_role(role_value: &String) -> (role: Arc<String>)
        ensures
            role@ == role_value@,
    {
        Arc::new(role_value.clone())
    }
}

} // verus!
