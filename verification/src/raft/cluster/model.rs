//! The request to store a configuration.
use crate::config::core_model::ConfigKey;
use vstd::prelude::*;

verus! {

/// Asks the replicated store to file `value` under `config_key`.
pub struct SetConfigReq {
    pub config_key: ConfigKey,
    pub value: String,
    pub config_type: Option<String>,
    pub desc: Option<String>,
}

impl SetConfigReq {
    /// The request to file `value` under `config_key`, with no type and no
    /// description.
    pub fn new(config_key: ConfigKey, value: String) -> (req: Self)
        ensures
            req.config_key == config_key,
            req.value == value,
            req.config_type is None,
            req.desc is None,
    {
        SetConfigReq { config_key, value, config_type: None, desc: None }
    }
}

} // verus!
