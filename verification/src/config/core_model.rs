//! The identity of a configuration.
use vstd::prelude::*;
use vstd::string::*;

verus! {

/// What a [`ConfigKey`] is.
pub struct ConfigKeyView {
    pub data_id: Seq<char>,
    pub group: Seq<char>,
    pub tenant: Seq<char>,
}

/// The identity of a configuration: its id, its group and its tenant.
#[derive(Debug, PartialEq, Eq, Hash)]
pub struct ConfigKey {
    pub data_id: String,
    pub group: String,
    pub tenant: String,
}

impl View for ConfigKey {
    type V = ConfigKeyView;

    open spec fn view(&self) -> ConfigKeyView {
        ConfigKeyView { data_id: self.data_id@, group: self.group@, tenant: self.tenant@ }
    }
}

impl ConfigKey {
    /// The key of the configuration `data_id` of `group` under `tenant`.
    pub fn new(data_id: &str, group: &str, tenant: &str) -> (key: Self)
        ensures
            key@ == (ConfigKeyView { data_id: data_id@, group: group@, tenant: tenant@ }),
    {
        ConfigKey { data_id: data_id.to_owned(), group: group.to_owned(), tenant: tenant.to_owned() }
    }
}

} // verus!
