//! Instances as the console shows them.
use crate::common::string_map::{copy_string_map, text_map, StringMap};
use crate::naming::model::{Instance, InstanceView, Weight};
use vstd::prelude::*;
use vstd::string::*;

verus! {

/// The name a service goes by outside its group: `group@@service`.
pub open spec fn grouped_name(group_name: Seq<char>, service_name: Seq<char>) -> Seq<char> {
    group_name + seq!['@', '@'] + service_name
}

/// What an [`InstanceVO`] is.
pub struct InstanceVOView {
    pub service: Seq<char>,
    pub ip: Seq<char>,
    pub port: u32,
    pub cluster_name: Seq<char>,
    pub weight: Weight,
    pub healthy: bool,
    pub enabled: bool,
    pub ephemeral: bool,
    pub instance_id: Seq<char>,
    pub metadata: Map<Seq<char>, Seq<char>>,
}

/// An instance as the console shows it.
pub struct InstanceVO {
    pub service: String,
    pub ip: String,
    pub port: u32,
    pub cluster_name: String,
    pub weight: Weight,
    pub healthy: bool,
    pub enabled: bool,
    pub ephemeral: bool,
    pub instance_id: String,
    pub metadata: StringMap,
}

impl View for InstanceVO {
    type V = InstanceVOView;

    open spec fn view(&self) -> InstanceVOView {
        InstanceVOView {
            service: self.service@,
            ip: self.ip@,
            port: self.port,
            cluster_name: self.cluster_name@,
            weight: self.weight,
            healthy: self.healthy,
            enabled: self.enabled,
            ephemeral: self.ephemeral,
            instance_id: self.instance_id@,
            metadata: text_map(self.metadata@),
        }
    }
}

impl InstanceVO {
    /// What the console shows of `instance`.
    pub open spec fn of(instance: InstanceView) -> InstanceVOView {
        InstanceVOView {
            service: grouped_name(instance.group_name, instance.service_name),
            ip: instance.ip,
            port: instance.port,
            cluster_name: instance.cluster_name,
            weight: instance.weight,
            healthy: instance.healthy,
            enabled: instance.enabled,
            ephemeral: instance.ephemeral,
            instance_id: instance.instance_id(),
            metadata: instance.metadata,
        }
    }

    /// Shows `instance` with its grouped service name and derived identity.
    pub fn from_instance(instance: &Instance) -> (vo: Self)
        ensures
            vo@ == InstanceVO::of(instance@),
    {
        proof {
            reveal_strlit("@@");
        }
        assert("@@"@ =~= seq!['@', '@']);
        InstanceVO {
            service: instance.group_name.clone().concat("@@").concat(instance.service_name.as_str()),
            ip: instance.ip.clone(),
            port: instance.port,
            cluster_name: instance.cluster_name.clone(),
            weight: instance.weight,
            healthy: instance.healthy,
            enabled: instance.enabled,
            ephemeral: instance.ephemeral,
            instance_id: instance.instance_id(),
            metadata: copy_string_map(&instance.metadata),
        }
    }
}

} // verus!
