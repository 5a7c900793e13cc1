//! Requests of the console about services and instances.
use crate::common::privilege::PrivilegeGroup;
use crate::common::string_map::{text_map, StringMap};
use crate::common::text::text_or;
use crate::naming::model::{
    default_cluster, default_group, default_namespace, Instance, InstanceUpdateTag, InstanceView,
    ProtectThreshold, ServiceKey, ServiceKeyView, Weight, DEFAULT_CLUSTER, DEFAULT_GROUP,
    DEFAULT_NAMESPACE,
};
use crate::naming::naming_core::{ServiceInfoDto, ServiceQueryParam};
use vstd::prelude::*;
use vstd::string::*;

verus! {

fn take_text(text: Option<String>) -> (out: String)
    ensures
        out@ == text_or(text, Seq::<char>::empty()),
{
    match text {
        Some(t) => {
            assert(t@.len() == 0 ==> t@ =~= Seq::<char>::empty());
            t
        },
        None => String::new(),
    }
}

/// What a request says of an instance. A field the request leaves out is
/// `None`.
pub struct InstanceParams {
    pub ip: Option<String>,
    pub port: Option<u32>,
    pub namespace_id: Option<String>,
    pub weight: Option<Weight>,
    pub enabled: Option<bool>,
    pub healthy: Option<bool>,
    pub ephemeral: Option<bool>,
    pub metadata: Option<StringMap>,
    pub cluster_name: Option<String>,
    pub service_name: Option<String>,
    pub group_name: Option<String>,
}

impl InstanceParams {
    /// The fields the request sets, which an update may overwrite.
    pub open spec fn tag(self) -> InstanceUpdateTag {
        InstanceUpdateTag {
            weight: self.weight is Some,
            metadata: self.metadata is Some,
            enabled: self.enabled is Some,
            ephemeral: self.ephemeral is Some,
            from_update: true,
        }
    }

    /// The instance the request describes: what it leaves out is filled
    /// in with the namespace `"public"`, the group `"DEFAULT_GROUP"`, the
    /// cluster `"DEFAULT"`, the weight 1.0, and an enabled, healthy,
    /// ephemeral instance without metadata.
    pub open spec fn instance(self) -> InstanceView {
        InstanceView {
            namespace_id: text_or(self.namespace_id, DEFAULT_NAMESPACE@),
            group_name: text_or(self.group_name, DEFAULT_GROUP@),
            service_name: text_or(self.service_name, Seq::<char>::empty()),
            cluster_name: text_or(self.cluster_name, DEFAULT_CLUSTER@),
            ip: text_or(self.ip, Seq::<char>::empty()),
            port: match self.port {
                Some(p) => p,
                None => 0,
            },
            weight: match self.weight {
                Some(w) => w,
                None => Weight { bits: 0x3F80_0000u32 },
            },
            healthy: match self.healthy {
                Some(b) => b,
                None => true,
            },
            enabled: match self.enabled {
                Some(b) => b,
                None => true,
            },
            ephemeral: match self.ephemeral {
                Some(b) => b,
                None => true,
            },
            metadata: match self.metadata {
                Some(m) => text_map(m@),
                None => Map::<Seq<char>, Seq<char>>::empty(),
            },
            last_heartbeat_ms: 0,
        }
    }

    /// Says which fields the request sets.
    pub fn update_tag(&self) -> (tag: InstanceUpdateTag)
        ensures
            tag == self.tag(),
    {
        InstanceUpdateTag {
            weight: self.weight.is_some(),
            metadata: self.metadata.is_some(),
            enabled: self.enabled.is_some(),
            ephemeral: self.ephemeral.is_some(),
            from_update: true,
        }
    }

    /// Builds the instance the request describes.
    pub fn to_instance(self) -> (instance: Instance)
        ensures
            instance@ == self.instance(),
    {
        let metadata = match self.metadata {
            Some(m) => m,
            None => {
                let m: StringMap = StringMap::new();
                assert(text_map(m@) =~= Map::<Seq<char>, Seq<char>>::empty());
                m
            },
        };
        Instance {
            namespace_id: default_namespace(take_text(self.namespace_id)),
            group_name: default_group(take_text(self.group_name)),
            service_name: take_text(self.service_name),
            cluster_name: default_cluster(take_text(self.cluster_name)),
            ip: take_text(self.ip),
            port: match self.port {
                Some(p) => p,
                None => 0,
            },
            weight: match self.weight {
                Some(w) => w,
                None => Weight::one(),
            },
            healthy: match self.healthy {
                Some(b) => b,
                None => true,
            },
            enabled: match self.enabled {
                Some(b) => b,
                None => true,
            },
            ephemeral: match self.ephemeral {
                Some(b) => b,
                None => true,
            },
            metadata,
            last_heartbeat_ms: 0,
        }
    }
}

/// The metadata of a request as the decoder left it.
pub enum MetadataParam {
    /// The text was a table of strings.
    Table(StringMap),
    /// The text could not be read as a table.
    Unreadable,
}

/// What a request says of a service.
pub struct ServiceParam {
    pub namespace_id: Option<String>,
    pub group_name: Option<String>,
    pub service_name: String,
    pub metadata: Option<MetadataParam>,
    pub protect_threshold: Option<ProtectThreshold>,
}

impl ServiceParam {
    /// The key of the service the request is about: a namespace or group
    /// it leaves out is `"public"` or `"DEFAULT_GROUP"`.
    pub open spec fn key(self) -> ServiceKeyView {
        ServiceKeyView {
            namespace_id: text_or(self.namespace_id, DEFAULT_NAMESPACE@),
            group_name: text_or(self.group_name, DEFAULT_GROUP@),
            service_name: self.service_name@,
        }
    }

    /// The key of the service the request is about.
    pub fn to_key(&self) -> (key: ServiceKey)
        ensures
            key@ == self.key(),
    {
        let namespace_id = match &self.namespace_id {
            Some(t) => t.clone(),
            None => String::new(),
        };
        let group_name = match &self.group_name {
            Some(t) => t.clone(),
            None => String::new(),
        };
        ServiceKey {
            namespace_id: default_namespace(namespace_id),
            group_name: default_group(group_name),
            service_name: self.service_name.clone(),
        }
    }
}

/// The query of a listing of services.
pub struct ServiceQueryListRequest {
    pub namespace_id: Option<String>,
    pub group_name_param: Option<String>,
    pub service_name_param: Option<String>,
    pub page_no: Option<usize>,
    pub page_size: Option<usize>,
}

/// The page size of a listing that asks for none.
pub const DEFAULT_PAGE_SIZE: usize = 0xffff_ffff;

impl ServiceQueryListRequest {
    /// The filter and page the query asks for, on behalf of a caller with
    /// the privileges `namespace_privilege`. Pages count from 1; a query
    /// without a page number asks for the first page.
    pub fn to_param(self, namespace_privilege: PrivilegeGroup) -> (param: ServiceQueryParam)
        ensures
            param.namespace_id == self.namespace_id,
            param.group_name_param == self.group_name_param,
            param.service_name_param == self.service_name_param,
            param.page_no == (match self.page_no {
                Some(n) => n,
                None => 1,
            }),
            param.page_size == (match self.page_size {
                Some(n) => n,
                None => DEFAULT_PAGE_SIZE,
            }),
            param.namespace_privilege == namespace_privilege,
    {
        ServiceQueryParam {
            namespace_id: self.namespace_id,
            group_name_param: self.group_name_param,
            service_name_param: self.service_name_param,
            page_no: match self.page_no {
                Some(n) => n,
                None => 1,
            },
            page_size: match self.page_size {
                Some(n) => n,
                None => DEFAULT_PAGE_SIZE,
            },
            namespace_privilege,
        }
    }
}

/// One service as the console lists it.
pub struct ServiceDto {
    pub name: String,
    pub group_name: String,
    pub cluster_count: u64,
    pub ip_count: u64,
    pub healthy_instance_count: u64,
    pub metadata: Option<StringMap>,
    pub protect_threshold: Option<ProtectThreshold>,
}

impl ServiceDto {
    /// What the console lists for the line `info`.
    pub open spec fn of(info: ServiceInfoDto) -> ServiceDto {
        ServiceDto {
            name: info.service_name,
            group_name: info.group_name,
            cluster_count: info.cluster_count,
            ip_count: info.instance_size,
            healthy_instance_count: info.healthy_instance_size,
            metadata: info.metadata,
            protect_threshold: info.protect_threshold,
        }
    }

    /// Turns a line of the store's listing into a line of the console's.
    pub fn from(info: ServiceInfoDto) -> (dto: Self)
        ensures
            dto == ServiceDto::of(info),
    {
        ServiceDto {
            name: info.service_name,
            group_name: info.group_name,
            cluster_count: info.cluster_count,
            ip_count: info.instance_size,
            healthy_instance_count: info.healthy_instance_size,
            metadata: info.metadata,
            protect_threshold: info.protect_threshold,
        }
    }
}

} // verus!
