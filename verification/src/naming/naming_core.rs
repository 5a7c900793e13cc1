//! The commands the naming store understands and what it answers.
use crate::common::privilege::PrivilegeGroup;
use crate::common::string_map::StringMap;
use crate::naming::model::{
    Instance, InstanceUpdateTag, InstanceView, NamingError, ProtectThreshold, ServiceDetailDto,
    ServiceKey,
};
use crate::naming::naming_store::{
    after_remove_instance, after_update_instance, after_update_service, has_instance, lists,
    page_describes, page_filter, page_len, page_pred, page_skip, service_of, stored, NamingStore,
};
use vstd::prelude::*;

verus! {

/// What a listing of services is filtered by, and which page of it is
/// wanted.
pub struct ServiceQueryParam {
    pub namespace_id: Option<String>,
    pub group_name_param: Option<String>,
    pub service_name_param: Option<String>,
    pub page_no: usize,
    pub page_size: usize,
    pub namespace_privilege: PrivilegeGroup,
}

/// One line of a listing of services.
pub struct ServiceInfoDto {
    pub service_name: String,
    pub group_name: String,
    pub instance_size: u64,
    pub cluster_count: u64,
    pub healthy_instance_size: u64,
    pub metadata: Option<StringMap>,
    pub protect_threshold: Option<ProtectThreshold>,
}

/// A command for the naming store.
pub enum NamingCmd {
    /// Register or refresh an instance.
    Update(Instance, Option<InstanceUpdateTag>),
    /// Take an instance out.
    Delete(Instance),
    /// Look up the stored instance with the identity of the given one.
    Query(Instance),
    /// List every instance of a service.
    QueryAllInstanceList(ServiceKey),
    /// List services, one page at a time.
    QueryServiceInfoPage(ServiceQueryParam),
    /// Create a service or change its settings.
    UpdateService(ServiceDetailDto),
    /// Remove a service that has no instance left.
    RemoveService(ServiceKey),
}

/// What the naming store answers.
pub enum NamingResult {
    /// Nothing to report.
    Empty,
    /// One instance.
    Instance(Instance),
    /// The instances of a service.
    InstanceList(Vec<Instance>),
    /// The size of a listing of services and one page of it.
    ServiceInfoPage((usize, Vec<ServiceInfoDto>)),
}

/// What running `cmd` at the time `now` on a store that stood for `before`
/// leaves behind and hands back: the store `after`, the `result`, and
/// the key of the service whose instances changed, if any did.
pub open spec fn runs(
    cmd: NamingCmd,
    now: u64,
    before: NamingStore,
    after: NamingStore,
    result: Result<NamingResult, NamingError>,
    changed: Option<ServiceKey>,
) -> bool {
    match cmd {
        NamingCmd::Update(instance, tag) => if instance@.is_valid() {
            &&& after@ == after_update_instance(before@, instance@, tag, now)
            &&& result matches Ok(NamingResult::Empty)
            &&& changed matches Some(k) && k@ == instance@.service_key()
        } else {
            &&& after@ == before@
            &&& result matches Err(NamingError::InvalidInstance)
            &&& changed is None
        },
        NamingCmd::Delete(instance) => {
            &&& after@ == after_remove_instance(
                before@,
                instance@.service_key(),
                instance@.instance_id(),
            )
            &&& result matches Ok(NamingResult::Empty)
            &&& if has_instance(before@, instance@.service_key(), instance@.instance_id()) {
                changed matches Some(k) && k@ == instance@.service_key()
            } else {
                changed is None
            }
        },
        NamingCmd::Query(instance) => {
            &&& after@ == before@
            &&& changed is None
            &&& match stored(before@, instance@.service_key(), instance@.instance_id()) {
                Some(found) => result matches Ok(NamingResult::Instance(i)) && i@ == found,
                None => result matches Err(NamingError::NotFound),
            }
        },
        NamingCmd::QueryAllInstanceList(key) => {
            &&& after@ == before@
            &&& changed is None
            &&& result matches Ok(NamingResult::InstanceList(list)) && lists(
                list@,
                service_of(before@, key@).instances,
                service_of(before@, key@).instances.dom(),
            )
        },
        NamingCmd::QueryServiceInfoPage(param) => {
            &&& after@ == before@
            &&& changed is None
            &&& result matches Ok(NamingResult::ServiceInfoPage((total, rows))) && total
                == before.service_seq().filter(page_pred(page_filter(param))).len() && rows@.len()
                == page_len(total as int, page_skip(param.page_no, param.page_size), param.page_size)
                && page_describes(
                rows@,
                before.service_seq().filter(page_pred(page_filter(param))),
                page_skip(param.page_no, param.page_size),
                before@,
            )
        },
        NamingCmd::UpdateService(detail) => {
            &&& after@ == after_update_service(before@, detail)
            &&& result matches Ok(NamingResult::Empty)
            &&& changed is None
        },
        NamingCmd::RemoveService(key) => {
            &&& changed is None
            &&& if before@.contains_key(key@) && before@[key@].instances != Map::<
                Seq<char>,
                InstanceView,
            >::empty() {
                after@ == before@ && result matches Err(NamingError::ServiceHasInstances)
            } else {
                after@ == before@.remove(key@) && result matches Ok(NamingResult::Empty)
            }
        },
    }
}

/// Runs `cmd` on `store` at the time `now`.
pub fn handle(store: &mut NamingStore, cmd: NamingCmd, now: u64) -> (out: (
    Result<NamingResult, NamingError>,
    Option<ServiceKey>,
))
    requires
        old(store).wf(),
    ensures
        final(store).wf(),
        final(store).windows() == old(store).windows(),
        runs(cmd, now, *old(store), *final(store), out.0, out.1),
{
    match cmd {
        NamingCmd::Update(instance, tag) => {
            let key = instance.service_key();
            match store.update_instance(instance, tag, now) {
                Ok(_) => (Ok(NamingResult::Empty), Some(key)),
                Err(e) => (Err(e), None),
            }
        },
        NamingCmd::Delete(instance) => {
            let key = instance.service_key();
            if store.remove_instance(&instance) {
                (Ok(NamingResult::Empty), Some(key))
            } else {
                (Ok(NamingResult::Empty), None)
            }
        },
        NamingCmd::Query(instance) => match store.query(&instance) {
            Ok(found) => (Ok(NamingResult::Instance(found)), None),
            Err(e) => (Err(e), None),
        },
        NamingCmd::QueryAllInstanceList(key) => {
            let list = store.query_all_instance_list(&key);
            (Ok(NamingResult::InstanceList(list)), None)
        },
        NamingCmd::QueryServiceInfoPage(param) => {
            let page = store.query_service_info_page(&param);
            (Ok(NamingResult::ServiceInfoPage(page)), None)
        },
        NamingCmd::UpdateService(detail) => {
            store.update_service(detail);
            (Ok(NamingResult::Empty), None)
        },
        NamingCmd::RemoveService(key) => match store.remove_service(&key) {
            Ok(_) => (Ok(NamingResult::Empty), None),
            Err(e) => (Err(e), None),
        },
    }
}

} // verus!
