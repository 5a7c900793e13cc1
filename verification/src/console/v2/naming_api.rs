//! The console's requests about services and instances.
//!
//! Each request is decided in two steps. The first looks at the decoded
//! request and the caller's privileges and either refuses with an answer
//! or names the command to run. The second turns what became of the
//! command into the answer.
use crate::common::constant::{ERROR_CODE_NO_NAMESPACE_PERMISSION, ERROR_CODE_SYSTEM_ERROR};
use crate::common::model::{ApiResult, Outcome, PageResult};
use crate::common::privilege::PrivilegeGroup;
use crate::console::model::naming_model::{
    InstanceParams, MetadataParam, ServiceDto, ServiceParam,
};
use crate::naming::api_model::InstanceVO;
use crate::naming::model::{Instance, InstanceUpdateTag, ServiceDetailDto};
use crate::naming::naming_core::{NamingCmd, NamingResult, ServiceInfoDto, ServiceQueryParam};
use vstd::prelude::*;
use vstd::string::*;

verus! {

/// What the console answers when an instance fails its check.
pub const INSTANCE_CHECK_INVALID: &'static str = "instance check is invalid";

/// How the refusal of a namespace begins.
pub const NO_NAMESPACE_PERMISSION_PREFIX: &'static str = "user no such namespace permission: ";

/// The first step's decision: go on with `C`, or answer at once.
pub enum Admission<C> {
    /// The request may go on.
    Proceed(C),
    /// The request ends here with this answer.
    Reject(ApiResult<()>),
}

impl<C> Admission<C> {
    /// The decision refuses the namespace `namespace_id`.
    pub open spec fn refuses_namespace(self, namespace_id: Seq<char>) -> bool {
        self matches Admission::Reject(answer) && answer.is_error(
            ERROR_CODE_NO_NAMESPACE_PERMISSION@,
            Some(NO_NAMESPACE_PERMISSION_PREFIX@ + namespace_id),
        )
    }

    /// The decision reports an instance that failed its check.
    pub open spec fn refuses_instance(self) -> bool {
        self matches Admission::Reject(answer) && answer.is_error(
            ERROR_CODE_SYSTEM_ERROR@,
            Some(INSTANCE_CHECK_INVALID@),
        )
    }
}

/// The answer that refuses `namespace_id` to the caller.
pub fn user_no_namespace_permission(namespace_id: &str) -> (answer: ApiResult<()>)
    ensures
        answer.is_error(
            ERROR_CODE_NO_NAMESPACE_PERMISSION@,
            Some(NO_NAMESPACE_PERMISSION_PREFIX@ + namespace_id@),
        ),
{
    let text = NO_NAMESPACE_PERMISSION_PREFIX.to_owned().concat(namespace_id);
    ApiResult::error(ERROR_CODE_NO_NAMESPACE_PERMISSION.to_owned(), Some(text))
}

/// The answer that reports a failure inside the server.
pub fn system_error<T>(message: Option<String>) -> (answer: ApiResult<T>)
    ensures
        answer.is_error(
            ERROR_CODE_SYSTEM_ERROR@,
            match message {
                Some(m) => Some(m@),
                None => None,
            },
        ),
        answer.message == message,
{
    ApiResult::error(ERROR_CODE_SYSTEM_ERROR.to_owned(), message)
}

/// The first step of listing services: a caller who names a namespace
/// must be permitted it; one who names none may list.
pub fn query_service_list(service_param: ServiceQueryParam) -> (decision: Admission<NamingCmd>)
    ensures
        match service_param.namespace_id {
            Some(ns) if !service_param.namespace_privilege.permits(ns@) => decision.refuses_namespace(
                ns@,
            ),
            _ => decision == Admission::Proceed(NamingCmd::QueryServiceInfoPage(service_param)),
        },
{
    if !service_param.namespace_privilege.check_option_value_permission(
        &service_param.namespace_id,
        true,
    ) {
        let answer = match &service_param.namespace_id {
            Some(ns) => user_no_namespace_permission(ns.as_str()),
            None => user_no_namespace_permission(""),
        };
        return Admission::Reject(answer);
    }
    Admission::Proceed(NamingCmd::QueryServiceInfoPage(service_param))
}

/// Turns the lines of the store's listing into the console's, in order.
pub fn to_service_dtos(list: Vec<ServiceInfoDto>) -> (out: Vec<ServiceDto>)
    ensures
        out@ == list@.map_values(|info: ServiceInfoDto| ServiceDto::of(info)),
{
    let ghost all = list@;
    let mut out: Vec<ServiceDto> = Vec::new();
    for info in it: list
        invariant
            it.seq() == all,
            out@.len() == it.index(),
            forall|i: int| 0 <= i < out@.len() ==> out@[i] == ServiceDto::of(all[i]),
    {
        out.push(ServiceDto::from(info));
    }
    assert(out@ =~= all.map_values(|info: ServiceInfoDto| ServiceDto::of(info)));
    out
}

/// The second step of listing services.
pub fn query_service_list_reply(outcome: Outcome<NamingResult>) -> (answer: ApiResult<
    PageResult<ServiceDto>,
>)
    ensures
        match outcome {
            Outcome::Done(NamingResult::ServiceInfoPage((total_count, list))) => answer.success
                && answer.code is None && answer.message is None && (answer.data matches Some(page)
                && page.total_count == total_count && page.list@ == list@.map_values(
                |info: ServiceInfoDto| ServiceDto::of(info),
            )),
            Outcome::Done(_) => answer.is_error(ERROR_CODE_SYSTEM_ERROR@, None),
            Outcome::Failed(text) => answer.is_error(ERROR_CODE_SYSTEM_ERROR@, Some(text@)),
            Outcome::Undelivered(text) => answer.is_error(ERROR_CODE_SYSTEM_ERROR@, Some(text@)),
        },
{
    match outcome {
        Outcome::Done(NamingResult::ServiceInfoPage((total_count, list))) => {
            let service_list = to_service_dtos(list);
            ApiResult::success(Some(PageResult { total_count, list: service_list }))
        },
        Outcome::Done(_) => system_error(None),
        Outcome::Failed(text) => system_error(Some(text)),
        Outcome::Undelivered(text) => system_error(Some(text)),
    }
}

/// The settings that a request to create or change a service asks for.
/// Metadata that could not be read is left out, as if none had been sent.
pub open spec fn requested_detail(param: ServiceParam, detail: ServiceDetailDto) -> bool {
    &&& detail.key() == param.key()
    &&& detail.protect_threshold == param.protect_threshold
    &&& detail.metadata == match param.metadata {
        Some(MetadataParam::Table(table)) => Some(table),
        _ => None::<crate::common::string_map::StringMap>,
    }
}

/// The first step of creating or changing a service. The caller must be
/// permitted the namespace. The decision carries the settings and tells
/// whether unreadable metadata was left out.
pub fn add_service(param: ServiceParam, namespace_privilege: &PrivilegeGroup) -> (decision: Admission<
    (ServiceDetailDto, bool),
>)
    ensures
        !namespace_privilege.permits(param.key().namespace_id) ==> decision.refuses_namespace(
            param.key().namespace_id,
        ),
        namespace_privilege.permits(param.key().namespace_id) ==> (decision matches Admission::Proceed(
            (detail, discarded),
        ) && requested_detail(param, detail) && discarded == (param.metadata matches Some(
            MetadataParam::Unreadable,
        ))),
{
    let service_key = param.to_key();
    if !namespace_privilege.check_permission(&service_key.namespace_id) {
        return Admission::Reject(user_no_namespace_permission(service_key.namespace_id.as_str()));
    }
    let (metadata, discarded) = match param.metadata {
        Some(MetadataParam::Table(table)) => (Some(table), false),
        Some(MetadataParam::Unreadable) => (None, true),
        None => (None, false),
    };
    let service_info = ServiceDetailDto {
        namespace_id: service_key.namespace_id,
        service_name: service_key.service_name,
        group_name: service_key.group_name,
        metadata,
        protect_threshold: param.protect_threshold,
    };
    Admission::Proceed((service_info, discarded))
}

/// The second step of a change to a service: success, the failure's text,
/// or no text when the command never reached the store.
pub fn service_mutation_reply(outcome: Outcome<()>) -> (answer: ApiResult<bool>)
    ensures
        match outcome {
            Outcome::Done(_) => answer.success && answer.data == Some(true) && answer.code is None
                && answer.message is None,
            Outcome::Failed(text) => answer.is_error(ERROR_CODE_SYSTEM_ERROR@, Some(text@)),
            Outcome::Undelivered(_) => answer.is_error(ERROR_CODE_SYSTEM_ERROR@, None),
        },
{
    match outcome {
        Outcome::Done(_) => ApiResult::success(Some(true)),
        Outcome::Failed(text) => system_error(Some(text)),
        Outcome::Undelivered(_) => system_error(None),
    }
}

/// The first step of removing a service: the caller must be permitted
/// the namespace.
pub fn remove_service(param: ServiceParam, namespace_privilege: &PrivilegeGroup) -> (decision:
    Admission<NamingCmd>)
    ensures
        !namespace_privilege.permits(param.key().namespace_id) ==> decision.refuses_namespace(
            param.key().namespace_id,
        ),
        namespace_privilege.permits(param.key().namespace_id) ==> (decision matches Admission::Proceed(
            NamingCmd::RemoveService(key),
        ) && key@ == param.key()),
{
    let service_key = param.to_key();
    if !namespace_privilege.check_permission(&service_key.namespace_id) {
        return Admission::Reject(user_no_namespace_permission(service_key.namespace_id.as_str()));
    }
    Admission::Proceed(NamingCmd::RemoveService(service_key))
}

/// The first step of listing the instances of a service: the caller must
/// be permitted the namespace.
pub fn query_instances_list(param: ServiceParam, namespace_privilege: &PrivilegeGroup) -> (decision:
    Admission<NamingCmd>)
    ensures
        !namespace_privilege.permits(param.key().namespace_id) ==> decision.refuses_namespace(
            param.key().namespace_id,
        ),
        namespace_privilege.permits(param.key().namespace_id) ==> (decision matches Admission::Proceed(
            NamingCmd::QueryAllInstanceList(key),
        ) && key@ == param.key()),
{
    let service_key = param.to_key();
    if !namespace_privilege.check_permission(&service_key.namespace_id) {
        return Admission::Reject(user_no_namespace_permission(service_key.namespace_id.as_str()));
    }
    Admission::Proceed(NamingCmd::QueryAllInstanceList(service_key))
}

/// The second step of listing the instances of a service: the whole list
/// as one page.
pub fn query_instances_list_reply(outcome: Outcome<NamingResult>) -> (answer: ApiResult<
    PageResult<Instance>,
>)
    ensures
        match outcome {
            Outcome::Done(NamingResult::InstanceList(list)) => answer.success && answer.code is None
                && answer.message is None && (answer.data matches Some(page) && page.total_count
                == list@.len() && page.list == list),
            Outcome::Done(_) => answer.is_error(ERROR_CODE_SYSTEM_ERROR@, None),
            Outcome::Failed(text) => answer.is_error(ERROR_CODE_SYSTEM_ERROR@, Some(text@)),
            Outcome::Undelivered(text) => answer.is_error(ERROR_CODE_SYSTEM_ERROR@, Some(text@)),
        },
{
    match outcome {
        Outcome::Done(NamingResult::InstanceList(list)) => {
            ApiResult::success(Some(PageResult { total_count: list.len(), list }))
        },
        Outcome::Done(_) => system_error(None),
        Outcome::Failed(text) => system_error(Some(text)),
        Outcome::Undelivered(text) => system_error(Some(text)),
    }
}

/// The first step of looking up an instance: the caller must be permitted
/// the namespace.
pub fn get_instance(param: InstanceParams, namespace_privilege: &PrivilegeGroup) -> (decision:
    Admission<NamingCmd>)
    ensures
        !namespace_privilege.permits(param.instance().namespace_id) ==> decision.refuses_namespace(
            param.instance().namespace_id,
        ),
        namespace_privilege.permits(param.instance().namespace_id) ==> (decision matches Admission::Proceed(
            NamingCmd::Query(instance),
        ) && instance@ == param.instance()),
{
    let instance = param.to_instance();
    if !namespace_privilege.check_permission(&instance.namespace_id) {
        return Admission::Reject(user_no_namespace_permission(instance.namespace_id.as_str()));
    }
    Admission::Proceed(NamingCmd::Query(instance))
}

/// The second step of looking up an instance.
pub fn get_instance_reply(outcome: Outcome<NamingResult>) -> (answer: ApiResult<InstanceVO>)
    ensures
        match outcome {
            Outcome::Done(NamingResult::Instance(instance)) => answer.success && answer.code is None
                && answer.message is None && (answer.data matches Some(vo) && vo@ == InstanceVO::of(
                instance@,
            )),
            Outcome::Done(_) => answer.is_error(ERROR_CODE_SYSTEM_ERROR@, None),
            Outcome::Failed(text) => answer.is_error(ERROR_CODE_SYSTEM_ERROR@, Some(text@)),
            Outcome::Undelivered(text) => answer.is_error(ERROR_CODE_SYSTEM_ERROR@, Some(text@)),
        },
{
    match outcome {
        Outcome::Done(NamingResult::Instance(instance)) => {
            let vo = InstanceVO::from_instance(&instance);
            ApiResult::success(Some(vo))
        },
        Outcome::Done(_) => system_error(None),
        Outcome::Failed(text) => system_error(Some(text)),
        Outcome::Undelivered(text) => system_error(Some(text)),
    }
}

/// The first step of registering an instance. The caller must be
/// permitted the namespace, and the instance must name an address and a
/// cluster. The decision carries the instance and the fields the request
/// set.
pub fn add_instance(param: InstanceParams, namespace_privilege: &PrivilegeGroup) -> (decision:
    Admission<(Instance, InstanceUpdateTag)>)
    ensures
        !namespace_privilege.permits(param.instance().namespace_id) ==> decision.refuses_namespace(
            param.instance().namespace_id,
        ),
        namespace_privilege.permits(param.instance().namespace_id) && !param.instance().is_valid()
            ==> decision.refuses_instance(),
        namespace_privilege.permits(param.instance().namespace_id) && param.instance().is_valid()
            ==> (decision matches Admission::Proceed((instance, tag)) && instance@
            == param.instance() && tag == param.tag()),
{
    let update_tag = param.update_tag();
    let instance = param.to_instance();
    if !namespace_privilege.check_permission(&instance.namespace_id) {
        return Admission::Reject(user_no_namespace_permission(instance.namespace_id.as_str()));
    }
    if !instance.check_valid() {
        return Admission::Reject(system_error(Some(INSTANCE_CHECK_INVALID.to_owned())));
    }
    Admission::Proceed((instance, update_tag))
}

/// The first step of removing an instance. The caller must be permitted
/// the namespace, and the instance must name an address; a cluster is not
/// asked for.
pub fn remove_instance(param: InstanceParams, namespace_privilege: &PrivilegeGroup) -> (decision:
    Admission<Instance>)
    ensures
        !namespace_privilege.permits(param.instance().namespace_id) ==> decision.refuses_namespace(
            param.instance().namespace_id,
        ),
        namespace_privilege.permits(param.instance().namespace_id)
            && !param.instance().has_identity() ==> decision.refuses_instance(),
        namespace_privilege.permits(param.instance().namespace_id)
            && param.instance().has_identity() ==> (decision matches Admission::Proceed(instance)
            && instance@ == param.instance()),
{
    let instance = param.to_instance();
    if !namespace_privilege.check_permission(&instance.namespace_id) {
        return Admission::Reject(user_no_namespace_permission(instance.namespace_id.as_str()));
    }
    if !instance.has_identity() {
        return Admission::Reject(system_error(Some(INSTANCE_CHECK_INVALID.to_owned())));
    }
    Admission::Proceed(instance)
}

/// The second step of a change to an instance: success, or the failure's
/// text.
pub fn instance_mutation_reply(outcome: Outcome<()>) -> (answer: ApiResult<bool>)
    ensures
        match outcome {
            Outcome::Done(_) => answer.success && answer.data == Some(true) && answer.code is None
                && answer.message is None,
            Outcome::Failed(text) => answer.is_error(ERROR_CODE_SYSTEM_ERROR@, Some(text@)),
            Outcome::Undelivered(text) => answer.is_error(ERROR_CODE_SYSTEM_ERROR@, Some(text@)),
        },
{
    match outcome {
        Outcome::Done(_) => ApiResult::success(Some(true)),
        Outcome::Failed(text) => system_error(Some(text)),
        Outcome::Undelivered(text) => system_error(Some(text)),
    }
}

} // verus!
