//! The catalog of services.
use crate::common::model::Outcome;
use crate::naming::naming_core::{NamingResult, ServiceInfoDto};
use vstd::prelude::*;

verus! {

/// What the catalog answers when the store handed back something other
/// than a listing.
pub const NAMING_RESULT_ERROR: &'static str = "naming result error";

/// What the catalog answers when the store could not be reached.
pub const SYSTEM_ERROR: &'static str = "system error";

/// One service as the catalog lists it.
pub struct OpsServiceDto {
    pub name: String,
    pub group_name: String,
    pub cluster_count: u64,
    pub ip_count: u64,
    pub healthy_instance_count: u64,
}

impl OpsServiceDto {
    /// What the catalog lists for the line `info`.
    pub open spec fn of(info: ServiceInfoDto) -> OpsServiceDto {
        OpsServiceDto {
            name: info.service_name,
            group_name: info.group_name,
            cluster_count: info.cluster_count,
            ip_count: info.instance_size,
            healthy_instance_count: info.healthy_instance_size,
        }
    }

    /// Turns a line of the store's listing into a line of the catalog's.
    pub fn from(info: ServiceInfoDto) -> (dto: Self)
        ensures
            dto == OpsServiceDto::of(info),
    {
        OpsServiceDto {
            name: info.service_name,
            group_name: info.group_name,
            cluster_count: info.cluster_count,
            ip_count: info.instance_size,
            healthy_instance_count: info.healthy_instance_size,
        }
    }
}

/// A page of the catalog with the size of the whole listing.
pub struct OpsServiceOptQueryListResponse {
    pub count: u64,
    pub service_list: Vec<OpsServiceDto>,
}

impl OpsServiceOptQueryListResponse {
    /// The page `service_list` of a listing of `count` services.
    pub fn new(count: u64, service_list: Vec<OpsServiceDto>) -> (response: Self)
        ensures
            response.count == count,
            response.service_list == service_list,
    {
        OpsServiceOptQueryListResponse { count, service_list }
    }
}

/// What the catalog answers.
pub enum CatalogReply {
    /// The listing, to be sent as JSON.
    Listing(OpsServiceOptQueryListResponse),
    /// A failure inside the server, with the text to send.
    Failure(&'static str),
}

/// Turns the lines of the store's listing into the catalog's, in order.
pub fn to_ops_service_dtos(list: Vec<ServiceInfoDto>) -> (out: Vec<OpsServiceDto>)
    ensures
        out@ == list@.map_values(|info: ServiceInfoDto| OpsServiceDto::of(info)),
{
    let ghost all = list@;
    let mut out: Vec<OpsServiceDto> = Vec::new();
    for info in it: list
        invariant
            it.seq() == all,
            out@.len() == it.index(),
            forall|i: int| 0 <= i < out@.len() ==> out@[i] == OpsServiceDto::of(all[i]),
    {
        out.push(OpsServiceDto::from(info));
    }
    assert(out@ =~= all.map_values(|info: ServiceInfoDto| OpsServiceDto::of(info)));
    out
}

/// The answer of the catalog to a query for services, given what became
/// of the query to the store.
pub fn query_opt_service_list(outcome: Outcome<NamingResult>) -> (reply: CatalogReply)
    ensures
        match outcome {
            Outcome::Done(NamingResult::ServiceInfoPage((size, list))) => reply matches CatalogReply::Listing(
                response,
            ) && response.count == size && response.service_list@ == list@.map_values(
                |info: ServiceInfoDto| OpsServiceDto::of(info),
            ),
            Outcome::Done(_) => reply matches CatalogReply::Failure(text) && text@
                == NAMING_RESULT_ERROR@,
            Outcome::Failed(_) => reply matches CatalogReply::Failure(text) && text@
                == NAMING_RESULT_ERROR@,
            Outcome::Undelivered(_) => reply matches CatalogReply::Failure(text) && text@
                == SYSTEM_ERROR@,
        },
{
    match outcome {
        Outcome::Done(NamingResult::ServiceInfoPage((size, list))) => {
            let service_list = to_ops_service_dtos(list);
            CatalogReply::Listing(OpsServiceOptQueryListResponse::new(size as u64, service_list))
        },
        Outcome::Done(_) => CatalogReply::Failure(NAMING_RESULT_ERROR),
        Outcome::Failed(_) => CatalogReply::Failure(NAMING_RESULT_ERROR),
        Outcome::Undelivered(_) => CatalogReply::Failure(SYSTEM_ERROR),
    }
}

} // verus!
