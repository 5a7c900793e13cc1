//! Publishing a configuration.
//!
//! The handler does not write the store. It turns a client's request into
//! the request for the replicated store, and what the store reports into
//! the answer for the client.
use crate::common::string_utils::StringUtils;
use crate::config::config_type::ConfigType;
use crate::config::core_model::{ConfigKey, ConfigKeyView};
use crate::config::ConfigUtils;
use crate::grpc::api_model::{BaseResponse, ConfigPublishRequest, ERROR_CODE, SUCCESS_CODE};
use crate::grpc::{HandlerResult, PayloadUtils, PayloadView};
use crate::raft::cluster::model::SetConfigReq;
use vstd::prelude::*;
use vstd::string::*;

verus! {

/// The additional parameter that names the format of the content.
pub const PARAM_TYPE: &'static str = "type";

/// The additional parameter that describes the configuration.
pub const PARAM_DESC: &'static str = "desc";

/// The type tag of the answer to a publication that went through.
pub const CONFIG_PUBLISH_RESPONSE: &'static str = "ConfigPublishResponse";

/// The type tag of the answer to a publication that failed.
pub const ERROR_RESPONSE: &'static str = "ErrorResponse";

/// The error code of a publication that the store refused.
pub const PUBLISH_ERROR_CODE: u16 = 500;

/// The handler of publish requests.
pub struct ConfigPublishRequestHandler {}

/// The additional parameter `key` of `request`, unless it is missing or
/// empty.
pub open spec fn addition_param(request: ConfigPublishRequest, key: Seq<char>) -> Option<String> {
    if request.addition_map@.contains_key(key) {
        StringUtils::not_empty(Some(request.addition_map@[key]))
    } else {
        None
    }
}

/// `req` is what `request` asks of the store: the content under the
/// request's id and group and its tenant, or `"public"` for an empty
/// tenant; the format the `type` parameter names, by its proper name;
/// and the `desc` parameter.
pub open spec fn asks_for(request: ConfigPublishRequest, req: SetConfigReq) -> bool {
    &&& req.config_key@ == (ConfigKeyView {
        data_id: request.data_id@,
        group: request.group@,
        tenant: ConfigUtils::tenant_or_default(request.tenant@),
    })
    &&& req.value@ == request.content@
    &&& match addition_param(request, PARAM_TYPE@) {
        Some(name) => req.config_type matches Some(t) && t@ == ConfigType::by_value(name@).value(),
        None => req.config_type is None,
    }
    &&& match addition_param(request, PARAM_DESC@) {
        Some(text) => req.desc matches Some(d) && d@ == text@,
        None => req.desc is None,
    }
}

impl ConfigPublishRequestHandler {
    /// A handler.
    pub fn new() -> (handler: Self) {
        ConfigPublishRequestHandler {  }
    }

    /// The request to put to the store for the client's `request`.
    pub fn set_config_req(&self, request: &ConfigPublishRequest) -> (req: SetConfigReq)
        ensures
            asks_for(*request, req),
    {
        let config_type = match StringUtils::map_not_empty(
            request.get_addition_param(PARAM_TYPE).cloned(),
        ) {
            Some(v) => Some(ConfigType::new_by_value(v.as_str()).get_value()),
            None => None,
        };
        let desc = StringUtils::map_not_empty(request.get_addition_param(PARAM_DESC).cloned());
        let tenant = ConfigUtils::default_tenant(request.tenant.clone());
        let mut req = SetConfigReq::new(
            ConfigKey::new(request.data_id.as_str(), request.group.as_str(), tenant.as_str()),
            request.content.clone(),
        );
        req.config_type = config_type;
        req.desc = desc;
        req
    }

    /// The answer to the client once the store has reported: the type tag
    /// of the answer and the answer, which carries the request's id. A
    /// refusal is answered with the error code 500 and the store's words.
    pub fn response(&self, request_id: Option<String>, outcome: Result<(), String>) -> (answer: (
        &'static str,
        BaseResponse,
    ))
        ensures
            answer.1.request_id == request_id,
            match outcome {
                Ok(_) => answer.0@ == CONFIG_PUBLISH_RESPONSE@ && answer.1.result_code
                    == SUCCESS_CODE && answer.1.error_code == 0 && answer.1.message is None,
                Err(text) => answer.0@ == ERROR_RESPONSE@ && answer.1.result_code == ERROR_CODE
                    && answer.1.error_code == PUBLISH_ERROR_CODE && answer.1.message == Some(text),
            },
    {
        match outcome {
            Ok(_) => {
                let mut response = BaseResponse::build_success_response();
                response.request_id = request_id;
                (CONFIG_PUBLISH_RESPONSE, response)
            },
            Err(text) => {
                let mut response = BaseResponse::build_error_response(PUBLISH_ERROR_CODE, text);
                response.request_id = request_id;
                (ERROR_RESPONSE, response)
            },
        }
    }

    /// Wraps the serialized answer `body` of type `type_tag` for the
    /// transport. The handler itself succeeded, whatever the answer says.
    pub fn result(&self, type_tag: &str, body: String) -> (result: HandlerResult)
        ensures
            result.success,
            result.message is None,
            result.payload@ == (PayloadView {
                type_url: type_tag@,
                client_ip: Seq::<char>::empty(),
                headers: Map::<Seq<char>, Seq<char>>::empty(),
                body: vstd::utf8::encode_utf8(body@),
            }),
    {
        HandlerResult::success(PayloadUtils::build_payload(type_tag, body))
    }
}

} // verus!
