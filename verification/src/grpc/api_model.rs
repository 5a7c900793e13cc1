//! Requests and answers exchanged with clients.
use crate::common::string_map::StringMap;
use vstd::prelude::*;

verus! {

/// The result code of an answer that reports success.
pub const SUCCESS_CODE: u16 = 200;

/// The result code of an answer that reports a failure.
pub const ERROR_CODE: u16 = 500;

/// The answer to a request that carries no data of its own.
pub struct BaseResponse {
    pub result_code: u16,
    pub error_code: u16,
    pub message: Option<String>,
    pub request_id: Option<String>,
}

impl BaseResponse {
    /// An answer that reports success.
    pub fn build_success_response() -> (response: Self)
        ensures
            response.result_code == SUCCESS_CODE,
            response.error_code == 0,
            response.message is None,
            response.request_id is None,
    {
        BaseResponse { result_code: SUCCESS_CODE, error_code: 0, message: None, request_id: None }
    }

    /// An answer that reports the failure `error_code` with `error_msg`.
    pub fn build_error_response(error_code: u16, error_msg: String) -> (response: Self)
        ensures
            response.result_code == ERROR_CODE,
            response.error_code == error_code,
            response.message == Some(error_msg),
            response.request_id is None,
    {
        BaseResponse {
            result_code: ERROR_CODE,
            error_code,
            message: Some(error_msg),
            request_id: None,
        }
    }
}

/// A client's request to publish a configuration.
pub struct ConfigPublishRequest {
    pub request_id: Option<String>,
    pub data_id: String,
    pub group: String,
    pub tenant: String,
    pub content: String,
    pub addition_map: StringMap,
}

impl ConfigPublishRequest {
    /// The additional parameter filed under `key`, if the request has it.
    pub fn get_addition_param(&self, key: &str) -> (found: Option<&String>)
        ensures
            found.is_some() == self.addition_map@.contains_key(key@),
            found matches Some(v) ==> *v == self.addition_map@[key@],
    {
        let owned = key.to_owned();
        self.addition_map.get(&owned)
    }
}

} // verus!
