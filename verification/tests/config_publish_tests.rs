use rnacos::common::string_map::StringMap;
use rnacos::common::string_utils::StringUtils;
use rnacos::config::config_type::ConfigType;
use rnacos::config::core_model::ConfigKey;
use rnacos::config::ConfigUtils;
use rnacos::grpc::api_model::{BaseResponse, ConfigPublishRequest};
use rnacos::grpc::handler::config_publish::ConfigPublishRequestHandler;
use rnacos::grpc::{HandlerResult, PayloadUtils};

fn request(tenant: &str, params: &[(&str, &str)]) -> ConfigPublishRequest {
    let mut addition_map = StringMap::new();
    for (k, v) in params {
        addition_map.insert(k.to_string(), v.to_string());
    }
    ConfigPublishRequest {
        request_id: Some("req-7".to_string()),
        data_id: "app".to_string(),
        group: "DEFAULT".to_string(),
        tenant: tenant.to_string(),
        content: "k=v".to_string(),
        addition_map,
    }
}

#[test]
fn empty_tenant_is_filed_under_public() {
    let handler = ConfigPublishRequestHandler::new();
    let req = handler.set_config_req(&request("", &[]));
    assert_eq!(req.config_key, ConfigKey::new("app", "DEFAULT", "public"));
    assert_eq!(req.config_key.tenant, "public");
    assert_eq!(req.value, "k=v");
    assert!(req.config_type.is_none());
    assert!(req.desc.is_none());
}

#[test]
fn given_tenant_is_kept() {
    let handler = ConfigPublishRequestHandler::new();
    let req = handler.set_config_req(&request("blue", &[]));
    assert_eq!(req.config_key.tenant, "blue");
    assert_eq!(ConfigUtils::default_tenant("".to_string()), "public");
    assert_eq!(ConfigUtils::default_tenant("x".to_string()), "x");
}

#[test]
fn type_and_desc_come_from_the_addition_params() {
    let handler = ConfigPublishRequestHandler::new();
    let req = handler.set_config_req(&request("", &[("type", "yaml"), ("desc", "the app")]));
    assert_eq!(req.config_type, Some("yaml".to_string()));
    assert_eq!(req.desc, Some("the app".to_string()));
    let req = handler.set_config_req(&request("", &[("type", "unheard-of"), ("desc", "")]));
    assert_eq!(req.config_type, Some("text".to_string()));
    assert!(req.desc.is_none());
    let req = handler.set_config_req(&request("", &[("type", "")]));
    assert!(req.config_type.is_none());
}

#[test]
fn config_types_by_name() {
    for name in ["text", "json", "xml", "yaml", "html", "properties", "toml"] {
        assert_eq!(ConfigType::new_by_value(name).get_value(), name);
    }
    assert_eq!(ConfigType::new_by_value("JSON"), ConfigType::Text);
    assert_eq!(ConfigType::new_by_value(""), ConfigType::Text);
}

#[test]
fn success_answer_carries_the_request_id() {
    let handler = ConfigPublishRequestHandler::new();
    let (tag, response) = handler.response(Some("req-7".to_string()), Ok(()));
    assert_eq!(tag, "ConfigPublishResponse");
    assert_eq!(response.result_code, 200);
    assert_eq!(response.error_code, 0);
    assert!(response.message.is_none());
    assert_eq!(response.request_id, Some("req-7".to_string()));
}

#[test]
fn refusal_is_answered_with_500_and_the_message() {
    let handler = ConfigPublishRequestHandler::new();
    let (tag, response) = handler.response(Some("req-7".to_string()), Err("no leader".to_string()));
    assert_eq!(tag, "ErrorResponse");
    assert_eq!(response.result_code, 500);
    assert_eq!(response.error_code, 500);
    assert_eq!(response.message, Some("no leader".to_string()));
    assert_eq!(response.request_id, Some("req-7".to_string()));
    let (_, response) = handler.response(None, Err("x".to_string()));
    assert!(response.request_id.is_none());
}

#[test]
fn handler_result_wraps_the_serialized_answer() {
    let handler = ConfigPublishRequestHandler::new();
    let result: HandlerResult = handler.result("ConfigPublishResponse", "{\"resultCode\":200}".to_string());
    assert!(result.success);
    assert!(result.message.is_none());
    assert_eq!(result.payload.type_url, "ConfigPublishResponse");
    assert_eq!(result.payload.client_ip, "");
    assert_eq!(result.payload.headers.len(), 0);
    assert_eq!(result.payload.body, "{\"resultCode\":200}".as_bytes().to_vec());
}

#[test]
fn payload_body_is_the_utf8_of_the_text() {
    let payload = PayloadUtils::build_payload("T", "é€".to_string());
    assert_eq!(payload.body, vec![0xC3, 0xA9, 0xE2, 0x82, 0xAC]);
    let mut headers = StringMap::new();
    headers.insert("h".to_string(), "v".to_string());
    let full = PayloadUtils::build_full_payload("T", "x".to_string(), "1.2.3.4", headers);
    assert_eq!(full.client_ip, "1.2.3.4");
    assert_eq!(full.headers.get(&"h".to_string()), Some(&"v".to_string()));
    let copy = full.clone();
    assert_eq!(copy.type_url, "T");
    assert_eq!(copy.body, vec![b'x']);
    assert_eq!(copy.headers.get(&"h".to_string()), Some(&"v".to_string()));
}

#[test]
fn base_responses() {
    let ok = BaseResponse::build_success_response();
    assert_eq!((ok.result_code, ok.error_code), (200, 0));
    let bad = BaseResponse::build_error_response(7, "m".to_string());
    assert_eq!((bad.result_code, bad.error_code), (500, 7));
    assert_eq!(bad.message, Some("m".to_string()));
}

#[test]
fn empty_strings_are_dropped() {
    assert_eq!(StringUtils::map_not_empty(None), None);
    assert_eq!(StringUtils::map_not_empty(Some(String::new())), None);
    assert_eq!(StringUtils::map_not_empty(Some("a".to_string())), Some("a".to_string()));
}

#[test]
fn addition_params_are_looked_up_by_key() {
    let r = request("", &[("type", "json")]);
    assert_eq!(r.get_addition_param("type"), Some(&"json".to_string()));
    assert_eq!(r.get_addition_param("desc"), None);
}
