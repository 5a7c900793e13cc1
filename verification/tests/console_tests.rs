use rnacos::common::model::{ApiResult, Outcome};
use rnacos::common::privilege::PrivilegeGroup;
use rnacos::common::string_map::StringMap;
use rnacos::common::vec_set::VecSet;
use rnacos::console::model::naming_model::{
    InstanceParams, MetadataParam, ServiceDto, ServiceParam, ServiceQueryListRequest,
};
use rnacos::console::v2::naming_api::{
    add_instance, add_service, get_instance, get_instance_reply, instance_mutation_reply,
    query_instances_list, query_instances_list_reply, query_service_list, query_service_list_reply,
    remove_instance, remove_service, service_mutation_reply, system_error, user_no_namespace_permission,
    Admission,
};
use rnacos::naming::api_model::InstanceVO;
use rnacos::naming::model::{Instance, ProtectThreshold, ServiceKey, Weight};
use rnacos::naming::naming_core::{NamingCmd, NamingResult, ServiceInfoDto};
use rnacos::openapi::naming::catalog::{query_opt_service_list, CatalogReply};

fn params() -> InstanceParams {
    InstanceParams {
        ip: Some("10.0.0.1".to_string()),
        port: Some(8080),
        namespace_id: Some("public".to_string()),
        weight: None,
        enabled: None,
        healthy: None,
        ephemeral: Some(true),
        metadata: None,
        cluster_name: None,
        service_name: Some("s".to_string()),
        group_name: Some("DEFAULT".to_string()),
    }
}

fn service_param(namespace: Option<&str>) -> ServiceParam {
    ServiceParam {
        namespace_id: namespace.map(|s| s.to_string()),
        group_name: None,
        service_name: "s".to_string(),
        metadata: None,
        protect_threshold: ProtectThreshold::from_millionths(800_000),
    }
}

fn only(namespaces: &[&str]) -> PrivilegeGroup {
    let names: Vec<String> = namespaces.iter().map(|s| s.to_string()).collect();
    PrivilegeGroup::new(1, Some(VecSet::from_items(&names)), None)
}

fn assert_error<T>(answer: &ApiResult<T>, code: &str, message: Option<&str>) {
    assert!(!answer.success);
    assert!(answer.data.is_none());
    assert_eq!(answer.code.as_deref(), Some(code));
    assert_eq!(answer.message.as_deref(), message);
}

fn info(name: &str) -> ServiceInfoDto {
    ServiceInfoDto {
        service_name: name.to_string(),
        group_name: "DEFAULT".to_string(),
        instance_size: 3,
        cluster_count: 2,
        healthy_instance_size: 1,
        metadata: None,
        protect_threshold: None,
    }
}

#[test]
fn add_instance_fills_in_defaults_and_tags_what_was_sent() {
    match add_instance(params(), &PrivilegeGroup::all()) {
        Admission::Proceed((instance, tag)) => {
            assert_eq!(instance.namespace_id, "public");
            assert_eq!(instance.group_name, "DEFAULT");
            assert_eq!(instance.service_name, "s");
            assert_eq!(instance.cluster_name, "DEFAULT");
            assert_eq!(instance.ip, "10.0.0.1");
            assert_eq!(instance.port, 8080);
            assert_eq!(f32::from_bits(instance.weight.to_bits()), 1.0);
            assert!(instance.healthy);
            assert!(instance.enabled);
            assert!(instance.ephemeral);
            assert_eq!(instance.metadata.len(), 0);
            assert!(!tag.weight);
            assert!(!tag.metadata);
            assert!(!tag.enabled);
            assert!(tag.ephemeral);
            assert!(tag.from_update);
        }
        Admission::Reject(_) => panic!("expected to proceed"),
    }
}

#[test]
fn instance_params_defaults() {
    let mut p = params();
    p.namespace_id = None;
    p.group_name = Some(String::new());
    p.cluster_name = Some("c9".to_string());
    p.weight = Some(Weight::from_bits(0.5f32.to_bits()));
    p.enabled = Some(false);
    let mut metadata = StringMap::new();
    metadata.insert("k".to_string(), "v".to_string());
    p.metadata = Some(metadata);
    let tag = p.update_tag();
    assert!(tag.weight && tag.metadata && tag.enabled && tag.ephemeral);
    let i = p.to_instance();
    assert_eq!(i.namespace_id, "public");
    assert_eq!(i.group_name, "DEFAULT_GROUP");
    assert_eq!(i.cluster_name, "c9");
    assert_eq!(f32::from_bits(i.weight.to_bits()), 0.5);
    assert!(!i.enabled);
    assert_eq!(i.metadata.get(&"k".to_string()), Some(&"v".to_string()));
    assert_eq!(i.last_heartbeat_ms, 0);
}

#[test]
fn add_instance_without_permission_is_refused() {
    match add_instance(params(), &only(&["dev"])) {
        Admission::Reject(answer) => assert_error(
            &answer,
            "NO_NAMESPACE_PERMISSION",
            Some("user no such namespace permission: public"),
        ),
        Admission::Proceed(_) => panic!("expected a refusal"),
    }
    assert!(matches!(add_instance(params(), &only(&["public"])), Admission::Proceed(_)));
}

#[test]
fn add_instance_checks_validity_after_permission() {
    let mut p = params();
    p.ip = None;
    match add_instance(p, &PrivilegeGroup::all()) {
        Admission::Reject(answer) => assert_error(&answer, "SYSTEM_ERROR", Some("instance check is invalid")),
        Admission::Proceed(_) => panic!("expected a refusal"),
    }
    let mut p = params();
    p.port = Some(0);
    assert!(matches!(add_instance(p, &PrivilegeGroup::all()), Admission::Reject(_)));
    let mut p = params();
    p.ip = None;
    match add_instance(p, &PrivilegeGroup::empty()) {
        Admission::Reject(answer) => assert_eq!(answer.code.as_deref(), Some("NO_NAMESPACE_PERMISSION")),
        Admission::Proceed(_) => panic!("expected a refusal"),
    }
}

#[test]
fn remove_instance_asks_for_an_address_only() {
    let mut p = params();
    p.cluster_name = None;
    assert!(matches!(remove_instance(p, &PrivilegeGroup::all()), Admission::Proceed(_)));
    let mut p = params();
    p.service_name = None;
    match remove_instance(p, &PrivilegeGroup::all()) {
        Admission::Reject(answer) => assert_error(&answer, "SYSTEM_ERROR", Some("instance check is invalid")),
        Admission::Proceed(_) => panic!("expected a refusal"),
    }
    assert!(matches!(remove_instance(params(), &PrivilegeGroup::empty()), Admission::Reject(_)));
}

#[test]
fn get_instance_builds_the_query() {
    match get_instance(params(), &PrivilegeGroup::all()) {
        Admission::Proceed(NamingCmd::Query(instance)) => assert_eq!(instance.instance_id(), "10.0.0.1#8080#DEFAULT#s"),
        _ => panic!("expected a query"),
    }
    assert!(matches!(get_instance(params(), &PrivilegeGroup::empty()), Admission::Reject(_)));
}

#[test]
fn get_instance_reply_shows_the_instance() {
    let instance = params().to_instance();
    let answer = get_instance_reply(Outcome::Done(NamingResult::Instance(instance)));
    assert!(answer.success);
    let vo: InstanceVO = answer.data.unwrap();
    assert_eq!(vo.service, "DEFAULT@@s");
    assert_eq!(vo.instance_id, "10.0.0.1#8080#DEFAULT#s");
    assert_eq!(vo.ip, "10.0.0.1");
    assert_eq!(vo.port, 8080);
    assert!(vo.healthy);
    assert_error(&get_instance_reply(Outcome::Done(NamingResult::Empty)), "SYSTEM_ERROR", None);
    assert_error(&get_instance_reply(Outcome::Failed("nf".to_string())), "SYSTEM_ERROR", Some("nf"));
    assert_error(&get_instance_reply(Outcome::Undelivered("closed".to_string())), "SYSTEM_ERROR", Some("closed"));
}

#[test]
fn add_service_builds_the_settings() {
    let mut table = StringMap::new();
    table.insert("owner".to_string(), "ops".to_string());
    let mut p = service_param(None);
    p.metadata = Some(MetadataParam::Table(table));
    match add_service(p, &PrivilegeGroup::all()) {
        Admission::Proceed((detail, discarded)) => {
            assert!(!discarded);
            assert_eq!(detail.namespace_id, "public");
            assert_eq!(detail.group_name, "DEFAULT_GROUP");
            assert_eq!(detail.service_name, "s");
            assert_eq!(detail.protect_threshold.unwrap().to_millionths(), 800_000);
            assert_eq!(detail.metadata.unwrap().get(&"owner".to_string()), Some(&"ops".to_string()));
        }
        Admission::Reject(_) => panic!("expected to proceed"),
    }
}

#[test]
fn add_service_drops_unreadable_metadata_and_says_so() {
    let mut p = service_param(Some("dev"));
    p.metadata = Some(MetadataParam::Unreadable);
    match add_service(p, &only(&["dev"])) {
        Admission::Proceed((detail, discarded)) => {
            assert!(discarded);
            assert!(detail.metadata.is_none());
            assert_eq!(detail.namespace_id, "dev");
        }
        Admission::Reject(_) => panic!("expected to proceed"),
    }
    match add_service(service_param(Some("dev")), &only(&["public"])) {
        Admission::Reject(answer) => {
            assert_error(&answer, "NO_NAMESPACE_PERMISSION", Some("user no such namespace permission: dev"))
        }
        Admission::Proceed(_) => panic!("expected a refusal"),
    }
}

#[test]
fn service_requests_name_their_key() {
    match remove_service(service_param(None), &PrivilegeGroup::all()) {
        Admission::Proceed(NamingCmd::RemoveService(key)) => {
            assert_eq!(key, ServiceKey::new("public", "DEFAULT_GROUP", "s"))
        }
        _ => panic!("expected a removal"),
    }
    match query_instances_list(service_param(Some("dev")), &PrivilegeGroup::all()) {
        Admission::Proceed(NamingCmd::QueryAllInstanceList(key)) => {
            assert_eq!(key, ServiceKey::new("dev", "DEFAULT_GROUP", "s"))
        }
        _ => panic!("expected a listing"),
    }
    assert!(matches!(remove_service(service_param(None), &PrivilegeGroup::empty()), Admission::Reject(_)));
    assert!(matches!(query_instances_list(service_param(None), &PrivilegeGroup::empty()), Admission::Reject(_)));
    assert_eq!(service_param(Some("")).to_key().namespace_id, "public");
}

#[test]
fn mutation_replies() {
    let ok = service_mutation_reply(Outcome::Done(()));
    assert!(ok.success);
    assert_eq!(ok.data, Some(true));
    assert_error(&service_mutation_reply(Outcome::Failed("busy".to_string())), "SYSTEM_ERROR", Some("busy"));
    assert_error(&service_mutation_reply(Outcome::Undelivered("closed".to_string())), "SYSTEM_ERROR", None);
    let ok = instance_mutation_reply(Outcome::Done(()));
    assert_eq!(ok.data, Some(true));
    assert_error(&instance_mutation_reply(Outcome::Failed("bad".to_string())), "SYSTEM_ERROR", Some("bad"));
    assert_error(&instance_mutation_reply(Outcome::Undelivered("closed".to_string())), "SYSTEM_ERROR", Some("closed"));
}

#[test]
fn instance_list_reply_is_one_page() {
    let list: Vec<Instance> = vec![params().to_instance(), params().to_instance()];
    let answer = query_instances_list_reply(Outcome::Done(NamingResult::InstanceList(list)));
    assert!(answer.success);
    let page = answer.data.unwrap();
    assert_eq!(page.total_count, 2);
    assert_eq!(page.list.len(), 2);
    assert_error(&query_instances_list_reply(Outcome::Done(NamingResult::Empty)), "SYSTEM_ERROR", None);
    assert_error(&query_instances_list_reply(Outcome::Failed("e".to_string())), "SYSTEM_ERROR", Some("e"));
    assert_error(&query_instances_list_reply(Outcome::Undelivered("u".to_string())), "SYSTEM_ERROR", Some("u"));
}

#[test]
fn service_list_needs_permission_only_for_a_named_namespace() {
    let request = ServiceQueryListRequest {
        namespace_id: None,
        group_name_param: None,
        service_name_param: Some("s".to_string()),
        page_no: None,
        page_size: Some(20),
    };
    let param = request.to_param(PrivilegeGroup::empty());
    assert_eq!(param.page_no, 1);
    assert_eq!(param.page_size, 20);
    assert!(matches!(query_service_list(param), Admission::Proceed(NamingCmd::QueryServiceInfoPage(_))));
    let request = ServiceQueryListRequest {
        namespace_id: Some("dev".to_string()),
        group_name_param: None,
        service_name_param: None,
        page_no: Some(2),
        page_size: None,
    };
    match query_service_list(request.to_param(only(&["public"]))) {
        Admission::Reject(answer) => {
            assert_error(&answer, "NO_NAMESPACE_PERMISSION", Some("user no such namespace permission: dev"))
        }
        Admission::Proceed(_) => panic!("expected a refusal"),
    }
}

#[test]
fn service_list_reply_maps_the_lines_in_order() {
    let answer = query_service_list_reply(Outcome::Done(NamingResult::ServiceInfoPage((
        9,
        vec![info("a"), info("b"), info("c")],
    ))));
    assert!(answer.success);
    let page = answer.data.unwrap();
    assert_eq!(page.total_count, 9);
    let names: Vec<&str> = page.list.iter().map(|d: &ServiceDto| d.name.as_str()).collect();
    assert_eq!(names, vec!["a", "b", "c"]);
    assert_eq!(page.list[0].ip_count, 3);
    assert_eq!(page.list[0].cluster_count, 2);
    assert_eq!(page.list[0].healthy_instance_count, 1);
    assert_error(&query_service_list_reply(Outcome::Done(NamingResult::Empty)), "SYSTEM_ERROR", None);
    assert_error(&query_service_list_reply(Outcome::Undelivered("u".to_string())), "SYSTEM_ERROR", Some("u"));
}

#[test]
fn standard_answers() {
    assert_error(&user_no_namespace_permission("x"), "NO_NAMESPACE_PERMISSION", Some("user no such namespace permission: x"));
    assert_error(&system_error::<bool>(None), "SYSTEM_ERROR", None);
    let ok = ApiResult::success(Some(3));
    assert!(ok.success && ok.code.is_none() && ok.message.is_none());
    assert_eq!(ok.data, Some(3));
}

#[test]
fn catalog_answers() {
    match query_opt_service_list(Outcome::Done(NamingResult::ServiceInfoPage((5, vec![info("a"), info("b")])))) {
        CatalogReply::Listing(response) => {
            assert_eq!(response.count, 5);
            assert_eq!(response.service_list.len(), 2);
            assert_eq!(response.service_list[0].name, "a");
            assert_eq!(response.service_list[1].name, "b");
            assert_eq!(response.service_list[1].ip_count, 3);
        }
        CatalogReply::Failure(_) => panic!("expected a listing"),
    }
    assert!(matches!(query_opt_service_list(Outcome::Done(NamingResult::Empty)), CatalogReply::Failure("naming result error")));
    assert!(matches!(query_opt_service_list(Outcome::Failed("x".to_string())), CatalogReply::Failure("naming result error")));
    assert!(matches!(query_opt_service_list(Outcome::Undelivered("x".to_string())), CatalogReply::Failure("system error")));
}
