use rnacos::common::privilege::PrivilegeGroup;
use rnacos::common::vec_set::VecSet;
use rnacos::user::model::{UserDo, UserDto};
use rnacos::user::permission::UserRoleHelper;
use std::collections::HashMap;

fn user(flags: Option<u32>) -> UserDo {
    let mut extend_info = HashMap::new();
    extend_info.insert("team".to_string(), "core".to_string());
    UserDo {
        username: "ann".to_string(),
        password: "secret".to_string(),
        nickname: "Ann".to_string(),
        gmt_create: 1_700_000_000,
        gmt_modified: 4_294_967_295,
        enable: true,
        roles: vec!["0".to_string(), "1".to_string()],
        extend_info,
        password_hash: Some("hash".to_string()),
        namespace_privilege_flags: flags,
        namespace_white_list: vec!["public".to_string(), "dev".to_string(), "dev".to_string()],
        namespace_black_list: vec!["dev".to_string()],
    }
}

#[test]
fn dto_shows_the_user_without_the_password() {
    let dto = UserDto::from(user(None));
    assert_eq!(*dto.username, "ann");
    assert_eq!(dto.nickname, Some("Ann".to_string()));
    assert!(dto.password.is_none());
    assert_eq!(dto.password_hash, Some("hash".to_string()));
    assert_eq!(dto.gmt_create, Some(1_700_000_000_000));
    assert_eq!(dto.gmt_modified, Some(4_294_967_295_000));
    assert_eq!(dto.enable, Some(true));
    let roles: Vec<String> = dto.roles.unwrap().iter().map(|r| (**r).clone()).collect();
    assert_eq!(roles, vec!["0".to_string(), "1".to_string()]);
    assert_eq!(dto.extend_info.unwrap().get("team"), Some(&"core".to_string()));
}

#[test]
fn without_flags_every_namespace_is_permitted() {
    for flags in [None, Some(0), Some(6), Some(256)] {
        let group = UserDto::from(user(flags)).namespace_privilege.unwrap();
        assert!(group.enabled);
        assert!(group.check_permission(&"public".to_string()));
        assert!(group.check_permission(&"dev".to_string()));
        assert!(group.check_permission(&"anything".to_string()));
    }
}

#[test]
fn with_flags_the_lists_decide() {
    let group = UserDto::from(user(Some(1))).namespace_privilege.unwrap();
    assert!(group.enabled);
    assert!(!group.whitelist_is_all);
    assert!(!group.blacklist_is_all);
    assert_eq!(group.whitelist.as_ref().unwrap().len(), 2);
    assert!(group.check_permission(&"public".to_string()));
    assert!(!group.check_permission(&"dev".to_string()));
    assert!(!group.check_permission(&"other".to_string()));

    let group = UserDto::from(user(Some(3))).namespace_privilege.unwrap();
    assert!(group.whitelist_is_all);
    assert!(group.check_permission(&"other".to_string()));
    assert!(!group.check_permission(&"dev".to_string()));

    let group = UserDto::from(user(Some(5))).namespace_privilege.unwrap();
    assert!(group.blacklist_is_all);
    assert!(!group.check_permission(&"public".to_string()));

    let group = UserDto::from(user(Some(0x101))).namespace_privilege.unwrap();
    assert!(!group.whitelist_is_all);
    assert!(group.check_permission(&"public".to_string()));
}

#[test]
fn roles_keep_their_names() {
    assert_eq!(*UserRoleHelper::get_role(&"admin".to_string()), "admin");
}

#[test]
fn privilege_groups() {
    let names = vec!["a".to_string(), "b".to_string()];
    assert!(!PrivilegeGroup::empty().check_permission(&"a".to_string()));
    assert!(PrivilegeGroup::all().check_permission(&"a".to_string()));
    assert!(PrivilegeGroup::default().check_permission(&"zzz".to_string()));
    let white = PrivilegeGroup::new(1, Some(VecSet::from_items(&names)), None);
    assert!(white.check_permission(&"a".to_string()));
    assert!(!white.check_permission(&"c".to_string()));
    let black = PrivilegeGroup::new(3, None, Some(VecSet::from_items(&names)));
    assert!(!black.check_permission(&"a".to_string()));
    assert!(black.check_permission(&"c".to_string()));
    let off = PrivilegeGroup::new(2, None, None);
    assert!(!off.enabled);
    assert!(off.whitelist_is_all);
    assert!(white.check_option_value_permission(&Some("a".to_string()), false));
    assert!(!white.check_option_value_permission(&Some("c".to_string()), true));
    assert!(white.check_option_value_permission(&None, true));
    assert!(!white.check_option_value_permission(&None, false));
}
