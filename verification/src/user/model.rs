//! Users as they are stored and as they are shown.
use crate::common::privilege::{has_flag, PrivilegeGroup, PRIVILEGE_ENABLE};
use crate::common::vec_set::{views_of, VecSet};
use crate::user::permission::UserRoleHelper;
use std::collections::HashMap;
use std::sync::Arc;
use vstd::prelude::*;

verus! {

/// A user as the store keeps it. Times are in seconds.
pub struct UserDo {
    pub username: String,
    pub password: String,
    pub nickname: String,
    pub gmt_create: u32,
    pub gmt_modified: u32,
    pub enable: bool,
    pub roles: Vec<String>,
    pub extend_info: HashMap<String, String>,
    pub password_hash: Option<String>,
    pub namespace_privilege_flags: Option<u32>,
    pub namespace_white_list: Vec<String>,
    pub namespace_black_list: Vec<String>,
}

/// A user as the console shows it. Times are in milliseconds, and the
/// password is never shown.
pub struct UserDto {
    pub username: Arc<String>,
    pub nickname: Option<String>,
    pub password: Option<String>,
    pub password_hash: Option<String>,
    pub gmt_create: Option<i64>,
    pub gmt_modified: Option<i64>,
    pub enable: Option<bool>,
    pub roles: Option<Vec<Arc<String>>>,
    pub extend_info: Option<HashMap<String, String>>,
    pub namespace_privilege: Option<PrivilegeGroup>,
}

/// The low eight bits of the stored privilege flags; no flags stand for 0.
pub open spec fn privilege_flags(stored: Option<u32>) -> u8 {
    match stored {
        Some(flags) => (flags & 0xff) as u8,
        None => 0,
    }
}

fn low_flags(stored: Option<u32>) -> (flags: u8)
    ensures
        flags == privilege_flags(stored),
{
    match stored {
        Some(raw) => {
            assert(raw & 0xff <= 0xff) by (bit_vector);
            (raw & 0xff) as u8
        },
        None => 0,
    }
}

impl UserDto {
    /// `self` shows the stored user `value`.
    pub open spec fn shows(self, value: UserDo) -> bool {
        let flags = privilege_flags(value.namespace_privilege_flags);
        &&& self.username@ == value.username@
        &&& self.nickname == Some(value.nickname)
        &&& self.password is None
        &&& self.password_hash == value.password_hash
        &&& self.gmt_create == Some((value.gmt_create * 1000) as i64)
        &&& self.gmt_modified == Some((value.gmt_modified * 1000) as i64)
        &&& self.enable == Some(value.enable)
        &&& self.extend_info == Some(value.extend_info)
        &&& self.roles matches Some(roles) && views_of(roles@) == views_of(value.roles@)
        &&& self.namespace_privilege matches Some(group) && if has_flag(flags, PRIVILEGE_ENABLE) {
            &&& group.enabled
            &&& group.whitelist_is_all == has_flag(flags, crate::common::privilege::PRIVILEGE_WHITE_LIST_IS_ALL)
            &&& group.blacklist_is_all == has_flag(flags, crate::common::privilege::PRIVILEGE_BLACK_LIST_IS_ALL)
            &&& group.whitelist matches Some(list) && list@ == views_of(
                value.namespace_white_list@,
            ).to_set()
            &&& group.blacklist matches Some(list) && list@ == views_of(
                value.namespace_black_list@,
            ).to_set()
        } else {
            group.enabled && forall|key: Seq<char>| group.permits(key)
        }
    }
}

impl vstd::std_specs::convert::FromSpecImpl<UserDo> for UserDto {
    open spec fn obeys_from_spec() -> bool {
        false
    }

    open spec fn from_spec(v: UserDo) -> Self {
        arbitrary()
    }
}

impl From<UserDo> for UserDto {
    /// Shows a stored user: roles by their shared names, times in
    /// milliseconds, no password, and the namespaces the user may touch.
    /// A user whose privilege flags are not in force may touch every
    /// namespace.
    fn from(value: UserDo) -> (dto: Self)
        ensures
            dto.shows(value),
    {
        let mut roles: Vec<Arc<String>> = Vec::new();
        let n = value.roles.len();
        let mut i: usize = 0;
        while i < n
            invariant
                n == value.roles@.len(),
                i <= n,
                roles@.len() == i,
                forall|j: int| 0 <= j < i ==> roles@[j]@ == value.roles@[j]@,
            decreases n - i,
        {
            roles.push(UserRoleHelper::get_role(&value.roles[i]));
            i += 1;
        }
        assert(views_of(roles@) =~= views_of(value.roles@));
        let namespace_privilege_flags = low_flags(value.namespace_privilege_flags);
        let namespace_privilege = if namespace_privilege_flags & PRIVILEGE_ENABLE > 0 {
            let namespace_whitelist = VecSet::from_items(&value.namespace_white_list);
            let namespace_black_list = VecSet::from_items(&value.namespace_black_list);
            Some(
                PrivilegeGroup::new(
                    namespace_privilege_flags,
                    Some(namespace_whitelist),
                    Some(namespace_black_list),
                ),
            )
        } else {
            Some(PrivilegeGroup::default())
        };
        let gmt_create: i64 = value.gmt_create as i64 * 1000;
        let gmt_modified: i64 = value.gmt_modified as i64 * 1000;
        UserDto {
            username: Arc::new(value.username),
            nickname: Some(value.nickname),
            password_hash: value.password_hash,
            password: None,
            gmt_create: Some(gmt_create),
            gmt_modified: Some(gmt_modified),
            enable: Some(value.enable),
            roles: Some(roles),
            extend_info: Some(value.extend_info),
            namespace_privilege,
        }
    }
}

} // verus!
