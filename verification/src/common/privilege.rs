//! Which namespaces a user may touch.
use crate::common::vec_set::VecSet;
use vstd::prelude::*;

verus! {

/// The bit that says a privilege group is in force.
pub const PRIVILEGE_ENABLE: u8 = 1;

/// The bit that says the whitelist stands for every key.
pub const PRIVILEGE_WHITE_LIST_IS_ALL: u8 = 2;

/// The bit that says the blacklist stands for every key.
pub const PRIVILEGE_BLACK_LIST_IS_ALL: u8 = 4;

/// The bit `bit` is set in `flags`.
pub open spec fn has_flag(flags: u8, bit: u8) -> bool {
    flags & bit > 0
}

/// A whitelist and a blacklist of keys. A key is permitted when the
/// whitelist covers it and the blacklist does not.
pub struct PrivilegeGroup {
    pub enabled: bool,
    pub whitelist_is_all: bool,
    pub whitelist: Option<VecSet<String>>,
    pub blacklist_is_all: bool,
    pub blacklist: Option<VecSet<String>>,
}

impl PrivilegeGroup {
    /// The whitelist covers `key`.
    pub open spec fn at_whitelist(self, key: Seq<char>) -> bool {
        self.whitelist_is_all || (self.whitelist matches Some(list) && list@.contains(key))
    }

    /// The blacklist covers `key`.
    pub open spec fn at_blacklist(self, key: Seq<char>) -> bool {
        self.blacklist_is_all || (self.blacklist matches Some(list) && list@.contains(key))
    }

    /// The group permits `key`.
    pub open spec fn permits(self, key: Seq<char>) -> bool {
        self.at_whitelist(key) && !self.at_blacklist(key)
    }

    /// The group permits `key` where one is given, and `empty_default`
    /// where none is.
    pub open spec fn permits_option(self, key: Option<Seq<char>>, empty_default: bool) -> bool {
        match key {
            Some(k) => self.permits(k),
            None => empty_default,
        }
    }

    /// The group that `flags` and the two lists describe.
    pub fn new(
        flags: u8,
        whitelist: Option<VecSet<String>>,
        blacklist: Option<VecSet<String>>,
    ) -> (group: Self)
        ensures
            group.enabled == has_flag(flags, PRIVILEGE_ENABLE),
            group.whitelist_is_all == has_flag(flags, PRIVILEGE_WHITE_LIST_IS_ALL),
            group.blacklist_is_all == has_flag(flags, PRIVILEGE_BLACK_LIST_IS_ALL),
            group.whitelist == whitelist,
            group.blacklist == blacklist,
    {
        PrivilegeGroup {
            enabled: flags & PRIVILEGE_ENABLE > 0,
            whitelist_is_all: flags & PRIVILEGE_WHITE_LIST_IS_ALL > 0,
            whitelist,
            blacklist_is_all: flags & PRIVILEGE_BLACK_LIST_IS_ALL > 0,
            blacklist,
        }
    }

    /// The group that permits nothing.
    pub fn empty() -> (group: Self)
        ensures
            group.enabled,
            forall|key: Seq<char>| !group.permits(key),
    {
        PrivilegeGroup {
            enabled: true,
            whitelist_is_all: false,
            whitelist: None,
            blacklist_is_all: false,
            blacklist: None,
        }
    }

    /// The group that permits everything.
    pub fn all() -> (group: Self)
        ensures
            group.enabled,
            forall|key: Seq<char>| group.permits(key),
    {
        PrivilegeGroup {
            enabled: true,
            whitelist_is_all: true,
            whitelist: None,
            blacklist_is_all: false,
            blacklist: None,
        }
    }

    /// Tells whether the group permits `key`.
    pub fn check_permission(&self, key: &String) -> (ok: bool)
        ensures
            ok == self.permits(key@),
    {
        let white = self.whitelist_is_all || match &self.whitelist {
            Some(list) => list.contains(key),
            None => false,
        };
        let black = self.blacklist_is_all || match &self.blacklist {
            Some(list) => list.contains(key),
            None => false,
        };
        white && !black
    }

    /// Tells whether the group permits `key` where one is given; where none
    /// is, the answer is `empty_default`.
    pub fn check_option_value_permission(&self, key: &Option<String>, empty_default: bool) -> (ok:
        bool)
        ensures
            ok == self.permits_option(
                match *key {
                    Some(k) => Some(k@),
                    None => None,
                },
                empty_default,
            ),
    {
        match key {
            Some(k) => self.check_permission(k),
            None => empty_default,
        }
    }
}

impl Clone for PrivilegeGroup {
    fn clone(&self) -> (copy: Self)
        ensures
            copy.enabled == self.enabled,
            copy.whitelist_is_all == self.whitelist_is_all,
            copy.blacklist_is_all == self.blacklist_is_all,
            forall|key: Seq<char>| copy.at_whitelist(key) == self.at_whitelist(key),
            forall|key: Seq<char>| copy.at_blacklist(key) == self.at_blacklist(key),
            forall|key: Seq<char>| copy.permits(key) == self.permits(key),
    {
        PrivilegeGroup {
            enabled: self.enabled,
            whitelist_is_all: self.whitelist_is_all,
            whitelist: match &self.whitelist {
                Some(list) => Some(list.duplicate_set()),
                None => None,
            },
            blacklist_is_all: self.blacklist_is_all,
            blacklist: match &self.blacklist {
                Some(list) => Some(list.duplicate_set()),
                None => None,
            },
        }
    }
}

impl Default for PrivilegeGroup {
    /// A user without a group of their own may touch every namespace.
    fn default() -> (group: Self)
        ensures
            group.enabled,
            forall|key: Seq<char>| group.permits(key),
    {
        PrivilegeGroup::all()
    }
}

} // verus!
