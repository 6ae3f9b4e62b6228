use crate::changes::owner_only;
use crate::error::{error_of, input, input_line, ApiError, ApiErrorType, ApiErrorView};
use crate::group_model::GroupView;
use crate::principal::Principal;
use crate::roles::{
    default_roles, default_roles_view, find_role, first_named, get_read_only_permissions,
    has_role_named, read_only, uniform_permissions, GroupRole, GroupRoleView, Permission,
    PermissionView, PostPermission, PostPermissionView,
};
use crate::snapshot::{lines3, principal_input, principal_line};
use crate::store::{group_of, holds, store_place, with_group, Store, StoreView};
use crate::text;
use vstd::prelude::*;

verus! {

/// The snapshot of a call that changes the roles of a group.
pub open spec fn role_inputs(caller: Seq<u8>, identifier: Seq<u8>, role_name: Seq<char>) -> Option<
    Seq<Seq<char>>,
> {
    Some(
        seq![
            principal_line("caller"@, caller),
            principal_line("group_id"@, identifier),
            input_line("role_name"@, role_name),
        ],
    )
}

/// The error for a call that changes the roles of a group and does not
/// come from its owner, and the error for a group that the node does not
/// hold.
pub open spec fn roles_owner_only(
    s: StoreView,
    caller: Seq<u8>,
    identifier: Seq<u8>,
    role_name: Seq<char>,
) -> Option<ApiErrorView> {
    owner_only(
        s,
        caller,
        identifier,
        "UNAUTHORIZED"@,
        "Only owner of a group can add roles"@,
        "add_role"@,
        role_inputs(caller, identifier, role_name),
    )
}

/// The position of the first role that goes by the name.
pub open spec fn role_position(roles: Seq<GroupRoleView>, name: Seq<char>) -> int {
    choose|j: int| first_named(roles, name, j)
}

/// Why a role is not added: the caller is not the owner, or a role of the
/// group or a built-in role goes by the name already.
pub open spec fn add_role_refusal(
    s: StoreView,
    caller: Seq<u8>,
    identifier: Seq<u8>,
    role_name: Seq<char>,
) -> Option<ApiErrorView> {
    match roles_owner_only(s, caller, identifier, role_name) {
        Some(e) => Some(e),
        None => if has_role_named(group_of(s, identifier).roles, role_name) || has_role_named(
            default_roles_view(),
            role_name,
        ) {
            Some(
                error_of(
                    ApiErrorType::BadRequest,
                    "EXISTING_ROLE"@,
                    "This role is already registered"@,
                    store_place(s, "add_role"@),
                    role_inputs(caller, identifier, role_name),
                ),
            )
        } else {
            None
        },
    }
}

/// A role as it is added: not protected, with leave to read only.
pub open spec fn new_role(name: Seq<char>, color: Seq<char>, index: u64) -> GroupRoleView {
    GroupRoleView {
        name,
        protected: false,
        permissions: uniform_permissions(read_only()),
        color,
        index: Some(index),
    }
}

/// The error for a role that the group does not have.
pub open spec fn role_not_found(
    s: StoreView,
    caller: Seq<u8>,
    identifier: Seq<u8>,
    role_name: Seq<char>,
) -> ApiErrorView {
    error_of(
        ApiErrorType::NotFound,
        "ROLE_NOT_FOUND"@,
        "The role cant be found for this group"@,
        store_place(s, "remove_role"@),
        role_inputs(caller, identifier, role_name),
    )
}

/// Why a role is not removed: the caller is not the owner, the group has
/// no such role, or the role is protected.
pub open spec fn remove_role_refusal(
    s: StoreView,
    caller: Seq<u8>,
    identifier: Seq<u8>,
    role_name: Seq<char>,
) -> Option<ApiErrorView> {
    match roles_owner_only(s, caller, identifier, role_name) {
        Some(e) => Some(e),
        None => {
            let roles = group_of(s, identifier).roles;
            if !has_role_named(roles, role_name) {
                Some(role_not_found(s, caller, identifier, role_name))
            } else if roles[role_position(roles, role_name)].protected {
                Some(
                    error_of(
                        ApiErrorType::BadRequest,
                        "PROTECTED_ROLE"@,
                        "This role is protected from deletion"@,
                        store_place(s, "remove_role"@),
                        role_inputs(caller, identifier, role_name),
                    ),
                )
            } else {
                None
            }
        },
    }
}

/// Why the permissions of a role are not changed: the caller is not the
/// owner, or the group has no such role.
pub open spec fn update_role_refusal(
    s: StoreView,
    caller: Seq<u8>,
    identifier: Seq<u8>,
    role_name: Seq<char>,
) -> Option<ApiErrorView> {
    match roles_owner_only(s, caller, identifier, role_name) {
        Some(e) => Some(e),
        None => if !has_role_named(group_of(s, identifier).roles, role_name) {
            Some(role_not_found(s, caller, identifier, role_name))
        } else {
            None
        },
    }
}

/// Position `k` holds the first permission that goes by the name.
pub open spec fn first_permission_named(
    permissions: Seq<PermissionView>,
    name: Seq<char>,
    k: int,
) -> bool {
    &&& 0 <= k < permissions.len()
    &&& permissions[k].name == name
    &&& forall|n: int| 0 <= n < k ==> (#[trigger] permissions[n]).name != name
}

/// Some permission goes by the name.
pub open spec fn has_permission_named(permissions: Seq<PermissionView>, name: Seq<char>) -> bool {
    exists|k: int| 0 <= k < permissions.len() && (#[trigger] permissions[k]).name == name
}

/// The permission that a role gets for what was asked for it. A permission
/// that every role must have keeps its name and is protected as it is; if
/// it is protected it keeps its actions too. Any other permission is taken
/// as asked for, unprotected.
pub open spec fn merged(
    required: Seq<PermissionView>,
    asked: PostPermissionView,
) -> PermissionView {
    if has_permission_named(required, asked.name) {
        let must = required[choose|k: int| first_permission_named(required, asked.name, k)];
        if must.protected {
            must
        } else {
            PermissionView { name: must.name, protected: must.protected, actions: asked.actions }
        }
    } else {
        PermissionView { name: asked.name, protected: false, actions: asked.actions }
    }
}

/// The permissions that a role gets for what was asked for it.
pub open spec fn merged_permissions(asked: Seq<PostPermissionView>) -> Seq<PermissionView> {
    asked.map_values(|p: PostPermissionView| merged(uniform_permissions(read_only()), p))
}

/// The roles with the permissions of the role that goes by the name put
/// as asked for: that role leaves its place and comes back as the last.
pub open spec fn with_permissions(
    roles: Seq<GroupRoleView>,
    role_name: Seq<char>,
    asked: Seq<PostPermissionView>,
) -> Seq<GroupRoleView> {
    let at = role_position(roles, role_name);
    roles.remove(at).push(GroupRoleView { permissions: merged_permissions(asked), ..roles[at] })
}

/// The position of the first permission that goes by the name.
pub fn find_permission(permissions: &Vec<Permission>, name: &str) -> (r: Option<usize>)
    ensures
        r is Some <==> has_permission_named(permissions.deep_view(), name@),
        r matches Some(k) ==> first_permission_named(permissions.deep_view(), name@, k as int),
{
    let mut k: usize = 0;
    while k < permissions.len()
        invariant
            k <= permissions@.len(),
            forall|n: int| 0 <= n < k ==> (#[trigger] permissions.deep_view()[n]).name != name@,
        decreases permissions@.len() - k,
    {
        assert(permissions.deep_view()[k as int] == permissions@[k as int]@);
        if text::eq(permissions[k].name.as_str(), name) {
            return Some(k);
        }
        k += 1;
    }
    None
}

/// The permission that a role gets for what was asked for it: see
/// [`merged`].
pub fn merge_permission(required: &Vec<Permission>, asked: &PostPermission) -> (r: Permission)
    ensures
        r@ == merged(required.deep_view(), asked@),
{
    match find_permission(required, asked.name.as_str()) {
        None => Permission { name: asked.name.clone(), protected: false, actions: asked.actions },
        Some(k) => {
            let must = &required[k];
            proof {
                let all = required.deep_view();
                assert(all[k as int] == must@);
                let chosen = choose|n: int| first_permission_named(all, asked@.name, n);
                assert(first_permission_named(all, asked@.name, chosen));
                assert(chosen == k);
            }
            if must.protected {
                must.duplicate()
            } else {
                Permission {
                    name: must.name.clone(),
                    protected: must.protected,
                    actions: asked.actions,
                }
            }
        },
    }
}

/// The first role that goes by a name is where [`role_position`] says.
pub proof fn lemma_role_position(roles: Seq<GroupRoleView>, name: Seq<char>, j: int)
    requires
        first_named(roles, name, j),
    ensures
        has_role_named(roles, name),
        role_position(roles, name) == j,
{
    let chosen = role_position(roles, name);
    assert(first_named(roles, name, chosen));
}

impl Store {
    /// Adds a role to the group at the time `now`. Only the owner of the
    /// group may do so, and the name must be new among the roles of the
    /// group and the built-in roles. The role may read only.
    pub fn add_role(
        &mut self,
        caller: &Principal,
        group_identifier: &Principal,
        role_name: String,
        color: String,
        index: u64,
        now: u64,
    ) -> (r: Result<GroupRole, ApiError>)
        requires
            old(self).wf(),
        ensures
            final(self).wf(),
            match r {
                Ok(role) => add_role_refusal(
                    old(self)@,
                    caller@,
                    group_identifier@,
                    role_name@,
                ) is None && role@ == new_role(role_name@, color@, index) && final(self)@
                    == with_group(
                    old(self)@,
                    group_identifier@,
                    GroupView {
                        roles: group_of(old(self)@, group_identifier@).roles.push(role@),
                        updated_on: now,
                        ..group_of(old(self)@, group_identifier@)
                    },
                ),
                Err(e) => add_role_refusal(old(self)@, caller@, group_identifier@, role_name@)
                    == Some(e@) && final(self)@ == old(self)@,
            },
    {
        match self.get_entry(group_identifier) {
            Err(e) => Err(e),
            Ok(at) => {
                assert(self@.groups[at as int] == self.entries.values()[at as int]@);
                if !self.entries.value_at(at).owner.same(caller) {
                    let inputs = role_snapshot(caller, group_identifier, role_name.as_str());
                    return Err(
                        self.fail(
                            ApiErrorType::Unauthorized,
                            "UNAUTHORIZED",
                            "Only owner of a group can add roles",
                            "add_role",
                            inputs,
                        ),
                    );
                }
                let built_in = default_roles();
                if find_role(&self.entries.value_at(at).roles, role_name.as_str()).is_some()
                    || find_role(&built_in, role_name.as_str()).is_some() {
                    let inputs = role_snapshot(caller, group_identifier, role_name.as_str());
                    return Err(
                        self.fail(
                            ApiErrorType::BadRequest,
                            "EXISTING_ROLE",
                            "This role is already registered",
                            "add_role",
                            inputs,
                        ),
                    );
                }
                let mut group = self.entries.value_at(at).duplicate();
                let ghost before = group@.roles;
                let role = GroupRole {
                    name: role_name,
                    protected: false,
                    permissions: get_read_only_permissions(),
                    color,
                    index: Some(index),
                };
                let shown = role.duplicate();
                group.roles.push(role);
                group.updated_on = now;
                proof {
                    assert(group@.roles =~= before.push(role@));
                    assert forall|i: int, j: int| 0 <= i < j < group@.roles.len() implies (
                    #[trigger] group@.roles[i]).name != (#[trigger] group@.roles[j]).name by {
                        assert(group@.roles[i] == before[i]);
                        if j < before.len() {
                            assert(group@.roles[j] == before[j]);
                        }
                    }
                }
                self.put_group(at, group);
                Ok(shown)
            },
        }
    }

    /// Takes a role of the group out at the time `now`. Only the owner of
    /// the group may do so, and a protected role stays.
    pub fn remove_role(
        &mut self,
        caller: &Principal,
        group_identifier: &Principal,
        role_name: String,
        now: u64,
    ) -> (r: Result<bool, ApiError>)
        requires
            old(self).wf(),
        ensures
            final(self).wf(),
            match r {
                Ok(removed) => removed && remove_role_refusal(
                    old(self)@,
                    caller@,
                    group_identifier@,
                    role_name@,
                ) is None && final(self)@ == with_group(
                    old(self)@,
                    group_identifier@,
                    GroupView {
                        roles: group_of(old(self)@, group_identifier@).roles.remove(
                            role_position(
                                group_of(old(self)@, group_identifier@).roles,
                                role_name@,
                            ),
                        ),
                        updated_on: now,
                        ..group_of(old(self)@, group_identifier@)
                    },
                ),
                Err(e) => remove_role_refusal(old(self)@, caller@, group_identifier@, role_name@)
                    == Some(e@) && final(self)@ == old(self)@,
            },
    {
        match self.get_entry(group_identifier) {
            Err(e) => Err(e),
            Ok(at) => {
                assert(self@.groups[at as int] == self.entries.values()[at as int]@);
                if !self.entries.value_at(at).owner.same(caller) {
                    let inputs = role_snapshot(caller, group_identifier, role_name.as_str());
                    return Err(
                        self.fail(
                            ApiErrorType::Unauthorized,
                            "UNAUTHORIZED",
                            "Only owner of a group can add roles",
                            "add_role",
                            inputs,
                        ),
                    );
                }
                match find_role(&self.entries.value_at(at).roles, role_name.as_str()) {
                    None => {
                        let inputs = role_snapshot(caller, group_identifier, role_name.as_str());
                        Err(
                            self.fail(
                                ApiErrorType::NotFound,
                                "ROLE_NOT_FOUND",
                                "The role cant be found for this group",
                                "remove_role",
                                inputs,
                            ),
                        )
                    },
                    Some(j) => {
                        let ghost before = self.entries.values()[at as int]@.roles;
                        proof {
                            lemma_role_position(before, role_name@, j as int);
                            let stored = self.entries.values()[at as int];
                            assert(before[j as int] == stored.roles@[j as int]@);
                        }
                        if self.entries.value_at(at).roles[j].protected {
                            let inputs = role_snapshot(
                                caller,
                                group_identifier,
                                role_name.as_str(),
                            );
                            return Err(
                                self.fail(
                                    ApiErrorType::BadRequest,
                                    "PROTECTED_ROLE",
                                    "This role is protected from deletion",
                                    "remove_role",
                                    inputs,
                                ),
                            );
                        }
                        let mut group = self.entries.value_at(at).duplicate();
                        let _ = group.roles.remove(j);
                        group.updated_on = now;
                        proof {
                            assert(group@.roles =~= before.remove(j as int));
                            assert forall|a: int, b: int|
                                0 <= a < b < group@.roles.len() implies (
                            #[trigger] group@.roles[a]).name != (
                            #[trigger] group@.roles[b]).name by {
                                let a0 = if a < j {
                                    a
                                } else {
                                    a + 1
                                };
                                let b0 = if b < j {
                                    b
                                } else {
                                    b + 1
                                };
                                assert(group@.roles[a] == before[a0] && group@.roles[b]
                                    == before[b0]);
                            }
                        }
                        self.put_group(at, group);
                        Ok(true)
                    },
                }
            },
        }
    }

    /// Puts the permissions of a role of the group as asked for, at the
    /// time `now`: see [`merged`]. Only the owner of the group may do so.
    /// The role is replaced as one: no role comes to stand twice.
    pub fn update_role_permissions(
        &mut self,
        caller: &Principal,
        group_identifier: &Principal,
        role_name: String,
        post_permissions: Vec<PostPermission>,
        now: u64,
    ) -> (r: Result<bool, ApiError>)
        requires
            old(self).wf(),
        ensures
            final(self).wf(),
            match r {
                Ok(updated) => updated && update_role_refusal(
                    old(self)@,
                    caller@,
                    group_identifier@,
                    role_name@,
                ) is None && final(self)@ == with_group(
                    old(self)@,
                    group_identifier@,
                    GroupView {
                        roles: with_permissions(
                            group_of(old(self)@, group_identifier@).roles,
                            role_name@,
                            post_permissions.deep_view(),
                        ),
                        updated_on: now,
                        ..group_of(old(self)@, group_identifier@)
                    },
                ),
                Err(e) => update_role_refusal(old(self)@, caller@, group_identifier@, role_name@)
                    == Some(e@) && final(self)@ == old(self)@,
            },
    {
        match self.get_entry(group_identifier) {
            Err(e) => Err(e),
            Ok(at) => {
                assert(self@.groups[at as int] == self.entries.values()[at as int]@);
                if !self.entries.value_at(at).owner.same(caller) {
                    let inputs = role_snapshot(caller, group_identifier, role_name.as_str());
                    return Err(
                        self.fail(
                            ApiErrorType::Unauthorized,
                            "UNAUTHORIZED",
                            "Only owner of a group can add roles",
                            "add_role",
                            inputs,
                        ),
                    );
                }
                match find_role(&self.entries.value_at(at).roles, role_name.as_str()) {
                    None => {
                        let inputs = role_snapshot(caller, group_identifier, role_name.as_str());
                        Err(
                            self.fail(
                                ApiErrorType::NotFound,
                                "ROLE_NOT_FOUND",
                                "The role cant be found for this group",
                                "remove_role",
                                inputs,
                            ),
                        )
                    },
                    Some(j) => {
                        let ghost before = self.entries.values()[at as int]@.roles;
                        let ghost asked = post_permissions.deep_view();
                        proof {
                            lemma_role_position(before, role_name@, j as int);
                        }
                        let required = get_read_only_permissions();
                        let mut permissions: Vec<Permission> = Vec::new();
                        let mut k: usize = 0;
                        while k < post_permissions.len()
                            invariant
                                k <= post_permissions@.len(),
                                permissions@.len() == k,
                                required.deep_view() == uniform_permissions(read_only()),
                                forall|n: int|
                                    0 <= n < k ==> permissions@[n]@ == merged(
                                        required.deep_view(),
                                        post_permissions@[n]@,
                                    ),
                            decreases post_permissions@.len() - k,
                        {
                            permissions.push(merge_permission(&required, &post_permissions[k]));
                            k += 1;
                        }
                        assert(permissions.deep_view() =~= merged_permissions(asked));
                        let mut group = self.entries.value_at(at).duplicate();
                        let old_role = group.roles.remove(j);
                        assert(old_role@ == before[j as int]);
                        let role = GroupRole {
                            name: old_role.name,
                            protected: old_role.protected,
                            permissions,
                            color: old_role.color,
                            index: old_role.index,
                        };
                        group.roles.push(role);
                        group.updated_on = now;
                        proof {
                            assert(group@.roles =~= with_permissions(before, role_name@, asked));
                            let after = group@.roles;
                            assert forall|a: int, b: int| 0 <= a < b < after.len() implies (
                            #[trigger] after[a]).name != (#[trigger] after[b]).name by {
                                let a0 = if a < j {
                                    a
                                } else {
                                    a + 1
                                };
                                assert(after[a].name == before[a0].name);
                                if b < after.len() - 1 {
                                    let b0 = if b < j {
                                        b
                                    } else {
                                        b + 1
                                    };
                                    assert(after[b].name == before[b0].name);
                                } else {
                                    assert(after[b].name == before[j as int].name);
                                }
                            }
                        }
                        self.put_group(at, group);
                        Ok(true)
                    },
                }
            },
        }
    }
}

/// Builds the snapshot of a call that changes the roles of a group.
pub fn role_snapshot(caller: &Principal, identifier: &Principal, role_name: &str) -> (r: Option<
    Vec<String>,
>)
    ensures
        r.deep_view() == role_inputs(caller@, identifier@, role_name@),
{
    lines3(
        principal_input("caller", caller),
        principal_input("group_id", identifier),
        input("role_name", role_name),
    )
}

} // verus!
