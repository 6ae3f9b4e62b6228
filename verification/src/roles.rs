use crate::text;
use ic_scalable_misc::helpers::role_helper;
use vstd::prelude::*;

verus! {

/// What a permission lets its holder do.
#[derive(Clone, Copy, Debug, PartialEq, Eq, Structural)]
pub struct PermissionActions {
    pub write: bool,
    pub read: bool,
    pub edit: bool,
    pub delete: bool,
}

/// One of the four actions that a permission may allow.
#[derive(Clone, Copy, Debug, PartialEq, Eq, Structural)]
pub enum PermissionActionType {
    Write,
    Read,
    Edit,
    Delete,
}

/// The kinds of thing for which a role carries a permission.
#[derive(Clone, Copy, Debug, PartialEq, Eq, Structural)]
pub enum PermissionType {
    Task,
    Event,
    Group,
    Member,
    Invite,
    Attendee,
    ChatNotification,
    ChatMessage,
    ChatChannel,
    ChatEmbed,
    ChatFiles,
    ChatMention,
    ChatPolls,
}

/// A named permission of a role.
#[derive(Clone, Debug, PartialEq, Eq)]
pub struct Permission {
    pub name: String,
    pub protected: bool,
    pub actions: PermissionActions,
}

/// The actions asked for a permission when a role is edited.
#[derive(Clone, Debug, PartialEq, Eq)]
pub struct PostPermission {
    pub name: String,
    pub actions: PermissionActions,
}

/// A role of a group: a name, whether it is protected from change, and the
/// permissions it carries.
#[derive(Clone, Debug, PartialEq, Eq)]
pub struct GroupRole {
    pub name: String,
    pub protected: bool,
    pub permissions: Vec<Permission>,
    pub color: String,
    pub index: Option<u64>,
}

/// [`Permission`] as contracts speak of it.
pub struct PermissionView {
    pub name: Seq<char>,
    pub protected: bool,
    pub actions: PermissionActions,
}

/// [`PostPermission`] as contracts speak of it.
pub struct PostPermissionView {
    pub name: Seq<char>,
    pub actions: PermissionActions,
}

/// [`GroupRole`] as contracts speak of it.
pub struct GroupRoleView {
    pub name: Seq<char>,
    pub protected: bool,
    pub permissions: Seq<PermissionView>,
    pub color: Seq<char>,
    pub index: Option<u64>,
}

impl View for Permission {
    type V = PermissionView;

    open spec fn view(&self) -> PermissionView {
        PermissionView { name: self.name@, protected: self.protected, actions: self.actions }
    }
}

impl DeepView for Permission {
    type V = PermissionView;

    open spec fn deep_view(&self) -> PermissionView {
        self@
    }
}

impl View for PostPermission {
    type V = PostPermissionView;

    open spec fn view(&self) -> PostPermissionView {
        PostPermissionView { name: self.name@, actions: self.actions }
    }
}

impl DeepView for PostPermission {
    type V = PostPermissionView;

    open spec fn deep_view(&self) -> PostPermissionView {
        self@
    }
}

impl View for GroupRole {
    type V = GroupRoleView;

    open spec fn view(&self) -> GroupRoleView {
        GroupRoleView {
            name: self.name@,
            protected: self.protected,
            permissions: self.permissions.deep_view(),
            color: self.color@,
            index: self.index,
        }
    }
}

impl DeepView for GroupRole {
    type V = GroupRoleView;

    open spec fn deep_view(&self) -> GroupRoleView {
        self@
    }
}

/// Read only.
pub open spec fn read_only() -> PermissionActions {
    PermissionActions { write: false, read: true, edit: false, delete: false }
}

/// Read and write.
pub open spec fn add_only() -> PermissionActions {
    PermissionActions { write: true, read: true, edit: false, delete: false }
}

/// Every action.
pub open spec fn all_access() -> PermissionActions {
    PermissionActions { write: true, read: true, edit: true, delete: true }
}

impl PermissionType {
    /// The name under which roles carry the permission for this kind.
    pub open spec fn name_view(self) -> Seq<char> {
        match self {
            PermissionType::Task => "task"@,
            PermissionType::Event => "event"@,
            PermissionType::Group => "group"@,
            PermissionType::Member => "member"@,
            PermissionType::Invite => "invite"@,
            PermissionType::Attendee => "attendee"@,
            PermissionType::ChatNotification => "chat_notification"@,
            PermissionType::ChatMessage => "chat_message"@,
            PermissionType::ChatChannel => "chat_channel"@,
            PermissionType::ChatEmbed => "chat_embed"@,
            PermissionType::ChatFiles => "chat_files"@,
            PermissionType::ChatMention => "chat_mention"@,
            PermissionType::ChatPolls => "chat_polls"@,
        }
    }

    /// The name under which roles carry the permission for this kind.
    pub fn name(&self) -> (r: &'static str)
        ensures
            r@ == self.name_view(),
    {
        match self {
            PermissionType::Task => "task",
            PermissionType::Event => "event",
            PermissionType::Group => "group",
            PermissionType::Member => "member",
            PermissionType::Invite => "invite",
            PermissionType::Attendee => "attendee",
            PermissionType::ChatNotification => "chat_notification",
            PermissionType::ChatMessage => "chat_message",
            PermissionType::ChatChannel => "chat_channel",
            PermissionType::ChatEmbed => "chat_embed",
            PermissionType::ChatFiles => "chat_files",
            PermissionType::ChatMention => "chat_mention",
            PermissionType::ChatPolls => "chat_polls",
        }
    }
}

/// The order in which a role built in carries its permissions.
pub open spec fn permission_order() -> Seq<PermissionType> {
    seq![
        PermissionType::Task,
        PermissionType::Event,
        PermissionType::Attendee,
        PermissionType::Group,
        PermissionType::Invite,
        PermissionType::Member,
        PermissionType::ChatNotification,
        PermissionType::ChatMessage,
        PermissionType::ChatChannel,
        PermissionType::ChatEmbed,
        PermissionType::ChatFiles,
        PermissionType::ChatMention,
        PermissionType::ChatPolls,
    ]
}

/// A protected permission for each kind, all with the same actions.
pub open spec fn uniform_permissions(actions: PermissionActions) -> Seq<PermissionView> {
    permission_order().map_values(
        |kind: PermissionType|
            PermissionView { name: kind.name_view(), protected: true, actions },
    )
}

/// What the built-in role "moderator" may do with each kind.
pub open spec fn moderator_actions(kind: PermissionType) -> PermissionActions {
    match kind {
        PermissionType::Event | PermissionType::Attendee => add_only(),
        PermissionType::Group => read_only(),
        _ => all_access(),
    }
}

/// A built-in role: protected, without a sorting index.
pub open spec fn built_in_role(
    name: Seq<char>,
    color: Seq<char>,
    permissions: Seq<PermissionView>,
) -> GroupRoleView {
    GroupRoleView { name, protected: true, permissions, color, index: None }
}

/// The roles that every group has without storing them.
pub open spec fn default_roles_view() -> Seq<GroupRoleView> {
    seq![
        built_in_role("owner"@, "#FFB800"@, uniform_permissions(all_access())),
        built_in_role("admin"@, "#F56E00"@, uniform_permissions(all_access())),
        built_in_role(
            "moderator"@,
            "#06E143"@,
            permission_order().map_values(
                |kind: PermissionType|
                    PermissionView {
                        name: kind.name_view(),
                        protected: true,
                        actions: moderator_actions(kind),
                    },
            ),
        ),
        built_in_role("member"@, "#7A9CF2"@, uniform_permissions(read_only())),
    ]
}

/// `role_helper::default_roles` of `ic_scalable_misc`: the four built-in
/// roles "owner", "admin", "moderator" and "member", each with one protected
/// permission per kind in a fixed order. The contract states the whole value.
#[verifier::external_body]
pub(crate) fn default_roles() -> (r: Vec<GroupRole>)
    ensures
        r.deep_view() == default_roles_view(),
{
    role_helper::default_roles().into_iter().map(|r| GroupRole {
        name: r.name, protected: r.protected, color: r.color, index: r.index,
        permissions: r.permissions.into_iter().map(|p| Permission {
            name: p.name, protected: p.protected,
            actions: PermissionActions {
                write: p.actions.write, read: p.actions.read,
                edit: p.actions.edit, delete: p.actions.delete,
            },
        }).collect(),
    }).collect()
}

/// `role_helper::get_read_only_permissions` of `ic_scalable_misc`: one
/// protected read-only permission per kind, in the fixed order.
#[verifier::external_body]
pub(crate) fn get_read_only_permissions() -> (r: Vec<Permission>)
    ensures
        r.deep_view() == uniform_permissions(read_only()),
{
    role_helper::get_read_only_permissions().into_iter().map(|p| Permission {
        name: p.name, protected: p.protected,
        actions: PermissionActions {
            write: p.actions.write, read: p.actions.read,
            edit: p.actions.edit, delete: p.actions.delete,
        },
    }).collect()
}

/// Whether `actions` allow `action`.
pub open spec fn allows(actions: PermissionActions, action: PermissionActionType) -> bool {
    match action {
        PermissionActionType::Write => actions.write,
        PermissionActionType::Read => actions.read,
        PermissionActionType::Edit => actions.edit,
        PermissionActionType::Delete => actions.delete,
    }
}

/// The role carries a permission of the given name that allows `action`.
pub open spec fn grants(
    role: GroupRoleView,
    permission: Seq<char>,
    action: PermissionActionType,
) -> bool {
    exists|k: int|
        0 <= k < role.permissions.len() && (#[trigger] role.permissions[k]).name == permission
            && allows(role.permissions[k].actions, action)
}

/// Position `j` holds the first role of `roles` that goes by `name`.
pub open spec fn first_named(roles: Seq<GroupRoleView>, name: Seq<char>, j: int) -> bool {
    &&& 0 <= j < roles.len()
    &&& roles[j].name == name
    &&& forall|k: int| 0 <= k < j ==> (#[trigger] roles[k]).name != name
}

/// Some role of `roles` goes by `name`.
pub open spec fn has_role_named(roles: Seq<GroupRoleView>, name: Seq<char>) -> bool {
    exists|j: int| 0 <= j < roles.len() && (#[trigger] roles[j]).name == name
}

/// A member holding the roles named in `member_roles` may perform `action`
/// on things of the kind `permission`: one of those names is the name of a
/// role of `group_roles`, and the first role of that name grants it.
pub open spec fn has_permission_spec(
    member_roles: Seq<Seq<char>>,
    permission: Seq<char>,
    group_roles: Seq<GroupRoleView>,
    action: PermissionActionType,
) -> bool {
    exists|i: int, j: int|
        0 <= i < member_roles.len() && #[trigger] first_named(group_roles, member_roles[i], j)
            && grants(group_roles[j], permission, action)
}

impl PermissionActions {
    /// Whether these actions allow `action`.
    pub fn allows(&self, action: PermissionActionType) -> (r: bool)
        ensures
            r == allows(*self, action),
    {
        match action {
            PermissionActionType::Write => self.write,
            PermissionActionType::Read => self.read,
            PermissionActionType::Edit => self.edit,
            PermissionActionType::Delete => self.delete,
        }
    }
}

impl Permission {
    /// A copy of the permission.
    pub fn duplicate(&self) -> (r: Permission)
        ensures
            r@ == self@,
    {
        Permission { name: self.name.clone(), protected: self.protected, actions: self.actions }
    }
}

/// A copy of a list of permissions.
pub fn duplicate_permissions(permissions: &Vec<Permission>) -> (r: Vec<Permission>)
    ensures
        r.deep_view() == permissions.deep_view(),
{
    let mut copy: Vec<Permission> = Vec::new();
    let mut i: usize = 0;
    while i < permissions.len()
        invariant
            i <= permissions@.len(),
            copy@.len() == i,
            forall|k: int| 0 <= k < i ==> copy@[k]@ == permissions@[k]@,
        decreases permissions@.len() - i,
    {
        copy.push(permissions[i].duplicate());
        i += 1;
    }
    assert(copy.deep_view() =~= permissions.deep_view());
    copy
}

impl GroupRole {
    /// A copy of the role.
    pub fn duplicate(&self) -> (r: GroupRole)
        ensures
            r@ == self@,
    {
        GroupRole {
            name: self.name.clone(),
            protected: self.protected,
            permissions: duplicate_permissions(&self.permissions),
            color: self.color.clone(),
            index: self.index,
        }
    }

    /// Whether the role carries a permission named `permission` that allows
    /// `action`.
    pub fn grants(&self, permission: &str, action: PermissionActionType) -> (r: bool)
        ensures
            r == grants(self@, permission@, action),
    {
        let mut k: usize = 0;
        while k < self.permissions.len()
            invariant
                k <= self.permissions@.len(),
                forall|n: int|
                    0 <= n < k ==> !((#[trigger] self@.permissions[n]).name == permission@
                        && allows(self@.permissions[n].actions, action)),
            decreases self.permissions@.len() - k,
        {
            let p = &self.permissions[k];
            assert(self@.permissions[k as int] == p@);
            if text::eq(p.name.as_str(), permission) && p.actions.allows(action) {
                return true;
            }
            k += 1;
        }
        false
    }
}

/// A copy of a list of roles.
pub fn duplicate_roles(roles: &Vec<GroupRole>) -> (r: Vec<GroupRole>)
    ensures
        r.deep_view() == roles.deep_view(),
{
    let mut copy: Vec<GroupRole> = Vec::new();
    let mut i: usize = 0;
    while i < roles.len()
        invariant
            i <= roles@.len(),
            copy@.len() == i,
            forall|k: int| 0 <= k < i ==> copy@[k]@ == roles@[k]@,
        decreases roles@.len() - i,
    {
        copy.push(roles[i].duplicate());
        i += 1;
    }
    assert(copy.deep_view() =~= roles.deep_view());
    copy
}

/// The position of the first role of `roles` that goes by `name`.
pub fn find_role(roles: &Vec<GroupRole>, name: &str) -> (r: Option<usize>)
    ensures
        r is Some <==> has_role_named(roles.deep_view(), name@),
        r matches Some(j) ==> first_named(roles.deep_view(), name@, j as int),
{
    let mut j: usize = 0;
    while j < roles.len()
        invariant
            j <= roles@.len(),
            forall|k: int| 0 <= k < j ==> (#[trigger] roles.deep_view()[k]).name != name@,
        decreases roles@.len() - j,
    {
        assert(roles.deep_view()[j as int] == roles@[j as int]@);
        if text::eq(roles[j].name.as_str(), name) {
            return Some(j);
        }
        j += 1;
    }
    None
}

/// Whether a member holding the roles named in `member_roles` may perform
/// `permission_action` on things of the kind `permission`, given the roles
/// of the group.
pub fn has_permission(
    member_roles: &Vec<String>,
    permission: &PermissionType,
    group_roles: &Vec<GroupRole>,
    permission_action: &PermissionActionType,
) -> (r: bool)
    ensures
        r == has_permission_spec(
            member_roles.deep_view(),
            permission.name_view(),
            group_roles.deep_view(),
            *permission_action,
        ),
{
    let wanted = permission.name();
    let mut i: usize = 0;
    while i < member_roles.len()
        invariant
            i <= member_roles@.len(),
            wanted@ == permission.name_view(),
            forall|n: int, j: int|
                0 <= n < i ==> !(#[trigger] first_named(
                    group_roles.deep_view(),
                    member_roles.deep_view()[n],
                    j,
                ) && grants(group_roles.deep_view()[j], wanted@, *permission_action)),
        decreases member_roles@.len() - i,
    {
        assert(member_roles.deep_view()[i as int] == member_roles@[i as int]@);
        match find_role(group_roles, member_roles[i].as_str()) {
            Some(j) => {
                assert(group_roles.deep_view()[j as int] == group_roles@[j as int]@);
                if group_roles[j].grants(wanted, *permission_action) {
                    return true;
                }
                assert forall|j2: int| #[trigger]
                    first_named(group_roles.deep_view(), member_roles.deep_view()[i as int], j2)
                    implies j2 == j by {}
            },
            None => {},
        }
        i += 1;
    }
    false
}

} // verus!
