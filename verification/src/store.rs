use crate::error::{
    api_error, error_of, location_of, ApiError, ApiErrorType, ApiErrorView, ErrorMessage,
    ErrorMessageView,
};
use crate::group_model::{
    paired, Group, GroupResponse, GroupResponseView, GroupView, Privacy, PrivacyView,
};
use crate::identifier::{encode_identifier, encoded, MAX_NODE_BYTES};
use crate::principal::{principal_text, Principal};
use crate::principal_map::PrincipalMap;
use crate::roles::{default_roles, default_roles_view, duplicate_roles, GroupRole, GroupRoleView};
use crate::snapshot::{lines1, principal_input, principal_line};
use crate::text::{decimal, decimal_text};
use vstd::prelude::*;
use vstd::string::StringExecFns;
use vstd::utf8::encode_utf8;

verus! {

/// The tag of the kind of entry that a node of groups holds.
pub const IDENTIFIER_KIND: &'static str = "grp";

/// The number from which a node counts on after it took over the entries
/// of another service.
pub const MIGRATED_ENTRIES: u64 = 1000;

/// The number of bytes that the entries of a node may take.
pub const MAX_BYTES: u64 = 4_294_967_296;

/// The smallest size that the largest entry of a node is taken to have.
pub const MIN_ENTRY_BYTES: u64 = 8;

/// The greatest of a list of sizes; zero for no sizes.
pub open spec fn greatest(sizes: Seq<usize>) -> nat
    decreases sizes.len(),
{
    if sizes.len() == 0 {
        0
    } else if sizes.last() >= greatest(sizes.drop_last()) {
        sizes.last() as nat
    } else {
        greatest(sizes.drop_last())
    }
}

/// The size that the largest entry of a node is taken to have, given the
/// sizes of its entries: the greatest of them, or the smallest size where
/// there is none or all are empty.
pub open spec fn largest_entry(sizes: Seq<usize>) -> nat {
    if greatest(sizes) == 0 {
        MIN_ENTRY_BYTES as nat
    } else {
        greatest(sizes)
    }
}

/// The size that the largest entry of a node is taken to have: see
/// [`largest_entry`].
pub fn get_largest_entry(sizes: &Vec<usize>) -> (r: u64)
    ensures
        r == largest_entry(sizes@),
        r > 0,
{
    let mut most: usize = 0;
    let mut i: usize = 0;
    assert(sizes@.take(0) =~= Seq::<usize>::empty());
    while i < sizes.len()
        invariant
            i <= sizes@.len(),
            most == greatest(sizes@.take(i as int)),
        decreases sizes@.len() - i,
    {
        proof {
            assert(sizes@.take(i + 1).drop_last() =~= sizes@.take(i as int));
            assert(sizes@.take(i + 1).last() == sizes@[i as int]);
        }
        if sizes[i] >= most {
            most = sizes[i];
        }
        i += 1;
    }
    assert(sizes@.take(i as int) =~= sizes@);
    if most == 0 {
        MIN_ENTRY_BYTES
    } else {
        most as u64
    }
}

/// The number of entries beyond which a node is full, given the sizes of
/// its entries: as many as fit in the bytes of a node if each is as large
/// as the largest.
pub fn get_max_entries(sizes: &Vec<usize>) -> (r: u64)
    ensures
        r == MAX_BYTES as nat / largest_entry(sizes@),
{
    MAX_BYTES / get_largest_entry(sizes)
}

/// What a node knows of itself.
#[derive(Clone, Debug, PartialEq, Eq)]
pub struct StableData {
    /// The name of the service.
    pub name: String,
    /// The number of the node among the nodes of the service.
    pub identifier: usize,
    /// The number that the next entry gets.
    pub current_entry_id: u64,
    /// The directory that the node belongs to.
    pub parent: Principal,
    /// Whether the node takes new entries.
    pub is_available: bool,
    pub updated_at: u64,
    pub created_at: u64,
}

/// [`StableData`] as contracts speak of it.
pub struct StableDataView {
    pub name: Seq<char>,
    pub identifier: usize,
    pub current_entry_id: u64,
    pub parent: Seq<u8>,
    pub is_available: bool,
    pub updated_at: u64,
    pub created_at: u64,
}

impl View for StableData {
    type V = StableDataView;

    open spec fn view(&self) -> StableDataView {
        StableDataView {
            name: self.name@,
            identifier: self.identifier,
            current_entry_id: self.current_entry_id,
            parent: self.parent@,
            is_available: self.is_available,
            updated_at: self.updated_at,
            created_at: self.created_at,
        }
    }
}

/// One node of the service: what it knows of itself, and its table of
/// groups, each under the identifier that the node gave it.
#[derive(Clone, Debug)]
pub struct Store {
    pub data: StableData,
    pub entries: PrincipalMap<Group>,
    /// The identifier of the node itself.
    pub id: Principal,
    /// The number of entries beyond which the node is full.
    pub max_entries: usize,
}

/// [`Store`] as contracts speak of it.
pub struct StoreView {
    pub data: StableDataView,
    /// The identifiers of the groups, in the order in which they came.
    pub keys: Seq<Seq<u8>>,
    /// The groups, each at the position of its identifier.
    pub groups: Seq<GroupView>,
    pub id: Seq<u8>,
    pub max_entries: usize,
}

/// The views of a list of groups.
pub open spec fn groups_view(groups: Seq<Group>) -> Seq<GroupView> {
    groups.map_values(|g: Group| g@)
}

impl View for Store {
    type V = StoreView;

    open spec fn view(&self) -> StoreView {
        StoreView {
            data: self.data@,
            keys: self.entries.keys(),
            groups: groups_view(self.entries.values()),
            id: self.id@,
            max_entries: self.max_entries,
        }
    }
}

/// No two roles go by the same name.
pub open spec fn distinct_role_names(roles: Seq<GroupRoleView>) -> bool {
    forall|i: int, j: int|
        0 <= i < j < roles.len() ==> (#[trigger] roles[i]).name != (#[trigger] roles[j]).name
}

/// Whether no two roles of a list go by the same name.
pub fn roles_are_distinct(roles: &Vec<GroupRole>) -> (r: bool)
    ensures
        r == distinct_role_names(roles.deep_view()),
{
    let ghost all = roles.deep_view();
    let mut i: usize = 0;
    while i < roles.len()
        invariant
            i <= roles@.len(),
            all == roles.deep_view(),
            forall|a: int, b: int|
                0 <= a < b < i ==> (#[trigger] all[a]).name != (#[trigger] all[b]).name,
        decreases roles@.len() - i,
    {
        assert(all[i as int] == roles@[i as int]@);
        let mut j: usize = 0;
        while j < i
            invariant
                j <= i < roles@.len(),
                all == roles.deep_view(),
                forall|a: int| 0 <= a < j ==> (#[trigger] all[a]).name != all[i as int].name,
            decreases i - j,
        {
            assert(all[j as int] == roles@[j as int]@);
            if roles[j].name == roles[i].name {
                assert(all[j as int].name == all[i as int].name);
                return false;
            }
            j += 1;
        }
        i += 1;
    }
    true
}

/// The sum of the counts of a list.
pub open spec fn sum_of(counts: Seq<(Seq<u8>, usize)>) -> nat
    decreases counts.len(),
{
    if counts.len() == 0 {
        0
    } else {
        sum_of(counts.drop_last()) + counts.last().1 as nat
    }
}

/// The sum of the counts, or the largest number where the sum is beyond it.
pub open spec fn total_members(counts: Seq<(Seq<u8>, usize)>) -> usize {
    if sum_of(counts) > usize::MAX {
        usize::MAX
    } else {
        sum_of(counts) as usize
    }
}

/// A group as callers see it: under its identifier, with the built-in roles
/// after its own, and with its members counted over all nodes.
pub open spec fn response_of(identifier: Seq<u8>, group: GroupView) -> GroupResponseView {
    GroupResponseView {
        identifier,
        name: group.name,
        description: group.description,
        website: group.website,
        location: group.location,
        privacy: group.privacy,
        created_by: group.created_by,
        owner: group.owner,
        matrix_space_id: group.matrix_space_id,
        image: group.image,
        banner_image: group.banner_image,
        tags: group.tags,
        roles: group.roles + default_roles_view(),
        member_count: total_members(group.member_count),
        wallets: group.wallets,
        is_deleted: group.is_deleted,
        updated_on: group.updated_on,
        created_on: group.created_on,
    }
}

/// The name that a node goes by: the name of the service and the number of
/// the node.
pub open spec fn display_name(s: StoreView) -> Seq<char> {
    s.data.name + " - "@ + decimal_text(s.data.identifier as u64)
}

/// Where an error of a node arose.
pub open spec fn store_place(s: StoreView, method_name: Seq<char>) -> Seq<char> {
    location_of(principal_text(s.id), display_name(s), method_name)
}

/// The node holds a group under the identifier.
pub open spec fn holds(s: StoreView, identifier: Seq<u8>) -> bool {
    s.keys.contains(identifier)
}

/// The group that the node holds under the identifier.
pub open spec fn group_of(s: StoreView, identifier: Seq<u8>) -> GroupView {
    s.groups[s.keys.index_of(identifier)]
}

/// The error for an identifier under which the node holds nothing.
pub open spec fn entry_not_found(s: StoreView, identifier: Seq<u8>) -> ApiErrorView {
    error_of(
        ApiErrorType::NotFound,
        "ENTRY_NOT_FOUND"@,
        "The entry tied to this ID cant be found"@,
        store_place(s, "get_entry"@),
        Some(seq![principal_line("entry_id"@, identifier)]),
    )
}

/// Every group of the node as callers see it, in the order of the table.
pub open spec fn all_responses(s: StoreView) -> Seq<GroupResponseView> {
    Seq::new(s.keys.len(), |i: int| response_of(s.keys[i], s.groups[i]))
}

/// The test that a list of groups puts to a group: it is not deleted, and
/// it is not open to invited actors only unless those are asked for too.
pub open spec fn shown_in_lists(include_invite_only: bool) -> spec_fn(GroupResponseView) -> bool {
    |r: GroupResponseView|
        !r.is_deleted && (include_invite_only || r.privacy != PrivacyView::InviteOnly)
}

/// The groups of the node that lists show.
pub open spec fn listed(s: StoreView, include_invite_only: bool) -> Seq<GroupResponseView> {
    all_responses(s).filter(shown_in_lists(include_invite_only))
}

/// The members counted over all nodes.
pub fn count_members(counts: &PrincipalMap<usize>) -> (r: usize)
    requires
        counts.wf(),
    ensures
        r == total_members(paired(counts.keys(), counts.values())),
{
    let ghost pairs = paired(counts.keys(), counts.values());
    let mut total: usize = 0;
    let mut i: usize = 0;
    assert(pairs.take(0) =~= Seq::<(Seq<u8>, usize)>::empty());
    while i < counts.len()
        invariant
            counts.wf(),
            i <= counts.keys().len(),
            pairs == paired(counts.keys(), counts.values()),
            total == total_members(pairs.take(i as int)),
        decreases counts.keys().len() - i,
    {
        let count = *counts.value_at(i);
        proof {
            assert(pairs.take(i + 1).drop_last() =~= pairs.take(i as int));
            assert(pairs.take(i + 1).last().1 == count);
        }
        total = if count > usize::MAX - total {
            usize::MAX
        } else {
            total + count
        };
        i += 1;
    }
    assert(pairs.take(i as int) =~= pairs);
    total
}

/// The wallets of a group with their descriptions, as a list.
pub fn list_wallets(wallets: &PrincipalMap<String>) -> (r: Vec<(Principal, String)>)
    requires
        wallets.wf(),
    ensures
        crate::group_model::wallets_view(r@) == paired(wallets.keys(), wallets.texts()),
{
    let mut out: Vec<(Principal, String)> = Vec::new();
    let mut i: usize = 0;
    while i < wallets.len()
        invariant
            wallets.wf(),
            i <= wallets.keys().len(),
            out@.len() == i,
            forall|k: int|
                0 <= k < i ==> out@[k].0@ == wallets.keys()[k] && out@[k].1@ == wallets.texts()[k],
        decreases wallets.keys().len() - i,
    {
        out.push((wallets.key_at(i).clone(), wallets.value_at(i).clone()));
        i += 1;
    }
    assert(crate::group_model::wallets_view(out@) =~= paired(wallets.keys(), wallets.texts()));
    out
}

impl Store {
    /// Validity: the table and the tables of its groups hold no key twice,
    /// no group has two roles of one name, and the identifier of the node
    /// leaves room for the rest of an identifier of an entry.
    pub open spec fn wf(&self) -> bool {
        &&& self.entries.wf()
        &&& forall|i: int|
            0 <= i < self.entries.values().len() ==> (#[trigger] self.entries.values()[i]).wf()
                && distinct_role_names(self.entries.values()[i]@.roles)
        &&& self.id@.len() <= MAX_NODE_BYTES
    }

    /// Whether the node is valid.
    pub fn is_valid(&self) -> (r: bool)
        ensures
            r == self.wf(),
    {
        if !self.entries.is_valid() || self.id.as_slice().len() > MAX_NODE_BYTES {
            return false;
        }
        let mut i: usize = 0;
        while i < self.entries.len()
            invariant
                i <= self.entries.values().len(),
                self.entries.wf(),
                forall|k: int|
                    0 <= k < i ==> (#[trigger] self.entries.values()[k]).wf()
                        && distinct_role_names(self.entries.values()[k]@.roles),
            decreases self.entries.values().len() - i,
        {
            let group = self.entries.value_at(i);
            if !group.member_count.is_valid() || !group.wallets.is_valid() || !roles_are_distinct(
                &group.roles,
            ) {
                return false;
            }
            i += 1;
        }
        true
    }

    /// A node without groups, as it is started at the time `now`: it takes
    /// entries up to `max_entries`. `None` for an identifier of the node that
    /// leaves no room for the rest of an identifier of an entry.
    pub fn new(
        id: Principal,
        parent: Principal,
        name: String,
        identifier: usize,
        max_entries: usize,
        now: u64,
    ) -> (r: Option<Store>)
        ensures
            r is Some <==> id@.len() <= MAX_NODE_BYTES,
            r matches Some(store) ==> store.wf() && store@ == (StoreView {
                data: StableDataView {
                    name: name@,
                    identifier,
                    current_entry_id: 0,
                    parent: parent@,
                    is_available: true,
                    updated_at: now,
                    created_at: now,
                },
                keys: Seq::<Seq<u8>>::empty(),
                groups: Seq::<GroupView>::empty(),
                id: id@,
                max_entries,
            }),
    {
        if id.as_slice().len() > MAX_NODE_BYTES {
            return None;
        }
        let store = Store {
            data: StableData {
                name,
                identifier,
                current_entry_id: 0,
                parent,
                is_available: true,
                updated_at: now,
                created_at: now,
            },
            entries: PrincipalMap::new(),
            id,
            max_entries,
        };
        assert(store@.groups =~= Seq::<GroupView>::empty());
        Some(store)
    }

    /// Puts the counter of entries at the number from which a node goes on
    /// that took over the entries of another service. Only `migrator`, the
    /// actor that moves the entries, may do so; for any other caller nothing
    /// changes.
    pub fn set_entry_count(&mut self, caller: &Principal, migrator: &Principal)
        ensures
            final(self)@ == if caller@ == migrator@ {
                StoreView {
                    data: StableDataView { current_entry_id: MIGRATED_ENTRIES, ..old(self)@.data },
                    ..old(self)@
                }
            } else {
                old(self)@
            },
            old(self).wf() ==> final(self).wf(),
    {
        if caller.same(migrator) {
            self.data.current_entry_id = MIGRATED_ENTRIES;
        }
    }

    /// The name that the node goes by.
    pub fn get_name(&self) -> (r: String)
        ensures
            r@ == display_name(self@),
    {
        let mut name = self.data.name.clone();
        name.append(" - ");
        name.append(decimal(self.data.identifier as u64).as_str());
        name
    }

    /// Builds an error that arose in `method_name` of this node.
    pub fn fail(
        &self,
        kind: ApiErrorType,
        tag: &str,
        message: &str,
        method_name: &str,
        inputs: Option<Vec<String>>,
    ) -> (r: ApiError)
        ensures
            r@ == error_of(
                kind,
                tag@,
                message@,
                store_place(self@, method_name@),
                inputs.deep_view(),
            ),
    {
        let origin = self.id.to_text();
        let name = self.get_name();
        api_error(kind, tag, message, origin.as_str(), name.as_str(), method_name, inputs)
    }

    /// The position of the group with the identifier, or the error that
    /// says that there is none.
    pub fn get_entry(&self, identifier: &Principal) -> (r: Result<usize, ApiError>)
        requires
            self.wf(),
        ensures
            match r {
                Ok(at) => holds(self@, identifier@) && at == self@.keys.index_of(identifier@) && at
                    < self@.keys.len() && self@.keys[at as int] == identifier@,
                Err(e) => !holds(self@, identifier@) && e@ == entry_not_found(self@, identifier@),
            },
    {
        match self.entries.position(identifier) {
            Some(at) => Ok(at),
            None => {
                let inputs = lines1(principal_input("entry_id", identifier));
                Err(
                    self.fail(
                        ApiErrorType::NotFound,
                        "ENTRY_NOT_FOUND",
                        "The entry tied to this ID cant be found",
                        "get_entry",
                        inputs,
                    ),
                )
            },
        }
    }

    /// A group as callers see it: see [`response_of`].
    pub fn map_group_to_group_response(identifier: Principal, group: Group) -> (r: GroupResponse)
        requires
            group.wf(),
        ensures
            r@ == response_of(identifier@, group@),
    {
        let mut roles = group.roles;
        let ghost own = roles.deep_view();
        let mut built_in = default_roles();
        let ghost added = built_in.deep_view();
        roles.append(&mut built_in);
        assert(roles.deep_view() =~= own + added);
        GroupResponse {
            identifier,
            name: group.name,
            description: group.description,
            website: group.website,
            location: group.location,
            privacy: group.privacy,
            created_by: group.created_by,
            owner: group.owner,
            matrix_space_id: group.matrix_space_id,
            image: group.image,
            banner_image: group.banner_image,
            tags: group.tags,
            roles,
            member_count: count_members(&group.member_count),
            wallets: list_wallets(&group.wallets),
            is_deleted: group.is_deleted,
            updated_on: group.updated_on,
            created_on: group.created_on,
        }
    }

    /// The group at position `at` of the table as callers see it.
    pub fn response_at(&self, at: usize) -> (r: GroupResponse)
        requires
            self.wf(),
            at < self@.keys.len(),
        ensures
            r@ == all_responses(self@)[at as int],
    {
        let group = self.entries.value_at(at).duplicate();
        Store::map_group_to_group_response(self.entries.key_at(at).clone(), group)
    }

    /// The group with the identifier, deleted or not.
    pub fn get_group(&self, identifier: &Principal) -> (r: Result<GroupResponse, ApiError>)
        requires
            self.wf(),
        ensures
            match r {
                Ok(group) => holds(self@, identifier@) && group@ == response_of(
                    identifier@,
                    group_of(self@, identifier@),
                ),
                Err(e) => !holds(self@, identifier@) && e@ == entry_not_found(self@, identifier@),
            },
    {
        match self.get_entry(identifier) {
            Err(e) => Err(e),
            Ok(at) => Ok(self.response_at(at)),
        }
    }

    /// The owner of the group with the identifier, and who may see it.
    pub fn get_group_owner_and_privacy(&self, identifier: &Principal) -> (r: Result<
        (Principal, Privacy),
        ApiError,
    >)
        requires
            self.wf(),
        ensures
            match r {
                Ok(found) => holds(self@, identifier@) && found.0@ == group_of(
                    self@,
                    identifier@,
                ).owner && found.1@ == group_of(self@, identifier@).privacy,
                Err(e) => !holds(self@, identifier@) && e@ == entry_not_found(self@, identifier@),
            },
    {
        match self.get_entry(identifier) {
            Err(e) => Err(e),
            Ok(at) => {
                let group = self.entries.value_at(at);
                Ok((group.owner.clone(), group.privacy.duplicate()))
            },
        }
    }

    /// The roles of the group with the identifier, the built-in roles after
    /// its own. No roles where the node holds no such group.
    pub fn get_group_roles(&self, group_identifier: &Principal) -> (r: Vec<GroupRole>)
        requires
            self.wf(),
        ensures
            r.deep_view() == if holds(self@, group_identifier@) {
                group_of(self@, group_identifier@).roles + default_roles_view()
            } else {
                Seq::<GroupRoleView>::empty()
            },
    {
        match self.entries.position(group_identifier) {
            None => {
                let none: Vec<GroupRole> = Vec::new();
                assert(none.deep_view() =~= Seq::<GroupRoleView>::empty());
                none
            },
            Some(at) => {
                let mut roles = duplicate_roles(&self.entries.value_at(at).roles);
                let ghost own = roles.deep_view();
                let mut built_in = default_roles();
                let ghost added = built_in.deep_view();
                roles.append(&mut built_in);
                assert(roles.deep_view() =~= own + added);
                roles
            },
        }
    }
}

/// The node changed in its table only.
pub open spec fn with_table(s: StoreView, keys: Seq<Seq<u8>>, groups: Seq<GroupView>) -> StoreView {
    StoreView { keys, groups, ..s }
}

/// The node with `group` in place of the group at position `at`.
pub open spec fn with_group_at(s: StoreView, at: int, group: GroupView) -> StoreView {
    StoreView { groups: s.groups.update(at, group), ..s }
}

/// The node with `group` in place of the group under the identifier.
pub open spec fn with_group(s: StoreView, identifier: Seq<u8>, group: GroupView) -> StoreView {
    with_group_at(s, s.keys.index_of(identifier), group)
}

/// The node is full: it holds as many entries as it may, or it has no number
/// left for another.
pub open spec fn is_full(s: StoreView) -> bool {
    s.keys.len() >= s.max_entries || s.data.current_entry_id == u64::MAX
}

/// The error of a node that is full.
pub open spec fn at_capacity(s: StoreView) -> ApiErrorView {
    ApiErrorView::CanisterAtCapacity(
        ErrorMessageView {
            tag: "CANISTER_AT_CAPACITY"@,
            message: "canister '"@ + principal_text(s.id) + "' reached capacity"@,
            location: store_place(s, "_add_entry"@),
            inputs: None,
        },
    )
}

/// Why the node does not take an entry: it is closed, or it is full.
pub open spec fn add_refusal(s: StoreView) -> Option<ApiErrorView> {
    if !s.data.is_available {
        Some(
            error_of(
                ApiErrorType::BadRequest,
                "UNAVAILABLE_CANISTER"@,
                "This canister is not available"@,
                store_place(s, "add_entry"@),
                None,
            ),
        )
    } else if is_full(s) {
        Some(at_capacity(s))
    } else {
        None
    }
}

/// The identifier that the next entry gets.
pub open spec fn next_identifier(s: StoreView) -> Seq<u8> {
    encoded(s.data.current_entry_id, s.id, encode_utf8(IDENTIFIER_KIND@))
}

/// The table with `group` under the identifier: in place of what was
/// there, or as a new last entry.
pub open spec fn with_entry(s: StoreView, identifier: Seq<u8>, group: GroupView) -> StoreView {
    if s.keys.contains(identifier) {
        with_group(s, identifier, group)
    } else {
        with_table(s, s.keys.push(identifier), s.groups.push(group))
    }
}

/// The node after an entry was offered to it. A node that is full closes;
/// a node that takes the entry stores it under the next identifier and
/// moves on to the next number.
pub open spec fn state_after_add(s: StoreView, group: GroupView) -> StoreView {
    if !s.data.is_available {
        s
    } else if is_full(s) {
        StoreView { data: StableDataView { is_available: false, ..s.data }, ..s }
    } else {
        let stored = with_entry(s, next_identifier(s), group);
        StoreView {
            data: StableDataView {
                current_entry_id: (s.data.current_entry_id + 1) as u64,
                ..s.data
            },
            ..stored
        }
    }
}

/// The tag of the kind has three bytes.
pub proof fn lemma_kind_has_three_bytes()
    ensures
        encode_utf8(IDENTIFIER_KIND@).len() == 3,
{
    reveal_strlit("grp");
    let chars = "grp"@;
    assert(chars =~= seq!['g', 'r', 'p']);
    vstd::string::is_ascii_spec_bytes("grp");
    assert(vstd::utf8::is_ascii_chars(chars)) by {
        assert forall|i: int| 0 <= i < chars.len() implies (chars[i] as u32) < 128 by {
            assert(chars[i] == 'g' || chars[i] == 'r' || chars[i] == 'p');
        }
    }
}

impl Store {
    /// Puts `group` in place of the group at position `at`.
    pub fn put_group(&mut self, at: usize, group: Group)
        requires
            old(self).wf(),
            at < old(self)@.keys.len(),
            group.wf(),
            distinct_role_names(group@.roles),
        ensures
            final(self).wf(),
            final(self)@ == with_group_at(old(self)@, at as int, group@),
    {
        self.entries.set_at(at, group);
        assert(self@.groups =~= old(self)@.groups.update(at as int, group@));
    }

    /// Stores `group` under the identifier: in place of what was there, or
    /// as a new last entry.
    pub fn put_entry(&mut self, identifier: Principal, group: Group)
        requires
            old(self).wf(),
            group.wf(),
            distinct_role_names(group@.roles),
        ensures
            final(self).wf(),
            final(self)@ == with_entry(old(self)@, identifier@, group@),
    {
        let ghost before = self@;
        let ghost had = self.entries.values();
        self.entries.insert(identifier, group);
        proof {
            if before.keys.contains(identifier@) {
                assert(self@.groups =~= before.groups.update(
                    before.keys.index_of(identifier@),
                    group@,
                ));
            } else {
                assert(self@.groups =~= before.groups.push(group@));
            }
            assert forall|i: int| 0 <= i < self.entries.values().len() implies (
            #[trigger] self.entries.values()[i]).wf() && distinct_role_names(
                self.entries.values()[i]@.roles,
            ) by {
                if i < had.len() && self.entries.values()[i] != group {
                    assert(self.entries.values()[i] == had[i]);
                }
            }
        }
    }

    /// Offers an entry to the node. The node takes it, under the next
    /// identifier, unless it is closed or full; a node that is full closes.
    pub fn add_entry(&mut self, group: Group) -> (r: Result<Principal, ApiError>)
        requires
            old(self).wf(),
            group.wf(),
            distinct_role_names(group@.roles),
        ensures
            final(self).wf(),
            final(self)@ == state_after_add(old(self)@, group@),
            match r {
                Ok(identifier) => add_refusal(old(self)@) is None && identifier@ == next_identifier(
                    old(self)@,
                ),
                Err(e) => add_refusal(old(self)@) == Some(e@),
            },
    {
        if !self.data.is_available {
            return Err(
                self.fail(
                    ApiErrorType::BadRequest,
                    "UNAVAILABLE_CANISTER",
                    "This canister is not available",
                    "add_entry",
                    None,
                ),
            );
        }
        if self.entries.len() >= self.max_entries || self.data.current_entry_id == u64::MAX {
            let error = self.full();
            self.data.is_available = false;
            return Err(error);
        }
        proof {
            lemma_kind_has_three_bytes();
        }
        match encode_identifier(self.data.current_entry_id, &self.id, IDENTIFIER_KIND) {
            Err(_) => {
                assert(false);
                Err(self.full())
            },
            Ok(identifier) => {
                self.put_entry(identifier.clone(), group);
                self.data.current_entry_id = self.data.current_entry_id + 1;
                Ok(identifier)
            },
        }
    }

    /// The error of a node that is full.
    pub fn full(&self) -> (r: ApiError)
        ensures
            r@ == at_capacity(self@),
    {
        let mut message = String::from_str("canister '");
        message.append(self.id.to_text().as_str());
        message.append("' reached capacity");
        let origin = self.id.to_text();
        let name = self.get_name();
        ApiError::CanisterAtCapacity(
            ErrorMessage {
                tag: String::from_str("CANISTER_AT_CAPACITY"),
                message,
                location: crate::error::location(origin.as_str(), name.as_str(), "_add_entry"),
                inputs: None,
            },
        )
    }

    /// Takes the entry under the identifier out of the table.
    pub fn remove_entry(&mut self, identifier: &Principal) -> (r: bool)
        requires
            old(self).wf(),
        ensures
            r,
            final(self).wf(),
            final(self)@ == if holds(old(self)@, identifier@) {
                with_table(
                    old(self)@,
                    old(self)@.keys.remove(old(self)@.keys.index_of(identifier@)),
                    old(self)@.groups.remove(old(self)@.keys.index_of(identifier@)),
                )
            } else {
                old(self)@
            },
    {
        let ghost before = self@;
        let ghost had = self.entries.values();
        let _ = self.entries.remove(identifier);
        proof {
            if before.keys.contains(identifier@) {
                let at = before.keys.index_of(identifier@);
                assert(self@.groups =~= before.groups.remove(at));
                assert forall|i: int| 0 <= i < self.entries.values().len() implies (
                #[trigger] self.entries.values()[i]).wf() && distinct_role_names(
                    self.entries.values()[i]@.roles,
                ) by {
                    if i < at {
                        assert(self.entries.values()[i] == had[i]);
                    } else {
                        assert(self.entries.values()[i] == had[i + 1]);
                    }
                }
            }
        }
        true
    }
}

} // verus!
