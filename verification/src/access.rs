use crate::error::{error_of, ApiError, ApiErrorType, ApiErrorView};
use crate::group_model::{
    GatedType, GatedTypeView, NeuronGated, NeuronGatedRules, NeuronGatedView, Privacy, PrivacyView,
    TokenGated, TokenGatedView,
};
use crate::principal::Principal;
use crate::roles::{
    default_roles, default_roles_view, has_permission, has_permission_spec, GroupRoleView,
    PermissionActionType, PermissionType,
};
use crate::store::{group_of, holds, store_place, Store, StoreView};
use crate::text;
use vstd::prelude::*;

verus! {

/// The roles against which a member of a group is checked: the roles of
/// the group with the built-in roles after them.
pub open spec fn roles_checked(s: StoreView, identifier: Seq<u8>) -> Seq<GroupRoleView> {
    (if holds(s, identifier) {
        group_of(s, identifier).roles + default_roles_view()
    } else {
        Seq::<GroupRoleView>::empty()
    }) + default_roles_view()
}

/// What the node that holds the members told of a member: the actor that
/// the member stands for, and the names of its roles; or why it told
/// nothing.
pub open spec fn member_view(member: Result<(Principal, Vec<String>), String>) -> Result<
    (Seq<u8>, Seq<Seq<char>>),
    Seq<char>,
> {
    match member {
        Ok(found) => Ok((found.0@, found.1.deep_view())),
        Err(words) => Err(words@),
    }
}

/// Why a caller may not do `action` to a group. A failure to learn the
/// roles of the member refuses; so does a member that stands for another
/// actor than the caller; so does a member none of whose roles grants the
/// action on groups.
pub open spec fn permission_refusal(
    s: StoreView,
    caller: Seq<u8>,
    identifier: Seq<u8>,
    member: Result<(Seq<u8>, Seq<Seq<char>>), Seq<char>>,
    action: PermissionActionType,
) -> Option<ApiErrorView> {
    match member {
        Err(words) => Some(
            error_of(
                ApiErrorType::Unauthorized,
                "NO_PERMISSION"@,
                words,
                store_place(s, "check_permission"@),
                None,
            ),
        ),
        Ok(found) => if caller != found.0 {
            Some(
                error_of(
                    ApiErrorType::Unauthorized,
                    "PRINCIPAL_MISMATCH"@,
                    "Principal mismatch"@,
                    store_place(s, "check_permission"@),
                    None,
                ),
            )
        } else if !has_permission_spec(
            found.1,
            PermissionType::Group.name_view(),
            roles_checked(s, identifier),
            action,
        ) {
            Some(
                error_of(
                    ApiErrorType::Unauthorized,
                    "NO_PERMISSION"@,
                    "No permission"@,
                    store_place(s, "check_permission"@),
                    Some(found.1),
                ),
            )
        } else {
            None
        },
    }
}

/// The caller owns the group that the node holds under the identifier.
pub open spec fn owns(s: StoreView, caller: Seq<u8>, identifier: Seq<u8>) -> bool {
    holds(s, identifier) && group_of(s, identifier).owner == caller
}

impl Store {
    /// Whether the caller, who acts as the member that `member_roles`
    /// tells of, may do `permission` to the group: see
    /// [`permission_refusal`].
    pub fn check_permission(
        &self,
        caller: &Principal,
        group_identifier: &Principal,
        member_roles: Result<(Principal, Vec<String>), String>,
        permission: PermissionActionType,
    ) -> (r: Result<Principal, ApiError>)
        requires
            self.wf(),
        ensures
            match r {
                Ok(allowed) => allowed@ == caller@ && permission_refusal(
                    self@,
                    caller@,
                    group_identifier@,
                    member_view(member_roles),
                    permission,
                ) is None,
                Err(e) => permission_refusal(
                    self@,
                    caller@,
                    group_identifier@,
                    member_view(member_roles),
                    permission,
                ) == Some(e@),
            },
    {
        match member_roles {
            Err(words) => Err(
                self.fail(
                    ApiErrorType::Unauthorized,
                    "NO_PERMISSION",
                    words.as_str(),
                    "check_permission",
                    None,
                ),
            ),
            Ok(found) => {
                let (principal, roles) = found;
                if !caller.same(&principal) {
                    return Err(
                        self.fail(
                            ApiErrorType::Unauthorized,
                            "PRINCIPAL_MISMATCH",
                            "Principal mismatch",
                            "check_permission",
                            None,
                        ),
                    );
                }
                let mut group_roles = self.get_group_roles(group_identifier);
                let ghost own = group_roles.deep_view();
                let mut built_in = default_roles();
                let ghost added = built_in.deep_view();
                group_roles.append(&mut built_in);
                assert(group_roles.deep_view() =~= own + added);
                if !has_permission(&roles, &PermissionType::Group, &group_roles, &permission) {
                    return Err(
                        self.fail(
                            ApiErrorType::Unauthorized,
                            "NO_PERMISSION",
                            "No permission",
                            "check_permission",
                            Some(roles),
                        ),
                    );
                }
                Ok(caller.clone())
            },
        }
    }

    /// Whether the caller may add to the group.
    pub fn can_write(
        &self,
        caller: &Principal,
        group_identifier: &Principal,
        member_roles: Result<(Principal, Vec<String>), String>,
    ) -> (r: Result<Principal, ApiError>)
        requires
            self.wf(),
        ensures
            match r {
                Ok(allowed) => allowed@ == caller@ && permission_refusal(
                    self@,
                    caller@,
                    group_identifier@,
                    member_view(member_roles),
                    PermissionActionType::Write,
                ) is None,
                Err(e) => permission_refusal(
                    self@,
                    caller@,
                    group_identifier@,
                    member_view(member_roles),
                    PermissionActionType::Write,
                ) == Some(e@),
            },
    {
        self.check_permission(caller, group_identifier, member_roles, PermissionActionType::Write)
    }

    /// Whether the caller may read the group.
    pub fn can_read(
        &self,
        caller: &Principal,
        group_identifier: &Principal,
        member_roles: Result<(Principal, Vec<String>), String>,
    ) -> (r: Result<Principal, ApiError>)
        requires
            self.wf(),
        ensures
            match r {
                Ok(allowed) => allowed@ == caller@ && permission_refusal(
                    self@,
                    caller@,
                    group_identifier@,
                    member_view(member_roles),
                    PermissionActionType::Read,
                ) is None,
                Err(e) => permission_refusal(
                    self@,
                    caller@,
                    group_identifier@,
                    member_view(member_roles),
                    PermissionActionType::Read,
                ) == Some(e@),
            },
    {
        self.check_permission(caller, group_identifier, member_roles, PermissionActionType::Read)
    }

    /// Whether the caller owns the group. The owner may edit its group
    /// whatever its roles are, so that nobody need be asked for them.
    pub fn is_owner(&self, caller: &Principal, group_identifier: &Principal) -> (r: bool)
        requires
            self.wf(),
        ensures
            r == owns(self@, caller@, group_identifier@),
    {
        match self.entries.position(group_identifier) {
            None => false,
            Some(at) => {
                assert(self@.groups[at as int] == self.entries.values()[at as int]@);
                self.entries.value_at(at).owner.same(caller)
            },
        }
    }

    /// Whether the caller may edit the group: its owner may, and so may a
    /// member with a role that grants it.
    pub fn can_edit(
        &self,
        caller: &Principal,
        group_identifier: &Principal,
        member_roles: Result<(Principal, Vec<String>), String>,
    ) -> (r: Result<Principal, ApiError>)
        requires
            self.wf(),
        ensures
            match r {
                Ok(allowed) => allowed@ == caller@ && (owns(self@, caller@, group_identifier@)
                    || permission_refusal(
                    self@,
                    caller@,
                    group_identifier@,
                    member_view(member_roles),
                    PermissionActionType::Edit,
                ) is None),
                Err(e) => !owns(self@, caller@, group_identifier@) && permission_refusal(
                    self@,
                    caller@,
                    group_identifier@,
                    member_view(member_roles),
                    PermissionActionType::Edit,
                ) == Some(e@),
            },
    {
        if self.is_owner(caller, group_identifier) {
            return Ok(caller.clone());
        }
        self.check_permission(caller, group_identifier, member_roles, PermissionActionType::Edit)
    }

    /// Whether the caller may delete the group.
    pub fn can_delete(
        &self,
        caller: &Principal,
        group_identifier: &Principal,
        member_roles: Result<(Principal, Vec<String>), String>,
    ) -> (r: Result<Principal, ApiError>)
        requires
            self.wf(),
        ensures
            match r {
                Ok(allowed) => allowed@ == caller@ && permission_refusal(
                    self@,
                    caller@,
                    group_identifier@,
                    member_view(member_roles),
                    PermissionActionType::Delete,
                ) is None,
                Err(e) => permission_refusal(
                    self@,
                    caller@,
                    group_identifier@,
                    member_view(member_roles),
                    PermissionActionType::Delete,
                ) == Some(e@),
            },
    {
        self.check_permission(caller, group_identifier, member_roles, PermissionActionType::Delete)
    }
}

/// What is to be found out next about an actor that wants to create a gated
/// group, or whether the actor is let in.
#[derive(Clone, Debug, PartialEq, Eq)]
pub enum EntryCheck {
    /// The balance of the actor in the token of this condition is needed.
    Balance(TokenGated),
    /// The stakes of the actor under the governance node of this condition
    /// are needed.
    Stakes(NeuronGated),
    /// Nothing more is needed: the actor is let in, or it is not.
    Decided(bool),
}

/// [`EntryCheck`] as contracts speak of it.
pub enum EntryCheckView {
    Balance(TokenGatedView),
    Stakes(NeuronGatedView),
    Decided(bool),
}

impl View for EntryCheck {
    type V = EntryCheckView;

    open spec fn view(&self) -> EntryCheckView {
        match self {
            EntryCheck::Balance(condition) => EntryCheckView::Balance(condition@),
            EntryCheck::Stakes(condition) => EntryCheckView::Stakes(condition@),
            EntryCheck::Decided(admitted) => EntryCheckView::Decided(*admitted),
        }
    }
}

/// What is to be found out next, after `tried` conditions of entry were
/// tried in their order and the last of them was met or not. A group that
/// is not gated lets everybody in. Meeting one condition is enough, so that
/// nothing is tried after a condition that was met; an actor that met none
/// of the conditions is not let in.
pub open spec fn next_check(privacy: PrivacyView, tried: nat, met: bool) -> EntryCheckView {
    match privacy {
        PrivacyView::Gated(conditions) => if tried > 0 && met {
            EntryCheckView::Decided(true)
        } else {
            match conditions {
                GatedTypeView::Token(tokens) => if tried < tokens.len() {
                    EntryCheckView::Balance(tokens[tried as int])
                } else {
                    EntryCheckView::Decided(false)
                },
                GatedTypeView::Neuron(stakes) => if tried < stakes.len() {
                    EntryCheckView::Stakes(stakes[tried as int])
                } else {
                    EntryCheckView::Decided(false)
                },
            }
        },
        _ => EntryCheckView::Decided(true),
    }
}

/// What is to be found out next about the creator of a group: see
/// [`next_check`].
pub fn entry_check(privacy: &Privacy, tried: usize, met: bool) -> (r: EntryCheck)
    ensures
        r@ == next_check(privacy@, tried as nat, met),
{
    match privacy {
        Privacy::Gated(conditions) => {
            if tried > 0 && met {
                return EntryCheck::Decided(true);
            }
            match conditions {
                GatedType::Token(tokens) => {
                    if tried < tokens.len() {
                        assert(tokens.deep_view()[tried as int] == tokens@[tried as int]@);
                        EntryCheck::Balance(tokens[tried].duplicate())
                    } else {
                        EntryCheck::Decided(false)
                    }
                },
                GatedType::Neuron(stakes) => {
                    if tried < stakes.len() {
                        assert(stakes.deep_view()[tried as int] == stakes@[tried as int]@);
                        EntryCheck::Stakes(stakes[tried].duplicate())
                    } else {
                        EntryCheck::Decided(false)
                    }
                },
            }
        },
        _ => EntryCheck::Decided(true),
    }
}

/// The ways in which a token tells how many of it an actor holds.
#[derive(Clone, Copy, Debug, PartialEq, Eq, Structural)]
pub enum TokenStandard {
    /// Asked by the account of the holder.
    Ext,
    Dip20,
    Dip721,
    Dip721Legacy,
}

/// The way that a text names, if it names one.
pub open spec fn standard_named(name: Seq<char>) -> Option<TokenStandard> {
    if name == "EXT"@ {
        Some(TokenStandard::Ext)
    } else if name == "DIP20"@ {
        Some(TokenStandard::Dip20)
    } else if name == "DIP721"@ {
        Some(TokenStandard::Dip721)
    } else if name == "DIP721_LEGACY"@ {
        Some(TokenStandard::Dip721Legacy)
    } else {
        None
    }
}

/// Whether a balance of a token lets its holder in: the token tells its
/// balances in a known way, the holder has an account where the token is
/// asked by account, and the balance is at least the amount asked for.
pub open spec fn token_admits(condition: TokenGatedView, has_account: bool, balance: u32) -> bool {
    match standard_named(condition.standard) {
        Some(TokenStandard::Ext) => has_account && balance >= condition.amount,
        Some(_) => balance >= condition.amount,
        None => false,
    }
}

/// The way in which the token of a condition tells its balances, if it is
/// one that is known.
pub fn token_standard(nft_canister: &TokenGated) -> (r: Option<TokenStandard>)
    ensures
        r == standard_named(nft_canister@.standard),
{
    let name = nft_canister.standard.as_str();
    if text::eq(name, "EXT") {
        Some(TokenStandard::Ext)
    } else if text::eq(name, "DIP20") {
        Some(TokenStandard::Dip20)
    } else if text::eq(name, "DIP721") {
        Some(TokenStandard::Dip721)
    } else if text::eq(name, "DIP721_LEGACY") {
        Some(TokenStandard::Dip721Legacy)
    } else {
        None
    }
}

/// Whether a stake is locked or on its way out.
#[derive(Clone, Copy, Debug, PartialEq, Eq, Structural)]
pub enum DissolveState {
    /// Locked; the time it would take to get out, in seconds.
    DissolveDelaySeconds(u64),
    /// On its way out; the time at which it is out.
    WhenDissolvedTimestampSeconds(u64),
}

/// What the rules of a gated group read of a stake.
#[derive(Clone, Debug, PartialEq, Eq)]
pub struct Neuron {
    pub id: Vec<u8>,
    pub dissolve_state: Option<DissolveState>,
    pub created_timestamp_seconds: u64,
    pub cached_neuron_stake_e8s: u64,
}

/// [`Neuron`] as contracts speak of it.
pub struct NeuronView {
    pub id: Seq<u8>,
    pub dissolve_state: Option<DissolveState>,
    pub created_timestamp_seconds: u64,
    pub cached_neuron_stake_e8s: u64,
}

impl View for Neuron {
    type V = NeuronView;

    open spec fn view(&self) -> NeuronView {
        NeuronView {
            id: self.id@,
            dissolve_state: self.dissolve_state,
            created_timestamp_seconds: self.created_timestamp_seconds,
            cached_neuron_stake_e8s: self.cached_neuron_stake_e8s,
        }
    }
}

impl DeepView for Neuron {
    type V = NeuronView;

    open spec fn deep_view(&self) -> NeuronView {
        self@
    }
}

/// The number of whole tokens that hold an amount given in hundred
/// millionths of a token.
pub open spec fn whole_tokens(e8s: u64) -> int {
    if e8s % 100_000_000 == 0 {
        (e8s / 100_000_000) as int
    } else {
        e8s / 100_000_000 + 1
    }
}

/// Whether a stake meets a rule.
pub open spec fn meets(neuron: NeuronView, rule: NeuronGatedRules) -> bool {
    match rule {
        NeuronGatedRules::IsDisolving(_) => neuron.dissolve_state matches Some(
            DissolveState::WhenDissolvedTimestampSeconds(_),
        ),
        NeuronGatedRules::MinAge(min) => neuron.created_timestamp_seconds >= min,
        NeuronGatedRules::MinStake(min) => whole_tokens(neuron.cached_neuron_stake_e8s)
            >= whole_tokens(min),
        NeuronGatedRules::MinDissolveDelay(min) => neuron.dissolve_state matches Some(
            DissolveState::DissolveDelaySeconds(delay),
        ) && delay >= min,
    }
}

/// Whether a stake meets every rule.
pub open spec fn meets_all(neuron: NeuronView, rules: Seq<NeuronGatedRules>) -> bool {
    forall|k: int| 0 <= k < rules.len() ==> meets(neuron, #[trigger] rules[k])
}

/// Whether the stakes of an actor let it in: some stake meets every rule.
/// Of stakes with one identifier the last one counts.
pub open spec fn stakes_admit(neurons: Seq<NeuronView>, rules: Seq<NeuronGatedRules>) -> bool {
    exists|i: int| 0 <= i < neurons.len() && #[trigger] stake_admits(neurons, rules, i)
}

/// No later stake of the list has the identifier of the stake at `i`.
pub open spec fn is_last_of_its_id(neurons: Seq<NeuronView>, i: int) -> bool {
    forall|j: int| i < j < neurons.len() ==> (#[trigger] neurons[j]).id != neurons[i].id
}

/// The stake at `i` counts and meets every rule.
pub open spec fn stake_admits(
    neurons: Seq<NeuronView>,
    rules: Seq<NeuronGatedRules>,
    i: int,
) -> bool {
    meets_all(neurons[i], rules) && is_last_of_its_id(neurons, i)
}

/// The number of whole tokens that hold an amount.
pub fn whole(e8s: u64) -> (r: u64)
    ensures
        r == whole_tokens(e8s),
{
    if e8s % 100_000_000 == 0 {
        e8s / 100_000_000
    } else {
        e8s / 100_000_000 + 1
    }
}

impl Neuron {
    /// Whether the stake meets the rule.
    pub fn meets(&self, rule: NeuronGatedRules) -> (r: bool)
        ensures
            r == meets(self@, rule),
    {
        match rule {
            NeuronGatedRules::IsDisolving(_) => match self.dissolve_state {
                Some(DissolveState::WhenDissolvedTimestampSeconds(_)) => true,
                _ => false,
            },
            NeuronGatedRules::MinAge(min) => self.created_timestamp_seconds >= min,
            NeuronGatedRules::MinStake(min) => whole(self.cached_neuron_stake_e8s) >= whole(min),
            NeuronGatedRules::MinDissolveDelay(min) => match self.dissolve_state {
                Some(DissolveState::DissolveDelaySeconds(delay)) => delay >= min,
                _ => false,
            },
        }
    }

    /// Whether the stake meets every rule.
    pub fn meets_all(&self, rules: &Vec<NeuronGatedRules>) -> (r: bool)
        ensures
            r == meets_all(self@, rules@),
    {
        let mut k: usize = 0;
        while k < rules.len()
            invariant
                k <= rules@.len(),
                forall|n: int| 0 <= n < k ==> meets(self@, #[trigger] rules@[n]),
            decreases rules@.len() - k,
        {
            if !self.meets(rules[k]) {
                return false;
            }
            k += 1;
        }
        true
    }
}

/// Whether two byte strings hold the same bytes.
pub fn same_bytes(a: &Vec<u8>, b: &Vec<u8>) -> (r: bool)
    ensures
        r == (a@ == b@),
{
    if a.len() != b.len() {
        return false;
    }
    let mut i: usize = 0;
    while i < a.len()
        invariant
            i <= a@.len(),
            a@.len() == b@.len(),
            forall|k: int| 0 <= k < i ==> a@[k] == b@[k],
        decreases a@.len() - i,
    {
        if a[i] != b[i] {
            return false;
        }
        i += 1;
    }
    assert(a@ =~= b@);
    true
}

/// Whether some stake of the list counts and meets every rule: see
/// [`stakes_admit`].
pub fn stakes_let_in(listed: &Vec<Neuron>, rules: &Vec<NeuronGatedRules>) -> (r: bool)
    ensures
        r == stakes_admit(listed.deep_view(), rules@),
{
    let ghost all = listed.deep_view();
    let mut i: usize = 0;
    while i < listed.len()
        invariant
            i <= listed@.len(),
            all == listed.deep_view(),
            forall|n: int| 0 <= n < i ==> !#[trigger] stake_admits(all, rules@, n),
        decreases listed@.len() - i,
    {
        assert(all[i as int] == listed@[i as int]@);
        if listed[i].meets_all(rules) {
            let mut j: usize = i + 1;
            let mut last = true;
            while j < listed.len()
                invariant
                    i < j <= listed@.len(),
                    all == listed.deep_view(),
                    last == (forall|m: int|
                        i < m < j ==> (#[trigger] all[m]).id != all[i as int].id),
                decreases listed@.len() - j,
            {
                assert(all[j as int] == listed@[j as int]@);
                if same_bytes(&listed[j].id, &listed[i].id) {
                    last = false;
                }
                j += 1;
            }
            if last {
                assert(stake_admits(all, rules@, i as int));
                return true;
            }
            assert(!is_last_of_its_id(all, i as int));
        }
        i += 1;
    }
    false
}

impl Store {
    /// Whether an actor with the balance `balance` of the token meets the
    /// condition: see [`token_admits`].
    pub fn validate_nft_gated(
        account_identifier: &Option<String>,
        nft_canister: &TokenGated,
        balance: u32,
    ) -> (r: bool)
        ensures
            r == token_admits(nft_canister@, account_identifier is Some, balance),
    {
        match token_standard(nft_canister) {
            Some(TokenStandard::Ext) => account_identifier.is_some() && balance as u64
                >= nft_canister.amount,
            Some(_) => balance as u64 >= nft_canister.amount,
            None => false,
        }
    }

    /// Whether the stakes that the governance node listed for an actor let it
    /// in: see [`stakes_admit`]. A failure to list them lets nobody in.
    pub fn validate_neuron_gated(
        neurons: &Result<Vec<Neuron>, String>,
        rules: &Vec<NeuronGatedRules>,
    ) -> (r: bool)
        ensures
            r == match neurons {
                Ok(listed) => stakes_admit(listed.deep_view(), rules@),
                Err(_) => false,
            },
    {
        match neurons {
            Err(_) => false,
            Ok(listed) => stakes_let_in(listed, rules),
        }
    }
}

} // verus!
