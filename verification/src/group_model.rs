use crate::principal::Principal;
use crate::principal_map::PrincipalMap;
use crate::roles::{duplicate_roles, GroupRole, GroupRoleView};
use ic_scalable_misc::enums::asset_type::Asset;
use ic_scalable_misc::enums::location_type::Location;
use vstd::prelude::*;

verus! {

/// Where a group is: a value of `ic_scalable_misc` that the library carries
/// and never looks into.
#[verifier::external_type_specification]
#[verifier::external_body]
pub struct ExLocation(Location);

/// An image of a group: a value of `ic_scalable_misc` that the library
/// carries and never looks into.
#[verifier::external_type_specification]
#[verifier::external_body]
pub struct ExAsset(Asset);

/// `Clone::clone` of `Location`, derived there: the copy is the same value.
pub assume_specification[ <Location as Clone>::clone ](location: &Location) -> (r: Location)
    ensures
        r == *location,
;

/// `Clone::clone` of `Asset`, derived there: the copy is the same value.
pub assume_specification[ <Asset as Clone>::clone ](asset: &Asset) -> (r: Asset)
    ensures
        r == *asset,
;

/// `Default::default` of `Location`. Nothing is claimed of the value.
pub assume_specification[ <Location as Default>::default ]() -> (r: Location)
;

/// `Default::default` of `Asset`. Nothing is claimed of the value.
pub assume_specification[ <Asset as Default>::default ]() -> (r: Asset)
;

/// Ascending or descending.
#[derive(Clone, Copy, Debug, PartialEq, Eq, Structural)]
pub enum SortDirection {
    Asc,
    Desc,
}

/// How the filters of a query combine: all must pass, or any.
#[derive(Clone, Copy, Debug, PartialEq, Eq, Structural)]
pub enum FilterType {
    And,
    Or,
}

/// A range of dates, both ends included. An end of zero leaves the range
/// open.
#[derive(Clone, Copy, Debug, PartialEq, Eq, Structural)]
pub struct DateRange {
    pub start_date: u64,
    pub end_date: u64,
}

/// The attribute by which a list of groups is ordered, and the direction.
#[derive(Clone, Copy, Debug, PartialEq, Eq, Structural)]
pub enum GroupSort {
    Name(SortDirection),
    MemberCount(SortDirection),
    CreatedOn(SortDirection),
    UpdatedOn(SortDirection),
}

/// One predicate of a query over groups.
#[derive(Debug, PartialEq, Eq)]
pub enum GroupFilter {
    Name(String),
    Owner(Principal),
    MemberCount((usize, usize)),
    Identifiers(Vec<Principal>),
    Tag(u32),
    UpdatedOn(DateRange),
    CreatedOn(DateRange),
}

/// [`GroupFilter`] as contracts speak of it.
pub enum GroupFilterView {
    Name(Seq<char>),
    Owner(Seq<u8>),
    MemberCount((usize, usize)),
    Identifiers(Seq<Seq<u8>>),
    Tag(u32),
    UpdatedOn(DateRange),
    CreatedOn(DateRange),
}

/// The identifiers that a list of principals names.
pub open spec fn principals_view(principals: Seq<Principal>) -> Seq<Seq<u8>> {
    principals.map_values(|p: Principal| p@)
}

impl View for GroupFilter {
    type V = GroupFilterView;

    open spec fn view(&self) -> GroupFilterView {
        match self {
            GroupFilter::Name(value) => GroupFilterView::Name(value@),
            GroupFilter::Owner(value) => GroupFilterView::Owner(value@),
            GroupFilter::MemberCount(value) => GroupFilterView::MemberCount(*value),
            GroupFilter::Identifiers(value) => GroupFilterView::Identifiers(
                principals_view(value@),
            ),
            GroupFilter::Tag(value) => GroupFilterView::Tag(*value),
            GroupFilter::UpdatedOn(value) => GroupFilterView::UpdatedOn(*value),
            GroupFilter::CreatedOn(value) => GroupFilterView::CreatedOn(*value),
        }
    }
}

impl DeepView for GroupFilter {
    type V = GroupFilterView;

    open spec fn deep_view(&self) -> GroupFilterView {
        self@
    }
}

/// A copy of a list of principals.
pub fn duplicate_principals(principals: &Vec<Principal>) -> (r: Vec<Principal>)
    ensures
        principals_view(r@) == principals_view(principals@),
{
    let mut copy: Vec<Principal> = Vec::new();
    let mut i: usize = 0;
    while i < principals.len()
        invariant
            i <= principals@.len(),
            copy@.len() == i,
            forall|k: int| 0 <= k < i ==> copy@[k]@ == principals@[k]@,
        decreases principals@.len() - i,
    {
        copy.push(principals[i].clone());
        i += 1;
    }
    assert(principals_view(copy@) =~= principals_view(principals@));
    copy
}

impl Clone for GroupFilter {
    fn clone(&self) -> (r: GroupFilter)
        ensures
            r@ == self@,
    {
        match self {
            GroupFilter::Name(value) => GroupFilter::Name(value.clone()),
            GroupFilter::Owner(value) => GroupFilter::Owner(value.clone()),
            GroupFilter::MemberCount(value) => GroupFilter::MemberCount((value.0, value.1)),
            GroupFilter::Identifiers(value) => GroupFilter::Identifiers(
                duplicate_principals(value),
            ),
            GroupFilter::Tag(value) => GroupFilter::Tag(*value),
            GroupFilter::UpdatedOn(value) => GroupFilter::UpdatedOn(*value),
            GroupFilter::CreatedOn(value) => GroupFilter::CreatedOn(*value),
        }
    }
}

/// A rule that a stake must meet for its holder to be let in.
#[derive(Clone, Copy, Debug, PartialEq, Eq, Structural)]
pub enum NeuronGatedRules {
    MinAge(u64),
    MinStake(u64),
    MinDissolveDelay(u64),
    IsDisolving(bool),
}

/// A condition of entry that asks for a stake under a governance node.
#[derive(Clone, Debug, PartialEq, Eq)]
pub struct NeuronGated {
    pub name: String,
    pub description: String,
    pub governance_canister: Principal,
    pub ledger_canister: Principal,
    pub rules: Vec<NeuronGatedRules>,
}

/// A condition of entry that asks for a balance of some token.
#[derive(Clone, Debug, PartialEq, Eq)]
pub struct TokenGated {
    pub name: String,
    pub description: String,
    pub standard: String,
    pub principal: Principal,
    pub amount: u64,
}

/// The conditions of entry of a gated group. Meeting one of them is enough.
#[derive(Clone, Debug, PartialEq, Eq)]
pub enum GatedType {
    Token(Vec<TokenGated>),
    Neuron(Vec<NeuronGated>),
}

/// Who may see and join a group.
#[derive(Clone, Debug, PartialEq, Eq)]
pub enum Privacy {
    Public,
    Private,
    InviteOnly,
    Gated(GatedType),
}

/// [`NeuronGated`] as contracts speak of it.
pub struct NeuronGatedView {
    pub name: Seq<char>,
    pub description: Seq<char>,
    pub governance_canister: Seq<u8>,
    pub ledger_canister: Seq<u8>,
    pub rules: Seq<NeuronGatedRules>,
}

/// [`TokenGated`] as contracts speak of it.
pub struct TokenGatedView {
    pub name: Seq<char>,
    pub description: Seq<char>,
    pub standard: Seq<char>,
    pub principal: Seq<u8>,
    pub amount: u64,
}

/// [`GatedType`] as contracts speak of it.
pub enum GatedTypeView {
    Token(Seq<TokenGatedView>),
    Neuron(Seq<NeuronGatedView>),
}

/// [`Privacy`] as contracts speak of it.
pub enum PrivacyView {
    Public,
    Private,
    InviteOnly,
    Gated(GatedTypeView),
}

impl View for NeuronGated {
    type V = NeuronGatedView;

    open spec fn view(&self) -> NeuronGatedView {
        NeuronGatedView {
            name: self.name@,
            description: self.description@,
            governance_canister: self.governance_canister@,
            ledger_canister: self.ledger_canister@,
            rules: self.rules@,
        }
    }
}

impl DeepView for NeuronGated {
    type V = NeuronGatedView;

    open spec fn deep_view(&self) -> NeuronGatedView {
        self@
    }
}

impl View for TokenGated {
    type V = TokenGatedView;

    open spec fn view(&self) -> TokenGatedView {
        TokenGatedView {
            name: self.name@,
            description: self.description@,
            standard: self.standard@,
            principal: self.principal@,
            amount: self.amount,
        }
    }
}

impl DeepView for TokenGated {
    type V = TokenGatedView;

    open spec fn deep_view(&self) -> TokenGatedView {
        self@
    }
}

impl View for GatedType {
    type V = GatedTypeView;

    open spec fn view(&self) -> GatedTypeView {
        match self {
            GatedType::Token(gates) => GatedTypeView::Token(gates.deep_view()),
            GatedType::Neuron(gates) => GatedTypeView::Neuron(gates.deep_view()),
        }
    }
}

impl View for Privacy {
    type V = PrivacyView;

    open spec fn view(&self) -> PrivacyView {
        match self {
            Privacy::Public => PrivacyView::Public,
            Privacy::Private => PrivacyView::Private,
            Privacy::InviteOnly => PrivacyView::InviteOnly,
            Privacy::Gated(gates) => PrivacyView::Gated(gates@),
        }
    }
}

impl NeuronGated {
    /// A copy of the condition.
    pub fn duplicate(&self) -> (r: NeuronGated)
        ensures
            r@ == self@,
    {
        NeuronGated {
            name: self.name.clone(),
            description: self.description.clone(),
            governance_canister: self.governance_canister.clone(),
            ledger_canister: self.ledger_canister.clone(),
            rules: self.rules.clone(),
        }
    }
}

impl TokenGated {
    /// A copy of the condition.
    pub fn duplicate(&self) -> (r: TokenGated)
        ensures
            r@ == self@,
    {
        TokenGated {
            name: self.name.clone(),
            description: self.description.clone(),
            standard: self.standard.clone(),
            principal: self.principal.clone(),
            amount: self.amount,
        }
    }
}

impl GatedType {
    /// A copy of the conditions.
    pub fn duplicate(&self) -> (r: GatedType)
        ensures
            r@ == self@,
    {
        match self {
            GatedType::Token(gates) => {
                let mut copy: Vec<TokenGated> = Vec::new();
                let mut i: usize = 0;
                while i < gates.len()
                    invariant
                        i <= gates@.len(),
                        copy@.len() == i,
                        forall|k: int| 0 <= k < i ==> copy@[k]@ == gates@[k]@,
                    decreases gates@.len() - i,
                {
                    copy.push(gates[i].duplicate());
                    i += 1;
                }
                assert(copy.deep_view() =~= gates.deep_view());
                GatedType::Token(copy)
            },
            GatedType::Neuron(gates) => {
                let mut copy: Vec<NeuronGated> = Vec::new();
                let mut i: usize = 0;
                while i < gates.len()
                    invariant
                        i <= gates@.len(),
                        copy@.len() == i,
                        forall|k: int| 0 <= k < i ==> copy@[k]@ == gates@[k]@,
                    decreases gates@.len() - i,
                {
                    copy.push(gates[i].duplicate());
                    i += 1;
                }
                assert(copy.deep_view() =~= gates.deep_view());
                GatedType::Neuron(copy)
            },
        }
    }
}

impl Privacy {
    /// A copy of the setting.
    pub fn duplicate(&self) -> (r: Privacy)
        ensures
            r@ == self@,
    {
        match self {
            Privacy::Public => Privacy::Public,
            Privacy::Private => Privacy::Private,
            Privacy::InviteOnly => Privacy::InviteOnly,
            Privacy::Gated(gates) => Privacy::Gated(gates.duplicate()),
        }
    }

    /// Whether the group is open to invited actors only.
    pub fn is_invite_only(&self) -> (r: bool)
        ensures
            r == (self@ == PrivacyView::InviteOnly),
    {
        match self {
            Privacy::InviteOnly => true,
            _ => false,
        }
    }
}

/// A group as a node stores it.
#[derive(Clone, Debug)]
pub struct Group {
    pub name: String,
    pub description: String,
    pub website: String,
    pub location: Location,
    pub privacy: Privacy,
    pub owner: Principal,
    pub created_by: Principal,
    pub matrix_space_id: String,
    pub image: Asset,
    pub banner_image: Asset,
    pub tags: Vec<u32>,
    pub privacy_gated_type_amount: Option<u64>,
    pub roles: Vec<GroupRole>,
    pub is_deleted: bool,
    /// Members counted by each node that holds members of the group.
    pub member_count: PrincipalMap<usize>,
    /// The wallets of the group, each with a description.
    pub wallets: PrincipalMap<String>,
    pub updated_on: u64,
    pub created_on: u64,
}

/// What a caller hands in to create a group.
#[derive(Clone, Debug)]
pub struct PostGroup {
    pub name: String,
    pub description: String,
    pub website: String,
    pub matrix_space_id: String,
    pub location: Location,
    pub privacy: Privacy,
    pub privacy_gated_type_amount: Option<u64>,
    pub image: Asset,
    pub banner_image: Asset,
    pub tags: Vec<u32>,
}

/// What a caller hands in to change a group.
#[derive(Clone, Debug)]
pub struct UpdateGroup {
    pub name: String,
    pub description: String,
    pub website: String,
    pub location: Location,
    pub privacy: Privacy,
    pub image: Asset,
    pub banner_image: Asset,
    pub tags: Vec<u32>,
}

/// A group as callers see it: with its identifier, the built-in roles after
/// its own, and its members counted over all nodes.
#[derive(Clone, Debug)]
pub struct GroupResponse {
    pub identifier: Principal,
    pub name: String,
    pub description: String,
    pub website: String,
    pub location: Location,
    pub privacy: Privacy,
    pub created_by: Principal,
    pub owner: Principal,
    pub matrix_space_id: String,
    pub image: Asset,
    pub banner_image: Asset,
    pub tags: Vec<u32>,
    pub roles: Vec<GroupRole>,
    pub member_count: usize,
    pub wallets: Vec<(Principal, String)>,
    pub is_deleted: bool,
    pub updated_on: u64,
    pub created_on: u64,
}

/// [`Group`] as contracts speak of it.
pub struct GroupView {
    pub name: Seq<char>,
    pub description: Seq<char>,
    pub website: Seq<char>,
    pub location: Location,
    pub privacy: PrivacyView,
    pub owner: Seq<u8>,
    pub created_by: Seq<u8>,
    pub matrix_space_id: Seq<char>,
    pub image: Asset,
    pub banner_image: Asset,
    pub tags: Seq<u32>,
    pub privacy_gated_type_amount: Option<u64>,
    pub roles: Seq<GroupRoleView>,
    pub is_deleted: bool,
    pub member_count: Seq<(Seq<u8>, usize)>,
    pub wallets: Seq<(Seq<u8>, Seq<char>)>,
    pub updated_on: u64,
    pub created_on: u64,
}

/// [`PostGroup`] as contracts speak of it.
pub struct PostGroupView {
    pub name: Seq<char>,
    pub description: Seq<char>,
    pub website: Seq<char>,
    pub matrix_space_id: Seq<char>,
    pub location: Location,
    pub privacy: PrivacyView,
    pub privacy_gated_type_amount: Option<u64>,
    pub image: Asset,
    pub banner_image: Asset,
    pub tags: Seq<u32>,
}

/// [`UpdateGroup`] as contracts speak of it.
pub struct UpdateGroupView {
    pub name: Seq<char>,
    pub description: Seq<char>,
    pub website: Seq<char>,
    pub location: Location,
    pub privacy: PrivacyView,
    pub image: Asset,
    pub banner_image: Asset,
    pub tags: Seq<u32>,
}

/// [`GroupResponse`] as contracts speak of it.
pub struct GroupResponseView {
    pub identifier: Seq<u8>,
    pub name: Seq<char>,
    pub description: Seq<char>,
    pub website: Seq<char>,
    pub location: Location,
    pub privacy: PrivacyView,
    pub created_by: Seq<u8>,
    pub owner: Seq<u8>,
    pub matrix_space_id: Seq<char>,
    pub image: Asset,
    pub banner_image: Asset,
    pub tags: Seq<u32>,
    pub roles: Seq<GroupRoleView>,
    pub member_count: usize,
    pub wallets: Seq<(Seq<u8>, Seq<char>)>,
    pub is_deleted: bool,
    pub updated_on: u64,
    pub created_on: u64,
}

/// Keys and values side by side.
pub open spec fn paired<A, B>(keys: Seq<A>, values: Seq<B>) -> Seq<(A, B)> {
    Seq::new(keys.len(), |i: int| (keys[i], values[i]))
}

impl View for Group {
    type V = GroupView;

    open spec fn view(&self) -> GroupView {
        GroupView {
            name: self.name@,
            description: self.description@,
            website: self.website@,
            location: self.location,
            privacy: self.privacy@,
            owner: self.owner@,
            created_by: self.created_by@,
            matrix_space_id: self.matrix_space_id@,
            image: self.image,
            banner_image: self.banner_image,
            tags: self.tags@,
            privacy_gated_type_amount: self.privacy_gated_type_amount,
            roles: self.roles.deep_view(),
            is_deleted: self.is_deleted,
            member_count: paired(self.member_count.keys(), self.member_count.values()),
            wallets: paired(self.wallets.keys(), self.wallets.texts()),
            updated_on: self.updated_on,
            created_on: self.created_on,
        }
    }
}

impl View for PostGroup {
    type V = PostGroupView;

    open spec fn view(&self) -> PostGroupView {
        PostGroupView {
            name: self.name@,
            description: self.description@,
            website: self.website@,
            matrix_space_id: self.matrix_space_id@,
            location: self.location,
            privacy: self.privacy@,
            privacy_gated_type_amount: self.privacy_gated_type_amount,
            image: self.image,
            banner_image: self.banner_image,
            tags: self.tags@,
        }
    }
}

impl View for UpdateGroup {
    type V = UpdateGroupView;

    open spec fn view(&self) -> UpdateGroupView {
        UpdateGroupView {
            name: self.name@,
            description: self.description@,
            website: self.website@,
            location: self.location,
            privacy: self.privacy@,
            image: self.image,
            banner_image: self.banner_image,
            tags: self.tags@,
        }
    }
}

/// The views of wallets listed with their descriptions.
pub open spec fn wallets_view(wallets: Seq<(Principal, String)>) -> Seq<(Seq<u8>, Seq<char>)> {
    wallets.map_values(|w: (Principal, String)| (w.0@, w.1@))
}

impl View for GroupResponse {
    type V = GroupResponseView;

    open spec fn view(&self) -> GroupResponseView {
        GroupResponseView {
            identifier: self.identifier@,
            name: self.name@,
            description: self.description@,
            website: self.website@,
            location: self.location,
            privacy: self.privacy@,
            created_by: self.created_by@,
            owner: self.owner@,
            matrix_space_id: self.matrix_space_id@,
            image: self.image,
            banner_image: self.banner_image,
            tags: self.tags@,
            roles: self.roles.deep_view(),
            member_count: self.member_count,
            wallets: wallets_view(self.wallets@),
            is_deleted: self.is_deleted,
            updated_on: self.updated_on,
            created_on: self.created_on,
        }
    }
}

impl DeepView for GroupResponse {
    type V = GroupResponseView;

    open spec fn deep_view(&self) -> GroupResponseView {
        self@
    }
}

impl Default for Group {
    /// A public group without a name, owned by the anonymous actor.
    fn default() -> (r: Group)
        ensures
            r.wf(),
            r@.name.len() == 0,
            r@.description.len() == 0,
            r@.website.len() == 0,
            r@.matrix_space_id.len() == 0,
            r@.privacy == PrivacyView::Public,
            r@.owner == seq![4u8],
            r@.created_by == seq![4u8],
            r@.tags.len() == 0,
            r@.privacy_gated_type_amount is None,
            r@.roles.len() == 0,
            !r@.is_deleted,
            r@.member_count.len() == 0,
            r@.wallets.len() == 0,
            r@.updated_on == 0,
            r@.created_on == 0,
    {
        Group {
            name: String::new(),
            description: String::new(),
            website: String::new(),
            location: Location::default(),
            privacy: Privacy::Public,
            owner: Principal::anonymous(),
            created_by: Principal::anonymous(),
            matrix_space_id: String::new(),
            image: Asset::default(),
            banner_image: Asset::default(),
            tags: Vec::new(),
            privacy_gated_type_amount: None,
            roles: Vec::new(),
            is_deleted: false,
            member_count: PrincipalMap::new(),
            wallets: PrincipalMap::new(),
            updated_on: 0,
            created_on: 0,
        }
    }
}

impl Group {
    /// Validity: each of the two tables holds no key twice.
    pub open spec fn wf(&self) -> bool {
        &&& self.member_count.wf()
        &&& self.wallets.wf()
    }

    /// A copy of the group.
    pub fn duplicate(&self) -> (r: Group)
        requires
            self.wf(),
        ensures
            r.wf(),
            r@ == self@,
    {
        Group {
            name: self.name.clone(),
            description: self.description.clone(),
            website: self.website.clone(),
            location: self.location.clone(),
            privacy: self.privacy.duplicate(),
            owner: self.owner.clone(),
            created_by: self.created_by.clone(),
            matrix_space_id: self.matrix_space_id.clone(),
            image: self.image.clone(),
            banner_image: self.banner_image.clone(),
            tags: self.tags.clone(),
            privacy_gated_type_amount: self.privacy_gated_type_amount,
            roles: duplicate_roles(&self.roles),
            is_deleted: self.is_deleted,
            member_count: self.member_count.duplicate(),
            wallets: self.wallets.duplicate(),
            updated_on: self.updated_on,
            created_on: self.created_on,
        }
    }
}

/// A copy of a list of wallets.
pub fn duplicate_wallets(wallets: &Vec<(Principal, String)>) -> (r: Vec<(Principal, String)>)
    ensures
        wallets_view(r@) == wallets_view(wallets@),
{
    let mut copy: Vec<(Principal, String)> = Vec::new();
    let mut i: usize = 0;
    while i < wallets.len()
        invariant
            i <= wallets@.len(),
            copy@.len() == i,
            forall|k: int|
                0 <= k < i ==> copy@[k].0@ == wallets@[k].0@ && copy@[k].1@ == wallets@[k].1@,
        decreases wallets@.len() - i,
    {
        copy.push((wallets[i].0.clone(), wallets[i].1.clone()));
        i += 1;
    }
    assert(wallets_view(copy@) =~= wallets_view(wallets@));
    copy
}

impl GroupResponse {
    /// A copy of the response.
    pub fn duplicate(&self) -> (r: GroupResponse)
        ensures
            r@ == self@,
    {
        GroupResponse {
            identifier: self.identifier.clone(),
            name: self.name.clone(),
            description: self.description.clone(),
            website: self.website.clone(),
            location: self.location.clone(),
            privacy: self.privacy.duplicate(),
            created_by: self.created_by.clone(),
            owner: self.owner.clone(),
            matrix_space_id: self.matrix_space_id.clone(),
            image: self.image.clone(),
            banner_image: self.banner_image.clone(),
            tags: self.tags.clone(),
            roles: duplicate_roles(&self.roles),
            member_count: self.member_count,
            wallets: duplicate_wallets(&self.wallets),
            is_deleted: self.is_deleted,
            updated_on: self.updated_on,
            created_on: self.created_on,
        }
    }
}

} // verus!
