use crate::error::{error_of, ApiError, ApiErrorType, ApiErrorView};
use crate::group_model::{
    GatedTypeView, Group, GroupResponse, GroupView, PostGroup, PostGroupView, Privacy, PrivacyView,
};
use crate::principal::Principal;
use crate::principal_map::PrincipalMap;
use crate::roles::GroupRoleView;
use crate::store::{
    add_refusal, entry_not_found, group_of, holds, next_identifier, response_of, state_after_add,
    store_place, with_group, with_table, Store, StoreView,
};
use crate::validation::{group_faults, validate_post_group, validation_result};
use vstd::prelude::*;

verus! {

/// What comes of the offer of a new group to a node.
#[derive(Debug)]
pub enum AddStep {
    /// The group was not taken.
    Refused(ApiError),
    /// The node is full and has closed. The group is to be handed to the
    /// directory, which brings up the node that follows; the caller gets
    /// the error whatever comes of that.
    AtCapacity { error: ApiError, last_entry_id: u64, group: Group },
    /// The group is stored. Its owner is to be entered with the node that
    /// holds the members.
    Stored { identifier: Principal, owner: Principal, member_canister: Principal },
}

/// [`AddStep`] as contracts speak of it.
pub enum AddStepView {
    Refused(ApiErrorView),
    AtCapacity { error: ApiErrorView, last_entry_id: u64, group: GroupView },
    Stored { identifier: Seq<u8>, owner: Seq<u8>, member_canister: Seq<u8> },
}

impl View for AddStep {
    type V = AddStepView;

    open spec fn view(&self) -> AddStepView {
        match self {
            AddStep::Refused(e) => AddStepView::Refused(e@),
            AddStep::AtCapacity { error, last_entry_id, group } => AddStepView::AtCapacity {
                error: error@,
                last_entry_id: *last_entry_id,
                group: group@,
            },
            AddStep::Stored { identifier, owner, member_canister } => AddStepView::Stored {
                identifier: identifier@,
                owner: owner@,
                member_canister: member_canister@,
            },
        }
    }
}

/// The error for a caller that meets none of the conditions of entry of a
/// gated group.
pub open spec fn privacy_refusal(s: StoreView, privacy: PrivacyView, admitted: bool) -> Option<
    ApiErrorView,
> {
    match privacy {
        PrivacyView::Gated(GatedTypeView::Neuron(_)) if !admitted => Some(
            error_of(
                ApiErrorType::Unauthorized,
                "NOT_OWNING_NEURON"@,
                "You are not owning this neuron required to join this group"@,
                store_place(s, "validate_group_privacy"@),
                None,
            ),
        ),
        PrivacyView::Gated(GatedTypeView::Token(_)) if !admitted => Some(
            error_of(
                ApiErrorType::Unauthorized,
                "NOT_OWNING_NFT"@,
                "You are not owning NFT / token required to join this group"@,
                store_place(s, "add_invite_or_join_group_to_member"@),
                None,
            ),
        ),
        _ => None,
    }
}

/// The group that is made of what a caller handed in at the time `now`:
/// the caller owns it, and the node that holds its members counts one.
pub open spec fn new_group(
    post: PostGroupView,
    caller: Seq<u8>,
    member_canister: Seq<u8>,
    now: u64,
) -> GroupView {
    GroupView {
        name: post.name,
        description: post.description,
        website: post.website,
        location: post.location,
        privacy: post.privacy,
        owner: caller,
        created_by: caller,
        matrix_space_id: post.matrix_space_id,
        image: post.image,
        banner_image: post.banner_image,
        tags: post.tags,
        privacy_gated_type_amount: post.privacy_gated_type_amount,
        roles: Seq::<GroupRoleView>::empty(),
        is_deleted: false,
        member_count: seq![(member_canister, 1usize)],
        wallets: Seq::<(Seq<u8>, Seq<char>)>::empty(),
        updated_on: now,
        created_on: now,
    }
}

/// Why a group is refused before it is offered to the table: its creator
/// meets no condition of entry, or its fields do not pass.
pub open spec fn admission_refusal(s: StoreView, post: PostGroupView, admitted: bool) -> Option<
    ApiErrorView,
> {
    match privacy_refusal(s, post.privacy, admitted) {
        Some(e) => Some(e),
        None => match validation_result(
            group_faults(post.name, post.description, post.website, post.tags.len()),
        ) {
            Err(e) => Some(e),
            Ok(_) => None,
        },
    }
}

/// The number of the last entry of a node.
pub open spec fn last_entry_id(s: StoreView) -> u64 {
    if s.data.current_entry_id == 0 {
        0
    } else {
        (s.data.current_entry_id - 1) as u64
    }
}

/// What comes of the offer of a new group.
pub open spec fn add_step(
    s: StoreView,
    caller: Seq<u8>,
    post: PostGroupView,
    member_canister: Seq<u8>,
    admitted: bool,
    now: u64,
) -> AddStepView {
    match admission_refusal(s, post, admitted) {
        Some(e) => AddStepView::Refused(e),
        None => match add_refusal(s) {
            None => AddStepView::Stored {
                identifier: next_identifier(s),
                owner: caller,
                member_canister,
            },
            Some(e) => if s.data.is_available {
                AddStepView::AtCapacity {
                    error: e,
                    last_entry_id: last_entry_id(s),
                    group: new_group(post, caller, member_canister, now),
                }
            } else {
                AddStepView::Refused(e)
            },
        },
    }
}

/// The node after the offer of a new group.
pub open spec fn state_after_add_group(
    s: StoreView,
    caller: Seq<u8>,
    post: PostGroupView,
    member_canister: Seq<u8>,
    admitted: bool,
    now: u64,
) -> StoreView {
    if admission_refusal(s, post, admitted) is Some {
        s
    } else {
        state_after_add(s, new_group(post, caller, member_canister, now))
    }
}

/// What the node that holds the members answered, as a node of groups
/// sees it.
pub open spec fn reply_view(reply: Result<Result<Principal, ApiError>, String>) -> Result<
    Result<Seq<u8>, ApiErrorView>,
    Seq<char>,
> {
    match reply {
        Ok(Ok(p)) => Ok(Ok(p@)),
        Ok(Err(e)) => Ok(Err(e@)),
        Err(words) => Err(words@),
    }
}

/// Why the owner of a new group was not entered.
pub open spec fn owner_refusal(
    s: StoreView,
    group_identifier: Seq<u8>,
    reply: Result<Result<Seq<u8>, ApiErrorView>, Seq<char>>,
) -> Option<ApiErrorView> {
    match reply {
        Err(words) => Some(
            error_of(
                ApiErrorType::BadRequest,
                "OWNER_NOT_ADDED"@,
                words,
                store_place(s, "add_owner"@),
                None,
            ),
        ),
        Ok(Err(e)) => Some(e),
        Ok(Ok(_)) => if holds(s, group_identifier) {
            None
        } else {
            Some(entry_not_found(s, group_identifier))
        },
    }
}

/// The node without the entry under the identifier.
pub open spec fn without_entry(s: StoreView, identifier: Seq<u8>) -> StoreView {
    if holds(s, identifier) {
        with_table(
            s,
            s.keys.remove(s.keys.index_of(identifier)),
            s.groups.remove(s.keys.index_of(identifier)),
        )
    } else {
        s
    }
}

/// The error that the caller gets after the node was found full and the
/// directory was asked to bring up the node that follows.
pub open spec fn sibling_outcome(
    s: StoreView,
    error: ApiErrorView,
    reply: Result<Result<Seq<u8>, ApiErrorView>, Seq<char>>,
) -> ApiErrorView {
    match reply {
        Err(words) => error_of(
            ApiErrorType::BadRequest,
            "SIBLING_SPAWN_FAILED"@,
            words,
            store_place(s, "spawn_sibling"@),
            None,
        ),
        Ok(Err(e)) => e,
        Ok(Ok(_)) => error,
    }
}

impl Store {
    /// The number of the last entry of the node.
    pub fn last_entry_id(&self) -> (r: u64)
        ensures
            r == last_entry_id(self@),
    {
        if self.data.current_entry_id == 0 {
            0
        } else {
            self.data.current_entry_id - 1
        }
    }

    /// Whether the creator of a group may create it, given whether it met
    /// one of the conditions of entry of the group. A group that is not
    /// gated asks for nothing.
    pub fn validate_group_privacy(&self, privacy: &Privacy, admitted: bool) -> (r: Result<
        (),
        ApiError,
    >)
        ensures
            match r {
                Ok(_) => privacy_refusal(self@, privacy@, admitted) is None,
                Err(e) => privacy_refusal(self@, privacy@, admitted) == Some(e@),
            },
    {
        match privacy {
            Privacy::Gated(crate::group_model::GatedType::Neuron(_)) => {
                if admitted {
                    Ok(())
                } else {
                    Err(
                        self.fail(
                            ApiErrorType::Unauthorized,
                            "NOT_OWNING_NEURON",
                            "You are not owning this neuron required to join this group",
                            "validate_group_privacy",
                            None,
                        ),
                    )
                }
            },
            Privacy::Gated(crate::group_model::GatedType::Token(_)) => {
                if admitted {
                    Ok(())
                } else {
                    Err(
                        self.fail(
                            ApiErrorType::Unauthorized,
                            "NOT_OWNING_NFT",
                            "You are not owning NFT / token required to join this group",
                            "add_invite_or_join_group_to_member",
                            None,
                        ),
                    )
                }
            },
            _ => Ok(()),
        }
    }

    /// Offers a new group to the node at the time `now`. `admitted` says
    /// whether the caller met one of the conditions of entry of the group,
    /// where it has any. What comes of it is told by [`add_step`], and what
    /// becomes of the node by [`state_after_add_group`].
    pub fn add_group(
        &mut self,
        caller: &Principal,
        post_group: PostGroup,
        member_canister: &Principal,
        admitted: bool,
        now: u64,
    ) -> (r: AddStep)
        requires
            old(self).wf(),
        ensures
            final(self).wf(),
            r@ == add_step(old(self)@, caller@, post_group@, member_canister@, admitted, now),
            final(self)@ == state_after_add_group(
                old(self)@,
                caller@,
                post_group@,
                member_canister@,
                admitted,
                now,
            ),
    {
        match self.validate_group_privacy(&post_group.privacy, admitted) {
            Err(e) => {
                return AddStep::Refused(e);
            },
            Ok(_) => {},
        }
        match validate_post_group(&post_group) {
            Err(e) => {
                return AddStep::Refused(e);
            },
            Ok(_) => {},
        }
        let mut member_count: PrincipalMap<usize> = PrincipalMap::new();
        member_count.insert(member_canister.clone(), 1);
        let group = Group {
            name: post_group.name,
            description: post_group.description,
            website: post_group.website,
            location: post_group.location,
            privacy: post_group.privacy,
            owner: caller.clone(),
            created_by: caller.clone(),
            matrix_space_id: post_group.matrix_space_id,
            image: post_group.image,
            banner_image: post_group.banner_image,
            tags: post_group.tags,
            privacy_gated_type_amount: post_group.privacy_gated_type_amount,
            roles: Vec::new(),
            is_deleted: false,
            member_count,
            wallets: PrincipalMap::new(),
            updated_on: now,
            created_on: now,
        };
        proof {
            assert(group@.member_count =~= seq![(member_canister@, 1usize)]);
            assert(group@.wallets =~= Seq::<(Seq<u8>, Seq<char>)>::empty());
            assert(group@.roles =~= Seq::<GroupRoleView>::empty());
            assert(group@ == new_group(post_group@, caller@, member_canister@, now));
        }
        let was_available = self.data.is_available;
        let last = self.last_entry_id();
        let kept = group.duplicate();
        match self.add_entry(group) {
            Ok(identifier) => AddStep::Stored {
                identifier,
                owner: caller.clone(),
                member_canister: member_canister.clone(),
            },
            Err(error) => {
                if was_available {
                    AddStep::AtCapacity { error, last_entry_id: last, group: kept }
                } else {
                    AddStep::Refused(error)
                }
            },
        }
    }

    /// The error that the caller of [`Store::add_group`] gets after the
    /// node was found full. The full node reports that it is full even
    /// where the group has reached the node that follows; only a failure
    /// to bring that node up takes the place of the report.
    pub fn spawn_sibling(
        &self,
        error: ApiError,
        reply: Result<Result<Principal, ApiError>, String>,
    ) -> (r: ApiError)
        ensures
            r@ == sibling_outcome(self@, error@, reply_view(reply)),
    {
        match reply {
            Err(words) => self.fail(
                ApiErrorType::BadRequest,
                "SIBLING_SPAWN_FAILED",
                words.as_str(),
                "spawn_sibling",
                None,
            ),
            Ok(Err(e)) => e,
            Ok(Ok(_)) => error,
        }
    }

    /// Takes in the answer of the node that holds the members to the
    /// request to enter the owner of a new group. Where the owner was
    /// entered, the group has `owner_principal` as its owner from `now` on;
    /// else the group is taken out of the table again.
    pub fn add_owner(
        &mut self,
        owner_principal: &Principal,
        group_identifier: &Principal,
        reply: Result<Result<Principal, ApiError>, String>,
        now: u64,
    ) -> (r: Result<GroupResponse, ApiError>)
        requires
            old(self).wf(),
        ensures
            final(self).wf(),
            match r {
                Ok(group) => owner_refusal(old(self)@, group_identifier@, reply_view(reply))
                    is None && final(self)@ == with_group(
                    old(self)@,
                    group_identifier@,
                    GroupView {
                        owner: owner_principal@,
                        updated_on: now,
                        ..group_of(old(self)@, group_identifier@)
                    },
                ) && group@ == response_of(
                    group_identifier@,
                    group_of(final(self)@, group_identifier@),
                ),
                Err(e) => owner_refusal(old(self)@, group_identifier@, reply_view(reply)) == Some(
                    e@,
                ) && final(self)@ == without_entry(old(self)@, group_identifier@),
            },
    {
        let refusal = match reply {
            Err(words) => Some(
                self.fail(
                    ApiErrorType::BadRequest,
                    "OWNER_NOT_ADDED",
                    words.as_str(),
                    "add_owner",
                    None,
                ),
            ),
            Ok(Err(e)) => Some(e),
            Ok(Ok(_)) => None,
        };
        match refusal {
            Some(e) => {
                self.remove_entry(group_identifier);
                Err(e)
            },
            None => match self.get_entry(group_identifier) {
                Err(e) => Err(e),
                Ok(at) => {
                    assert(self@.groups[at as int] == self.entries.values()[at as int]@);
                    let mut group = self.entries.value_at(at).duplicate();
                    group.owner = owner_principal.clone();
                    group.updated_on = now;
                    self.put_group(at, group);
                    Ok(self.response_at(at))
                },
            },
        }
    }
}

} // verus!
