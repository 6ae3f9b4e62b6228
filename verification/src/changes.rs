use crate::error::{error_of, input, input_line, ApiError, ApiErrorType, ApiErrorView};
use crate::group_model::{paired, Group, GroupResponse, GroupView, UpdateGroup, UpdateGroupView};
use crate::identifier::{decodable, decode_identifier, decoded};
use crate::principal::Principal;
use crate::snapshot::{lines2, lines3, lines4, principal_input, principal_line};
use crate::store::{
    entry_not_found, group_of, holds, response_of, store_place, with_group, Store, StoreView,
    IDENTIFIER_KIND,
};
use crate::validation::{group_faults, validate_update_group, validation_result};
use vstd::prelude::*;

verus! {

/// Some pair of the list has the key.
pub open spec fn has_key<V>(pairs: Seq<(Seq<u8>, V)>, key: Seq<u8>) -> bool {
    exists|i: int| 0 <= i < pairs.len() && (#[trigger] pairs[i]).0 == key
}

/// The position of a pair with the key.
pub open spec fn key_position<V>(pairs: Seq<(Seq<u8>, V)>, key: Seq<u8>) -> int {
    choose|i: int| 0 <= i < pairs.len() && (#[trigger] pairs[i]).0 == key
}

/// The list with `value` under `key`: in place of what the key had, or as
/// a new last pair.
pub open spec fn with_pair<V>(pairs: Seq<(Seq<u8>, V)>, key: Seq<u8>, value: V) -> Seq<
    (Seq<u8>, V),
> {
    if has_key(pairs, key) {
        pairs.update(key_position(pairs, key), (key, value))
    } else {
        pairs.push((key, value))
    }
}

/// The list without the pair of `key`.
pub open spec fn without_pair<V>(pairs: Seq<(Seq<u8>, V)>, key: Seq<u8>) -> Seq<(Seq<u8>, V)> {
    if has_key(pairs, key) {
        pairs.remove(key_position(pairs, key))
    } else {
        pairs
    }
}

/// In a list of pairs made of keys that are all different, a key stands
/// where it stands among the keys.
pub proof fn lemma_key_position<V>(keys: Seq<Seq<u8>>, values: Seq<V>, key: Seq<u8>)
    requires
        keys.no_duplicates(),
        keys.len() == values.len(),
    ensures
        has_key(paired(keys, values), key) == keys.contains(key),
        keys.contains(key) ==> key_position(paired(keys, values), key) == keys.index_of(key),
{
    let pairs = paired(keys, values);
    if keys.contains(key) {
        let at = keys.index_of(key);
        assert(pairs[at].0 == key);
        let found = key_position(pairs, key);
        assert(pairs[found].0 == key);
        assert(keys[found] == key);
    }
    if has_key(pairs, key) {
        let found = key_position(pairs, key);
        assert(keys[found] == key);
    }
}

/// Why a group is not changed.
pub open spec fn update_refusal(
    s: StoreView,
    caller: Seq<u8>,
    identifier: Seq<u8>,
    update: UpdateGroupView,
) -> Option<ApiErrorView> {
    match validation_result(
        group_faults(update.name, update.description, update.website, update.tags.len()),
    ) {
        Err(e) => Some(e),
        Ok(_) => if !holds(s, identifier) {
            Some(entry_not_found(s, identifier))
        } else if group_of(s, identifier).is_deleted {
            Some(
                error_of(
                    ApiErrorType::BadRequest,
                    "DELETED_GROUP"@,
                    "You cant update a deleted group"@,
                    store_place(s, "update_group"@),
                    Some(
                        seq![
                            principal_line("caller"@, caller),
                            principal_line("id"@, identifier),
                            input_line("update_group"@, update.name),
                        ],
                    ),
                ),
            )
        } else {
            None
        },
    }
}

/// A group after a change at the time `now`.
pub open spec fn updated_group(group: GroupView, update: UpdateGroupView, now: u64) -> GroupView {
    GroupView {
        name: update.name,
        description: update.description,
        website: update.website,
        location: update.location,
        privacy: update.privacy,
        image: update.image,
        banner_image: update.banner_image,
        tags: update.tags,
        updated_on: now,
        ..group
    }
}

/// The error for a caller that is not the owner of the group, if it is
/// not, and the error for a group that the node does not hold.
pub open spec fn owner_only(
    s: StoreView,
    caller: Seq<u8>,
    identifier: Seq<u8>,
    tag: Seq<char>,
    message: Seq<char>,
    method_name: Seq<char>,
    inputs: Option<Seq<Seq<char>>>,
) -> Option<ApiErrorView> {
    if !holds(s, identifier) {
        Some(entry_not_found(s, identifier))
    } else if group_of(s, identifier).owner != caller {
        Some(
            error_of(
                ApiErrorType::Unauthorized,
                tag,
                message,
                store_place(s, method_name),
                inputs,
            ),
        )
    } else {
        None
    }
}

/// Why a group is not deleted.
pub open spec fn delete_refusal(s: StoreView, caller: Seq<u8>, identifier: Seq<u8>) -> Option<
    ApiErrorView,
> {
    owner_only(
        s,
        caller,
        identifier,
        "CANT_DELETE_GROUP"@,
        "Only the owner can delete the group"@,
        "delete_group"@,
        Some(seq![principal_line("caller"@, caller), principal_line("id"@, identifier)]),
    )
}

/// Why a wallet is not added.
pub open spec fn add_wallet_refusal(
    s: StoreView,
    caller: Seq<u8>,
    identifier: Seq<u8>,
    wallet: Seq<u8>,
    description: Seq<char>,
) -> Option<ApiErrorView> {
    owner_only(
        s,
        caller,
        identifier,
        "CANT_ADD_WALLET"@,
        "Only the owner can add a wallet"@,
        "add_wallet"@,
        Some(
            seq![
                principal_line("caller"@, caller),
                principal_line("group_identifier"@, identifier),
                principal_line("wallet_canister"@, wallet),
                input_line("description"@, description),
            ],
        ),
    )
}

/// Why a wallet is not removed.
pub open spec fn remove_wallet_refusal(
    s: StoreView,
    caller: Seq<u8>,
    identifier: Seq<u8>,
    wallet: Seq<u8>,
) -> Option<ApiErrorView> {
    owner_only(
        s,
        caller,
        identifier,
        "CANT_DELETE_WALLET"@,
        "Only the owner can delete a wallet"@,
        "remove_wallet"@,
        Some(
            seq![
                principal_line("caller"@, caller),
                principal_line("group_identifier"@, identifier),
                principal_line("wallet_canister"@, wallet),
            ],
        ),
    )
}

/// Whether a count of members is taken in: the one that reports it is the
/// node that it speaks of, the identifier is that of a group, and the node
/// holds the group.
pub open spec fn count_accepted(
    s: StoreView,
    caller: Seq<u8>,
    identifier: Seq<u8>,
    member_canister: Seq<u8>,
) -> bool {
    &&& caller == member_canister
    &&& decodable(identifier)
    &&& decoded(identifier).2 == IDENTIFIER_KIND@
    &&& holds(s, identifier)
}

impl Store {
    /// Changes the group with the identifier at the time `now`. The fields
    /// must pass, and the group must not be deleted.
    pub fn update_group(
        &mut self,
        caller: &Principal,
        group_identifier: &Principal,
        update_group: UpdateGroup,
        now: u64,
    ) -> (r: Result<GroupResponse, ApiError>)
        requires
            old(self).wf(),
        ensures
            final(self).wf(),
            match r {
                Ok(group) => update_refusal(
                    old(self)@,
                    caller@,
                    group_identifier@,
                    update_group@,
                ) is None && final(self)@ == with_group(
                    old(self)@,
                    group_identifier@,
                    updated_group(group_of(old(self)@, group_identifier@), update_group@, now),
                ) && group@ == response_of(
                    group_identifier@,
                    updated_group(group_of(old(self)@, group_identifier@), update_group@, now),
                ),
                Err(e) => update_refusal(old(self)@, caller@, group_identifier@, update_group@)
                    == Some(e@) && final(self)@ == old(self)@,
            },
    {
        match validate_update_group(&update_group) {
            Err(e) => {
                return Err(e);
            },
            Ok(_) => {},
        }
        match self.get_entry(group_identifier) {
            Err(e) => Err(e),
            Ok(at) => {
                assert(self@.groups[at as int] == self.entries.values()[at as int]@);
                if self.entries.value_at(at).is_deleted {
                    let inputs = lines3(
                        principal_input("caller", caller),
                        principal_input("id", group_identifier),
                        input("update_group", update_group.name.as_str()),
                    );
                    return Err(
                        self.fail(
                            ApiErrorType::BadRequest,
                            "DELETED_GROUP",
                            "You cant update a deleted group",
                            "update_group",
                            inputs,
                        ),
                    );
                }
                let mut group = self.entries.value_at(at).duplicate();
                group.name = update_group.name;
                group.description = update_group.description;
                group.website = update_group.website;
                group.location = update_group.location;
                group.privacy = update_group.privacy;
                group.image = update_group.image;
                group.banner_image = update_group.banner_image;
                group.tags = update_group.tags;
                group.updated_on = now;
                self.put_group(at, group);
                Ok(self.response_at(at))
            },
        }
    }

    /// Marks the group with the identifier as deleted at the time `now`.
    /// Only its owner may do so. The group stays in the table.
    pub fn delete_group(
        &mut self,
        caller: &Principal,
        identifier: &Principal,
        now: u64,
    ) -> (r: Result<Group, ApiError>)
        requires
            old(self).wf(),
        ensures
            final(self).wf(),
            match r {
                Ok(group) => delete_refusal(old(self)@, caller@, identifier@) is None && group@
                    == (GroupView {
                    is_deleted: true,
                    updated_on: now,
                    ..group_of(old(self)@, identifier@)
                }) && final(self)@ == with_group(old(self)@, identifier@, group@),
                Err(e) => delete_refusal(old(self)@, caller@, identifier@) == Some(e@)
                    && final(self)@ == old(self)@,
            },
    {
        match self.get_entry(identifier) {
            Err(e) => Err(e),
            Ok(at) => {
                assert(self@.groups[at as int] == self.entries.values()[at as int]@);
                if !self.entries.value_at(at).owner.same(caller) {
                    let inputs = lines2(
                        principal_input("caller", caller),
                        principal_input("id", identifier),
                    );
                    return Err(
                        self.fail(
                            ApiErrorType::Unauthorized,
                            "CANT_DELETE_GROUP",
                            "Only the owner can delete the group",
                            "delete_group",
                            inputs,
                        ),
                    );
                }
                let mut group = self.entries.value_at(at).duplicate();
                group.is_deleted = true;
                group.updated_on = now;
                let shown = group.duplicate();
                self.put_group(at, group);
                Ok(shown)
            },
        }
    }

    /// Enters a wallet of the group with a description at the time `now`,
    /// in place of the description that the wallet had, if any. Only the
    /// owner of the group may do so.
    pub fn add_wallet(
        &mut self,
        caller: &Principal,
        group_identifier: &Principal,
        wallet_canister: Principal,
        description: String,
        now: u64,
    ) -> (r: Result<(), ApiError>)
        requires
            old(self).wf(),
        ensures
            final(self).wf(),
            match r {
                Ok(_) => add_wallet_refusal(
                    old(self)@,
                    caller@,
                    group_identifier@,
                    wallet_canister@,
                    description@,
                ) is None && final(self)@ == with_group(
                    old(self)@,
                    group_identifier@,
                    GroupView {
                        wallets: with_pair(
                            group_of(old(self)@, group_identifier@).wallets,
                            wallet_canister@,
                            description@,
                        ),
                        updated_on: now,
                        ..group_of(old(self)@, group_identifier@)
                    },
                ),
                Err(e) => add_wallet_refusal(
                    old(self)@,
                    caller@,
                    group_identifier@,
                    wallet_canister@,
                    description@,
                ) == Some(e@) && final(self)@ == old(self)@,
            },
    {
        match self.get_entry(group_identifier) {
            Err(e) => Err(e),
            Ok(at) => {
                assert(self@.groups[at as int] == self.entries.values()[at as int]@);
                if !self.entries.value_at(at).owner.same(caller) {
                    let inputs = lines4(
                        principal_input("caller", caller),
                        principal_input("group_identifier", group_identifier),
                        principal_input("wallet_canister", &wallet_canister),
                        input("description", description.as_str()),
                    );
                    return Err(
                        self.fail(
                            ApiErrorType::Unauthorized,
                            "CANT_ADD_WALLET",
                            "Only the owner can add a wallet",
                            "add_wallet",
                            inputs,
                        ),
                    );
                }
                let mut group = self.entries.value_at(at).duplicate();
                let ghost keys = group.wallets.keys();
                let ghost texts = group.wallets.texts();
                proof {
                    lemma_key_position(keys, texts, wallet_canister@);
                }
                group.wallets.insert(wallet_canister, description);
                group.updated_on = now;
                proof {
                    assert(paired(group.wallets.keys(), group.wallets.texts()) =~= with_pair(
                        paired(keys, texts),
                        wallet_canister@,
                        description@,
                    ));
                }
                self.put_group(at, group);
                Ok(())
            },
        }
    }

    /// Takes a wallet of the group out at the time `now`. Only the owner
    /// of the group may do so.
    pub fn remove_wallet(
        &mut self,
        caller: &Principal,
        group_identifier: &Principal,
        wallet_canister: &Principal,
        now: u64,
    ) -> (r: Result<(), ApiError>)
        requires
            old(self).wf(),
        ensures
            final(self).wf(),
            match r {
                Ok(_) => remove_wallet_refusal(
                    old(self)@,
                    caller@,
                    group_identifier@,
                    wallet_canister@,
                ) is None && final(self)@ == with_group(
                    old(self)@,
                    group_identifier@,
                    GroupView {
                        wallets: without_pair(
                            group_of(old(self)@, group_identifier@).wallets,
                            wallet_canister@,
                        ),
                        updated_on: now,
                        ..group_of(old(self)@, group_identifier@)
                    },
                ),
                Err(e) => remove_wallet_refusal(
                    old(self)@,
                    caller@,
                    group_identifier@,
                    wallet_canister@,
                ) == Some(e@) && final(self)@ == old(self)@,
            },
    {
        match self.get_entry(group_identifier) {
            Err(e) => Err(e),
            Ok(at) => {
                assert(self@.groups[at as int] == self.entries.values()[at as int]@);
                if !self.entries.value_at(at).owner.same(caller) {
                    let inputs = lines3(
                        principal_input("caller", caller),
                        principal_input("group_identifier", group_identifier),
                        principal_input("wallet_canister", wallet_canister),
                    );
                    return Err(
                        self.fail(
                            ApiErrorType::Unauthorized,
                            "CANT_DELETE_WALLET",
                            "Only the owner can delete a wallet",
                            "remove_wallet",
                            inputs,
                        ),
                    );
                }
                let mut group = self.entries.value_at(at).duplicate();
                let ghost keys = group.wallets.keys();
                let ghost texts = group.wallets.texts();
                proof {
                    lemma_key_position(keys, texts, wallet_canister@);
                }
                let _ = group.wallets.remove(wallet_canister);
                group.updated_on = now;
                proof {
                    assert(paired(group.wallets.keys(), group.wallets.texts()) =~= without_pair(
                        paired(keys, texts),
                        wallet_canister@,
                    ));
                }
                self.put_group(at, group);
                Ok(())
            },
        }
    }

    /// Takes in the number of members of a group that the node
    /// `member_canister` counts. The count is taken only from that node
    /// itself, for an identifier of a group that this node holds.
    pub fn update_member_count(
        &mut self,
        caller: &Principal,
        group_identifier: &Principal,
        member_canister: Principal,
        member_count: usize,
    ) -> (r: Result<(), bool>)
        requires
            old(self).wf(),
        ensures
            final(self).wf(),
            match r {
                Ok(_) => count_accepted(
                    old(self)@,
                    caller@,
                    group_identifier@,
                    member_canister@,
                ) && final(self)@ == with_group(
                    old(self)@,
                    group_identifier@,
                    GroupView {
                        member_count: with_pair(
                            group_of(old(self)@, group_identifier@).member_count,
                            member_canister@,
                            member_count,
                        ),
                        ..group_of(old(self)@, group_identifier@)
                    },
                ),
                Err(sent) => !sent && !count_accepted(
                    old(self)@,
                    caller@,
                    group_identifier@,
                    member_canister@,
                ) && final(self)@ == old(self)@,
            },
    {
        if !caller.same(&member_canister) {
            return Err(false);
        }
        match decode_identifier(group_identifier) {
            None => {
                return Err(false);
            },
            Some(parts) => {
                if !crate::text::eq(parts.2.as_str(), IDENTIFIER_KIND) {
                    return Err(false);
                }
            },
        }
        match self.entries.position(group_identifier) {
            None => Err(false),
            Some(at) => {
                assert(self@.groups[at as int] == self.entries.values()[at as int]@);
                let mut group = self.entries.value_at(at).duplicate();
                let ghost keys = group.member_count.keys();
                let ghost values = group.member_count.values();
                proof {
                    lemma_key_position(keys, values, member_canister@);
                }
                group.member_count.insert(member_canister, member_count);
                proof {
                    assert(paired(group.member_count.keys(), group.member_count.values())
                        =~= with_pair(paired(keys, values), member_canister@, member_count));
                }
                self.put_group(at, group);
                Ok(())
            },
        }
    }
}

} // verus!
