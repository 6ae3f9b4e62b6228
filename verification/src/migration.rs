use crate::group_model::{Group, GroupResponse, GroupResponseView, GroupView};
use crate::principal::Principal;
use crate::principal_map::PrincipalMap;
use crate::roles::{find_role, has_role_named, GroupRole, GroupRoleView};
use crate::store::{distinct_role_names, with_entry, Store, StoreView};
use vstd::prelude::*;
use vstd::string::StringExecFns;

verus! {

/// The roles without those whose name an earlier role has: of each name
/// the first role stays.
pub open spec fn first_of_each_name(roles: Seq<GroupRoleView>) -> Seq<GroupRoleView>
    decreases roles.len(),
{
    if roles.len() == 0 {
        roles
    } else if has_role_named(first_of_each_name(roles.drop_last()), roles.last().name) {
        first_of_each_name(roles.drop_last())
    } else {
        first_of_each_name(roles.drop_last()).push(roles.last())
    }
}

/// Of each name one role stays.
pub proof fn lemma_first_of_each_name_distinct(roles: Seq<GroupRoleView>)
    ensures
        distinct_role_names(first_of_each_name(roles)),
    decreases roles.len(),
{
    if roles.len() > 0 {
        let front = first_of_each_name(roles.drop_last());
        lemma_first_of_each_name_distinct(roles.drop_last());
        let kept = first_of_each_name(roles);
        if !has_role_named(front, roles.last().name) {
            assert forall|i: int, j: int| 0 <= i < j < kept.len() implies (#[trigger] kept[i]).name
                != (#[trigger] kept[j]).name by {
                assert(kept[i] == front[i]);
                if j < front.len() {
                    assert(kept[j] == front[j]);
                }
            }
        }
    }
}

/// The group that a node stores for a group that another service showed:
/// with its fields and its roles, one of each name, and without counts of
/// members and wallets, which that service did not keep by node.
pub open spec fn migrated(group: GroupResponseView) -> GroupView {
    GroupView {
        name: group.name,
        description: group.description,
        website: group.website,
        location: group.location,
        privacy: group.privacy,
        owner: group.owner,
        created_by: group.created_by,
        matrix_space_id: group.matrix_space_id,
        image: group.image,
        banner_image: group.banner_image,
        tags: group.tags,
        privacy_gated_type_amount: None,
        roles: first_of_each_name(group.roles),
        is_deleted: group.is_deleted,
        member_count: Seq::<(Seq<u8>, usize)>::empty(),
        wallets: Seq::<(Seq<u8>, Seq<char>)>::empty(),
        updated_on: group.updated_on,
        created_on: group.created_on,
    }
}

/// The node after it took over a list of groups, each under the
/// identifier it had.
pub open spec fn with_migrated(s: StoreView, groups: Seq<GroupResponseView>) -> StoreView
    decreases groups.len(),
{
    if groups.len() == 0 {
        s
    } else {
        with_entry(
            with_migrated(s, groups.drop_last()),
            groups.last().identifier,
            migrated(groups.last()),
        )
    }
}

/// What the service that held the groups answered, as the node sees it.
pub open spec fn migration_reply(
    reply: Result<Result<Vec<GroupResponse>, String>, String>,
) -> Result<Seq<GroupResponseView>, Seq<char>> {
    match reply {
        Ok(Ok(groups)) => Ok(groups.deep_view()),
        Ok(Err(words)) => Err(words@),
        Err(words) => Err(words@),
    }
}

/// The roles of a list, one of each name.
pub fn one_of_each_name(roles: Vec<GroupRole>) -> (r: Vec<GroupRole>)
    ensures
        r.deep_view() == first_of_each_name(roles.deep_view()),
{
    let ghost all = roles.deep_view();
    let mut out: Vec<GroupRole> = Vec::new();
    assert(out.deep_view() =~= first_of_each_name(all.take(0)));
    for role in it: roles
        invariant
            it.seq().len() == all.len(),
            forall|k: int| 0 <= k < all.len() ==> it.seq()[k]@ == all[k],
            out.deep_view() == first_of_each_name(all.take(it.index() as int)),
    {
        proof {
            let i = it.index() as int;
            assert(all.take(i + 1).drop_last() == all.take(i));
            assert(all.take(i + 1).last() == role@);
        }
        let ghost before = out.deep_view();
        if find_role(&out, role.name.as_str()).is_none() {
            out.push(role);
            assert(out.deep_view() =~= before.push(role@));
        }
    }
    assert(all.take(all.len() as int) == all);
    out
}

impl Store {
    /// Takes over the groups of another service: each is stored under the
    /// identifier it had, in place of what the node held there. Only
    /// `migrator`, the actor that moves the entries, may ask for it; a
    /// failure of that service to answer is handed on in its own words.
    pub fn migration_add_groups(
        &mut self,
        caller: &Principal,
        migrator: &Principal,
        reply: Result<Result<Vec<GroupResponse>, String>, String>,
    ) -> (r: Result<(), String>)
        requires
            old(self).wf(),
        ensures
            final(self).wf(),
            match r {
                Ok(_) => caller@ == migrator@ && migration_reply(reply) is Ok && final(self)@
                    == with_migrated(old(self)@, migration_reply(reply)->Ok_0),
                Err(words) => final(self)@ == old(self)@ && if caller@ != migrator@ {
                    words@ == "Unauthorized"@
                } else {
                    migration_reply(reply) == Err::<Seq<GroupResponseView>, Seq<char>>(words@)
                },
            },
    {
        if !caller.same(migrator) {
            return Err(String::from_str("Unauthorized"));
        }
        match reply {
            Err(words) => Err(words),
            Ok(Err(words)) => Err(words),
            Ok(Ok(groups)) => {
                self.take_over(groups);
                Ok(())
            },
        }
    }

    /// Stores each group of a list under the identifier it has.
    pub fn take_over(&mut self, groups: Vec<GroupResponse>)
        requires
            old(self).wf(),
        ensures
            final(self).wf(),
            final(self)@ == with_migrated(old(self)@, groups.deep_view()),
    {
        let ghost all = groups.deep_view();
        let ghost start = self@;
        for shown in it: groups
            invariant
                it.seq().len() == all.len(),
                forall|k: int| 0 <= k < all.len() ==> it.seq()[k]@ == all[k],
                self.wf(),
                self@ == with_migrated(start, all.take(it.index() as int)),
        {
            proof {
                let i = it.index() as int;
                assert(all.take(i + 1).drop_last() == all.take(i));
                assert(all.take(i + 1).last() == shown@);
                lemma_first_of_each_name_distinct(shown@.roles);
            }
            let group = Group {
                name: shown.name,
                description: shown.description,
                website: shown.website,
                location: shown.location,
                privacy: shown.privacy,
                owner: shown.owner,
                created_by: shown.created_by,
                matrix_space_id: shown.matrix_space_id,
                image: shown.image,
                banner_image: shown.banner_image,
                tags: shown.tags,
                privacy_gated_type_amount: None,
                roles: one_of_each_name(shown.roles),
                is_deleted: shown.is_deleted,
                member_count: PrincipalMap::new(),
                wallets: PrincipalMap::new(),
                updated_on: shown.updated_on,
                created_on: shown.created_on,
            };
            proof {
                assert(group@.member_count =~= Seq::<(Seq<u8>, usize)>::empty());
                assert(group@.wallets =~= Seq::<(Seq<u8>, Seq<char>)>::empty());
                assert(group@ == migrated(shown@));
            }
            self.put_entry(shown.identifier, group);
        }
        assert(all.take(all.len() as int) == all);
    }
}

} // verus!
