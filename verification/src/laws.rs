use crate::directory::{
    distinct_nodes, first_node_of, has_available, has_node, node_position,
    remove_from_whitelist_refusal, with_node, ScalableCanisterDetailsView, ScalableDataView,
};
use crate::filter::{
    filtered, has_identifier, lemma_first_of_each_identifiers, matches_all, matches_any,
    ordered_and_stable, passing_all, passing_any, precedes, rearranges,
};
use crate::group_model::{FilterType, GroupFilterView, GroupResponseView, GroupSort, GroupView};
use crate::lifecycle::{
    closed_node, empty_node, installed_node, lane_state, state_after_created, state_after_installed,
    with_closed, HandoffView, LaneState, Task,
};
use crate::queries::found_by_id;
use crate::store::{
    all_responses, group_of, holds, listed, response_of, shown_in_lists, with_group, StoreView,
};
use crate::whitelist::{first_entry_of, sole_owner_at, whitelist_wf, WhitelistRights};
use vstd::prelude::*;

verus! {

/// The entry of the owner cannot be taken out of a valid whitelist: whoever
/// asks, the removal is refused.
pub proof fn lemma_owner_is_never_removed(s: ScalableDataView, caller: Seq<u8>, owner_at: int)
    requires
        whitelist_wf(s.whitelist),
        sole_owner_at(s.whitelist, owner_at),
    ensures
        remove_from_whitelist_refusal(s, caller, s.whitelist[owner_at].principal) is Some,
{
    let principal = s.whitelist[owner_at].principal;
    assert(first_entry_of(s.whitelist, principal, owner_at));
    assert(s.whitelist[owner_at].rights.satisfies(WhitelistRights::Owner));
}

/// What a filter keeps was in the list and passes the test.
pub proof fn lemma_filter_from_source<A>(source: Seq<A>, keep: spec_fn(A) -> bool, i: int)
    requires
        0 <= i < source.filter(keep).len(),
    ensures
        keep(source.filter(keep)[i]),
        exists|k: int| 0 <= k < source.len() && #[trigger] source[k] == source.filter(keep)[i],
    decreases source.len(),
{
    reveal(Seq::filter);
    if source.len() > 0 {
        let front = source.drop_last();
        if i < front.filter(keep).len() {
            lemma_filter_from_source(front, keep, i);
            let k = choose|k: int| 0 <= k < front.len() && #[trigger] front[k] == front.filter(
                keep,
            )[i];
            assert(source[k] == source.filter(keep)[i]);
        } else {
            assert(source[source.len() - 1] == source.filter(keep)[i]);
        }
    }
}

/// A group that is marked as deleted is in no list of the node.
pub proof fn lemma_deleted_is_not_listed(
    s: StoreView,
    identifier: Seq<u8>,
    include_invite_only: bool,
)
    requires
        s.keys.no_duplicates(),
        s.keys.len() == s.groups.len(),
        holds(s, identifier),
        group_of(s, identifier).is_deleted,
    ensures
        !has_identifier(listed(s, include_invite_only), identifier),
{
    let all = all_responses(s);
    let shown = shown_in_lists(include_invite_only);
    let out = listed(s, include_invite_only);
    if has_identifier(out, identifier) {
        let i = choose|i: int| 0 <= i < out.len() && (#[trigger] out[i]).identifier == identifier;
        lemma_filter_from_source(all, shown, i);
        let k = choose|k: int| 0 <= k < all.len() && #[trigger] all[k] == out[i];
        assert(s.keys[k] == identifier);
        assert(k == s.keys.index_of(identifier));
        assert(all[k].is_deleted);
    }
}

/// What a query returns has the identifiers of groups of the list that was
/// queried.
pub proof fn lemma_filtered_from_source(
    groups: Seq<GroupResponseView>,
    filters: Seq<GroupFilterView>,
    filter_type: FilterType,
    identifier: Seq<u8>,
)
    requires
        has_identifier(filtered(groups, filters, filter_type), identifier),
    ensures
        has_identifier(groups, identifier),
{
    let out = filtered(groups, filters, filter_type);
    match filter_type {
        FilterType::And => {
            let i = choose|i: int|
                0 <= i < out.len() && (#[trigger] out[i]).identifier == identifier;
            lemma_filter_from_source(groups, passing_all(filters), i);
            let k = choose|k: int| 0 <= k < groups.len() && #[trigger] groups[k] == out[i];
            assert(groups[k].identifier == identifier);
        },
        FilterType::Or => {
            if filters.len() != 0 {
                let passed = groups.filter(passing_any(filters));
                lemma_first_of_each_identifiers(passed, identifier);
                let i = choose|i: int|
                    0 <= i < passed.len() && (#[trigger] passed[i]).identifier == identifier;
                lemma_filter_from_source(groups, passing_any(filters), i);
                let k = choose|k: int| 0 <= k < groups.len() && #[trigger] groups[k] == passed[i];
                assert(groups[k].identifier == identifier);
            }
        },
    }
}

/// A group that is marked as deleted is not among the groups found by
/// identifier.
pub proof fn lemma_deleted_is_not_found(s: StoreView, identifier: Seq<u8>, wanted: Seq<Seq<u8>>)
    requires
        holds(s, identifier),
        group_of(s, identifier).is_deleted,
    ensures
        !has_identifier(found_by_id(s, wanted), identifier),
    decreases wanted.len(),
{
    if wanted.len() > 0 {
        lemma_deleted_is_not_found(s, identifier, wanted.drop_last());
        let rest = found_by_id(s, wanted.drop_last());
        let out = found_by_id(s, wanted);
        if has_identifier(out, identifier) {
            let i = choose|i: int|
                0 <= i < out.len() && (#[trigger] out[i]).identifier == identifier;
            if i < rest.len() {
                assert(rest[i].identifier == identifier);
            }
        }
    }
}

/// Deleting a group sets its mark and hides it from every list, while the
/// group stays where it can be read by its identifier. With `deleted` the
/// group as [`crate::store::Store::delete_group`] leaves it in the node
/// `s`: the node still holds the group under its identifier, with the mark;
/// no page of groups, no answer to the directory and no answer to a list
/// of identifiers shows it.
pub proof fn lemma_delete_hides_and_keeps(
    s: StoreView,
    identifier: Seq<u8>,
    deleted: GroupView,
    include_invite_only: bool,
    filters: Seq<GroupFilterView>,
    filter_type: FilterType,
    wanted: Seq<Seq<u8>>,
)
    requires
        s.keys.no_duplicates(),
        s.keys.len() == s.groups.len(),
        holds(s, identifier),
        deleted.is_deleted,
    ensures
        holds(with_group(s, identifier, deleted), identifier),
        group_of(with_group(s, identifier, deleted), identifier) == deleted,
        response_of(
            identifier,
            group_of(with_group(s, identifier, deleted), identifier),
        ).is_deleted,
        !has_identifier(
            listed(with_group(s, identifier, deleted), include_invite_only),
            identifier,
        ),
        !has_identifier(
            filtered(
                listed(with_group(s, identifier, deleted), include_invite_only),
                filters,
                filter_type,
            ),
            identifier,
        ),
        !has_identifier(found_by_id(with_group(s, identifier, deleted), wanted), identifier),
{
    let after = with_group(s, identifier, deleted);
    lemma_deleted_is_not_listed(after, identifier, include_invite_only);
    if has_identifier(
        filtered(listed(after, include_invite_only), filters, filter_type),
        identifier,
    ) {
        lemma_filtered_from_source(
            listed(after, include_invite_only),
            filters,
            filter_type,
            identifier,
        );
    }
    lemma_deleted_is_not_found(after, identifier, wanted);
}

/// What is known of a node after it was entered.
pub proof fn lemma_with_node(
    nodes: Seq<ScalableCanisterDetailsView>,
    details: ScalableCanisterDetailsView,
)
    requires
        distinct_nodes(nodes),
    ensures
        distinct_nodes(with_node(nodes, details)),
        has_node(with_node(nodes, details), details.principal),
        with_node(nodes, details)[node_position(with_node(nodes, details), details.principal)]
            == details,
{
    let after = with_node(nodes, details);
    let at = if has_node(nodes, details.principal) {
        let found = choose|i: int|
            0 <= i < nodes.len() && (#[trigger] nodes[i]).principal == details.principal;
        lemma_first_node(nodes, details.principal, found);
        node_position(nodes, details.principal)
    } else {
        nodes.len() as int
    };
    assert(after[at] == details);
    assert(distinct_nodes(after)) by {
        assert forall|i: int, j: int| 0 <= i < j < after.len() implies (
        #[trigger] after[i]).principal != (#[trigger] after[j]).principal by {
            if i != at && i < nodes.len() {
                assert(after[i] == nodes[i]);
            }
            if j != at && j < nodes.len() {
                assert(after[j] == nodes[j]);
            }
        }
    }
    lemma_first_node(after, details.principal, at);
}

/// What is known of the other nodes after a node was entered.
pub proof fn lemma_with_node_keeps(
    nodes: Seq<ScalableCanisterDetailsView>,
    details: ScalableCanisterDetailsView,
    other: Seq<u8>,
)
    requires
        distinct_nodes(nodes),
        other != details.principal,
        has_node(nodes, other),
    ensures
        has_node(with_node(nodes, details), other),
        with_node(nodes, details)[node_position(with_node(nodes, details), other)]
            == nodes[node_position(nodes, other)],
{
    let after = with_node(nodes, details);
    lemma_with_node(nodes, details);
    let found = choose|i: int| 0 <= i < nodes.len() && (#[trigger] nodes[i]).principal == other;
    lemma_first_node(nodes, other, found);
    let k = node_position(nodes, other);
    if has_node(nodes, details.principal) {
        let seen = choose|i: int|
            0 <= i < nodes.len() && (#[trigger] nodes[i]).principal == details.principal;
        lemma_first_node(nodes, details.principal, seen);
    }
    assert(after[k] == nodes[k]);
    lemma_first_node(after, other, k);
}

/// Among nodes that are all different, a node stands where
/// [`node_position`] says.
pub proof fn lemma_first_node(nodes: Seq<ScalableCanisterDetailsView>, principal: Seq<u8>, at: int)
    requires
        distinct_nodes(nodes),
        0 <= at < nodes.len(),
        nodes[at].principal == principal,
    ensures
        has_node(nodes, principal),
        first_node_of(nodes, principal, at),
        node_position(nodes, principal) == at,
{
    assert(first_node_of(nodes, principal, at)) by {
        assert forall|k: int| 0 <= k < at implies (#[trigger] nodes[k]).principal != principal by {}
    }
    let chosen = node_position(nodes, principal);
    assert(first_node_of(nodes, principal, chosen));
}

/// After a full node was closed and the node that follows it was brought
/// up, the directory points to another node than the full one: the new node
/// runs the image and takes entries, the full node takes none, and a node
/// other than the full one that takes entries can be found. With `s` the
/// directory before the new node `node` was provisioned for the full node
/// `handoff.caller`.
pub proof fn lemma_sibling_takes_over(s: ScalableDataView, handoff: HandoffView, node: Seq<u8>)
    requires
        distinct_nodes(s.canisters),
        has_node(s.canisters, handoff.caller),
        handoff.task == Task::Sibling,
        handoff.node == node,
        node != handoff.caller,
    ensures
        ({
            let after = state_after_installed(
                state_after_created(s, Ok(node)),
                handoff,
                Ok(()),
            ).canisters;
            &&& distinct_nodes(after)
            &&& has_node(after, node)
            &&& lane_state(after[node_position(after, node)]) == LaneState::Active
            &&& has_node(after, handoff.caller)
            &&& lane_state(after[node_position(after, handoff.caller)]) == LaneState::Full
            &&& has_available(after, handoff.caller)
        }),
{
    let full = handoff.caller;
    let s1 = state_after_created(s, Ok(node));
    let n1 = s1.canisters;
    lemma_with_node(s.canisters, empty_node(node));
    lemma_with_node_keeps(s.canisters, empty_node(node), full);
    let installed = installed_node(s1, node);
    let n2 = with_node(n1, installed);
    lemma_with_node(n1, installed);
    lemma_with_node_keeps(n1, installed, full);
    assert(has_node(n2, full));
    let at_full = node_position(n2, full);
    let found = choose|i: int| 0 <= i < n2.len() && (#[trigger] n2[i]).principal == full;
    lemma_first_node(n2, full, found);
    let after = with_closed(n2, full, handoff.last_entry_id);
    assert(after == n2.update(at_full, closed_node(n2[at_full], handoff.last_entry_id)));
    assert(distinct_nodes(after)) by {
        assert forall|i: int, j: int| 0 <= i < j < after.len() implies (
        #[trigger] after[i]).principal != (#[trigger] after[j]).principal by {
            assert(after[i].principal == n2[i].principal);
            assert(after[j].principal == n2[j].principal);
        }
    }
    lemma_first_node(after, full, at_full);
    let at_node = node_position(n2, node);
    let found_node = choose|i: int| 0 <= i < n2.len() && (#[trigger] n2[i]).principal == node;
    lemma_first_node(n2, node, found_node);
    assert(at_node != at_full);
    assert(after[at_node] == installed);
    lemma_first_node(after, node, at_node);
    assert(after[at_node].principal != full && after[at_node].is_available);
}

/// The node `target` is the one node of the list that takes entries.
pub open spec fn sole_target(nodes: Seq<ScalableCanisterDetailsView>, target: Seq<u8>) -> bool {
    &&& has_node(nodes, target)
    &&& forall|i: int|
        0 <= i < nodes.len() ==> ((#[trigger] nodes[i]).is_available <==> nodes[i].principal
            == target)
}

/// Writes have one target at a time. Where the full node was the one node
/// that took entries and the node that follows it is new to the directory,
/// the new node is the one node that takes entries once the handoff has
/// closed the full one.
pub proof fn lemma_one_target_at_a_time(s: ScalableDataView, handoff: HandoffView, node: Seq<u8>)
    requires
        distinct_nodes(s.canisters),
        sole_target(s.canisters, handoff.caller),
        handoff.task == Task::Sibling,
        handoff.node == node,
        !has_node(s.canisters, node),
    ensures
        sole_target(
            state_after_installed(state_after_created(s, Ok(node)), handoff, Ok(())).canisters,
            node,
        ),
{
    let full = handoff.caller;
    let nodes = s.canisters;
    assert(node != full);
    lemma_sibling_takes_over(s, handoff, node);
    let s1 = state_after_created(s, Ok(node));
    let n1 = s1.canisters;
    assert(n1 == nodes.push(empty_node(node)));
    let installed = installed_node(s1, node);
    lemma_with_node(nodes, empty_node(node));
    lemma_first_node(n1, node, nodes.len() as int);
    let n2 = with_node(n1, installed);
    assert(n2 == n1.update(nodes.len() as int, installed));
    lemma_with_node(n1, installed);
    let found = choose|i: int| 0 <= i < nodes.len() && (#[trigger] nodes[i]).principal == full;
    assert(n2[found].principal == full);
    lemma_first_node(n2, full, found);
    let after = with_closed(n2, full, handoff.last_entry_id);
    assert(after == n2.update(found, closed_node(n2[found], handoff.last_entry_id)));
    assert forall|i: int| 0 <= i < after.len() implies ((#[trigger] after[i]).is_available
        <==> after[i].principal == node) by {
        if i == found {
        } else if i == nodes.len() {
        } else {
            assert(after[i] == nodes[i]);
        }
    }
}

/// What passes the test of a filter and was in the list is kept.
pub proof fn lemma_filter_keeps<A>(source: Seq<A>, keep: spec_fn(A) -> bool, k: int)
    requires
        0 <= k < source.len(),
        keep(source[k]),
    ensures
        source.filter(keep).contains(source[k]),
    decreases source.len(),
{
    reveal(Seq::filter);
    let front = source.drop_last();
    if k < front.len() {
        lemma_filter_keeps(front, keep, k);
        let kept = front.filter(keep);
        let i = choose|i: int| 0 <= i < kept.len() && kept[i] == front[k];
        assert(source.filter(keep)[i] == source[k]);
    } else {
        let kept = source.filter(keep);
        assert(kept == front.filter(keep).push(source.last()));
        assert(kept[kept.len() - 1] == source[k]);
    }
}

/// Under `And` a query returns exactly the groups of the list that pass
/// every predicate.
pub proof fn lemma_and_returns_what_passes_all(
    groups: Seq<GroupResponseView>,
    filters: Seq<GroupFilterView>,
    group: GroupResponseView,
)
    ensures
        filtered(groups, filters, FilterType::And).contains(group) <==> groups.contains(group)
            && matches_all(filters, group),
{
    let out = filtered(groups, filters, FilterType::And);
    if out.contains(group) {
        let i = choose|i: int| 0 <= i < out.len() && out[i] == group;
        lemma_filter_from_source(groups, passing_all(filters), i);
    }
    if groups.contains(group) && matches_all(filters, group) {
        let k = choose|k: int| 0 <= k < groups.len() && groups[k] == group;
        lemma_filter_keeps(groups, passing_all(filters), k);
    }
}

/// Under `Or` with at least one predicate a query returns the union: a
/// group for exactly the identifiers of the groups of the list that pass
/// some predicate, and each group that it returns is such a group.
pub proof fn lemma_or_returns_the_union(
    groups: Seq<GroupResponseView>,
    filters: Seq<GroupFilterView>,
    identifier: Seq<u8>,
)
    requires
        filters.len() > 0,
    ensures
        has_identifier(filtered(groups, filters, FilterType::Or), identifier) <==> exists|k: int|
            0 <= k < groups.len() && (#[trigger] groups[k]).identifier == identifier
                && matches_any(filters, groups[k]),
{
    let passed = groups.filter(passing_any(filters));
    lemma_first_of_each_identifiers(passed, identifier);
    if has_identifier(passed, identifier) {
        let i = choose|i: int|
            0 <= i < passed.len() && (#[trigger] passed[i]).identifier == identifier;
        lemma_filter_from_source(groups, passing_any(filters), i);
        let k = choose|k: int| 0 <= k < groups.len() && #[trigger] groups[k] == passed[i];
        assert(groups[k].identifier == identifier && matches_any(
            filters,
            groups[k],
        ));
    }
    if exists|k: int|
        0 <= k < groups.len() && (#[trigger] groups[k]).identifier == identifier
            && matches_any(filters, groups[k]) {
        let k = choose|k: int|
            0 <= k < groups.len() && (#[trigger] groups[k]).identifier == identifier
                && matches_any(filters, groups[k]);
        lemma_filter_keeps(groups, passing_any(filters), k);
        let i = choose|i: int| 0 <= i < passed.len() && passed[i] == groups[k];
        assert(passed[i].identifier == identifier);
    }
}

/// Under `Or` without a predicate a query returns the list as it is.
pub proof fn lemma_or_without_predicates(groups: Seq<GroupResponseView>)
    ensures
        filtered(groups, Seq::<GroupFilterView>::empty(), FilterType::Or) == groups,
{
}

/// Groups that go by the same name, or have the same number where the
/// order goes by a number, come out of a sort in the order in which they
/// went in: with `from` the positions that the groups of the output had in
/// the input, two groups that may stand either way stand as they stood.
pub proof fn lemma_ties_keep_their_order(
    input: Seq<GroupResponseView>,
    output: Seq<GroupResponseView>,
    sort: GroupSort,
    from: Seq<int>,
    i: int,
    j: int,
)
    requires
        rearranges(from, input, output),
        ordered_and_stable(from, output, sort),
        0 <= i < j < output.len(),
        precedes(sort, output[j], output[i]),
    ensures
        from[i] < from[j],
        output[i] == input[from[i]],
        output[j] == input[from[j]],
{
}

} // verus!
