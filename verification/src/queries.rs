use crate::chunk;
use crate::error::input;
use crate::filter::{filtered, get_filtered_groups, get_ordered_groups, is_stable_sort};
use crate::group_model::{FilterType, GroupFilter, GroupResponse, GroupResponseView, GroupSort};
use crate::paging::{get_paged_data, page_items, page_numbers, PagedResponse};
use crate::principal::Principal;
use crate::store::{
    all_responses, group_of, holds, listed, response_of, shown_in_lists, Store, StoreView,
};
use vstd::prelude::*;

verus! {

/// The groups, as callers see them, that the node holds under the
/// identifiers of a list and that are not deleted, in the order of the
/// list.
pub open spec fn found_by_id(s: StoreView, identifiers: Seq<Seq<u8>>) -> Seq<GroupResponseView>
    decreases identifiers.len(),
{
    if identifiers.len() == 0 {
        Seq::<GroupResponseView>::empty()
    } else {
        let rest = found_by_id(s, identifiers.drop_last());
        let identifier = identifiers.last();
        if holds(s, identifier) && !group_of(s, identifier).is_deleted {
            rest.push(response_of(identifier, group_of(s, identifier)))
        } else {
            rest
        }
    }
}

/// What the directory gets of a node when it asks for a chunk: nothing
/// unless it is the directory of the node that asks and the groups could be
/// serialized; else the chunk of the serialized groups.
pub open spec fn chunk_for(
    s: StoreView,
    caller: Seq<u8>,
    serialized: Option<Seq<u8>>,
    chunk: usize,
    max: usize,
) -> (Seq<u8>, (usize, usize)) {
    match serialized {
        Some(bytes) if caller == s.data.parent => (
            chunk::chunk_of(bytes, chunk as nat, max as nat),
            (
                chunk::chunk_index(bytes.len(), chunk, max as nat),
                chunk::total_chunks(bytes.len(), max as nat) as usize,
            ),
        ),
        _ => (Seq::<u8>::empty(), (0, 0)),
    }
}

impl Store {
    /// The groups that lists show: those that are not deleted, and of these
    /// the ones open to invited actors only just where they are asked for.
    pub fn listed_groups(&self, include_invite_only: bool) -> (r: Vec<GroupResponse>)
        requires
            self.wf(),
        ensures
            r.deep_view() == listed(self@, include_invite_only),
    {
        let ghost all = all_responses(self@);
        let ghost shown = shown_in_lists(include_invite_only);
        let mut out: Vec<GroupResponse> = Vec::new();
        let mut i: usize = 0;
        assert(out.deep_view() =~= all.take(0).filter(shown));
        while i < self.entries.len()
            invariant
                self.wf(),
                i <= self@.keys.len(),
                all == all_responses(self@),
                shown == shown_in_lists(include_invite_only),
                out.deep_view() == all.take(i as int).filter(shown),
            decreases self@.keys.len() - i,
        {
            let group = self.entries.value_at(i);
            proof {
                assert(all.take(i + 1).drop_last() == all.take(i as int));
                assert(all.take(i + 1).last() == all[i as int]);
                assert(self@.groups[i as int] == group@);
                reveal(Seq::filter);
            }
            let ghost before = out.deep_view();
            if !group.is_deleted && (include_invite_only || !group.privacy.is_invite_only()) {
                let response = self.response_at(i);
                out.push(response);
                assert(out.deep_view() =~= before.push(response@));
            }
            i += 1;
        }
        assert(all.take(i as int) == all);
        out
    }

    /// One page of the groups that lists show, narrowed by the filters and
    /// put in the order asked for by a stable sort.
    pub fn get_groups(
        &self,
        limit: usize,
        page: usize,
        filters: Vec<GroupFilter>,
        filter_type: FilterType,
        sort: GroupSort,
        include_invite_only: bool,
    ) -> (r: PagedResponse<GroupResponse>)
        requires
            self.wf(),
        ensures
            exists|sorted: Seq<GroupResponseView>| #[trigger]
                is_stable_sort(
                    filtered(listed(self@, include_invite_only), filters.deep_view(), filter_type),
                    sorted,
                    sort,
                ) && r.data.deep_view() == page_items(sorted, limit as nat, page as nat) && (
                    r.page as nat,
                    r.limit as nat,
                    r.total as nat,
                    r.number_of_pages as nat,
                ) == page_numbers(sorted.len(), limit as nat, page as nat),
    {
        let groups = self.listed_groups(include_invite_only);
        let narrowed = get_filtered_groups(groups, filters, filter_type);
        let ghost input = narrowed.deep_view();
        let ordered = get_ordered_groups(narrowed, sort);
        let ghost sorted = ordered.deep_view();
        let ghost shallow = ordered@;
        let r = get_paged_data(ordered, limit, page);
        proof {
            crate::paging::lemma_page_range(sorted.len(), limit as nat, page as nat);
            assert forall|k: int| 0 <= k < shallow.len() implies #[trigger] shallow[k]@
                == sorted[k] by {}
            assert(r.data.deep_view() =~= page_items(sorted, limit as nat, page as nat));
            assert(is_stable_sort(input, sorted, sort));
        }
        r
    }

    /// The groups that the directory gets when it gathers the groups of all
    /// nodes: those that are not deleted, narrowed by the filters.
    pub fn get_chunked_groups(&self, filters: Vec<GroupFilter>, filter_type: FilterType) -> (r: Vec<
        GroupResponse,
    >)
        requires
            self.wf(),
        ensures
            r.deep_view() == filtered(listed(self@, true), filters.deep_view(), filter_type),
    {
        get_filtered_groups(self.listed_groups(true), filters, filter_type)
    }

    /// One chunk of the serialized groups for the directory: see
    /// [`chunk_for`]. `serialized` holds the bytes of what
    /// [`Store::get_chunked_groups`] gave, or nothing where they could not
    /// be made.
    pub fn get_chunked_data(
        &self,
        caller: &Principal,
        serialized: Option<&Vec<u8>>,
        chunk: usize,
        max_bytes_per_chunk: usize,
    ) -> (r: (Vec<u8>, (usize, usize)))
        ensures
            (r.0@, r.1) == chunk_for(
                self@,
                caller@,
                match serialized {
                    Some(bytes) => Some(bytes@),
                    None => None,
                },
                chunk,
                max_bytes_per_chunk,
            ),
    {
        if !self.data.parent.same(caller) {
            return (Vec::new(), (0, 0));
        }
        match serialized {
            None => (Vec::new(), (0, 0)),
            Some(bytes) => chunk::get_chunked_data(bytes, chunk, max_bytes_per_chunk),
        }
    }

    /// The groups with the identifiers of a list, but for those that are
    /// deleted or that the node does not hold.
    pub fn get_groups_by_id(&self, group_ids: Vec<Principal>) -> (r: Vec<GroupResponse>)
        requires
            self.wf(),
        ensures
            r.deep_view() == found_by_id(self@, crate::group_model::principals_view(group_ids@)),
    {
        let ghost wanted = crate::group_model::principals_view(group_ids@);
        let mut out: Vec<GroupResponse> = Vec::new();
        let mut i: usize = 0;
        assert(out.deep_view() =~= found_by_id(self@, wanted.take(0)));
        while i < group_ids.len()
            invariant
                self.wf(),
                i <= group_ids@.len(),
                wanted == crate::group_model::principals_view(group_ids@),
                out.deep_view() == found_by_id(self@, wanted.take(i as int)),
            decreases group_ids@.len() - i,
        {
            proof {
                assert(wanted.take(i + 1).drop_last() == wanted.take(i as int));
                assert(wanted.take(i + 1).last() == group_ids@[i as int]@);
            }
            let ghost before = out.deep_view();
            match self.entries.position(&group_ids[i]) {
                None => {},
                Some(at) => {
                    assert(self@.groups[at as int] == self.entries.values()[at as int]@);
                    if !self.entries.value_at(at).is_deleted {
                        let response = self.response_at(at);
                        out.push(response);
                        assert(out.deep_view() =~= before.push(response@));
                    }
                },
            }
            i += 1;
        }
        assert(wanted.take(i as int) == wanted);
        out
    }
}

} // verus!
