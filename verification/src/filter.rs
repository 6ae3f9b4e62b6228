use crate::group_model::{
    principals_view, DateRange, FilterType, GroupFilter, GroupFilterView, GroupResponse,
    GroupResponseView, GroupSort, SortDirection,
};
use crate::principal::Principal;
use crate::text;
use vstd::prelude::*;

verus! {

/// Whether a date lies in a range. Both ends count; an end of zero leaves
/// the range open.
pub open spec fn in_range(date: u64, range: DateRange) -> bool {
    if range.end_date > 0 {
        range.start_date <= date <= range.end_date
    } else {
        date >= range.start_date
    }
}

/// Whether a group passes one predicate.
pub open spec fn matches(filter: GroupFilterView, group: GroupResponseView) -> bool {
    match filter {
        GroupFilterView::Name(value) => text::contains_ignoring_case(group.name, value),
        GroupFilterView::Owner(value) => group.owner == value,
        GroupFilterView::MemberCount(value) => value.0 <= group.member_count <= value.1,
        GroupFilterView::Identifiers(value) => value.contains(group.identifier),
        GroupFilterView::Tag(value) => group.tags.contains(value),
        GroupFilterView::UpdatedOn(value) => in_range(group.updated_on, value),
        GroupFilterView::CreatedOn(value) => in_range(group.created_on, value),
    }
}

/// Whether a group passes every predicate.
pub open spec fn matches_all(filters: Seq<GroupFilterView>, group: GroupResponseView) -> bool {
    forall|k: int| 0 <= k < filters.len() ==> matches(#[trigger] filters[k], group)
}

/// Whether a group passes at least one predicate.
pub open spec fn matches_any(filters: Seq<GroupFilterView>, group: GroupResponseView) -> bool {
    exists|k: int| 0 <= k < filters.len() && matches(#[trigger] filters[k], group)
}

/// The test "passes every predicate of `filters`".
pub open spec fn passing_all(filters: Seq<GroupFilterView>) -> spec_fn(GroupResponseView) -> bool {
    |group: GroupResponseView| matches_all(filters, group)
}

/// The test "passes some predicate of `filters`".
pub open spec fn passing_any(filters: Seq<GroupFilterView>) -> spec_fn(GroupResponseView) -> bool {
    |group: GroupResponseView| matches_any(filters, group)
}

/// Some group of the list has the identifier.
pub open spec fn has_identifier(groups: Seq<GroupResponseView>, identifier: Seq<u8>) -> bool {
    exists|k: int| 0 <= k < groups.len() && (#[trigger] groups[k]).identifier == identifier
}

/// The list without the groups whose identifier an earlier group of the list
/// has: of each identifier the first group stays.
pub open spec fn first_of_each(groups: Seq<GroupResponseView>) -> Seq<GroupResponseView>
    decreases groups.len(),
{
    if groups.len() == 0 {
        groups
    } else if has_identifier(groups.drop_last(), groups.last().identifier) {
        first_of_each(groups.drop_last())
    } else {
        first_of_each(groups.drop_last()).push(groups.last())
    }
}

/// What a query returns of a list of groups. Under `And`, the groups that
/// pass every predicate, in their order. Under `Or`, the groups that pass at
/// least one, in their order, one for each identifier; without any predicate,
/// the list as it is.
pub open spec fn filtered(
    groups: Seq<GroupResponseView>,
    filters: Seq<GroupFilterView>,
    filter_type: FilterType,
) -> Seq<GroupResponseView> {
    match filter_type {
        FilterType::And => groups.filter(passing_all(filters)),
        FilterType::Or => if filters.len() == 0 {
            groups
        } else {
            first_of_each(groups.filter(passing_any(filters)))
        },
    }
}

/// The groups that stay are those whose identifier the list had.
pub proof fn lemma_first_of_each_identifiers(groups: Seq<GroupResponseView>, identifier: Seq<u8>)
    ensures
        has_identifier(first_of_each(groups), identifier) == has_identifier(groups, identifier),
    decreases groups.len(),
{
    if groups.len() > 0 {
        let front = groups.drop_last();
        let last = groups.last();
        lemma_first_of_each_identifiers(front, identifier);
        lemma_first_of_each_identifiers(front, last.identifier);
        if has_identifier(groups, identifier) {
            let k = choose|k: int|
                0 <= k < groups.len() && (#[trigger] groups[k]).identifier == identifier;
            if k < front.len() {
                assert(front[k].identifier == identifier);
            }
        }
        if has_identifier(front, identifier) {
            let k = choose|k: int|
                0 <= k < front.len() && (#[trigger] front[k]).identifier == identifier;
            assert(groups[k].identifier == identifier);
        }
        let kept = first_of_each(groups);
        if has_identifier(front, last.identifier) {
            assert(kept == first_of_each(front));
            if identifier == last.identifier {
                assert(groups[groups.len() - 1].identifier == identifier);
            }
        } else {
            assert(kept == first_of_each(front).push(last));
            if has_identifier(kept, identifier) {
                let k = choose|k: int|
                    0 <= k < kept.len() && (#[trigger] kept[k]).identifier == identifier;
                if k < kept.len() - 1 {
                    assert(first_of_each(front)[k].identifier == identifier);
                } else {
                    assert(groups[groups.len() - 1].identifier == identifier);
                }
            }
            if has_identifier(first_of_each(front), identifier) {
                let k = choose|k: int|
                    0 <= k < first_of_each(front).len() && (#[trigger] first_of_each(
                        front,
                    )[k]).identifier == identifier;
                assert(kept[k].identifier == identifier);
            }
            if identifier == last.identifier {
                assert(kept[kept.len() - 1].identifier == identifier);
                assert(groups[groups.len() - 1].identifier == identifier);
            }
        }
    }
}

/// Whether `value` is one of `tags`.
pub fn has_tag(tags: &Vec<u32>, value: u32) -> (r: bool)
    ensures
        r == tags@.contains(value),
{
    let mut i: usize = 0;
    while i < tags.len()
        invariant
            i <= tags@.len(),
            forall|k: int| 0 <= k < i ==> tags@[k] != value,
        decreases tags@.len() - i,
    {
        if tags[i] == value {
            return true;
        }
        i += 1;
    }
    false
}

/// Whether `wanted` is one of `principals`.
pub fn has_principal(principals: &Vec<Principal>, wanted: &Principal) -> (r: bool)
    ensures
        r == principals_view(principals@).contains(wanted@),
{
    let mut i: usize = 0;
    while i < principals.len()
        invariant
            i <= principals@.len(),
            forall|k: int| 0 <= k < i ==> principals_view(principals@)[k] != wanted@,
        decreases principals@.len() - i,
    {
        if principals[i].same(wanted) {
            assert(principals_view(principals@)[i as int] == wanted@);
            return true;
        }
        i += 1;
    }
    false
}

impl DateRange {
    /// Whether `date` lies in the range.
    pub fn holds(&self, date: u64) -> (r: bool)
        ensures
            r == in_range(date, *self),
    {
        if self.end_date > 0 {
            date >= self.start_date && date <= self.end_date
        } else {
            date >= self.start_date
        }
    }
}

impl GroupFilter {
    /// Whether `group` passes this predicate.
    pub fn matches(&self, group: &GroupResponse) -> (r: bool)
        ensures
            r == matches(self@, group@),
    {
        match self {
            GroupFilter::Name(value) => {
                let name = text::to_lowercase(group.name.as_str());
                let wanted = text::to_lowercase(value.as_str());
                text::contains(name.as_str(), wanted.as_str())
            },
            GroupFilter::Owner(value) => group.owner.same(value),
            GroupFilter::MemberCount(value) => group.member_count >= value.0 && group.member_count
                <= value.1,
            GroupFilter::Identifiers(value) => has_principal(value, &group.identifier),
            GroupFilter::Tag(value) => has_tag(&group.tags, *value),
            GroupFilter::UpdatedOn(value) => value.holds(group.updated_on),
            GroupFilter::CreatedOn(value) => value.holds(group.created_on),
        }
    }
}

/// Whether `group` passes every predicate of `filters`.
pub fn passes_all(filters: &Vec<GroupFilter>, group: &GroupResponse) -> (r: bool)
    ensures
        r == matches_all(filters.deep_view(), group@),
{
    let mut k: usize = 0;
    while k < filters.len()
        invariant
            k <= filters@.len(),
            forall|n: int| 0 <= n < k ==> matches(#[trigger] filters.deep_view()[n], group@),
        decreases filters@.len() - k,
    {
        assert(filters.deep_view()[k as int] == filters@[k as int]@);
        if !filters[k].matches(group) {
            return false;
        }
        k += 1;
    }
    true
}

/// Whether `group` passes some predicate of `filters`.
pub fn passes_any(filters: &Vec<GroupFilter>, group: &GroupResponse) -> (r: bool)
    ensures
        r == matches_any(filters.deep_view(), group@),
{
    let mut k: usize = 0;
    while k < filters.len()
        invariant
            k <= filters@.len(),
            forall|n: int| 0 <= n < k ==> !matches(#[trigger] filters.deep_view()[n], group@),
        decreases filters@.len() - k,
    {
        assert(filters.deep_view()[k as int] == filters@[k as int]@);
        if filters[k].matches(group) {
            return true;
        }
        k += 1;
    }
    false
}

/// Whether some group of `groups` has the identifier.
pub fn holds_identifier(groups: &Vec<GroupResponse>, identifier: &Principal) -> (r: bool)
    ensures
        r == has_identifier(groups.deep_view(), identifier@),
{
    let mut k: usize = 0;
    while k < groups.len()
        invariant
            k <= groups@.len(),
            forall|n: int|
                0 <= n < k ==> (#[trigger] groups.deep_view()[n]).identifier != identifier@,
        decreases groups@.len() - k,
    {
        assert(groups.deep_view()[k as int] == groups@[k as int]@);
        if groups[k].identifier.same(identifier) {
            return true;
        }
        k += 1;
    }
    false
}

/// Narrows a list of groups to what a query asks for: see [`filtered`].
pub fn get_filtered_groups(
    groups: Vec<GroupResponse>,
    filters: Vec<GroupFilter>,
    filter_type: FilterType,
) -> (r: Vec<GroupResponse>)
    ensures
        r.deep_view() == filtered(groups.deep_view(), filters.deep_view(), filter_type),
{
    let ghost all = groups.deep_view();
    let ghost asked = filters.deep_view();
    match filter_type {
        FilterType::And => {
            let mut out: Vec<GroupResponse> = Vec::new();
            assert(out.deep_view() =~= all.take(0).filter(passing_all(asked)));
            for group in it: groups
                invariant
                    it.seq().len() == all.len(),
                    forall|k: int| 0 <= k < all.len() ==> it.seq()[k]@ == all[k],
                    asked == filters.deep_view(),
                    out.deep_view() == all.take(it.index() as int).filter(passing_all(asked)),
            {
                proof {
                    let i = it.index() as int;
                    assert(all.take(i + 1).drop_last() == all.take(i));
                    assert(all.take(i + 1).last() == group@);
                    reveal(Seq::filter);
                }
                let ghost before = out.deep_view();
                if passes_all(&filters, &group) {
                    out.push(group);
                    assert(out.deep_view() =~= before.push(group@));
                }
            }
            assert(all.take(all.len() as int) == all);
            out
        },
        FilterType::Or => {
            if filters.len() == 0 {
                return groups;
            }
            let mut out: Vec<GroupResponse> = Vec::new();
            assert(out.deep_view() =~= first_of_each(all.take(0).filter(passing_any(asked))));
            for group in it: groups
                invariant
                    it.seq().len() == all.len(),
                    forall|k: int| 0 <= k < all.len() ==> it.seq()[k]@ == all[k],
                    asked == filters.deep_view(),
                    out.deep_view() == first_of_each(
                        all.take(it.index() as int).filter(passing_any(asked)),
                    ),
            {
                let ghost passed = all.take(it.index() as int).filter(passing_any(asked));
                proof {
                    let i = it.index() as int;
                    assert(all.take(i + 1).drop_last() == all.take(i));
                    assert(all.take(i + 1).last() == group@);
                    reveal(Seq::filter);
                    lemma_first_of_each_identifiers(passed, group@.identifier);
                }
                let ghost before = out.deep_view();
                if passes_any(&filters, &group) {
                    proof {
                        assert(passed.push(group@).drop_last() == passed);
                    }
                    if !holds_identifier(&out, &group.identifier) {
                        out.push(group);
                        assert(out.deep_view() =~= before.push(group@));
                    }
                }
            }
            assert(all.take(all.len() as int) == all);
            out
        },
    }
}

/// Whether `a` may stand before `b` in a list ordered by `sort`: its key is
/// not beyond that of `b` in the direction asked for.
pub open spec fn precedes(sort: GroupSort, a: GroupResponseView, b: GroupResponseView) -> bool {
    match sort {
        GroupSort::Name(SortDirection::Asc) => text::text_le(a.name, b.name),
        GroupSort::Name(SortDirection::Desc) => text::text_le(b.name, a.name),
        GroupSort::MemberCount(SortDirection::Asc) => a.member_count <= b.member_count,
        GroupSort::MemberCount(SortDirection::Desc) => b.member_count <= a.member_count,
        GroupSort::CreatedOn(SortDirection::Asc) => a.created_on <= b.created_on,
        GroupSort::CreatedOn(SortDirection::Desc) => b.created_on <= a.created_on,
        GroupSort::UpdatedOn(SortDirection::Asc) => a.updated_on <= b.updated_on,
        GroupSort::UpdatedOn(SortDirection::Desc) => b.updated_on <= a.updated_on,
    }
}

/// `output` holds the groups of `input`, each once: the group at position
/// `i` of `output` is the one at position `from[i]` of `input`.
pub open spec fn rearranges(
    from: Seq<int>,
    input: Seq<GroupResponseView>,
    output: Seq<GroupResponseView>,
) -> bool {
    &&& from.len() == output.len()
    &&& input.len() == output.len()
    &&& forall|i: int|
        0 <= i < from.len() ==> 0 <= #[trigger] from[i] < input.len() && output[i] == input[from[i]]
    &&& forall|i: int, j: int| 0 <= i < j < from.len() ==> #[trigger] from[i] != #[trigger] from[j]
}

/// `output` is in the order of `sort`, and groups with the same key stand
/// as they stood in the input.
pub open spec fn ordered_and_stable(
    from: Seq<int>,
    output: Seq<GroupResponseView>,
    sort: GroupSort,
) -> bool {
    forall|i: int, j: int|
        0 <= i < j < output.len() ==> precedes(sort, #[trigger] output[i], #[trigger] output[j])
            && (precedes(sort, output[j], output[i]) ==> from[i] < from[j])
}

/// `output` is `input` put in the order of `sort` by a stable sort.
pub open spec fn is_stable_sort(
    input: Seq<GroupResponseView>,
    output: Seq<GroupResponseView>,
    sort: GroupSort,
) -> bool {
    exists|from: Seq<int>|
        #[trigger] rearranges(from, input, output) && ordered_and_stable(from, output, sort)
}

/// Of two groups one may stand before the other.
pub proof fn lemma_precedes_total(sort: GroupSort, a: GroupResponseView, b: GroupResponseView)
    ensures
        precedes(sort, a, b) || precedes(sort, b, a),
{
    text::lemma_text_le_total(a.name, b.name);
}

/// Standing before is transitive.
pub proof fn lemma_precedes_transitive(
    sort: GroupSort,
    a: GroupResponseView,
    b: GroupResponseView,
    c: GroupResponseView,
)
    requires
        precedes(sort, a, b),
        precedes(sort, b, c),
    ensures
        precedes(sort, a, c),
{
    match sort {
        GroupSort::Name(SortDirection::Asc) => text::lemma_text_le_transitive(
            a.name,
            b.name,
            c.name,
        ),
        GroupSort::Name(SortDirection::Desc) => text::lemma_text_le_transitive(
            c.name,
            b.name,
            a.name,
        ),
        _ => {},
    }
}

/// Whether `a` may stand before `b` in a list ordered by `sort`.
pub fn in_order(sort: GroupSort, a: &GroupResponse, b: &GroupResponse) -> (r: bool)
    ensures
        r == precedes(sort, a@, b@),
{
    match sort {
        GroupSort::Name(SortDirection::Asc) => text::le(a.name.as_str(), b.name.as_str()),
        GroupSort::Name(SortDirection::Desc) => text::le(b.name.as_str(), a.name.as_str()),
        GroupSort::MemberCount(SortDirection::Asc) => a.member_count <= b.member_count,
        GroupSort::MemberCount(SortDirection::Desc) => b.member_count <= a.member_count,
        GroupSort::CreatedOn(SortDirection::Asc) => a.created_on <= b.created_on,
        GroupSort::CreatedOn(SortDirection::Desc) => b.created_on <= a.created_on,
        GroupSort::UpdatedOn(SortDirection::Asc) => a.updated_on <= b.updated_on,
        GroupSort::UpdatedOn(SortDirection::Desc) => b.updated_on <= a.updated_on,
    }
}

/// Puts a list of groups in the order of `sort`. The sort is stable: groups
/// with the same key stay in the order in which they came.
pub fn get_ordered_groups(groups: Vec<GroupResponse>, sort: GroupSort) -> (r: Vec<GroupResponse>)
    ensures
        is_stable_sort(groups.deep_view(), r.deep_view(), sort),
{
    let ghost input = groups.deep_view();
    let mut rest = groups;
    let mut out: Vec<GroupResponse> = Vec::new();
    let ghost mut from: Seq<int> = Seq::empty();
    while rest.len() > 0
        invariant
            rest@.len() <= input.len(),
            rest.deep_view() == input.take(rest@.len() as int),
            from.len() == out@.len(),
            out@.len() == input.len() - rest@.len(),
            forall|i: int|
                0 <= i < from.len() ==> rest@.len() <= #[trigger] from[i] < input.len()
                    && out.deep_view()[i] == input[from[i]],
            forall|i: int, j: int|
                0 <= i < j < from.len() ==> #[trigger] from[i] != #[trigger] from[j],
            ordered_and_stable(from, out.deep_view(), sort),
        decreases rest@.len(),
    {
        let ghost k = rest@.len() as int;
        let ghost rest_before = rest.deep_view();
        let group = rest.pop().unwrap();
        assert(group@ == rest_before[k - 1]);
        assert(rest.deep_view() =~= input.take(k - 1));
        let mut at: usize = 0;
        while at < out.len() && !in_order(sort, &group, &out[at])
            invariant
                at <= out@.len(),
                forall|i: int|
                    0 <= i < at ==> !precedes(sort, group@, #[trigger] out.deep_view()[i]),
            decreases out@.len() - at,
        {
            at += 1;
        }
        let ghost placed = out.deep_view();
        let ghost from_before = from;
        out.insert(at, group);
        proof {
            from = from_before.insert(at as int, k - 1);
            let now = out.deep_view();
            assert(now =~= placed.insert(at as int, group@));
            assert forall|i: int, j: int| 0 <= i < j < now.len() implies precedes(
                sort,
                #[trigger] now[i],
                #[trigger] now[j],
            ) && (precedes(sort, now[j], now[i]) ==> from[i] < from[j]) by {
                if j < at {
                    assert(now[i] == placed[i] && now[j] == placed[j]);
                } else if j == at {
                    assert(now[i] == placed[i]);
                    lemma_precedes_total(sort, group@, placed[i]);
                } else if i < at {
                    assert(now[i] == placed[i] && now[j] == placed[j - 1]);
                } else if i == at {
                    assert(now[j] == placed[j - 1]);
                    assert(from[j] == from_before[j - 1]);
                    if j - 1 > at {
                        assert(precedes(sort, placed[at as int], placed[j - 1]));
                        lemma_precedes_transitive(sort, group@, placed[at as int], placed[j - 1]);
                    }
                } else {
                    assert(now[i] == placed[i - 1] && now[j] == placed[j - 1]);
                }
            }
        }
    }
    proof {
        assert(rearranges(from, input, out.deep_view()));
    }
    out
}

} // verus!
