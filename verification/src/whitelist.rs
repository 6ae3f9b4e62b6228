use crate::principal::Principal;
use vstd::prelude::*;

verus! {

/// What a principal of the whitelist may do. `Owner` is above `ReadWrite`,
/// which is above `Read`; in the order of the rights the more privileged
/// comes first.
#[derive(Clone, Copy, Debug, PartialEq, Eq, PartialOrd, Ord, Hash, Structural)]
pub enum WhitelistRights {
    Owner,
    ReadWrite,
    Read,
}

impl WhitelistRights {
    /// The place of the right in the order: the lower, the more privileged.
    pub open spec fn rank(self) -> int {
        match self {
            WhitelistRights::Owner => 0,
            WhitelistRights::ReadWrite => 1,
            WhitelistRights::Read => 2,
        }
    }

    /// Whether a holder of this right may do what asks for `required`.
    pub open spec fn satisfies(self, required: WhitelistRights) -> bool {
        self.rank() <= required.rank()
    }

    /// The text of the right.
    pub open spec fn name_view(self) -> Seq<char> {
        match self {
            WhitelistRights::Owner => "Owner"@,
            WhitelistRights::ReadWrite => "ReadWrite"@,
            WhitelistRights::Read => "Read"@,
        }
    }

    /// Whether a holder of this right may do what asks for `required`.
    pub fn allows(&self, required: WhitelistRights) -> (r: bool)
        ensures
            r == self.satisfies(required),
    {
        match self {
            WhitelistRights::Owner => true,
            WhitelistRights::ReadWrite => match required {
                WhitelistRights::Owner => false,
                _ => true,
            },
            WhitelistRights::Read => match required {
                WhitelistRights::Read => true,
                _ => false,
            },
        }
    }

    /// Whether the right is that of the owner.
    pub fn is_owner(&self) -> (r: bool)
        ensures
            r == (*self == WhitelistRights::Owner),
    {
        match self {
            WhitelistRights::Owner => true,
            _ => false,
        }
    }

    /// The text of the right.
    pub fn name(&self) -> (r: &'static str)
        ensures
            r@ == self.name_view(),
    {
        match self {
            WhitelistRights::Owner => "Owner",
            WhitelistRights::ReadWrite => "ReadWrite",
            WhitelistRights::Read => "Read",
        }
    }
}

/// One principal of the whitelist, with the label it goes by, its right and
/// the time it was entered.
#[derive(Clone, Debug, PartialEq, Eq)]
pub struct WhitelistEntry {
    pub label: String,
    pub principal: Principal,
    pub rights: WhitelistRights,
    pub created_on: u64,
}

/// [`WhitelistEntry`] as contracts speak of it.
pub struct WhitelistEntryView {
    pub label: Seq<char>,
    pub principal: Seq<u8>,
    pub rights: WhitelistRights,
    pub created_on: u64,
}

impl View for WhitelistEntry {
    type V = WhitelistEntryView;

    open spec fn view(&self) -> WhitelistEntryView {
        WhitelistEntryView {
            label: self.label@,
            principal: self.principal@,
            rights: self.rights,
            created_on: self.created_on,
        }
    }
}

impl DeepView for WhitelistEntry {
    type V = WhitelistEntryView;

    open spec fn deep_view(&self) -> WhitelistEntryView {
        self@
    }
}

impl WhitelistEntry {
    /// A copy of the entry.
    pub fn duplicate(&self) -> (r: WhitelistEntry)
        ensures
            r@ == self@,
    {
        WhitelistEntry {
            label: self.label.clone(),
            principal: self.principal.clone(),
            rights: self.rights,
            created_on: self.created_on,
        }
    }
}

/// Position `i` holds the first entry of the principal.
pub open spec fn first_entry_of(
    whitelist: Seq<WhitelistEntryView>,
    principal: Seq<u8>,
    i: int,
) -> bool {
    &&& 0 <= i < whitelist.len()
    &&& whitelist[i].principal == principal
    &&& forall|k: int| 0 <= k < i ==> (#[trigger] whitelist[k]).principal != principal
}

/// The whitelist holds the principal.
pub open spec fn is_listed(whitelist: Seq<WhitelistEntryView>, principal: Seq<u8>) -> bool {
    exists|i: int| 0 <= i < whitelist.len() && (#[trigger] whitelist[i]).principal == principal
}

/// The principal may do what asks for `required`: the whitelist holds it,
/// with a right that satisfies `required`.
pub open spec fn authorized(
    whitelist: Seq<WhitelistEntryView>,
    principal: Seq<u8>,
    required: WhitelistRights,
) -> bool {
    exists|i: int| #[trigger]
        first_entry_of(whitelist, principal, i) && whitelist[i].rights.satisfies(required)
}

/// No principal has two entries.
pub open spec fn distinct_principals(whitelist: Seq<WhitelistEntryView>) -> bool {
    forall|i: int, j: int|
        0 <= i < j < whitelist.len() ==> (#[trigger] whitelist[i]).principal != (
        #[trigger] whitelist[j]).principal
}

/// Position `i` holds the entry of the owner, and no other entry has the
/// owner's right.
pub open spec fn sole_owner_at(whitelist: Seq<WhitelistEntryView>, i: int) -> bool {
    &&& 0 <= i < whitelist.len()
    &&& whitelist[i].rights == WhitelistRights::Owner
    &&& forall|k: int|
        0 <= k < whitelist.len() && k != i ==> (#[trigger] whitelist[k]).rights
            != WhitelistRights::Owner
}

/// The whitelist holds exactly one entry with the owner's right.
pub open spec fn has_one_owner(whitelist: Seq<WhitelistEntryView>) -> bool {
    exists|i: int| sole_owner_at(whitelist, i)
}

/// Validity of a whitelist: one entry for each principal, and exactly one
/// owner.
pub open spec fn whitelist_wf(whitelist: Seq<WhitelistEntryView>) -> bool {
    distinct_principals(whitelist) && has_one_owner(whitelist)
}

/// The position of the first entry of the principal.
pub fn find_entry(whitelist: &Vec<WhitelistEntry>, principal: &Principal) -> (r: Option<usize>)
    ensures
        r is Some <==> is_listed(whitelist.deep_view(), principal@),
        r matches Some(i) ==> first_entry_of(whitelist.deep_view(), principal@, i as int),
{
    let mut i: usize = 0;
    while i < whitelist.len()
        invariant
            i <= whitelist@.len(),
            forall|k: int|
                0 <= k < i ==> (#[trigger] whitelist.deep_view()[k]).principal != principal@,
        decreases whitelist@.len() - i,
    {
        assert(whitelist.deep_view()[i as int] == whitelist@[i as int]@);
        if whitelist[i].principal.same(principal) {
            return Some(i);
        }
        i += 1;
    }
    None
}

/// Whether the principal may do what asks for `required`.
pub fn authorize(
    whitelist: &Vec<WhitelistEntry>,
    principal: &Principal,
    required: WhitelistRights,
) -> (r: bool)
    ensures
        r == authorized(whitelist.deep_view(), principal@, required),
{
    match find_entry(whitelist, principal) {
        None => false,
        Some(i) => {
            assert(whitelist.deep_view()[i as int] == whitelist@[i as int]@);
            let r = whitelist[i].rights.allows(required);
            proof {
                assert forall|j: int| #[trigger]
                    first_entry_of(whitelist.deep_view(), principal@, j) implies j == i by {}
            }
            r
        },
    }
}

/// Whether a whitelist is valid: see [`whitelist_wf`].
pub fn whitelist_is_valid(whitelist: &Vec<WhitelistEntry>) -> (r: bool)
    ensures
        r == whitelist_wf(whitelist.deep_view()),
{
    let ghost all = whitelist.deep_view();
    let mut owner: Option<usize> = None;
    let mut i: usize = 0;
    while i < whitelist.len()
        invariant
            i <= whitelist@.len(),
            all == whitelist.deep_view(),
            forall|a: int, b: int|
                0 <= a < b < i ==> (#[trigger] all[a]).principal != (#[trigger] all[b]).principal,
            match owner {
                Some(at) => at < i && all[at as int].rights == WhitelistRights::Owner && forall|
                    k: int,
                |
                    0 <= k < i && k != at ==> (#[trigger] all[k]).rights != WhitelistRights::Owner,
                None => forall|k: int|
                    0 <= k < i ==> (#[trigger] all[k]).rights != WhitelistRights::Owner,
            },
        decreases whitelist@.len() - i,
    {
        assert(all[i as int] == whitelist@[i as int]@);
        if whitelist[i].rights.is_owner() {
            match owner {
                Some(at) => {
                    assert(!has_one_owner(all)) by {
                        if has_one_owner(all) {
                            let w = choose|w: int| sole_owner_at(all, w);
                            assert(all[at as int].rights == WhitelistRights::Owner);
                            assert(all[i as int].rights == WhitelistRights::Owner);
                        }
                    }
                    return false;
                },
                None => {
                    owner = Some(i);
                },
            }
        }
        let mut j: usize = 0;
        while j < i
            invariant
                j <= i < whitelist@.len(),
                all == whitelist.deep_view(),
                forall|a: int|
                    0 <= a < j ==> (#[trigger] all[a]).principal != all[i as int].principal,
            decreases i - j,
        {
            assert(all[j as int] == whitelist@[j as int]@);
            if whitelist[j].principal.same(&whitelist[i].principal) {
                assert(all[j as int].principal == all[i as int].principal);
                return false;
            }
            j += 1;
        }
        i += 1;
    }
    match owner {
        Some(at) => {
            assert(sole_owner_at(all, at as int));
            true
        },
        None => {
            assert(!has_one_owner(all)) by {
                if has_one_owner(all) {
                    let w = choose|w: int| sole_owner_at(all, w);
                    assert(all[w].rights == WhitelistRights::Owner);
                }
            }
            false
        },
    }
}

/// A copy of a whitelist.
pub fn duplicate_whitelist(whitelist: &Vec<WhitelistEntry>) -> (r: Vec<WhitelistEntry>)
    ensures
        r.deep_view() == whitelist.deep_view(),
{
    let mut copy: Vec<WhitelistEntry> = Vec::new();
    let mut i: usize = 0;
    while i < whitelist.len()
        invariant
            i <= whitelist@.len(),
            copy@.len() == i,
            forall|k: int| 0 <= k < i ==> copy@[k]@ == whitelist@[k]@,
        decreases whitelist@.len() - i,
    {
        copy.push(whitelist[i].duplicate());
        i += 1;
    }
    assert(copy.deep_view() =~= whitelist.deep_view());
    copy
}

/// A right that passes a check passes every check that asks for less: with
/// `r1` at least as privileged as `r2`, whoever may do what asks for `r1`
/// may do what asks for `r2`.
pub proof fn lemma_authorized_monotone(
    whitelist: Seq<WhitelistEntryView>,
    principal: Seq<u8>,
    r1: WhitelistRights,
    r2: WhitelistRights,
)
    requires
        r1.satisfies(r2),
        authorized(whitelist, principal, r1),
    ensures
        authorized(whitelist, principal, r2),
{
    let i = choose|i: int| #[trigger]
        first_entry_of(whitelist, principal, i) && whitelist[i].rights.satisfies(r1);
    assert(first_entry_of(whitelist, principal, i) && whitelist[i].rights.satisfies(r2));
}

/// A principal is granted what asks for `required` exactly when its entry
/// holds a right that is at least as privileged. So an entry with the right
/// `Read` passes no check that asks for `ReadWrite` or `Owner`.
pub proof fn lemma_authorized_by_stored_right(
    whitelist: Seq<WhitelistEntryView>,
    i: int,
    required: WhitelistRights,
)
    requires
        distinct_principals(whitelist),
        0 <= i < whitelist.len(),
    ensures
        authorized(whitelist, whitelist[i].principal, required) == whitelist[i].rights.satisfies(
            required,
        ),
        whitelist[i].rights == WhitelistRights::Read && required != WhitelistRights::Read
            ==> !authorized(whitelist, whitelist[i].principal, required),
{
    let principal = whitelist[i].principal;
    assert(first_entry_of(whitelist, principal, i));
    assert forall|j: int| #[trigger] first_entry_of(whitelist, principal, j) implies j == i by {}
}

} // verus!
