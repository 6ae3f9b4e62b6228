use crate::error::{
    api_error, error_of, input, input_line, location_of, ApiError, ApiErrorType, ApiErrorView,
};
use crate::paging::{get_paged_data, PagedResponse};
use crate::principal::{principal_text, Principal};
use crate::snapshot::{lines1, lines2, lines3, lines4, principal_input, principal_line};
use crate::whitelist::{
    authorize, authorized, duplicate_whitelist, find_entry, first_entry_of, is_listed,
    sole_owner_at, whitelist_wf, WhitelistEntry, WhitelistEntryView, WhitelistRights,
};
use vstd::prelude::*;
use vstd::string::StringExecFns;

verus! {

/// The version of the code image that a node runs.
#[derive(Clone, Copy, Debug, PartialEq, Eq, Structural)]
pub enum WasmVersion {
    /// No image runs.
    NoVersion,
    Version(u64),
    Custom,
}

/// What a node is: empty as provisioned, or running some image.
#[derive(Clone, Copy, Debug, PartialEq, Eq, Structural)]
pub enum CanisterType {
    Empty,
    Custom,
    Foundation,
    Scalable,
    ScalableChild,
}

/// What the directory knows of one node.
#[derive(Debug, PartialEq, Eq)]
pub struct ScalableCanisterDetails {
    pub principal: Principal,
    pub canister_type: CanisterType,
    pub wasm_version: WasmVersion,
    /// Whether the node takes new entries.
    pub is_available: bool,
    /// The numbers of the entries of the node, from the first to the last;
    /// no last one while the node takes entries.
    pub entry_range: (u64, Option<u64>),
}

/// [`ScalableCanisterDetails`] as contracts speak of it.
pub struct ScalableCanisterDetailsView {
    pub principal: Seq<u8>,
    pub canister_type: CanisterType,
    pub wasm_version: WasmVersion,
    pub is_available: bool,
    pub entry_range: (u64, Option<u64>),
}

impl View for ScalableCanisterDetails {
    type V = ScalableCanisterDetailsView;

    open spec fn view(&self) -> ScalableCanisterDetailsView {
        ScalableCanisterDetailsView {
            principal: self.principal@,
            canister_type: self.canister_type,
            wasm_version: self.wasm_version,
            is_available: self.is_available,
            entry_range: self.entry_range,
        }
    }
}

impl DeepView for ScalableCanisterDetails {
    type V = ScalableCanisterDetailsView;

    open spec fn deep_view(&self) -> ScalableCanisterDetailsView {
        self@
    }
}

impl Clone for ScalableCanisterDetails {
    fn clone(&self) -> (r: ScalableCanisterDetails)
        ensures
            r@ == self@,
    {
        ScalableCanisterDetails {
            principal: self.principal.clone(),
            canister_type: self.canister_type,
            wasm_version: self.wasm_version,
            is_available: self.is_available,
            entry_range: (self.entry_range.0, self.entry_range.1),
        }
    }
}

/// The code image that the directory installs on its nodes.
#[derive(Clone, Debug, PartialEq, Eq)]
pub struct WasmDetails {
    pub label: String,
    pub bytes: Vec<u8>,
    pub wasm_type: CanisterType,
    pub wasm_version: WasmVersion,
    pub updated_at: u64,
    pub created_at: u64,
}

/// [`WasmDetails`] as contracts speak of it.
pub struct WasmDetailsView {
    pub label: Seq<char>,
    pub bytes: Seq<u8>,
    pub wasm_type: CanisterType,
    pub wasm_version: WasmVersion,
    pub updated_at: u64,
    pub created_at: u64,
}

impl View for WasmDetails {
    type V = WasmDetailsView;

    open spec fn view(&self) -> WasmDetailsView {
        WasmDetailsView {
            label: self.label@,
            bytes: self.bytes@,
            wasm_type: self.wasm_type,
            wasm_version: self.wasm_version,
            updated_at: self.updated_at,
            created_at: self.created_at,
        }
    }
}

impl WasmDetails {
    /// A copy of the image.
    pub fn duplicate(&self) -> (r: WasmDetails)
        ensures
            r@ == self@,
    {
        WasmDetails {
            label: self.label.clone(),
            bytes: self.bytes.clone(),
            wasm_type: self.wasm_type,
            wasm_version: self.wasm_version,
            updated_at: self.updated_at,
            created_at: self.created_at,
        }
    }
}

/// What the directory tells of itself.
#[derive(Clone, Debug, PartialEq, Eq)]
pub struct ScalableMetaData {
    pub name: String,
    pub canister_count: usize,
    pub has_child_wasm: bool,
    pub cycles: u64,
    pub used_data: u64,
    pub owner: Principal,
    pub parent: Principal,
    pub updated_at: u64,
    pub created_at: u64,
}

/// [`ScalableMetaData`] as contracts speak of it.
pub struct ScalableMetaDataView {
    pub name: Seq<char>,
    pub canister_count: usize,
    pub has_child_wasm: bool,
    pub cycles: u64,
    pub used_data: u64,
    pub owner: Seq<u8>,
    pub parent: Seq<u8>,
    pub updated_at: u64,
    pub created_at: u64,
}

impl View for ScalableMetaData {
    type V = ScalableMetaDataView;

    open spec fn view(&self) -> ScalableMetaDataView {
        ScalableMetaDataView {
            name: self.name@,
            canister_count: self.canister_count,
            has_child_wasm: self.has_child_wasm,
            cycles: self.cycles,
            used_data: self.used_data,
            owner: self.owner@,
            parent: self.parent@,
            updated_at: self.updated_at,
            created_at: self.created_at,
        }
    }
}

/// The directory of a sharded service: the nodes that hold its entries,
/// the code image they run, and the whitelist of those who may manage it.
#[derive(Clone, Debug, PartialEq, Eq)]
pub struct ScalableData {
    /// The name of the service.
    pub name: String,
    /// The nodes, in the order in which they were provisioned.
    pub canisters: Vec<ScalableCanisterDetails>,
    pub owner: Principal,
    pub parent: Principal,
    /// The code image that the nodes are to run.
    pub child_wasm_data: WasmDetails,
    pub whitelist: Vec<WhitelistEntry>,
    pub updated_at: u64,
    pub created_at: u64,
    /// The identifier of the directory itself.
    pub id: Principal,
}

/// [`ScalableData`] as contracts speak of it.
pub struct ScalableDataView {
    pub name: Seq<char>,
    pub canisters: Seq<ScalableCanisterDetailsView>,
    pub owner: Seq<u8>,
    pub parent: Seq<u8>,
    pub child_wasm_data: WasmDetailsView,
    pub whitelist: Seq<WhitelistEntryView>,
    pub updated_at: u64,
    pub created_at: u64,
    pub id: Seq<u8>,
}

impl View for ScalableData {
    type V = ScalableDataView;

    open spec fn view(&self) -> ScalableDataView {
        ScalableDataView {
            name: self.name@,
            canisters: self.canisters.deep_view(),
            owner: self.owner@,
            parent: self.parent@,
            child_wasm_data: self.child_wasm_data@,
            whitelist: self.whitelist.deep_view(),
            updated_at: self.updated_at,
            created_at: self.created_at,
            id: self.id@,
        }
    }
}

/// Position `i` holds the first node with the identifier.
pub open spec fn first_node_of(
    nodes: Seq<ScalableCanisterDetailsView>,
    principal: Seq<u8>,
    i: int,
) -> bool {
    &&& 0 <= i < nodes.len()
    &&& nodes[i].principal == principal
    &&& forall|k: int| 0 <= k < i ==> (#[trigger] nodes[k]).principal != principal
}

/// The directory knows a node with the identifier.
pub open spec fn has_node(nodes: Seq<ScalableCanisterDetailsView>, principal: Seq<u8>) -> bool {
    exists|i: int| 0 <= i < nodes.len() && (#[trigger] nodes[i]).principal == principal
}

/// The position of the first node with the identifier.
pub open spec fn node_position(nodes: Seq<ScalableCanisterDetailsView>, principal: Seq<u8>) -> int {
    choose|i: int| first_node_of(nodes, principal, i)
}

/// No two nodes have the same identifier.
pub open spec fn distinct_nodes(nodes: Seq<ScalableCanisterDetailsView>) -> bool {
    forall|i: int, j: int|
        0 <= i < j < nodes.len() ==> (#[trigger] nodes[i]).principal != (
        #[trigger] nodes[j]).principal
}

/// The nodes with `details` entered: in place of what was known of the
/// node, or as a new last node.
pub open spec fn with_node(
    nodes: Seq<ScalableCanisterDetailsView>,
    details: ScalableCanisterDetailsView,
) -> Seq<ScalableCanisterDetailsView> {
    if has_node(nodes, details.principal) {
        nodes.update(node_position(nodes, details.principal), details)
    } else {
        nodes.push(details)
    }
}

/// Where an error of the directory arose: the directory, its name and the
/// method.
pub open spec fn place(s: ScalableDataView, method_name: Seq<char>) -> Seq<char> {
    location_of(principal_text(s.id), s.name, method_name)
}

/// The error for a caller that the whitelist does not let through.
pub open spec fn not_whitelisted(
    s: ScalableDataView,
    method_name: Seq<char>,
    inputs: Option<Seq<Seq<char>>>,
) -> ApiErrorView {
    error_of(
        ApiErrorType::Unauthorized,
        "NOT_WHITELISTED"@,
        "You are not allowed to perform this action"@,
        place(s, method_name),
        inputs,
    )
}

/// The position of the first node with the identifier.
pub fn find_node(nodes: &Vec<ScalableCanisterDetails>, principal: &Principal) -> (r: Option<usize>)
    ensures
        r is Some <==> has_node(nodes.deep_view(), principal@),
        r matches Some(i) ==> first_node_of(nodes.deep_view(), principal@, i as int) && i
            == node_position(nodes.deep_view(), principal@),
{
    let mut i: usize = 0;
    while i < nodes.len()
        invariant
            i <= nodes@.len(),
            forall|k: int| 0 <= k < i ==> (#[trigger] nodes.deep_view()[k]).principal != principal@,
        decreases nodes@.len() - i,
    {
        assert(nodes.deep_view()[i as int] == nodes@[i as int]@);
        if nodes[i].principal.same(principal) {
            proof {
                assert(first_node_of(nodes.deep_view(), principal@, i as int));
                let j = node_position(nodes.deep_view(), principal@);
                assert(first_node_of(nodes.deep_view(), principal@, j));
            }
            return Some(i);
        }
        i += 1;
    }
    None
}

/// Enters what is known of a node: in place of what was known of it, or as
/// a new last node.
pub fn put_node(nodes: &mut Vec<ScalableCanisterDetails>, details: ScalableCanisterDetails)
    requires
        distinct_nodes(old(nodes).deep_view()),
    ensures
        final(nodes).deep_view() == with_node(old(nodes).deep_view(), details@),
        distinct_nodes(final(nodes).deep_view()),
{
    let ghost before = nodes.deep_view();
    match find_node(nodes, &details.principal) {
        Some(i) => {
            nodes.set(i, details);
            assert(nodes.deep_view() =~= before.update(i as int, details@));
        },
        None => {
            nodes.push(details);
            assert(nodes.deep_view() =~= before.push(details@));
        },
    }
}

/// Whether no two nodes of a list have the same identifier.
pub fn nodes_are_distinct(nodes: &Vec<ScalableCanisterDetails>) -> (r: bool)
    ensures
        r == distinct_nodes(nodes.deep_view()),
{
    let ghost all = nodes.deep_view();
    let mut i: usize = 0;
    while i < nodes.len()
        invariant
            i <= nodes@.len(),
            all == nodes.deep_view(),
            forall|a: int, b: int|
                0 <= a < b < i ==> (#[trigger] all[a]).principal != (#[trigger] all[b]).principal,
        decreases nodes@.len() - i,
    {
        assert(all[i as int] == nodes@[i as int]@);
        let mut j: usize = 0;
        while j < i
            invariant
                j <= i < nodes@.len(),
                all == nodes.deep_view(),
                forall|a: int|
                    0 <= a < j ==> (#[trigger] all[a]).principal != all[i as int].principal,
            decreases i - j,
        {
            assert(all[j as int] == nodes@[j as int]@);
            if nodes[j].principal.same(&nodes[i].principal) {
                assert(all[j as int].principal == all[i as int].principal);
                return false;
            }
            j += 1;
        }
        i += 1;
    }
    true
}

/// A copy of a list of nodes.
pub fn duplicate_nodes(nodes: &Vec<ScalableCanisterDetails>) -> (r: Vec<ScalableCanisterDetails>)
    ensures
        r.deep_view() == nodes.deep_view(),
{
    let mut copy: Vec<ScalableCanisterDetails> = Vec::new();
    let mut i: usize = 0;
    while i < nodes.len()
        invariant
            i <= nodes@.len(),
            copy@.len() == i,
            forall|k: int| 0 <= k < i ==> copy@[k]@ == nodes@[k]@,
        decreases nodes@.len() - i,
    {
        copy.push(nodes[i].clone());
        i += 1;
    }
    assert(copy.deep_view() =~= nodes.deep_view());
    copy
}

/// Position `i` holds the first node that takes entries and is not `caller`.
pub open spec fn first_available_at(
    nodes: Seq<ScalableCanisterDetailsView>,
    caller: Seq<u8>,
    i: int,
) -> bool {
    &&& 0 <= i < nodes.len()
    &&& nodes[i].principal != caller
    &&& nodes[i].is_available
    &&& forall|k: int|
        0 <= k < i ==> !((#[trigger] nodes[k]).principal != caller && nodes[k].is_available)
}

/// Some node other than `caller` takes entries.
pub open spec fn has_available(nodes: Seq<ScalableCanisterDetailsView>, caller: Seq<u8>) -> bool {
    exists|i: int|
        0 <= i < nodes.len() && (#[trigger] nodes[i]).principal != caller && nodes[i].is_available
}

/// What the whitelist refuses to add, and with which error.
pub open spec fn add_to_whitelist_refusal(
    s: ScalableDataView,
    caller: Seq<u8>,
    label: Seq<char>,
    principal: Seq<u8>,
    rights: WhitelistRights,
) -> Option<ApiErrorView> {
    let inputs = Some(
        seq![
            principal_line("caller"@, caller),
            input_line("label"@, label),
            principal_line("principal"@, principal),
            input_line("rights"@, rights.name_view()),
        ],
    );
    if rights == WhitelistRights::Owner {
        Some(
            error_of(
                ApiErrorType::BadRequest,
                "CANT_SET_RIGHTS"@,
                "It's not possible to set the whitelist rights to owner"@,
                place(s, "add_to_whitelist"@),
                inputs,
            ),
        )
    } else if !authorized(s.whitelist, caller, WhitelistRights::Owner) {
        Some(not_whitelisted(s, "add_to_whitelist"@, inputs))
    } else if is_listed(s.whitelist, principal) {
        Some(
            error_of(
                ApiErrorType::BadRequest,
                "ALREADY_WHITELISTED"@,
                "This principal is already whitelisted"@,
                place(s, "add_to_whitelist"@),
                inputs,
            ),
        )
    } else {
        None
    }
}

/// What the whitelist refuses to remove, and with which error.
pub open spec fn remove_from_whitelist_refusal(
    s: ScalableDataView,
    caller: Seq<u8>,
    principal: Seq<u8>,
) -> Option<ApiErrorView> {
    let inputs = Some(
        seq![principal_line("caller"@, caller), principal_line("principal"@, principal)],
    );
    if !is_listed(s.whitelist, principal) {
        Some(
            error_of(
                ApiErrorType::NotFound,
                "WHITELIST_ENTRY_NOT_FOUND"@,
                "The whitelist entry is not found"@,
                place(s, "remove_from_whitelist"@),
                inputs,
            ),
        )
    } else if authorized(s.whitelist, principal, WhitelistRights::Owner) {
        Some(
            error_of(
                ApiErrorType::BadRequest,
                "CANT_SET_RIGHTS"@,
                "It's not possible to set the whitelist rights to owner"@,
                place(s, "remove_from_whitelist"@),
                inputs,
            ),
        )
    } else if !authorized(s.whitelist, caller, WhitelistRights::Owner) {
        Some(not_whitelisted(s, "remove_from_whitelist"@, inputs))
    } else {
        None
    }
}

/// The whitelist without the entries of the principal.
pub open spec fn without_principal(
    whitelist: Seq<WhitelistEntryView>,
    principal: Seq<u8>,
) -> Seq<WhitelistEntryView> {
    whitelist.filter(|e: WhitelistEntryView| e.principal != principal)
}

/// The version that an image gets when it takes the place of one with the
/// version `previous`: the next number, or one.
pub open spec fn next_version(previous: WasmVersion) -> WasmVersion {
    match previous {
        WasmVersion::Version(n) => if n == u64::MAX {
            WasmVersion::Version(n)
        } else {
            WasmVersion::Version((n + 1) as u64)
        },
        _ => WasmVersion::Version(1),
    }
}

impl ScalableData {
    /// Validity: the whitelist holds one entry for each principal and
    /// exactly one owner, and no two nodes have the same identifier.
    pub open spec fn wf(&self) -> bool {
        &&& whitelist_wf(self@.whitelist)
        &&& distinct_nodes(self@.canisters)
    }

    /// Whether the directory is valid.
    pub fn is_valid(&self) -> (r: bool)
        ensures
            r == self.wf(),
    {
        crate::whitelist::whitelist_is_valid(&self.whitelist) && nodes_are_distinct(&self.canisters)
    }

    /// The directory as it starts: without nodes and without an image, with
    /// `owner` as the one entry of the whitelist, holding the owner's right.
    pub fn init(
        name: String,
        owner: Principal,
        parent: Principal,
        id: Principal,
        now: u64,
    ) -> (r: ScalableData)
        ensures
            r.wf(),
            r@.name == name@,
            r@.owner == owner@,
            r@.parent == parent@,
            r@.id == id@,
            r@.canisters.len() == 0,
            r@.child_wasm_data == (WasmDetailsView {
                label: Seq::<char>::empty(),
                bytes: Seq::<u8>::empty(),
                wasm_type: CanisterType::Empty,
                wasm_version: WasmVersion::NoVersion,
                updated_at: 0,
                created_at: 0,
            }),
            r@.whitelist == seq![
                WhitelistEntryView {
                    label: "Owner"@,
                    principal: owner@,
                    rights: WhitelistRights::Owner,
                    created_on: now,
                },
            ],
            r@.created_at == now,
            r@.updated_at == now,
    {
        let mut whitelist: Vec<WhitelistEntry> = Vec::new();
        whitelist.push(
            WhitelistEntry {
                label: String::from_str("Owner"),
                principal: owner.clone(),
                rights: WhitelistRights::Owner,
                created_on: now,
            },
        );
        let r = ScalableData {
            name,
            canisters: Vec::new(),
            owner,
            parent,
            child_wasm_data: WasmDetails {
                label: String::new(),
                bytes: Vec::new(),
                wasm_type: CanisterType::Empty,
                wasm_version: WasmVersion::NoVersion,
                updated_at: 0,
                created_at: 0,
            },
            whitelist,
            updated_at: now,
            created_at: now,
            id,
        };
        assert(r@.whitelist =~= seq![
            WhitelistEntryView {
                label: "Owner"@,
                principal: owner@,
                rights: WhitelistRights::Owner,
                created_on: now,
            },
        ]);
        assert(sole_owner_at(r@.whitelist, 0));
        assert(r@.canisters =~= Seq::<ScalableCanisterDetailsView>::empty());
        r
    }

    /// Builds an error that arose in `method_name` of this directory.
    pub fn fail(
        &self,
        kind: ApiErrorType,
        tag: &str,
        message: &str,
        method_name: &str,
        inputs: Option<Vec<String>>,
    ) -> (r: ApiError)
        ensures
            r@ == error_of(
                kind,
                tag@,
                message@,
                place(self@, method_name@),
                inputs.deep_view(),
            ),
    {
        let origin = self.id.to_text();
        api_error(kind, tag, message, origin.as_str(), self.name.as_str(), method_name, inputs)
    }

    /// The error for a caller that the whitelist does not let through.
    pub fn whitelist_error(&self, method_name: &str, inputs: Option<Vec<String>>) -> (r: ApiError)
        ensures
            r@ == not_whitelisted(self@, method_name@, inputs.deep_view()),
    {
        self.fail(
            ApiErrorType::Unauthorized,
            "NOT_WHITELISTED",
            "You are not allowed to perform this action",
            method_name,
            inputs,
        )
    }

    /// Whether the whitelist lets `principal` do what asks for `rights`.
    pub fn has_whitelist_rights(&self, principal: &Principal, rights: WhitelistRights) -> (r: bool)
        ensures
            r == authorized(self@.whitelist, principal@, rights),
    {
        authorize(&self.whitelist, principal, rights)
    }

    /// The name of the service.
    pub fn get_name(&self) -> (r: String)
        ensures
            r@ == self@.name,
    {
        self.name.clone()
    }

    /// Gives the service another name. Only a caller with the right to
    /// write may do so, and only while the directory has at most one node.
    pub fn change_name(&mut self, caller: &Principal, name: String) -> (r: bool)
        ensures
            r == (authorized(old(self)@.whitelist, caller@, WhitelistRights::ReadWrite) && old(
                self,
            )@.canisters.len() <= 1),
            r ==> final(self)@ == (ScalableDataView { name: name@, ..old(self)@ }),
            !r ==> final(self)@ == old(self)@,
    {
        if !self.has_whitelist_rights(caller, WhitelistRights::ReadWrite) {
            return false;
        }
        if self.canisters.len() > 1 {
            return false;
        }
        self.name = name;
        true
    }

    /// What the directory tells of itself to a caller that may read. The
    /// balance and the memory in use are those that the caller of this
    /// function measured.
    pub fn get_metadata(&self, caller: &Principal, cycles: u64, used_data: u64) -> (r: Result<
        ScalableMetaData,
        ApiError,
    >)
        ensures
            match r {
                Ok(data) => authorized(self@.whitelist, caller@, WhitelistRights::Read) && data@
                    == (ScalableMetaDataView {
                    name: self@.name,
                    canister_count: self@.canisters.len() as usize,
                    has_child_wasm: self@.child_wasm_data.bytes.len() != 0,
                    cycles,
                    used_data,
                    owner: self@.owner,
                    parent: self@.parent,
                    updated_at: self@.updated_at,
                    created_at: self@.created_at,
                }),
                Err(e) => !authorized(self@.whitelist, caller@, WhitelistRights::Read) && e@
                    == not_whitelisted(
                    self@,
                    "get_whitelist"@,
                    Some(seq![principal_line("caller"@, caller@)]),
                ),
            },
    {
        if !self.has_whitelist_rights(caller, WhitelistRights::Read) {
            let inputs = lines1(principal_input("caller", caller));
            return Err(self.whitelist_error("get_whitelist", inputs));
        }
        Ok(
            ScalableMetaData {
                name: self.name.clone(),
                canister_count: self.canisters.len(),
                has_child_wasm: self.child_wasm_data.bytes.len() != 0,
                cycles,
                used_data,
                owner: self.owner.clone(),
                parent: self.parent.clone(),
                updated_at: self.updated_at,
                created_at: self.created_at,
            },
        )
    }

    /// A page of the whitelist, for a caller that may read.
    pub fn get_whitelist(&self, caller: &Principal, limit: usize, page: usize) -> (r: Result<
        PagedResponse<WhitelistEntry>,
        ApiError,
    >)
        ensures
            match r {
                Ok(paged) => authorized(self@.whitelist, caller@, WhitelistRights::Read) && (
                    paged.page as nat,
                    paged.limit as nat,
                    paged.total as nat,
                    paged.number_of_pages as nat,
                ) == crate::paging::page_numbers(
                    self@.whitelist.len(),
                    limit as nat,
                    page as nat,
                ) && paged.data.deep_view() == crate::paging::page_items(
                    self@.whitelist,
                    limit as nat,
                    page as nat,
                ),
                Err(e) => !authorized(self@.whitelist, caller@, WhitelistRights::Read) && e@
                    == not_whitelisted(
                    self@,
                    "get_whitelist"@,
                    Some(
                        seq![
                            principal_line("caller"@, caller@),
                            input_line("limit"@, crate::text::decimal_text(limit as u64)),
                            input_line("page"@, crate::text::decimal_text(page as u64)),
                        ],
                    ),
                ),
            },
    {
        if !self.has_whitelist_rights(caller, WhitelistRights::Read) {
            let inputs = lines3(
                principal_input("caller", caller),
                input("limit", crate::text::decimal(limit as u64).as_str()),
                input("page", crate::text::decimal(page as u64).as_str()),
            );
            return Err(self.whitelist_error("get_whitelist", inputs));
        }
        let copy = duplicate_whitelist(&self.whitelist);
        let ghost copied = copy@;
        let paged = get_paged_data(copy, limit, page);
        proof {
            crate::paging::lemma_page_range(copied.len(), limit as nat, page as nat);
            assert(copied.len() == self@.whitelist.len());
            assert forall|k: int| 0 <= k < copied.len() implies #[trigger] copied[k]@
                == self@.whitelist[k] by {
                assert(copy.deep_view()[k] == copied[k]@);
            }
            assert(paged.data.deep_view() =~= crate::paging::page_items(
                self@.whitelist,
                limit as nat,
                page as nat,
            ));
        }
        Ok(paged)
    }

    /// Enters a principal in the whitelist at the time `now`. Nobody can be
    /// given the owner's right; only the owner may add; a principal has one
    /// entry only.
    pub fn add_to_whitelist(
        &mut self,
        caller: &Principal,
        label: String,
        principal: Principal,
        rights: WhitelistRights,
        now: u64,
    ) -> (r: Result<bool, ApiError>)
        requires
            old(self).wf(),
        ensures
            final(self).wf(),
            match r {
                Ok(added) => added && add_to_whitelist_refusal(
                    old(self)@,
                    caller@,
                    label@,
                    principal@,
                    rights,
                ) is None && final(self)@ == (ScalableDataView {
                    whitelist: old(self)@.whitelist.push(
                        WhitelistEntryView {
                            label: label@,
                            principal: principal@,
                            rights,
                            created_on: now,
                        },
                    ),
                    ..old(self)@
                }),
                Err(e) => Some(e@) == add_to_whitelist_refusal(
                    old(self)@,
                    caller@,
                    label@,
                    principal@,
                    rights,
                ) && final(self)@ == old(self)@,
            },
    {
        if rights.is_owner() {
            let inputs = lines4(
                principal_input("caller", caller),
                input("label", label.as_str()),
                principal_input("principal", &principal),
                input("rights", rights.name()),
            );
            return Err(
                self.fail(
                    ApiErrorType::BadRequest,
                    "CANT_SET_RIGHTS",
                    "It's not possible to set the whitelist rights to owner",
                    "add_to_whitelist",
                    inputs,
                ),
            );
        }
        if !self.has_whitelist_rights(caller, WhitelistRights::Owner) {
            let inputs = lines4(
                principal_input("caller", caller),
                input("label", label.as_str()),
                principal_input("principal", &principal),
                input("rights", rights.name()),
            );
            return Err(self.whitelist_error("add_to_whitelist", inputs));
        }
        if find_entry(&self.whitelist, &principal).is_some() {
            let inputs = lines4(
                principal_input("caller", caller),
                input("label", label.as_str()),
                principal_input("principal", &principal),
                input("rights", rights.name()),
            );
            return Err(
                self.fail(
                    ApiErrorType::BadRequest,
                    "ALREADY_WHITELISTED",
                    "This principal is already whitelisted",
                    "add_to_whitelist",
                    inputs,
                ),
            );
        }
        let ghost before = self@.whitelist;
        let entry = WhitelistEntry { label, principal, rights, created_on: now };
        self.whitelist.push(entry);
        proof {
            let after = self@.whitelist;
            assert(after =~= before.push(entry@));
            let i = choose|i: int| sole_owner_at(before, i);
            assert(sole_owner_at(after, i)) by {
                assert forall|k: int| 0 <= k < after.len() && k != i implies (
                #[trigger] after[k]).rights != WhitelistRights::Owner by {
                    if k < before.len() {
                        assert(after[k] == before[k]);
                    }
                }
            }
            assert forall|a: int, b: int| 0 <= a < b < after.len() implies (
            #[trigger] after[a]).principal != (#[trigger] after[b]).principal by {
                assert(after[a] == before[a]);
                if b < before.len() {
                    assert(after[b] == before[b]);
                }
            }
        }
        Ok(true)
    }

    /// Takes a principal out of the whitelist. The owner's entry stays;
    /// only the owner may remove.
    pub fn remove_from_whitelist(
        &mut self,
        caller: &Principal,
        principal: &Principal,
    ) -> (r: Result<bool, ApiError>)
        requires
            old(self).wf(),
        ensures
            final(self).wf(),
            match r {
                Ok(removed) => removed && remove_from_whitelist_refusal(
                    old(self)@,
                    caller@,
                    principal@,
                ) is None && final(self)@ == (ScalableDataView {
                    whitelist: without_principal(old(self)@.whitelist, principal@),
                    ..old(self)@
                }),
                Err(e) => Some(e@) == remove_from_whitelist_refusal(
                    old(self)@,
                    caller@,
                    principal@,
                ) && final(self)@ == old(self)@,
            },
    {
        let found = find_entry(&self.whitelist, principal);
        match found {
            None => {
                let inputs = lines2(
                    principal_input("caller", caller),
                    principal_input("principal", principal),
                );
                Err(
                    self.fail(
                        ApiErrorType::NotFound,
                        "WHITELIST_ENTRY_NOT_FOUND",
                        "The whitelist entry is not found",
                        "remove_from_whitelist",
                        inputs,
                    ),
                )
            },
            Some(at) => {
                let ghost before = self@.whitelist;
                assert(before[at as int] == self.whitelist@[at as int]@);
                proof {
                    assert forall|j: int| #[trigger]
                        first_entry_of(before, principal@, j) implies j == at by {}
                }
                if self.whitelist[at].rights.is_owner() {
                    let inputs = lines2(
                        principal_input("caller", caller),
                        principal_input("principal", principal),
                    );
                    return Err(
                        self.fail(
                            ApiErrorType::BadRequest,
                            "CANT_SET_RIGHTS",
                            "It's not possible to set the whitelist rights to owner",
                            "remove_from_whitelist",
                            inputs,
                        ),
                    );
                }
                if !self.has_whitelist_rights(caller, WhitelistRights::Owner) {
                    let inputs = lines2(
                        principal_input("caller", caller),
                        principal_input("principal", principal),
                    );
                    return Err(self.whitelist_error("remove_from_whitelist", inputs));
                }
                let _ = self.whitelist.remove(at);
                proof {
                    let after = self@.whitelist;
                    assert(after =~= before.remove(at as int));
                    lemma_remove_is_filter(before, principal@, at as int);
                    let i = choose|i: int| sole_owner_at(before, i);
                    let moved = if i < at {
                        i
                    } else {
                        i - 1
                    };
                    assert(sole_owner_at(after, moved)) by {
                        assert forall|k: int| 0 <= k < after.len() && k != moved implies (
                        #[trigger] after[k]).rights != WhitelistRights::Owner by {
                            if k < at {
                                assert(after[k] == before[k]);
                            } else {
                                assert(after[k] == before[k + 1]);
                            }
                        }
                    }
                    assert forall|a: int, b: int| 0 <= a < b < after.len() implies (
                    #[trigger] after[a]).principal != (#[trigger] after[b]).principal by {
                        let a0 = if a < at {
                            a
                        } else {
                            a + 1
                        };
                        let b0 = if b < at {
                            b
                        } else {
                            b + 1
                        };
                        assert(after[a] == before[a0] && after[b] == before[b0]);
                    }
                }
                Ok(true)
            },
        }
    }

    /// The first node, in the order in which the nodes were provisioned,
    /// that takes entries and is not the caller.
    pub fn get_available_canister(&self, caller: &Principal) -> (r: Result<
        ScalableCanisterDetails,
        String,
    >)
        ensures
            match r {
                Ok(node) => exists|i: int| #[trigger]
                    first_available_at(self@.canisters, caller@, i) && node@ == self@.canisters[i],
                Err(message) => !has_available(self@.canisters, caller@) && message@
                    == "No available canister found"@,
            },
    {
        let mut i: usize = 0;
        while i < self.canisters.len()
            invariant
                i <= self.canisters@.len(),
                forall|k: int|
                    0 <= k < i ==> !((#[trigger] self@.canisters[k]).principal != caller@
                        && self@.canisters[k].is_available),
            decreases self.canisters@.len() - i,
        {
            assert(self@.canisters[i as int] == self.canisters@[i as int]@);
            if !self.canisters[i].principal.same(caller) && self.canisters[i].is_available {
                assert(first_available_at(self@.canisters, caller@, i as int));
                return Ok(self.canisters[i].clone());
            }
            i += 1;
        }
        Err(String::from_str("No available canister found"))
    }

    /// The nodes, in the order in which they were provisioned.
    pub fn get_canisters(&self) -> (r: Vec<ScalableCanisterDetails>)
        ensures
            r.deep_view() == self@.canisters,
    {
        duplicate_nodes(&self.canisters)
    }

    /// The version of the image that the nodes are to run.
    pub fn get_latest_wasm_version(&self) -> (r: WasmVersion)
        ensures
            r == self@.child_wasm_data.wasm_version,
    {
        self.child_wasm_data.wasm_version
    }

    /// A copy of the directory.
    pub fn _get_data(&self) -> (r: ScalableData)
        ensures
            r@ == self@,
    {
        ScalableData {
            name: self.name.clone(),
            canisters: duplicate_nodes(&self.canisters),
            owner: self.owner.clone(),
            parent: self.parent.clone(),
            child_wasm_data: self.child_wasm_data.duplicate(),
            whitelist: duplicate_whitelist(&self.whitelist),
            updated_at: self.updated_at,
            created_at: self.created_at,
            id: self.id.clone(),
        }
    }

    /// The code image, for a caller that may read.
    pub fn get_wasm(&self, caller: &Principal) -> (r: Result<WasmDetails, ApiError>)
        ensures
            match r {
                Ok(image) => authorized(self@.whitelist, caller@, WhitelistRights::Read) && image@
                    == self@.child_wasm_data,
                Err(e) => !authorized(self@.whitelist, caller@, WhitelistRights::Read) && e@
                    == not_whitelisted(
                    self@,
                    "get_whitelist"@,
                    Some(seq![principal_line("caller"@, caller@)]),
                ),
            },
    {
        if !self.has_whitelist_rights(caller, WhitelistRights::Read) {
            let inputs = lines1(principal_input("caller", caller));
            return Err(self.whitelist_error("get_whitelist", inputs));
        }
        Ok(self.child_wasm_data.duplicate())
    }

    /// Stages a code image at the time `now`, for a caller that may write.
    /// The image gets the version after that of the image it replaces.
    pub fn add_wasm(
        &mut self,
        caller: &Principal,
        label: String,
        bytes: Vec<u8>,
        now: u64,
    ) -> (r: Result<bool, ApiError>)
        ensures
            match r {
                Ok(added) => added && authorized(
                    old(self)@.whitelist,
                    caller@,
                    WhitelistRights::ReadWrite,
                ) && final(self)@ == (ScalableDataView {
                    child_wasm_data: WasmDetailsView {
                        label: label@,
                        bytes: bytes@,
                        wasm_type: CanisterType::ScalableChild,
                        wasm_version: next_version(old(self)@.child_wasm_data.wasm_version),
                        updated_at: now,
                        created_at: old(self)@.child_wasm_data.created_at,
                    },
                    ..old(self)@
                }),
                Err(e) => !authorized(old(self)@.whitelist, caller@, WhitelistRights::ReadWrite)
                    && final(self)@ == old(self)@ && e@ == not_whitelisted(
                    old(self)@,
                    "get_whitelist"@,
                    Some(
                        seq![
                            principal_line("caller"@, caller@),
                            input_line("bytes"@, crate::text::decimal_text(bytes@.len() as u64)),
                        ],
                    ),
                ),
            },
    {
        if !self.has_whitelist_rights(caller, WhitelistRights::ReadWrite) {
            let inputs = lines2(
                principal_input("caller", caller),
                input("bytes", crate::text::decimal(bytes.len() as u64).as_str()),
            );
            return Err(self.whitelist_error("get_whitelist", inputs));
        }
        let wasm_version = match self.child_wasm_data.wasm_version {
            WasmVersion::Version(n) => if n == u64::MAX {
                WasmVersion::Version(n)
            } else {
                WasmVersion::Version(n + 1)
            },
            _ => WasmVersion::Version(1),
        };
        self.child_wasm_data = WasmDetails {
            label,
            bytes,
            wasm_type: CanisterType::ScalableChild,
            wasm_version,
            updated_at: now,
            created_at: self.child_wasm_data.created_at,
        };
        Ok(true)
    }
}

/// Taking out the one entry of a principal leaves the entries of the
/// others.
pub proof fn lemma_remove_is_filter(whitelist: Seq<WhitelistEntryView>, principal: Seq<u8>, at: int)
    requires
        crate::whitelist::distinct_principals(whitelist),
        0 <= at < whitelist.len(),
        whitelist[at].principal == principal,
    ensures
        whitelist.remove(at) == without_principal(whitelist, principal),
    decreases whitelist.len(),
{
    let keep = |e: WhitelistEntryView| e.principal != principal;
    let front = whitelist.drop_last();
    let last = whitelist.last();
    reveal(Seq::filter);
    if at == whitelist.len() - 1 {
        assert(whitelist.remove(at) =~= front);
        lemma_filter_keeps_all(front, principal);
        assert(whitelist.filter(keep) == front.filter(keep));
    } else {
        lemma_remove_is_filter(front, principal, at);
        assert(front[at] == whitelist[at]);
        assert(whitelist.remove(at) =~= front.remove(at).push(last));
        assert(whitelist.filter(keep) == front.filter(keep).push(last));
    }
}

/// A whitelist that does not hold a principal is what it is without it.
pub proof fn lemma_filter_keeps_all(whitelist: Seq<WhitelistEntryView>, principal: Seq<u8>)
    requires
        forall|k: int|
            0 <= k < whitelist.len() ==> (#[trigger] whitelist[k]).principal != principal,
    ensures
        without_principal(whitelist, principal) == whitelist,
    decreases whitelist.len(),
{
    let keep = |e: WhitelistEntryView| e.principal != principal;
    reveal(Seq::filter);
    if whitelist.len() > 0 {
        let front = whitelist.drop_last();
        assert forall|k: int| 0 <= k < front.len() implies (#[trigger] front[k]).principal
            != principal by {
            assert(front[k] == whitelist[k]);
        }
        lemma_filter_keeps_all(front, principal);
        assert(whitelist.filter(keep) == front.filter(keep).push(whitelist.last()));
        assert(front.push(whitelist.last()) =~= whitelist);
    } else {
        assert(whitelist.filter(keep) =~= whitelist);
    }
}

} // verus!
