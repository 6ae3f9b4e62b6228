use crate::directory::{
    find_node, has_node, node_position, not_whitelisted, place, put_node, with_node, CanisterType,
    ScalableCanisterDetails, ScalableCanisterDetailsView, ScalableData, ScalableDataView,
    WasmVersion,
};
use crate::error::{error_of, input, input_line, ApiError, ApiErrorType, ApiErrorView};
use crate::principal::{principal_text, Principal};
use crate::snapshot::{lines1, lines2, lines4, principal_input, principal_line};
use crate::text::{decimal, decimal_text};
use crate::whitelist::{authorized, WhitelistRights};
use vstd::prelude::*;
use vstd::string::StringExecFns;

verus! {

/// The budget that a new node is provisioned with.
pub const NEW_NODE_CYCLES: u64 = 2_000_000_000_000;

/// How a code image is put on a node.
#[derive(Clone, Copy, Debug, PartialEq, Eq, Structural)]
pub enum InstallCodeMode {
    Install,
    Reinstall,
    Upgrade,
}

/// What an image is started with when it is installed anew.
#[derive(Clone, Debug, PartialEq, Eq)]
pub struct InstallArguments {
    pub owner: Principal,
    pub parent: Principal,
    pub name: String,
    /// The number of nodes that the directory knows, the new one included.
    pub index: usize,
}

/// [`InstallArguments`] as contracts speak of it.
pub struct InstallArgumentsView {
    pub owner: Seq<u8>,
    pub parent: Seq<u8>,
    pub name: Seq<char>,
    pub index: usize,
}

impl View for InstallArguments {
    type V = InstallArgumentsView;

    open spec fn view(&self) -> InstallArgumentsView {
        InstallArgumentsView {
            owner: self.owner@,
            parent: self.parent@,
            name: self.name@,
            index: self.index,
        }
    }
}

impl DeepView for InstallArguments {
    type V = InstallArgumentsView;

    open spec fn deep_view(&self) -> InstallArgumentsView {
        self@
    }
}

/// What the directory asks of the one that drives it: the one piece of
/// outside work to do next.
#[derive(Clone, Debug, PartialEq, Eq)]
pub enum Request {
    /// Provision an empty node that the given principals control.
    CreateNode { controllers: Vec<Principal>, cycles: u64 },
    /// Put the image on the node.
    InstallCode {
        node: Principal,
        mode: InstallCodeMode,
        image: Vec<u8>,
        arguments: Option<InstallArguments>,
    },
    /// Hand the serialized entry to the node, with the reference that came
    /// with it.
    ForwardEntry { node: Principal, reference: Option<Principal>, entry: Vec<u8> },
}

/// [`Request`] as contracts speak of it.
pub enum RequestView {
    CreateNode { controllers: Seq<Seq<u8>>, cycles: u64 },
    InstallCode {
        node: Seq<u8>,
        mode: InstallCodeMode,
        image: Seq<u8>,
        arguments: Option<InstallArgumentsView>,
    },
    ForwardEntry { node: Seq<u8>, reference: Option<Seq<u8>>, entry: Seq<u8> },
}

impl View for Request {
    type V = RequestView;

    open spec fn view(&self) -> RequestView {
        match self {
            Request::CreateNode { controllers, cycles } => RequestView::CreateNode {
                controllers: controllers.deep_view(),
                cycles: *cycles,
            },
            Request::InstallCode { node, mode, image, arguments } => RequestView::InstallCode {
                node: node@,
                mode: *mode,
                image: image@,
                arguments: arguments.deep_view(),
            },
            Request::ForwardEntry { node, reference, entry } => RequestView::ForwardEntry {
                node: node@,
                reference: reference.deep_view(),
                entry: entry@,
            },
        }
    }
}

/// How the outside work ended. A failure carries the collaborator's own
/// words.
#[derive(Debug, PartialEq, Eq)]
pub enum Reply {
    NodeCreated(Result<Principal, String>),
    CodeInstalled(Result<(), String>),
    EntryForwarded(Result<(), String>),
}

/// [`Reply`] as contracts speak of it.
pub enum ReplyView {
    NodeCreated(Result<Seq<u8>, Seq<char>>),
    CodeInstalled(Result<(), Seq<char>>),
    EntryForwarded(Result<(), Seq<char>>),
}

impl View for Reply {
    type V = ReplyView;

    open spec fn view(&self) -> ReplyView {
        match self {
            Reply::NodeCreated(Ok(node)) => ReplyView::NodeCreated(Ok(node@)),
            Reply::NodeCreated(Err(words)) => ReplyView::NodeCreated(Err(words@)),
            Reply::CodeInstalled(Ok(_)) => ReplyView::CodeInstalled(Ok(())),
            Reply::CodeInstalled(Err(words)) => ReplyView::CodeInstalled(Err(words@)),
            Reply::EntryForwarded(Ok(_)) => ReplyView::EntryForwarded(Ok(())),
            Reply::EntryForwarded(Err(words)) => ReplyView::EntryForwarded(Err(words@)),
        }
    }
}

/// What the directory is in the middle of.
#[derive(Clone, Copy, Debug, PartialEq, Eq, Structural)]
pub enum Task {
    /// Bringing up the first node.
    FirstNode,
    /// Closing a full node and bringing up the one that follows it.
    Sibling,
    /// Putting the current image on a node that runs an older one.
    Upgrade,
    /// Putting the current image on a node whatever it runs.
    Reinstall,
}

/// How far the work has come.
#[derive(Clone, Copy, Debug, PartialEq, Eq, Structural)]
pub enum Phase {
    /// A node is being provisioned.
    Provisioning,
    /// The image is being put on the node.
    Installing,
    /// The full node is closed, and the entry that it could not take is on
    /// its way to the new node.
    Forwarding,
}

/// A piece of work of the directory that waits for outside work to end.
#[derive(Clone, Debug, PartialEq, Eq)]
pub struct Handoff {
    pub task: Task,
    pub phase: Phase,
    pub caller: Principal,
    /// The owner that the new node is started with.
    pub owner: Principal,
    /// The node that is worked on, once there is one.
    pub node: Principal,
    /// The number of the last entry of the node that is closed.
    pub last_entry_id: u64,
    /// The entry that waits to be forwarded.
    pub entry: Vec<u8>,
    pub reference: Option<Principal>,
}

/// [`Handoff`] as contracts speak of it.
pub struct HandoffView {
    pub task: Task,
    pub phase: Phase,
    pub caller: Seq<u8>,
    pub owner: Seq<u8>,
    pub node: Seq<u8>,
    pub last_entry_id: u64,
    pub entry: Seq<u8>,
    pub reference: Option<Seq<u8>>,
}

impl View for Handoff {
    type V = HandoffView;

    open spec fn view(&self) -> HandoffView {
        HandoffView {
            task: self.task,
            phase: self.phase,
            caller: self.caller@,
            owner: self.owner@,
            node: self.node@,
            last_entry_id: self.last_entry_id,
            entry: self.entry@,
            reference: self.reference.deep_view(),
        }
    }
}

/// What comes of a move of the directory: outside work to do, with the work
/// that waits for it, or the end of the work.
#[derive(Debug, PartialEq, Eq)]
pub enum Step {
    Ask(Handoff, Request),
    Done(Result<ScalableCanisterDetails, ApiError>),
}

/// [`Step`] as contracts speak of it.
pub enum StepView {
    Ask(HandoffView, RequestView),
    Done(Result<ScalableCanisterDetailsView, ApiErrorView>),
}

impl View for Step {
    type V = StepView;

    open spec fn view(&self) -> StepView {
        match self {
            Step::Ask(handoff, request) => StepView::Ask(handoff@, request@),
            Step::Done(Ok(node)) => StepView::Done(Ok(node@)),
            Step::Done(Err(e)) => StepView::Done(Err(e@)),
        }
    }
}

/// Where a node stands in its life.
pub enum LaneState {
    /// Provisioned, without an image yet.
    Installing,
    /// Running an image and taking entries.
    Active,
    /// Closed: it takes no entries any more.
    Full,
}

/// Where the directory sees a node in its life.
pub open spec fn lane_state(node: ScalableCanisterDetailsView) -> LaneState {
    if !node.is_available {
        LaneState::Full
    } else if node.canister_type == CanisterType::Empty {
        LaneState::Installing
    } else {
        LaneState::Active
    }
}

/// A node as it is provisioned: empty, taking entries, with no last entry.
pub open spec fn empty_node(principal: Seq<u8>) -> ScalableCanisterDetailsView {
    ScalableCanisterDetailsView {
        principal,
        canister_type: CanisterType::Empty,
        wasm_version: WasmVersion::NoVersion,
        is_available: true,
        entry_range: (0, None),
    }
}

/// A node on which the image of the directory was installed anew.
pub open spec fn installed_node(
    s: ScalableDataView,
    principal: Seq<u8>,
) -> ScalableCanisterDetailsView {
    ScalableCanisterDetailsView {
        principal,
        canister_type: CanisterType::ScalableChild,
        wasm_version: s.child_wasm_data.wasm_version,
        is_available: true,
        entry_range: (0, None),
    }
}

/// A node that was closed after its entry number `last_entry_id`: it takes
/// no entries any more, and its range of entries ends there.
pub open spec fn closed_node(
    node: ScalableCanisterDetailsView,
    last_entry_id: u64,
) -> ScalableCanisterDetailsView {
    ScalableCanisterDetailsView {
        is_available: false,
        entry_range: (node.entry_range.0, Some(last_entry_id)),
        ..node
    }
}

/// A node that was upgraded to the image of the directory.
pub open spec fn upgraded_node(
    s: ScalableDataView,
    node: ScalableCanisterDetailsView,
) -> ScalableCanisterDetailsView {
    ScalableCanisterDetailsView { wasm_version: s.child_wasm_data.wasm_version, ..node }
}

/// The request to provision a node for `caller`.
pub open spec fn create_request(s: ScalableDataView, caller: Seq<u8>) -> RequestView {
    RequestView::CreateNode { controllers: seq![caller, s.id], cycles: NEW_NODE_CYCLES }
}

/// The request to put the image of the directory on a node. An upgrade
/// starts the image with nothing; the other modes start it with the owner,
/// the directory, its name and the number of nodes.
pub open spec fn install_request(
    s: ScalableDataView,
    node: Seq<u8>,
    mode: InstallCodeMode,
    owner: Seq<u8>,
) -> RequestView {
    RequestView::InstallCode {
        node,
        mode,
        image: s.child_wasm_data.bytes,
        arguments: if mode == InstallCodeMode::Upgrade {
            None
        } else {
            Some(
                InstallArgumentsView {
                    owner,
                    parent: s.id,
                    name: s.name,
                    index: s.canisters.len() as usize,
                },
            )
        },
    }
}

/// The snapshot of a call that names its caller only.
pub open spec fn caller_inputs(caller: Seq<u8>) -> Option<Seq<Seq<char>>> {
    Some(seq![principal_line("caller"@, caller)])
}

/// The snapshot of an installation.
pub open spec fn install_inputs(s: ScalableDataView, caller: Seq<u8>) -> Option<Seq<Seq<char>>> {
    Some(seq![principal_line("caller"@, caller), input_line("name"@, s.name)])
}

/// The snapshot of an upgrade.
pub open spec fn upgrade_inputs(caller: Seq<u8>, node: Seq<u8>) -> Option<Seq<Seq<char>>> {
    Some(seq![principal_line("caller"@, caller), principal_line("canister_principal"@, node)])
}

/// How a reference that may be missing is shown.
pub open spec fn reference_text(reference: Option<Seq<u8>>) -> Seq<char> {
    match reference {
        Some(principal) => principal_text(principal),
        None => "None"@,
    }
}

/// The snapshot of the closing of a node.
pub open spec fn close_inputs(
    caller: Seq<u8>,
    owner: Seq<u8>,
    last_entry_id: u64,
    reference: Option<Seq<u8>>,
) -> Option<Seq<Seq<char>>> {
    Some(
        seq![
            principal_line("caller"@, caller),
            principal_line("owner"@, owner),
            input_line("last_entry_id"@, decimal_text(last_entry_id)),
            input_line("principal_entry_reference"@, reference_text(reference)),
        ],
    )
}

/// Why the first node is not brought up.
pub open spec fn first_node_refusal(s: ScalableDataView, caller: Seq<u8>) -> Option<ApiErrorView> {
    let method = "initialize_first_child_canister"@;
    if s.child_wasm_data.bytes.len() == 0 {
        Some(
            error_of(
                ApiErrorType::BadRequest,
                "NO_WASM_SPECIFIED"@,
                "There is no child WASM uploaded"@,
                place(s, method),
                caller_inputs(caller),
            ),
        )
    } else if !has_node(s.canisters, caller) && !authorized(
        s.whitelist,
        caller,
        WhitelistRights::ReadWrite,
    ) {
        Some(
            error_of(
                ApiErrorType::BadRequest,
                "UNKNOWN_CANISTER"@,
                "The caller principal isnt known to this canister"@,
                place(s, method),
                caller_inputs(caller),
            ),
        )
    } else if s.canisters.len() != 0 {
        Some(
            error_of(
                ApiErrorType::BadRequest,
                "ALREADY_INITIALIZED"@,
                "This scalable canister has already initialized a child canister"@,
                place(s, method),
                caller_inputs(caller),
            ),
        )
    } else {
        None
    }
}

/// Why a node is not closed and followed by a new one.
pub open spec fn sibling_refusal(
    s: ScalableDataView,
    caller: Seq<u8>,
    owner: Seq<u8>,
    last_entry_id: u64,
    reference: Option<Seq<u8>>,
) -> Option<ApiErrorView> {
    let method = "close_child_canister_and_spawn_sibling"@;
    let inputs = close_inputs(caller, owner, last_entry_id, reference);
    if s.child_wasm_data.bytes.len() == 0 {
        Some(
            error_of(
                ApiErrorType::BadRequest,
                "NO_WASM_SPECIFIED"@,
                "There is no foundation WASM uploaded"@,
                place(s, method),
                inputs,
            ),
        )
    } else if !has_node(s.canisters, caller) {
        Some(
            error_of(
                ApiErrorType::BadRequest,
                "UNKNOWN_CANISTER"@,
                "The caller principal isnt known to this canister"@,
                place(s, method),
                inputs,
            ),
        )
    } else {
        None
    }
}

/// Why a node is not upgraded.
pub open spec fn upgrade_refusal(s: ScalableDataView, caller: Seq<u8>, node: Seq<u8>) -> Option<
    ApiErrorView,
> {
    let method = "upgrade_scalable_canister"@;
    let inputs = upgrade_inputs(caller, node);
    if !authorized(s.whitelist, caller, WhitelistRights::ReadWrite) {
        Some(not_whitelisted(s, method, inputs))
    } else if !has_node(s.canisters, node) {
        Some(
            error_of(
                ApiErrorType::NotFound,
                "NO_CHILDREN"@,
                "There are no child canisters found"@,
                place(s, method),
                inputs,
            ),
        )
    } else if s.child_wasm_data.wasm_version == s.canisters[node_position(
        s.canisters,
        node,
    )].wasm_version {
        Some(
            error_of(
                ApiErrorType::BadRequest,
                "CANISTER_UP_TO_DATE"@,
                "The latest WASM version is already installed"@,
                place(s, method),
                inputs,
            ),
        )
    } else {
        None
    }
}

/// Why an image is not installed anew: there is none, or the node that is
/// to be installed for the first time is not known as an empty node.
pub open spec fn install_refusal(
    s: ScalableDataView,
    caller: Seq<u8>,
    node: Seq<u8>,
    mode: InstallCodeMode,
) -> Option<ApiErrorView> {
    let method = "install_child_canister"@;
    if s.child_wasm_data.bytes.len() == 0 {
        Some(
            error_of(
                ApiErrorType::BadRequest,
                "NO_WASM_SPECIFIED"@,
                "There is no foundation WASM uploaded"@,
                place(s, method),
                install_inputs(s, caller),
            ),
        )
    } else if mode == InstallCodeMode::Install && !(has_node(s.canisters, node)
        && s.canisters[node_position(s.canisters, node)].canister_type == CanisterType::Empty) {
        Some(
            error_of(
                ApiErrorType::BadRequest,
                "CANISTER_NOT_EMPTY"@,
                "The canister is not an empty canister of this canister"@,
                place(s, method),
                install_inputs(s, caller),
            ),
        )
    } else {
        None
    }
}

/// The work that waits while a node is provisioned.
pub open spec fn provisioning(
    task: Task,
    caller: Seq<u8>,
    owner: Seq<u8>,
    last_entry_id: u64,
    entry: Seq<u8>,
    reference: Option<Seq<u8>>,
) -> HandoffView {
    HandoffView {
        task,
        phase: Phase::Provisioning,
        caller,
        owner,
        node: caller,
        last_entry_id,
        entry,
        reference,
    }
}

/// The first move of a piece of work: the refusal, or the first request.
pub open spec fn first_step(
    refusal: Option<ApiErrorView>,
    handoff: HandoffView,
    request: RequestView,
) -> StepView {
    match refusal {
        Some(e) => StepView::Done(Err(e)),
        None => StepView::Ask(handoff, request),
    }
}

/// The move that asks for the image to be installed anew on a node, or
/// that ends the work where it cannot be.
pub open spec fn install_step(
    s: ScalableDataView,
    handoff: HandoffView,
    node: Seq<u8>,
    mode: InstallCodeMode,
) -> StepView {
    first_step(
        install_refusal(s, handoff.caller, node, mode),
        HandoffView { phase: Phase::Installing, node, ..handoff },
        install_request(s, node, mode, handoff.owner),
    )
}

/// The error for a reply that does not answer what was asked.
pub open spec fn unexpected_reply(s: ScalableDataView) -> ApiErrorView {
    error_of(
        ApiErrorType::Unexpected,
        "UNEXPECTED_REPLY"@,
        "The reply does not answer the request"@,
        place(s, "resume"@),
        None,
    )
}

/// The directory after the reply to a request to provision a node: the
/// node, if there is one, is known as an empty node.
pub open spec fn state_after_created(
    s: ScalableDataView,
    created: Result<Seq<u8>, Seq<char>>,
) -> ScalableDataView {
    match created {
        Ok(node) => ScalableDataView { canisters: with_node(s.canisters, empty_node(node)), ..s },
        Err(_) => s,
    }
}

/// The move after the reply to a request to provision a node.
pub open spec fn step_after_created(
    s: ScalableDataView,
    handoff: HandoffView,
    created: Result<Seq<u8>, Seq<char>>,
) -> StepView {
    match created {
        Ok(node) => install_step(
            state_after_created(s, created),
            handoff,
            node,
            InstallCodeMode::Install,
        ),
        Err(words) => StepView::Done(
            Err(
                error_of(
                    ApiErrorType::BadRequest,
                    "CANISTER_NOT_CREATED"@,
                    words,
                    place(s, "_spawn_empty_canister"@),
                    caller_inputs(handoff.caller),
                ),
            ),
        ),
    }
}

/// The nodes after the full node of a sibling handoff is closed.
pub open spec fn with_closed(
    nodes: Seq<ScalableCanisterDetailsView>,
    full: Seq<u8>,
    last_entry_id: u64,
) -> Seq<ScalableCanisterDetailsView> {
    if has_node(nodes, full) {
        nodes.update(
            node_position(nodes, full),
            closed_node(nodes[node_position(nodes, full)], last_entry_id),
        )
    } else {
        nodes
    }
}

/// The directory after the reply to a request to install the image.
pub open spec fn state_after_installed(
    s: ScalableDataView,
    handoff: HandoffView,
    installed: Result<(), Seq<char>>,
) -> ScalableDataView {
    if installed is Err {
        s
    } else {
        match handoff.task {
            Task::FirstNode | Task::Reinstall => ScalableDataView {
                canisters: with_node(s.canisters, installed_node(s, handoff.node)),
                ..s
            },
            Task::Sibling => ScalableDataView {
                canisters: with_closed(
                    with_node(s.canisters, installed_node(s, handoff.node)),
                    handoff.caller,
                    handoff.last_entry_id,
                ),
                ..s
            },
            Task::Upgrade => if has_node(s.canisters, handoff.node) {
                ScalableDataView {
                    canisters: s.canisters.update(
                        node_position(s.canisters, handoff.node),
                        upgraded_node(s, s.canisters[node_position(s.canisters, handoff.node)]),
                    ),
                    ..s
                }
            } else {
                s
            },
        }
    }
}

/// The move after the reply to a request to install the image.
pub open spec fn step_after_installed(
    s: ScalableDataView,
    handoff: HandoffView,
    installed: Result<(), Seq<char>>,
) -> StepView {
    match installed {
        Err(words) => if handoff.task == Task::Upgrade {
            StepView::Done(
                Err(
                    error_of(
                        ApiErrorType::BadRequest,
                        "UPGRADE_FAILED"@,
                        words,
                        place(s, "upgrade_scalable_canister"@),
                        upgrade_inputs(handoff.caller, handoff.node),
                    ),
                ),
            )
        } else {
            StepView::Done(
                Err(
                    error_of(
                        ApiErrorType::NotFound,
                        "CANISTER_INSTALL_FAILED"@,
                        words,
                        place(s, "_install_child_canister"@),
                        install_inputs(s, handoff.caller),
                    ),
                ),
            )
        },
        Ok(_) => match handoff.task {
            Task::FirstNode | Task::Reinstall => StepView::Done(
                Ok(installed_node(s, handoff.node)),
            ),
            Task::Sibling => StepView::Ask(
                HandoffView { phase: Phase::Forwarding, entry: Seq::<u8>::empty(), ..handoff },
                RequestView::ForwardEntry {
                    node: handoff.node,
                    reference: handoff.reference,
                    entry: handoff.entry,
                },
            ),
            Task::Upgrade => if has_node(s.canisters, handoff.node) {
                StepView::Done(
                    Ok(upgraded_node(s, s.canisters[node_position(s.canisters, handoff.node)])),
                )
            } else {
                StepView::Done(
                    Err(
                        error_of(
                            ApiErrorType::NotFound,
                            "NO_CHILDREN"@,
                            "There are no child canisters found"@,
                            place(s, "upgrade_scalable_canister"@),
                            upgrade_inputs(handoff.caller, handoff.node),
                        ),
                    ),
                )
            },
        },
    }
}

/// The move after the reply to the forwarding of the entry. The work ends
/// with what the directory knows of the new node.
pub open spec fn step_after_forwarded(
    s: ScalableDataView,
    handoff: HandoffView,
    forwarded: Result<(), Seq<char>>,
) -> StepView {
    match forwarded {
        Err(words) => StepView::Done(
            Err(
                error_of(
                    ApiErrorType::BadRequest,
                    "FAILED_TO_STORE_DATA"@,
                    words,
                    place(s, "close_child_canister_and_spawn_sibling"@),
                    close_inputs(
                        handoff.caller,
                        handoff.owner,
                        handoff.last_entry_id,
                        handoff.reference,
                    ),
                ),
            ),
        ),
        Ok(_) => if has_node(s.canisters, handoff.node) {
            StepView::Done(Ok(s.canisters[node_position(s.canisters, handoff.node)]))
        } else {
            StepView::Done(Ok(installed_node(s, handoff.node)))
        },
    }
}

/// Whether the reply answers what the work waits for.
pub open spec fn answers(handoff: HandoffView, reply: ReplyView) -> bool {
    match (handoff.phase, reply) {
        (Phase::Provisioning, ReplyView::NodeCreated(_)) => handoff.task == Task::FirstNode
            || handoff.task == Task::Sibling,
        (Phase::Installing, ReplyView::CodeInstalled(_)) => true,
        (Phase::Forwarding, ReplyView::EntryForwarded(_)) => handoff.task == Task::Sibling,
        _ => false,
    }
}

/// The directory after a reply.
pub open spec fn state_after(
    s: ScalableDataView,
    handoff: HandoffView,
    reply: ReplyView,
) -> ScalableDataView {
    if !answers(handoff, reply) {
        s
    } else {
        match reply {
            ReplyView::NodeCreated(created) => state_after_created(s, created),
            ReplyView::CodeInstalled(installed) => state_after_installed(s, handoff, installed),
            ReplyView::EntryForwarded(_) => s,
        }
    }
}

/// The move after a reply.
pub open spec fn step_after(
    s: ScalableDataView,
    handoff: HandoffView,
    reply: ReplyView,
) -> StepView {
    if !answers(handoff, reply) {
        StepView::Done(Err(unexpected_reply(s)))
    } else {
        match reply {
            ReplyView::NodeCreated(created) => step_after_created(s, handoff, created),
            ReplyView::CodeInstalled(installed) => step_after_installed(s, handoff, installed),
            ReplyView::EntryForwarded(forwarded) => step_after_forwarded(
                state_after(s, handoff, reply),
                handoff,
                forwarded,
            ),
        }
    }
}

/// Builds the snapshot of a call that names its caller only.
pub fn caller_snapshot(caller: &Principal) -> (r: Option<Vec<String>>)
    ensures
        r.deep_view() == caller_inputs(caller@),
{
    lines1(principal_input("caller", caller))
}

/// Builds the snapshot of an upgrade.
pub fn upgrade_snapshot(caller: &Principal, node: &Principal) -> (r: Option<Vec<String>>)
    ensures
        r.deep_view() == upgrade_inputs(caller@, node@),
{
    lines2(principal_input("caller", caller), principal_input("canister_principal", node))
}

/// Builds the snapshot of the closing of a node.
pub fn close_snapshot(
    caller: &Principal,
    owner: &Principal,
    last_entry_id: u64,
    reference: &Option<Principal>,
) -> (r: Option<Vec<String>>)
    ensures
        r.deep_view() == close_inputs(caller@, owner@, last_entry_id, reference.deep_view()),
{
    let shown = match reference {
        Some(principal) => principal.to_text(),
        None => String::from_str("None"),
    };
    lines4(
        principal_input("caller", caller),
        principal_input("owner", owner),
        input("last_entry_id", decimal(last_entry_id).as_str()),
        input("principal_entry_reference", shown.as_str()),
    )
}

/// A copy of a reference that may be missing.
pub fn duplicate_reference(reference: &Option<Principal>) -> (r: Option<Principal>)
    ensures
        r.deep_view() == reference.deep_view(),
{
    match reference {
        Some(principal) => Some(principal.clone()),
        None => None,
    }
}

impl ScalableData {
    /// Builds the snapshot of an installation.
    pub fn install_snapshot(&self, caller: &Principal) -> (r: Option<Vec<String>>)
        ensures
            r.deep_view() == install_inputs(self@, caller@),
    {
        lines2(principal_input("caller", caller), input("name", self.name.as_str()))
    }

    /// The request to provision a node for `caller`.
    pub fn create_request(&self, caller: &Principal) -> (r: Request)
        ensures
            r@ == create_request(self@, caller@),
    {
        let mut controllers: Vec<Principal> = Vec::new();
        controllers.push(caller.clone());
        controllers.push(self.id.clone());
        assert(controllers.deep_view() =~= seq![caller@, self@.id]);
        Request::CreateNode { controllers, cycles: NEW_NODE_CYCLES }
    }

    /// The request to put the image of the directory on a node.
    pub fn install_request(
        &self,
        node: &Principal,
        mode: InstallCodeMode,
        owner: &Principal,
    ) -> (r: Request)
        ensures
            r@ == install_request(self@, node@, mode, owner@),
    {
        let arguments = match mode {
            InstallCodeMode::Upgrade => None,
            _ => Some(
                InstallArguments {
                    owner: owner.clone(),
                    parent: self.id.clone(),
                    name: self.name.clone(),
                    index: self.canisters.len(),
                },
            ),
        };
        Request::InstallCode {
            node: node.clone(),
            mode,
            image: self.child_wasm_data.bytes.clone(),
            arguments,
        }
    }

    /// The move that asks for the image to be installed anew on `node`, or
    /// that ends the work where there is no image, or where a first
    /// installation meets a node that is not known as empty.
    pub fn install_step(
        &self,
        handoff: Handoff,
        node: Principal,
        mode: InstallCodeMode,
    ) -> (r: Step)
        ensures
            r@ == install_step(self@, handoff@, node@, mode),
    {
        if self.child_wasm_data.bytes.len() == 0 {
            let inputs = self.install_snapshot(&handoff.caller);
            return Step::Done(
                Err(
                    self.fail(
                        ApiErrorType::BadRequest,
                        "NO_WASM_SPECIFIED",
                        "There is no foundation WASM uploaded",
                        "install_child_canister",
                        inputs,
                    ),
                ),
            );
        }
        let empty = match mode {
            InstallCodeMode::Install => match find_node(&self.canisters, &node) {
                Some(i) => {
                    assert(self@.canisters[i as int] == self.canisters@[i as int]@);
                    match self.canisters[i].canister_type {
                        CanisterType::Empty => true,
                        _ => false,
                    }
                },
                None => false,
            },
            _ => true,
        };
        if !empty {
            let inputs = self.install_snapshot(&handoff.caller);
            return Step::Done(
                Err(
                    self.fail(
                        ApiErrorType::BadRequest,
                        "CANISTER_NOT_EMPTY",
                        "The canister is not an empty canister of this canister",
                        "install_child_canister",
                        inputs,
                    ),
                ),
            );
        }
        let request = self.install_request(&node, mode, &handoff.owner);
        let mut next = handoff;
        next.phase = Phase::Installing;
        next.node = node;
        Step::Ask(next, request)
    }

    /// Starts to bring up the first node: a node is to be provisioned for
    /// the caller. The directory must hold an image and no node, and the
    /// caller must have the right to write.
    pub fn initialize_first_child_canister(&self, caller: &Principal) -> (r: Step)
        ensures
            r@ == first_step(
                first_node_refusal(self@, caller@),
                provisioning(Task::FirstNode, caller@, caller@, 0, Seq::<u8>::empty(), None),
                create_request(self@, caller@),
            ),
    {
        let method = "initialize_first_child_canister";
        if self.child_wasm_data.bytes.len() == 0 {
            return Step::Done(
                Err(
                    self.fail(
                        ApiErrorType::BadRequest,
                        "NO_WASM_SPECIFIED",
                        "There is no child WASM uploaded",
                        method,
                        caller_snapshot(caller),
                    ),
                ),
            );
        }
        if find_node(&self.canisters, caller).is_none() && !self.has_whitelist_rights(
            caller,
            WhitelistRights::ReadWrite,
        ) {
            return Step::Done(
                Err(
                    self.fail(
                        ApiErrorType::BadRequest,
                        "UNKNOWN_CANISTER",
                        "The caller principal isnt known to this canister",
                        method,
                        caller_snapshot(caller),
                    ),
                ),
            );
        }
        if self.canisters.len() != 0 {
            return Step::Done(
                Err(
                    self.fail(
                        ApiErrorType::BadRequest,
                        "ALREADY_INITIALIZED",
                        "This scalable canister has already initialized a child canister",
                        method,
                        caller_snapshot(caller),
                    ),
                ),
            );
        }
        let handoff = Handoff {
            task: Task::FirstNode,
            phase: Phase::Provisioning,
            caller: caller.clone(),
            owner: caller.clone(),
            node: caller.clone(),
            last_entry_id: 0,
            entry: Vec::new(),
            reference: None,
        };
        Step::Ask(handoff, self.create_request(caller))
    }

    /// Starts to close the node `caller`, which is full, and to bring up the
    /// node that follows it: a node is to be provisioned. `entry` is the
    /// entry that the full node could not take; it will be forwarded to the
    /// new node. The directory must hold an image and know the caller as
    /// one of its nodes.
    pub fn close_child_canister_and_spawn_sibling(
        &self,
        caller: &Principal,
        owner: &Principal,
        last_entry_id: u64,
        entry: Vec<u8>,
        principal_entry_reference: Option<Principal>,
    ) -> (r: Step)
        ensures
            r@ == first_step(
                sibling_refusal(
                    self@,
                    caller@,
                    owner@,
                    last_entry_id,
                    principal_entry_reference.deep_view(),
                ),
                provisioning(
                    Task::Sibling,
                    caller@,
                    owner@,
                    last_entry_id,
                    entry@,
                    principal_entry_reference.deep_view(),
                ),
                create_request(self@, caller@),
            ),
    {
        let method = "close_child_canister_and_spawn_sibling";
        if self.child_wasm_data.bytes.len() == 0 {
            let inputs = close_snapshot(caller, owner, last_entry_id, &principal_entry_reference);
            return Step::Done(
                Err(
                    self.fail(
                        ApiErrorType::BadRequest,
                        "NO_WASM_SPECIFIED",
                        "There is no foundation WASM uploaded",
                        method,
                        inputs,
                    ),
                ),
            );
        }
        if find_node(&self.canisters, caller).is_none() {
            let inputs = close_snapshot(caller, owner, last_entry_id, &principal_entry_reference);
            return Step::Done(
                Err(
                    self.fail(
                        ApiErrorType::BadRequest,
                        "UNKNOWN_CANISTER",
                        "The caller principal isnt known to this canister",
                        method,
                        inputs,
                    ),
                ),
            );
        }
        let handoff = Handoff {
            task: Task::Sibling,
            phase: Phase::Provisioning,
            caller: caller.clone(),
            owner: owner.clone(),
            node: caller.clone(),
            last_entry_id,
            entry,
            reference: principal_entry_reference,
        };
        Step::Ask(handoff, self.create_request(caller))
    }

    /// Starts to upgrade a node to the image of the directory: the image is
    /// to be installed as an upgrade. The caller must have the right to
    /// write, and the node must be known and run another version.
    pub fn upgrade_child_canister(
        &self,
        caller: &Principal,
        canister_principal: &Principal,
    ) -> (r: Step)
        ensures
            r@ == first_step(
                upgrade_refusal(self@, caller@, canister_principal@),
                HandoffView {
                    phase: Phase::Installing,
                    node: canister_principal@,
                    ..provisioning(Task::Upgrade, caller@, caller@, 0, Seq::<u8>::empty(), None)
                },
                install_request(self@, canister_principal@, InstallCodeMode::Upgrade, caller@),
            ),
    {
        let method = "upgrade_scalable_canister";
        if !self.has_whitelist_rights(caller, WhitelistRights::ReadWrite) {
            let inputs = upgrade_snapshot(caller, canister_principal);
            return Step::Done(Err(self.whitelist_error(method, inputs)));
        }
        match find_node(&self.canisters, canister_principal) {
            None => {
                let inputs = upgrade_snapshot(caller, canister_principal);
                Step::Done(
                    Err(
                        self.fail(
                            ApiErrorType::NotFound,
                            "NO_CHILDREN",
                            "There are no child canisters found",
                            method,
                            inputs,
                        ),
                    ),
                )
            },
            Some(i) => {
                assert(self@.canisters[i as int] == self.canisters@[i as int]@);
                if self.child_wasm_data.wasm_version == self.canisters[i].wasm_version {
                    let inputs = upgrade_snapshot(caller, canister_principal);
                    return Step::Done(
                        Err(
                            self.fail(
                                ApiErrorType::BadRequest,
                                "CANISTER_UP_TO_DATE",
                                "The latest WASM version is already installed",
                                method,
                                inputs,
                            ),
                        ),
                    );
                }
                let handoff = Handoff {
                    task: Task::Upgrade,
                    phase: Phase::Installing,
                    caller: caller.clone(),
                    owner: caller.clone(),
                    node: canister_principal.clone(),
                    last_entry_id: 0,
                    entry: Vec::new(),
                    reference: None,
                };
                Step::Ask(
                    handoff,
                    self.install_request(canister_principal, InstallCodeMode::Upgrade, caller),
                )
            },
        }
    }

    /// Starts to put the image of the directory on a node whatever the node
    /// runs. The caller must have the right to write.
    pub fn reinstall_child_canister(
        &self,
        caller: &Principal,
        canister_principal: &Principal,
    ) -> (r: Step)
        ensures
            r@ == if authorized(self@.whitelist, caller@, WhitelistRights::ReadWrite) {
                install_step(
                    self@,
                    provisioning(Task::Reinstall, caller@, caller@, 0, Seq::<u8>::empty(), None),
                    canister_principal@,
                    InstallCodeMode::Reinstall,
                )
            } else {
                StepView::Done(Err(not_whitelisted(self@, "upgrade_scalable_canister"@, None)))
            },
    {
        if !self.has_whitelist_rights(caller, WhitelistRights::ReadWrite) {
            return Step::Done(Err(self.whitelist_error("upgrade_scalable_canister", None)));
        }
        let handoff = Handoff {
            task: Task::Reinstall,
            phase: Phase::Provisioning,
            caller: caller.clone(),
            owner: caller.clone(),
            node: caller.clone(),
            last_entry_id: 0,
            entry: Vec::new(),
            reference: None,
        };
        self.install_step(handoff, canister_principal.clone(), InstallCodeMode::Reinstall)
    }

    /// Takes in the reply to a request to provision a node. A new node is
    /// entered as an empty node that takes entries, and the image is to be
    /// installed on it.
    pub fn spawn_empty_canister(
        &mut self,
        handoff: Handoff,
        created: Result<Principal, String>,
    ) -> (r: Step)
        requires
            old(self).wf(),
        ensures
            final(self).wf(),
            final(self)@ == state_after_created(old(self)@, reply_created(created)),
            r@ == step_after_created(old(self)@, handoff@, reply_created(created)),
    {
        match created {
            Err(words) => {
                let inputs = caller_snapshot(&handoff.caller);
                Step::Done(
                    Err(
                        self.fail(
                            ApiErrorType::BadRequest,
                            "CANISTER_NOT_CREATED",
                            words.as_str(),
                            "_spawn_empty_canister",
                            inputs,
                        ),
                    ),
                )
            },
            Ok(node) => {
                let details = ScalableCanisterDetails {
                    principal: node.clone(),
                    canister_type: CanisterType::Empty,
                    wasm_version: WasmVersion::NoVersion,
                    is_available: true,
                    entry_range: (0, None),
                };
                put_node(&mut self.canisters, details);
                self.install_step(handoff, node, InstallCodeMode::Install)
            },
        }
    }

    /// Marks the node `full` as closed after its entry number
    /// `last_entry_id`: it takes no entries any more.
    pub fn close_node(&mut self, full: &Principal, last_entry_id: u64)
        requires
            old(self).wf(),
        ensures
            final(self).wf(),
            final(self)@ == (ScalableDataView {
                canisters: with_closed(old(self)@.canisters, full@, last_entry_id),
                ..old(self)@
            }),
    {
        let ghost before = self@.canisters;
        match find_node(&self.canisters, full) {
            None => {},
            Some(i) => {
                assert(before[i as int] == self.canisters@[i as int]@);
                let closed = ScalableCanisterDetails {
                    principal: self.canisters[i].principal.clone(),
                    canister_type: self.canisters[i].canister_type,
                    wasm_version: self.canisters[i].wasm_version,
                    is_available: false,
                    entry_range: (self.canisters[i].entry_range.0, Some(last_entry_id)),
                };
                self.canisters.set(i, closed);
                assert(self@.canisters =~= before.update(i as int, closed@));
            },
        }
    }

    /// Takes in the reply to a request to install the image. A node that
    /// was installed anew is entered as a node that runs the image of the
    /// directory and takes entries; a node that was upgraded keeps what was
    /// known of it but for the version. Where the work is the closing of a
    /// full node, that node is closed now, before the entry travels.
    pub fn _install_child_canister(
        &mut self,
        handoff: Handoff,
        installed: Result<(), String>,
    ) -> (r: Step)
        requires
            old(self).wf(),
        ensures
            final(self).wf(),
            final(self)@ == state_after_installed(old(self)@, handoff@, reply_installed(installed)),
            r@ == step_after_installed(old(self)@, handoff@, reply_installed(installed)),
    {
        match installed {
            Err(words) => {
                match handoff.task {
                    Task::Upgrade => {
                        let inputs = upgrade_snapshot(&handoff.caller, &handoff.node);
                        Step::Done(
                            Err(
                                self.fail(
                                    ApiErrorType::BadRequest,
                                    "UPGRADE_FAILED",
                                    words.as_str(),
                                    "upgrade_scalable_canister",
                                    inputs,
                                ),
                            ),
                        )
                    },
                    _ => {
                        let inputs = self.install_snapshot(&handoff.caller);
                        Step::Done(
                            Err(
                                self.fail(
                                    ApiErrorType::NotFound,
                                    "CANISTER_INSTALL_FAILED",
                                    words.as_str(),
                                    "_install_child_canister",
                                    inputs,
                                ),
                            ),
                        )
                    },
                }
            },
            Ok(_) => {
                match handoff.task {
                    Task::Upgrade => {
                        let ghost before = self@.canisters;
                        match find_node(&self.canisters, &handoff.node) {
                            None => {
                                let inputs = upgrade_snapshot(&handoff.caller, &handoff.node);
                                Step::Done(
                                    Err(
                                        self.fail(
                                            ApiErrorType::NotFound,
                                            "NO_CHILDREN",
                                            "There are no child canisters found",
                                            "upgrade_scalable_canister",
                                            inputs,
                                        ),
                                    ),
                                )
                            },
                            Some(i) => {
                                assert(before[i as int] == self.canisters@[i as int]@);
                                let upgraded = ScalableCanisterDetails {
                                    principal: self.canisters[i].principal.clone(),
                                    canister_type: self.canisters[i].canister_type,
                                    wasm_version: self.child_wasm_data.wasm_version,
                                    is_available: self.canisters[i].is_available,
                                    entry_range: (
                                        self.canisters[i].entry_range.0,
                                        self.canisters[i].entry_range.1,
                                    ),
                                };
                                let shown = upgraded.clone();
                                self.canisters.set(i, upgraded);
                                assert(self@.canisters =~= before.update(i as int, upgraded@));
                                Step::Done(Ok(shown))
                            },
                        }
                    },
                    _ => {
                        let details = ScalableCanisterDetails {
                            principal: handoff.node.clone(),
                            canister_type: CanisterType::ScalableChild,
                            wasm_version: self.child_wasm_data.wasm_version,
                            is_available: true,
                            entry_range: (0, None),
                        };
                        let shown = details.clone();
                        put_node(&mut self.canisters, details);
                        match handoff.task {
                            Task::Sibling => {
                                self.close_node(&handoff.caller, handoff.last_entry_id);
                                let request = Request::ForwardEntry {
                                    node: handoff.node.clone(),
                                    reference: duplicate_reference(&handoff.reference),
                                    entry: handoff.entry,
                                };
                                let next = Handoff {
                                    task: handoff.task,
                                    phase: Phase::Forwarding,
                                    caller: handoff.caller,
                                    owner: handoff.owner,
                                    node: handoff.node,
                                    last_entry_id: handoff.last_entry_id,
                                    entry: Vec::new(),
                                    reference: handoff.reference,
                                };
                                Step::Ask(next, request)
                            },
                            _ => Step::Done(Ok(shown)),
                        }
                    },
                }
            },
        }
    }

    /// Takes in the reply to the forwarding of the entry and ends the work.
    /// A failure of the forwarding is reported; the full node stays
    /// closed.
    pub fn entry_forwarded(&self, handoff: Handoff, forwarded: Result<(), String>) -> (r: Step)
        ensures
            r@ == step_after_forwarded(self@, handoff@, reply_installed(forwarded)),
    {
        match forwarded {
            Err(words) => {
                let inputs = close_snapshot(
                    &handoff.caller,
                    &handoff.owner,
                    handoff.last_entry_id,
                    &handoff.reference,
                );
                Step::Done(
                    Err(
                        self.fail(
                            ApiErrorType::BadRequest,
                            "FAILED_TO_STORE_DATA",
                            words.as_str(),
                            "close_child_canister_and_spawn_sibling",
                            inputs,
                        ),
                    ),
                )
            },
            Ok(_) => match find_node(&self.canisters, &handoff.node) {
                Some(i) => {
                    assert(self@.canisters[i as int] == self.canisters@[i as int]@);
                    Step::Done(Ok(self.canisters[i].clone()))
                },
                None => Step::Done(
                    Ok(
                        ScalableCanisterDetails {
                            principal: handoff.node,
                            canister_type: CanisterType::ScalableChild,
                            wasm_version: self.child_wasm_data.wasm_version,
                            is_available: true,
                            entry_range: (0, None),
                        },
                    ),
                ),
            },
        }
    }

    /// Takes the work up again with the reply to what was asked. The
    /// directory moves to the state, and the work to the move, that
    /// [`state_after`] and [`step_after`] give. A reply that does not answer
    /// what the work waits for ends the work and changes nothing.
    pub fn resume(&mut self, handoff: Handoff, reply: Reply) -> (r: Step)
        requires
            old(self).wf(),
        ensures
            final(self).wf(),
            final(self)@ == state_after(old(self)@, handoff@, reply@),
            r@ == step_after(old(self)@, handoff@, reply@),
    {
        match reply {
            Reply::NodeCreated(created) => {
                let starts = match handoff.phase {
                    Phase::Provisioning => match handoff.task {
                        Task::FirstNode | Task::Sibling => true,
                        _ => false,
                    },
                    _ => false,
                };
                if starts {
                    self.spawn_empty_canister(handoff, created)
                } else {
                    Step::Done(Err(self.unexpected_reply()))
                }
            },
            Reply::CodeInstalled(installed) => {
                match handoff.phase {
                    Phase::Installing => self._install_child_canister(handoff, installed),
                    _ => Step::Done(Err(self.unexpected_reply())),
                }
            },
            Reply::EntryForwarded(forwarded) => {
                let ends = match handoff.phase {
                    Phase::Forwarding => match handoff.task {
                        Task::Sibling => true,
                        _ => false,
                    },
                    _ => false,
                };
                if ends {
                    self.entry_forwarded(handoff, forwarded)
                } else {
                    Step::Done(Err(self.unexpected_reply()))
                }
            },
        }
    }

    /// The error for a reply that does not answer what was asked.
    pub fn unexpected_reply(&self) -> (r: ApiError)
        ensures
            r@ == unexpected_reply(self@),
    {
        self.fail(
            ApiErrorType::Unexpected,
            "UNEXPECTED_REPLY",
            "The reply does not answer the request",
            "resume",
            None,
        )
    }
}

/// How the provisioning of a node ended, as the directory sees it.
pub open spec fn reply_created(created: Result<Principal, String>) -> Result<Seq<u8>, Seq<char>> {
    match created {
        Ok(node) => Ok(node@),
        Err(words) => Err(words@),
    }
}

/// How an installation or a forwarding ended, as the directory sees it.
pub open spec fn reply_installed(installed: Result<(), String>) -> Result<(), Seq<char>> {
    match installed {
        Ok(_) => Ok(()),
        Err(words) => Err(words@),
    }
}

} // verus!
