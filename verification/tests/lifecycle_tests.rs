use scalable_groups::directory::{CanisterType, ScalableCanisterDetails, ScalableData, WasmVersion};
use scalable_groups::error::ApiError;
use scalable_groups::lifecycle::{
    Handoff, InstallArguments, InstallCodeMode, Phase, Reply, Request, Step, Task,
    NEW_NODE_CYCLES,
};
use scalable_groups::principal::Principal;
use scalable_groups::whitelist::WhitelistRights;

fn p(n: u8) -> Principal {
    Principal::from_slice(&[n, 1, 1]).unwrap()
}

fn owner() -> Principal {
    p(1)
}

fn directory() -> ScalableData {
    let mut d = ScalableData::init("groups".to_string(), owner(), p(2), p(3), 1000);
    d.add_wasm(&owner(), "image".to_string(), vec![9, 9, 9], 1001).unwrap();
    d
}

fn ask(step: Step) -> (Handoff, Request) {
    match step {
        Step::Ask(handoff, request) => (handoff, request),
        other => panic!("{:?}", other),
    }
}

fn done(step: Step) -> Result<ScalableCanisterDetails, ApiError> {
    match step {
        Step::Done(r) => r,
        other => panic!("{:?}", other),
    }
}

fn tag(e: &ApiError) -> String {
    match e {
        ApiError::Unexpected(m)
        | ApiError::Unauthorized(m)
        | ApiError::NotFound(m)
        | ApiError::BadRequest(m)
        | ApiError::CanisterAtCapacity(m) => m.tag.clone(),
        ApiError::ValidationError(_) => "VALIDATION".to_string(),
    }
}

fn with_first_node(d: &mut ScalableData, node: Principal) {
    let (h, _) = ask(d.initialize_first_child_canister(&owner()));
    let (h, _) = ask(d.resume(h, Reply::NodeCreated(Ok(node))));
    done(d.resume(h, Reply::CodeInstalled(Ok(())))).unwrap();
}

#[test]
fn the_first_node_is_provisioned_then_installed() {
    let mut d = directory();
    let (h, request) = ask(d.initialize_first_child_canister(&owner()));
    assert_eq!((h.task, h.phase), (Task::FirstNode, Phase::Provisioning));
    assert_eq!(
        request,
        Request::CreateNode { controllers: vec![owner(), p(3)], cycles: NEW_NODE_CYCLES }
    );
    assert_eq!(NEW_NODE_CYCLES, 2_000_000_000_000);
    let (h, request) = ask(d.resume(h, Reply::NodeCreated(Ok(p(10)))));
    assert_eq!(h.phase, Phase::Installing);
    assert_eq!(
        d.canisters,
        vec![ScalableCanisterDetails {
            principal: p(10),
            canister_type: CanisterType::Empty,
            wasm_version: WasmVersion::NoVersion,
            is_available: true,
            entry_range: (0, None),
        }]
    );
    assert_eq!(
        request,
        Request::InstallCode {
            node: p(10),
            mode: InstallCodeMode::Install,
            image: vec![9, 9, 9],
            arguments: Some(InstallArguments {
                owner: owner(),
                parent: p(3),
                name: "groups".to_string(),
                index: 1,
            }),
        }
    );
    let node = done(d.resume(h, Reply::CodeInstalled(Ok(())))).unwrap();
    let expected = ScalableCanisterDetails {
        principal: p(10),
        canister_type: CanisterType::ScalableChild,
        wasm_version: WasmVersion::Version(1),
        is_available: true,
        entry_range: (0, None),
    };
    assert_eq!(node, expected);
    assert_eq!(d.canisters, vec![expected]);
}

#[test]
fn the_first_node_needs_an_image() {
    let d = ScalableData::init("groups".to_string(), owner(), p(2), p(3), 1000);
    let e = done(d.initialize_first_child_canister(&owner())).unwrap_err();
    assert_eq!(tag(&e), "NO_WASM_SPECIFIED");
    match e {
        ApiError::BadRequest(m) => assert_eq!(m.message, "There is no child WASM uploaded"),
        other => panic!("{:?}", other),
    }
}

#[test]
fn the_first_node_needs_a_known_caller() {
    let d = directory();
    let e = done(d.initialize_first_child_canister(&p(9))).unwrap_err();
    assert_eq!(tag(&e), "UNKNOWN_CANISTER");
}

#[test]
fn the_first_node_is_brought_up_once() {
    let mut d = directory();
    with_first_node(&mut d, p(10));
    let e = done(d.initialize_first_child_canister(&owner())).unwrap_err();
    assert_eq!(tag(&e), "ALREADY_INITIALIZED");
}

#[test]
fn a_failed_provisioning_is_reported_in_the_words_of_the_collaborator() {
    let mut d = directory();
    let (h, _) = ask(d.initialize_first_child_canister(&owner()));
    let e = done(d.resume(h, Reply::NodeCreated(Err("out of cycles".to_string())))).unwrap_err();
    match e {
        ApiError::BadRequest(m) => {
            assert_eq!(m.tag, "CANISTER_NOT_CREATED");
            assert_eq!(m.message, "out of cycles");
        }
        other => panic!("{:?}", other),
    }
    assert!(d.canisters.is_empty());
}

#[test]
fn a_failed_installation_leaves_the_node_empty() {
    let mut d = directory();
    let (h, _) = ask(d.initialize_first_child_canister(&owner()));
    let (h, _) = ask(d.resume(h, Reply::NodeCreated(Ok(p(10)))));
    let e = done(d.resume(h, Reply::CodeInstalled(Err("trap".to_string())))).unwrap_err();
    match e {
        ApiError::NotFound(m) => {
            assert_eq!(m.tag, "CANISTER_INSTALL_FAILED");
            assert_eq!(m.message, "trap");
        }
        other => panic!("{:?}", other),
    }
    assert_eq!(d.canisters[0].canister_type, CanisterType::Empty);
}

#[test]
fn a_full_node_is_closed_and_followed_by_a_new_one() {
    let mut d = directory();
    with_first_node(&mut d, p(10));
    let (h, request) = ask(d.close_child_canister_and_spawn_sibling(
        &p(10),
        &p(7),
        41,
        vec![1, 2, 3],
        Some(p(8)),
    ));
    assert_eq!((h.task, h.phase), (Task::Sibling, Phase::Provisioning));
    assert_eq!(
        request,
        Request::CreateNode { controllers: vec![p(10), p(3)], cycles: NEW_NODE_CYCLES }
    );
    let (h, request) = ask(d.resume(h, Reply::NodeCreated(Ok(p(11)))));
    match request {
        Request::InstallCode { node, mode, arguments, .. } => {
            assert_eq!(node, p(11));
            assert_eq!(mode, InstallCodeMode::Install);
            let a = arguments.unwrap();
            assert_eq!((a.owner, a.parent, a.index), (p(7), p(3), 2));
        }
        other => panic!("{:?}", other),
    }
    // Until the image is on the new node, the full node still takes the calls.
    assert!(d.canisters[0].is_available);
    let (h, request) = ask(d.resume(h, Reply::CodeInstalled(Ok(()))));
    assert_eq!(h.phase, Phase::Forwarding);
    assert_eq!(
        request,
        Request::ForwardEntry { node: p(11), reference: Some(p(8)), entry: vec![1, 2, 3] }
    );
    // The full node is closed before the entry travels.
    assert_eq!(
        d.canisters[0],
        ScalableCanisterDetails {
            principal: p(10),
            canister_type: CanisterType::ScalableChild,
            wasm_version: WasmVersion::Version(1),
            is_available: false,
            entry_range: (0, Some(41)),
        }
    );
    let node = done(d.resume(h, Reply::EntryForwarded(Ok(())))).unwrap();
    assert_eq!(node.principal, p(11));
    assert!(node.is_available);
    // The directory now points away from the full node.
    let next = d.get_available_canister(&p(10)).unwrap();
    assert_eq!(next.principal, p(11));
    assert_ne!(next.principal, p(10));
}

#[test]
fn a_failed_forwarding_is_reported_and_the_full_node_stays_closed() {
    let mut d = directory();
    with_first_node(&mut d, p(10));
    let (h, _) = ask(d.close_child_canister_and_spawn_sibling(&p(10), &p(7), 41, vec![1], None));
    let (h, _) = ask(d.resume(h, Reply::NodeCreated(Ok(p(11)))));
    let (h, _) = ask(d.resume(h, Reply::CodeInstalled(Ok(()))));
    let e = done(d.resume(h, Reply::EntryForwarded(Err("rejected".to_string())))).unwrap_err();
    match e {
        ApiError::BadRequest(m) => {
            assert_eq!(m.tag, "FAILED_TO_STORE_DATA");
            assert_eq!(m.message, "rejected");
            assert_eq!(m.inputs.unwrap()[2..], [
                "last_entry_id - 41".to_string(),
                "principal_entry_reference - None".to_string(),
            ]);
        }
        other => panic!("{:?}", other),
    }
    assert!(!d.canisters[0].is_available);
}

#[test]
fn only_a_node_of_the_directory_is_closed() {
    let mut d = directory();
    with_first_node(&mut d, p(10));
    let e = done(d.close_child_canister_and_spawn_sibling(&p(9), &p(7), 1, vec![], None))
        .unwrap_err();
    assert_eq!(tag(&e), "UNKNOWN_CANISTER");
    let bare = ScalableData::init("groups".to_string(), owner(), p(2), p(3), 1000);
    let e = done(bare.close_child_canister_and_spawn_sibling(&p(9), &p(7), 1, vec![], None))
        .unwrap_err();
    assert_eq!(tag(&e), "NO_WASM_SPECIFIED");
}

#[test]
fn no_node_is_available_to_the_only_node() {
    let mut d = directory();
    assert_eq!(d.get_available_canister(&p(1)), Err("No available canister found".to_string()));
    with_first_node(&mut d, p(10));
    assert_eq!(d.get_available_canister(&p(10)), Err("No available canister found".to_string()));
    assert_eq!(d.get_available_canister(&p(1)).unwrap().principal, p(10));
    assert_eq!(d.get_canisters(), d.canisters);
}

#[test]
fn an_upgrade_stamps_the_version_and_keeps_the_rest() {
    let mut d = directory();
    with_first_node(&mut d, p(10));
    let e = done(d.upgrade_child_canister(&owner(), &p(10))).unwrap_err();
    assert_eq!(tag(&e), "CANISTER_UP_TO_DATE");
    d.add_wasm(&owner(), "image 2".to_string(), vec![8], 2000).unwrap();
    let (h, request) = ask(d.upgrade_child_canister(&owner(), &p(10)));
    assert_eq!((h.task, h.phase), (Task::Upgrade, Phase::Installing));
    assert_eq!(
        request,
        Request::InstallCode {
            node: p(10),
            mode: InstallCodeMode::Upgrade,
            image: vec![8],
            arguments: None,
        }
    );
    let node = done(d.resume(h, Reply::CodeInstalled(Ok(())))).unwrap();
    assert_eq!(node.wasm_version, WasmVersion::Version(2));
    assert_eq!(node.canister_type, CanisterType::ScalableChild);
    assert_eq!(d.canisters[0], node);
}

#[test]
fn an_upgrade_is_for_writers_and_known_nodes() {
    let mut d = directory();
    with_first_node(&mut d, p(10));
    assert_eq!(tag(&done(d.upgrade_child_canister(&p(9), &p(10))).unwrap_err()), "NOT_WHITELISTED");
    assert_eq!(tag(&done(d.upgrade_child_canister(&owner(), &p(9))).unwrap_err()), "NO_CHILDREN");
}

#[test]
fn a_failed_upgrade_is_reported() {
    let mut d = directory();
    with_first_node(&mut d, p(10));
    d.add_wasm(&owner(), "image 2".to_string(), vec![8], 2000).unwrap();
    let (h, _) = ask(d.upgrade_child_canister(&owner(), &p(10)));
    let e = done(d.resume(h, Reply::CodeInstalled(Err("no".to_string())))).unwrap_err();
    match e {
        ApiError::BadRequest(m) => {
            assert_eq!((m.tag.as_str(), m.message.as_str()), ("UPGRADE_FAILED", "no"))
        }
        other => panic!("{:?}", other),
    }
    assert_eq!(d.canisters[0].wasm_version, WasmVersion::Version(1));
}

#[test]
fn a_reinstall_skips_the_version_check() {
    let mut d = directory();
    with_first_node(&mut d, p(10));
    let (h, request) = ask(d.reinstall_child_canister(&owner(), &p(10)));
    assert_eq!((h.task, h.phase), (Task::Reinstall, Phase::Installing));
    match request {
        Request::InstallCode { mode, .. } => assert_eq!(mode, InstallCodeMode::Reinstall),
        other => panic!("{:?}", other),
    }
    let node = done(d.resume(h, Reply::CodeInstalled(Ok(())))).unwrap();
    assert_eq!(node.principal, p(10));
    assert_eq!(node.wasm_version, WasmVersion::Version(1));
    let e = done(d.reinstall_child_canister(&p(9), &p(10))).unwrap_err();
    match e {
        ApiError::Unauthorized(m) => assert_eq!(m.inputs, None),
        other => panic!("{:?}", other),
    }
}

#[test]
fn a_reply_that_answers_nothing_changes_nothing() {
    let mut d = directory();
    let (h, _) = ask(d.initialize_first_child_canister(&owner()));
    let e = done(d.resume(h, Reply::EntryForwarded(Ok(())))).unwrap_err();
    assert_eq!(tag(&e), "UNEXPECTED_REPLY");
    assert!(d.canisters.is_empty());
    assert!(d.has_whitelist_rights(&owner(), WhitelistRights::Owner));
}

#[test]
fn a_first_installation_needs_an_empty_node() {
    let mut d = directory();
    with_first_node(&mut d, p(10));
    let (h, _) = ask(d.close_child_canister_and_spawn_sibling(&p(10), &p(7), 1, vec![], None));
    let e = done(d.install_step(h, p(10), InstallCodeMode::Install)).unwrap_err();
    assert_eq!(tag(&e), "CANISTER_NOT_EMPTY");
    let (h, _) = ask(d.close_child_canister_and_spawn_sibling(&p(10), &p(7), 1, vec![], None));
    let e = done(d.install_step(h, p(77), InstallCodeMode::Install)).unwrap_err();
    assert_eq!(tag(&e), "CANISTER_NOT_EMPTY");
}
