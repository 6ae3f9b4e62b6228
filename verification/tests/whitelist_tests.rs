use candid::Principal as CandidPrincipal;
use scalable_groups::directory::{CanisterType, ScalableData, WasmVersion};
use scalable_groups::error::{ApiError, ErrorMessage};
use scalable_groups::principal::Principal;
use scalable_groups::whitelist::{authorize, WhitelistEntry, WhitelistRights};

fn p(n: u8) -> Principal {
    Principal::from_slice(&[n, 1, 1]).unwrap()
}

fn text(principal: &Principal) -> String {
    CandidPrincipal::from_slice(principal.as_slice()).to_text()
}

fn directory() -> ScalableData {
    ScalableData::init("groups".to_string(), p(1), p(2), p(3), 1000)
}

fn entry(principal: Principal, rights: WhitelistRights) -> WhitelistEntry {
    WhitelistEntry { label: "x".to_string(), principal, rights, created_on: 0 }
}

#[test]
fn a_stored_right_passes_the_checks_at_or_below_it() {
    let list = vec![
        entry(p(1), WhitelistRights::Owner),
        entry(p(2), WhitelistRights::ReadWrite),
        entry(p(3), WhitelistRights::Read),
    ];
    let all = [WhitelistRights::Owner, WhitelistRights::ReadWrite, WhitelistRights::Read];
    for (who, stored) in [(1u8, 0usize), (2, 1), (3, 2)] {
        for (asked, required) in all.iter().enumerate() {
            assert_eq!(authorize(&list, &p(who), *required), stored <= asked);
        }
    }
}

#[test]
fn a_read_entry_never_passes_a_check_for_more() {
    let list = vec![entry(p(3), WhitelistRights::Read)];
    assert!(authorize(&list, &p(3), WhitelistRights::Read));
    assert!(!authorize(&list, &p(3), WhitelistRights::ReadWrite));
    assert!(!authorize(&list, &p(3), WhitelistRights::Owner));
}

#[test]
fn an_unlisted_principal_passes_no_check() {
    let list = vec![entry(p(1), WhitelistRights::Owner)];
    assert!(!authorize(&list, &p(9), WhitelistRights::Read));
    assert!(!authorize(&Vec::new(), &p(1), WhitelistRights::Read));
}

#[test]
fn the_order_of_rights_puts_the_owner_first() {
    assert!(WhitelistRights::Owner < WhitelistRights::ReadWrite);
    assert!(WhitelistRights::ReadWrite < WhitelistRights::Read);
}

#[test]
fn a_new_directory_has_its_owner_as_the_one_entry() {
    let d = directory();
    assert_eq!(
        d.whitelist,
        vec![WhitelistEntry {
            label: "Owner".to_string(),
            principal: p(1),
            rights: WhitelistRights::Owner,
            created_on: 1000,
        }]
    );
    assert_eq!(d.name, "groups");
    assert!(d.canisters.is_empty());
    assert_eq!((d.created_at, d.updated_at), (1000, 1000));
    assert!(d.has_whitelist_rights(&p(1), WhitelistRights::Owner));
}

#[test]
fn the_owner_adds_and_removes_entries() {
    let mut d = directory();
    assert_eq!(
        d.add_to_whitelist(&p(1), "ops".to_string(), p(5), WhitelistRights::ReadWrite, 7),
        Ok(true)
    );
    assert_eq!(d.whitelist.len(), 2);
    assert_eq!(d.whitelist[1], WhitelistEntry {
        label: "ops".to_string(),
        principal: p(5),
        rights: WhitelistRights::ReadWrite,
        created_on: 7,
    });
    assert!(d.has_whitelist_rights(&p(5), WhitelistRights::Read));
    assert_eq!(d.remove_from_whitelist(&p(1), &p(5)), Ok(true));
    assert_eq!(d.whitelist.len(), 1);
    assert_eq!(d.whitelist[0].rights, WhitelistRights::Owner);
}

#[test]
fn nobody_is_made_owner() {
    let mut d = directory();
    let r = d.add_to_whitelist(&p(1), "me".to_string(), p(5), WhitelistRights::Owner, 7);
    assert_eq!(
        r,
        Err(ApiError::BadRequest(ErrorMessage {
            tag: "CANT_SET_RIGHTS".to_string(),
            message: "It's not possible to set the whitelist rights to owner".to_string(),
            location: format!("{}/groups/add_to_whitelist", text(&p(3))),
            inputs: Some(vec![
                format!("caller - {}", text(&p(1))),
                "label - me".to_string(),
                format!("principal - {}", text(&p(5))),
                "rights - Owner".to_string(),
            ]),
        }))
    );
    assert_eq!(d.whitelist.len(), 1);
}

#[test]
fn only_the_owner_adds() {
    let mut d = directory();
    d.add_to_whitelist(&p(1), "ops".to_string(), p(5), WhitelistRights::ReadWrite, 7).unwrap();
    let r = d.add_to_whitelist(&p(5), "x".to_string(), p(6), WhitelistRights::Read, 8);
    match r {
        Err(ApiError::Unauthorized(m)) => {
            assert_eq!(m.tag, "NOT_WHITELISTED");
            assert_eq!(m.message, "You are not allowed to perform this action");
        }
        other => panic!("{:?}", other),
    }
    assert_eq!(d.whitelist.len(), 2);
}

#[test]
fn a_principal_is_listed_once() {
    let mut d = directory();
    d.add_to_whitelist(&p(1), "ops".to_string(), p(5), WhitelistRights::ReadWrite, 7).unwrap();
    match d.add_to_whitelist(&p(1), "again".to_string(), p(5), WhitelistRights::Read, 8) {
        Err(ApiError::BadRequest(m)) => assert_eq!(m.tag, "ALREADY_WHITELISTED"),
        other => panic!("{:?}", other),
    }
    assert_eq!(d.whitelist.len(), 2);
}

#[test]
fn the_owner_entry_is_never_removed() {
    let mut d = directory();
    d.add_to_whitelist(&p(1), "ops".to_string(), p(5), WhitelistRights::ReadWrite, 7).unwrap();
    for caller in [p(1), p(5), p(9)] {
        match d.remove_from_whitelist(&caller, &p(1)) {
            Err(ApiError::BadRequest(m)) => assert_eq!(m.tag, "CANT_SET_RIGHTS"),
            other => panic!("{:?}", other),
        }
    }
    assert_eq!(d.whitelist.iter().filter(|e| e.rights == WhitelistRights::Owner).count(), 1);
}

#[test]
fn removing_an_unlisted_principal_is_not_found() {
    let mut d = directory();
    match d.remove_from_whitelist(&p(1), &p(9)) {
        Err(ApiError::NotFound(m)) => {
            assert_eq!(m.tag, "WHITELIST_ENTRY_NOT_FOUND");
            assert_eq!(m.location, format!("{}/groups/remove_from_whitelist", text(&p(3))));
        }
        other => panic!("{:?}", other),
    }
}

#[test]
fn only_the_owner_removes() {
    let mut d = directory();
    d.add_to_whitelist(&p(1), "a".to_string(), p(5), WhitelistRights::ReadWrite, 7).unwrap();
    d.add_to_whitelist(&p(1), "b".to_string(), p(6), WhitelistRights::Read, 7).unwrap();
    match d.remove_from_whitelist(&p(5), &p(6)) {
        Err(ApiError::Unauthorized(m)) => assert_eq!(m.tag, "NOT_WHITELISTED"),
        other => panic!("{:?}", other),
    }
    assert_eq!(d.whitelist.len(), 3);
}

#[test]
fn the_name_changes_for_a_writer_while_there_is_at_most_one_node() {
    let mut d = directory();
    assert!(!d.change_name(&p(9), "other".to_string()));
    assert_eq!(d.get_name(), "groups");
    assert!(d.change_name(&p(1), "other".to_string()));
    assert_eq!(d.get_name(), "other");
}

#[test]
fn metadata_is_for_readers() {
    let d = directory();
    let m = d.get_metadata(&p(1), 55, 66).unwrap();
    assert_eq!(m.name, "groups");
    assert_eq!(m.canister_count, 0);
    assert!(!m.has_child_wasm);
    assert_eq!((m.cycles, m.used_data), (55, 66));
    assert_eq!((m.owner, m.parent), (p(1), p(2)));
    match d.get_metadata(&p(9), 0, 0) {
        Err(ApiError::Unauthorized(m)) => {
            assert_eq!(m.inputs, Some(vec![format!("caller - {}", text(&p(9)))]));
        }
        other => panic!("{:?}", other),
    }
}

#[test]
fn the_whitelist_is_read_in_pages() {
    let mut d = directory();
    d.add_to_whitelist(&p(1), "a".to_string(), p(5), WhitelistRights::ReadWrite, 7).unwrap();
    d.add_to_whitelist(&p(1), "b".to_string(), p(6), WhitelistRights::Read, 7).unwrap();
    let page = d.get_whitelist(&p(6), 2, 2).unwrap();
    assert_eq!((page.page, page.limit, page.total, page.number_of_pages), (2, 2, 3, 2));
    assert_eq!(page.data.len(), 1);
    assert_eq!(page.data[0].principal, p(6));
    match d.get_whitelist(&p(9), 2, 1) {
        Err(ApiError::Unauthorized(m)) => assert_eq!(
            m.inputs,
            Some(vec![
                format!("caller - {}", text(&p(9))),
                "limit - 2".to_string(),
                "page - 1".to_string(),
            ])
        ),
        other => panic!("{:?}", other),
    }
}

#[test]
fn an_image_is_staged_with_the_next_version() {
    let mut d = directory();
    assert_eq!(d.add_wasm(&p(1), "v1".to_string(), vec![1, 2, 3], 10), Ok(true));
    assert_eq!(d.child_wasm_data.wasm_version, WasmVersion::Version(1));
    assert_eq!(d.child_wasm_data.wasm_type, CanisterType::ScalableChild);
    assert_eq!(d.add_wasm(&p(1), "v2".to_string(), vec![4], 20), Ok(true));
    let image = d.get_wasm(&p(1)).unwrap();
    assert_eq!(image.wasm_version, WasmVersion::Version(2));
    assert_eq!(image.bytes, vec![4]);
    assert_eq!((image.updated_at, image.created_at), (20, 0));
    assert!(d.add_wasm(&p(9), "no".to_string(), vec![], 30).is_err());
    assert!(d.get_wasm(&p(9)).is_err());
}
