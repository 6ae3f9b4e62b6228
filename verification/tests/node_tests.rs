use ic_scalable_misc::enums::asset_type::Asset;
use ic_scalable_misc::enums::location_type::Location;
use scalable_groups::admission::AddStep;
use scalable_groups::directory::{
    nodes_are_distinct, CanisterType, ScalableCanisterDetails, ScalableData, WasmVersion,
};
use scalable_groups::error::{api_error, input, location, ApiError, ApiErrorType, ErrorMessage};
use scalable_groups::group_model::{Group, GroupResponse, PostGroup, Privacy};
use scalable_groups::migration::one_of_each_name;
use scalable_groups::principal::Principal;
use scalable_groups::principal_map::PrincipalMap;
use scalable_groups::roles::GroupRole;
use scalable_groups::snapshot::{lines1, lines4, principal_input};
use scalable_groups::store::{
    get_largest_entry, get_max_entries, roles_are_distinct, Store, MAX_BYTES, MIGRATED_ENTRIES,
};
use scalable_groups::whitelist::{whitelist_is_valid, WhitelistEntry, WhitelistRights};

fn p(n: u8) -> Principal {
    Principal::from_slice(&[n, 5, 5]).unwrap()
}

fn store() -> Store {
    Store::new(p(200), p(201), "groups".to_string(), 0, 10, 0).unwrap()
}

fn role(name: &str, color: &str) -> GroupRole {
    GroupRole {
        name: name.to_string(),
        protected: false,
        permissions: vec![],
        color: color.to_string(),
        index: None,
    }
}

fn shown(id: u8, name: &str, roles: Vec<GroupRole>) -> GroupResponse {
    GroupResponse {
        identifier: p(id),
        name: name.to_string(),
        description: "d".to_string(),
        website: "w".to_string(),
        location: Location::None,
        privacy: Privacy::Private,
        created_by: p(1),
        owner: p(2),
        matrix_space_id: "m".to_string(),
        image: Asset::None,
        banner_image: Asset::None,
        tags: vec![3],
        roles,
        member_count: 12,
        wallets: vec![(p(9), "w".to_string())],
        is_deleted: false,
        updated_on: 8,
        created_on: 7,
    }
}

#[test]
fn the_capacity_is_what_fits_if_every_entry_is_as_large_as_the_largest() {
    assert_eq!(MAX_BYTES, 4_294_967_296);
    assert_eq!(get_largest_entry(&vec![]), 8);
    assert_eq!(get_largest_entry(&vec![0, 0]), 8);
    assert_eq!(get_largest_entry(&vec![3, 900, 12]), 900);
    assert_eq!(get_largest_entry(&vec![1]), 1);
    assert_eq!(get_max_entries(&vec![]), 536_870_912);
    assert_eq!(get_max_entries(&vec![1024, 4096]), 1_048_576);
    assert_eq!(get_max_entries(&vec![3]), 1_431_655_765);
}

#[test]
fn the_counter_of_entries_is_set_by_the_migrator_only() {
    let mut s = store();
    s.set_entry_count(&p(1), &p(2));
    assert_eq!(s.data.current_entry_id, 0);
    s.set_entry_count(&p(2), &p(2));
    assert_eq!(s.data.current_entry_id, 1000);
    assert_eq!(MIGRATED_ENTRIES, 1000);
    assert_eq!(s.last_entry_id(), 999);
    assert_eq!(store().last_entry_id(), 0);
}

#[test]
fn groups_of_another_service_are_taken_over_under_their_identifiers() {
    let mut s = store();
    let groups = vec![
        shown(1, "one", vec![role("a", "1"), role("b", "2"), role("a", "3")]),
        shown(2, "two", vec![]),
        shown(1, "one again", vec![role("c", "4")]),
    ];
    assert_eq!(s.migration_add_groups(&p(7), &p(7), Ok(Ok(groups))), Ok(()));
    assert_eq!(s.entries.len(), 2);
    assert!(s.is_valid());
    let one = s.get_group(&p(1)).unwrap();
    assert_eq!(one.name, "one again");
    assert_eq!(one.roles[0], role("c", "4"));
    assert_eq!(one.member_count, 0);
    assert!(one.wallets.is_empty());
    assert_eq!((one.created_by.clone(), one.owner.clone()), (p(1), p(2)));
    assert_eq!((one.created_on, one.updated_on), (7, 8));
    assert_eq!(one.privacy, Privacy::Private);
    assert_eq!(s.get_group(&p(2)).unwrap().name, "two");
    // The counter of entries is left as it was.
    assert_eq!(s.data.current_entry_id, 0);
}

#[test]
fn a_migration_is_for_the_migrator_and_hands_failures_on() {
    let mut s = store();
    assert_eq!(
        s.migration_add_groups(&p(8), &p(7), Ok(Ok(vec![shown(1, "one", vec![])]))),
        Err("Unauthorized".to_string())
    );
    assert_eq!(
        s.migration_add_groups(&p(7), &p(7), Err("no answer".to_string())),
        Err("no answer".to_string())
    );
    assert_eq!(
        s.migration_add_groups(&p(7), &p(7), Ok(Err("refused".to_string()))),
        Err("refused".to_string())
    );
    assert_eq!(s.entries.len(), 0);
}

#[test]
fn of_each_role_name_the_first_role_stays() {
    let out = one_of_each_name(vec![
        role("a", "1"),
        role("b", "2"),
        role("a", "3"),
        role("c", "4"),
        role("b", "5"),
    ]);
    assert_eq!(out, vec![role("a", "1"), role("b", "2"), role("c", "4")]);
    assert!(roles_are_distinct(&out));
    assert!(!roles_are_distinct(&vec![role("a", "1"), role("b", "2"), role("a", "3")]));
    assert!(roles_are_distinct(&vec![]));
}

#[test]
fn validity_can_be_tested() {
    let entry = |n: u8, rights| WhitelistEntry {
        label: String::new(),
        principal: p(n),
        rights,
        created_on: 0,
    };
    assert!(whitelist_is_valid(&vec![
        entry(1, WhitelistRights::Read),
        entry(2, WhitelistRights::Owner),
        entry(3, WhitelistRights::ReadWrite),
    ]));
    assert!(!whitelist_is_valid(&vec![]));
    assert!(!whitelist_is_valid(&vec![entry(1, WhitelistRights::Read)]));
    assert!(!whitelist_is_valid(&vec![
        entry(1, WhitelistRights::Owner),
        entry(2, WhitelistRights::Owner),
    ]));
    assert!(!whitelist_is_valid(&vec![
        entry(1, WhitelistRights::Owner),
        entry(2, WhitelistRights::Read),
        entry(2, WhitelistRights::ReadWrite),
    ]));
    let node = |n: u8| ScalableCanisterDetails {
        principal: p(n),
        canister_type: CanisterType::Empty,
        wasm_version: WasmVersion::NoVersion,
        is_available: true,
        entry_range: (0, None),
    };
    assert!(nodes_are_distinct(&vec![node(1), node(2)]));
    assert!(!nodes_are_distinct(&vec![node(1), node(2), node(1)]));
    let mut d = ScalableData::init("n".to_string(), p(1), p(2), p(3), 0);
    assert!(d.is_valid());
    assert_eq!(d._get_data(), d);
    d.whitelist.clear();
    assert!(!d.is_valid());
    let mut s = store();
    assert!(s.is_valid());
    s.id = Principal::from_slice(&[1u8; 20]).unwrap();
    assert!(!s.is_valid());
}

#[test]
fn a_table_keeps_one_value_for_each_key_in_the_order_of_first_insertion() {
    let mut t: PrincipalMap<u32> = PrincipalMap::new();
    assert_eq!(t.len(), 0);
    t.insert(p(1), 10);
    t.insert(p(2), 20);
    t.insert(p(1), 11);
    assert_eq!(t.len(), 2);
    assert_eq!((t.key_at(0).clone(), *t.value_at(0)), (p(1), 11));
    assert_eq!((t.key_at(1).clone(), *t.value_at(1)), (p(2), 20));
    assert_eq!(t.position(&p(2)), Some(1));
    assert_eq!(t.position(&p(3)), None);
    assert_eq!(t.get(&p(2)), Some(&20));
    assert_eq!(t.get(&p(3)), None);
    t.set_at(1, 21);
    assert_eq!(t.get(&p(2)), Some(&21));
    assert_eq!(t.remove(&p(1)), Some(11));
    assert_eq!(t.remove(&p(1)), None);
    assert_eq!(t.len(), 1);
    assert_eq!(t.key_at(0).clone(), p(2));
    assert!(t.is_valid());
}

#[test]
fn a_default_group_is_public_and_belongs_to_nobody() {
    let g = Group::default();
    assert_eq!(g.name, "");
    assert_eq!(g.privacy, Privacy::Public);
    assert_eq!(g.owner, Principal::anonymous());
    assert_eq!(g.owner.as_slice(), &[4u8][..]);
    assert!(g.roles.is_empty() && g.tags.is_empty());
    assert_eq!(g.member_count.len(), 0);
    assert!(!g.is_deleted);
}

#[test]
fn errors_say_where_they_arose_and_what_came_in() {
    assert_eq!(location("node", "name", "method"), "node/name/method");
    assert_eq!(input("caller", "value"), "caller - value");
    assert_eq!(
        principal_input("who", &Principal::from_slice(&[]).unwrap()),
        "who - aaaaa-aa"
    );
    assert_eq!(lines1("a".to_string()), Some(vec!["a".to_string()]));
    assert_eq!(
        lines4("a".to_string(), "b".to_string(), "c".to_string(), "d".to_string()).unwrap().len(),
        4
    );
    let payload = ErrorMessage {
        tag: "TAG".to_string(),
        message: "m".to_string(),
        location: "o/n/f".to_string(),
        inputs: None,
    };
    assert_eq!(
        api_error(ApiErrorType::NotFound, "TAG", "m", "o", "n", "f", None),
        ApiError::NotFound(payload.clone())
    );
    assert_eq!(
        api_error(ApiErrorType::BadRequest, "TAG", "m", "o", "n", "f", None),
        ApiError::BadRequest(payload.clone())
    );
    assert_eq!(
        api_error(ApiErrorType::Unauthorized, "TAG", "m", "o", "n", "f", None),
        ApiError::Unauthorized(payload.clone())
    );
    assert_eq!(
        api_error(ApiErrorType::Unexpected, "TAG", "m", "o", "n", "f", None),
        ApiError::Unexpected(payload)
    );
}

#[test]
fn the_groups_of_all_nodes_are_gathered_node_by_node() {
    let mut d = ScalableData::init("n".to_string(), p(1), p(2), p(3), 0);
    assert!(d.get_child_canister_data().is_empty());
    d.canisters.push(ScalableCanisterDetails {
        principal: p(10),
        canister_type: CanisterType::ScalableChild,
        wasm_version: WasmVersion::Version(1),
        is_available: false,
        entry_range: (0, Some(5)),
    });
    d.canisters.push(ScalableCanisterDetails {
        principal: p(11),
        canister_type: CanisterType::ScalableChild,
        wasm_version: WasmVersion::Version(1),
        is_available: true,
        entry_range: (0, None),
    });
    assert_eq!(d.get_child_canister_data(), vec![p(10), p(11)]);
    assert_eq!(ScalableData::chunk_bytes(None), 2_000_000);
    assert_eq!(ScalableData::chunk_bytes(Some(5)), 5);
    assert_eq!(ScalableData::get_child_data_call(None), (vec![], (0, 0)));
    assert_eq!(ScalableData::get_child_data_call(Some((vec![1], (0, 3)))), (vec![1], (0, 3)));
    let mut groups = vec![shown(1, "one", vec![])];
    ScalableData::get_filtered_child_data(&mut groups, None);
    assert_eq!(groups.len(), 1);
    ScalableData::get_filtered_child_data(
        &mut groups,
        Some(vec![shown(2, "two", vec![]), shown(3, "three", vec![])]),
    );
    let names: Vec<String> = groups.iter().map(|g| g.name.clone()).collect();
    assert_eq!(names, vec!["one", "two", "three"]);
}

#[test]
fn a_node_that_has_no_number_left_is_full() {
    let mut s = store();
    s.data.current_entry_id = u64::MAX;
    let post = PostGroup {
        name: "group".to_string(),
        description: String::new(),
        website: String::new(),
        matrix_space_id: String::new(),
        location: Location::None,
        privacy: Privacy::Public,
        privacy_gated_type_amount: None,
        image: Asset::None,
        banner_image: Asset::None,
        tags: vec![],
    };
    match s.add_group(&p(1), post, &p(2), true, 0) {
        AddStep::AtCapacity { last_entry_id, .. } => assert_eq!(last_entry_id, u64::MAX - 1),
        other => panic!("{:?}", other),
    }
    assert!(!s.data.is_available);
}
