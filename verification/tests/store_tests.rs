use candid::Principal as CandidPrincipal;
use ic_scalable_misc::enums::asset_type::Asset;
use ic_scalable_misc::enums::location_type::Location;
use scalable_groups::error::{ApiError, ErrorMessage, ValidationResponse};
use scalable_groups::group_model::{
    FilterType, GatedType, GroupFilter, GroupSort, PostGroup, Privacy, SortDirection, TokenGated,
    UpdateGroup,
};
use scalable_groups::identifier::encode_identifier;
use scalable_groups::principal::Principal;
use scalable_groups::admission::AddStep;
use scalable_groups::store::{Store, IDENTIFIER_KIND};

fn p(n: u8) -> Principal {
    Principal::from_slice(&[n, 3, 3]).unwrap()
}

fn text(principal: &Principal) -> String {
    CandidPrincipal::from_slice(principal.as_slice()).to_text()
}

fn node_id() -> Principal {
    p(200)
}

fn parent() -> Principal {
    p(201)
}

fn members() -> Principal {
    p(202)
}

fn store(max_entries: usize) -> Store {
    Store::new(node_id(), parent(), "groups".to_string(), 4, max_entries, 500).unwrap()
}

fn post(name: &str) -> PostGroup {
    PostGroup {
        name: name.to_string(),
        description: "about".to_string(),
        website: "https://example.org".to_string(),
        matrix_space_id: "space".to_string(),
        location: Location::None,
        privacy: Privacy::Public,
        privacy_gated_type_amount: None,
        image: Asset::None,
        banner_image: Asset::None,
        tags: vec![1, 2],
    }
}

fn update(name: &str) -> UpdateGroup {
    UpdateGroup {
        name: name.to_string(),
        description: "changed".to_string(),
        website: String::new(),
        location: Location::None,
        privacy: Privacy::Private,
        image: Asset::None,
        banner_image: Asset::None,
        tags: vec![9],
    }
}

fn add(s: &mut Store, owner: &Principal, name: &str, now: u64) -> Principal {
    match s.add_group(owner, post(name), &members(), true, now) {
        AddStep::Stored { identifier, .. } => identifier,
        other => panic!("{:?}", other),
    }
}

fn tag(e: &ApiError) -> String {
    match e {
        ApiError::Unexpected(m)
        | ApiError::Unauthorized(m)
        | ApiError::NotFound(m)
        | ApiError::BadRequest(m)
        | ApiError::CanisterAtCapacity(m) => m.tag.clone(),
        ApiError::ValidationError(_) => "VALIDATION".to_string(),
    }
}

#[test]
fn a_node_needs_an_identifier_that_leaves_room() {
    let long = Principal::from_slice(&[1u8; 19]).unwrap();
    assert!(Store::new(long, parent(), "g".to_string(), 0, 10, 0).is_none());
    let s = store(10);
    assert_eq!(s.get_name(), "groups - 4");
    assert!(s.data.is_available);
    assert_eq!(s.data.current_entry_id, 0);
    assert_eq!((s.data.created_at, s.data.updated_at), (500, 500));
}

#[test]
fn a_group_is_stored_under_the_next_identifier() {
    let mut s = store(10);
    let step = s.add_group(&p(1), post("first"), &members(), false, 600);
    match step {
        AddStep::Stored { identifier, owner, member_canister } => {
            assert_eq!(identifier, encode_identifier(0, &node_id(), IDENTIFIER_KIND).unwrap());
            assert_eq!(owner, p(1));
            assert_eq!(member_canister, members());
        }
        other => panic!("{:?}", other),
    }
    let second = add(&mut s, &p(1), "second", 601);
    assert_eq!(second, encode_identifier(1, &node_id(), "grp").unwrap());
    assert_eq!(s.data.current_entry_id, 2);
    let g = s.get_group(&second).unwrap();
    assert_eq!(g.identifier, second);
    assert_eq!(g.name, "second");
    assert_eq!(g.description, "about");
    assert_eq!((g.owner.clone(), g.created_by.clone()), (p(1), p(1)));
    assert_eq!(g.member_count, 1);
    assert_eq!(g.tags, vec![1, 2]);
    assert!(!g.is_deleted);
    assert_eq!((g.created_on, g.updated_on), (601, 601));
    assert!(g.wallets.is_empty());
}

#[test]
fn a_missing_group_is_not_found() {
    let s = store(10);
    assert_eq!(
        s.get_group(&p(9)).unwrap_err(),
        ApiError::NotFound(ErrorMessage {
            tag: "ENTRY_NOT_FOUND".to_string(),
            message: "The entry tied to this ID cant be found".to_string(),
            location: format!("{}/groups - 4/get_entry", text(&node_id())),
            inputs: Some(vec![format!("entry_id - {}", text(&p(9)))]),
        })
    );
    assert!(s.get_group_owner_and_privacy(&p(9)).is_err());
    assert!(s.get_group_roles(&p(9)).is_empty());
}

#[test]
fn the_fields_of_a_group_are_checked() {
    let mut s = store(10);
    let mut bad = post("ab");
    bad.description = "d".repeat(2501);
    bad.website = "w".repeat(201);
    bad.tags = (0..26).collect();
    match s.add_group(&p(1), bad, &members(), true, 0) {
        AddStep::Refused(ApiError::ValidationError(faults)) => assert_eq!(
            faults,
            vec![
                ValidationResponse {
                    field: "name".to_string(),
                    message: "Minimum required length is 3".to_string(),
                },
                ValidationResponse {
                    field: "description".to_string(),
                    message: "Maximum length is 2500".to_string(),
                },
                ValidationResponse {
                    field: "website".to_string(),
                    message: "Maximum length is 200".to_string(),
                },
                ValidationResponse {
                    field: "tags".to_string(),
                    message: "Maximum size is 25".to_string(),
                },
            ]
        ),
        other => panic!("{:?}", other),
    }
    match s.add_group(&p(1), post(&"n".repeat(65)), &members(), true, 0) {
        AddStep::Refused(ApiError::ValidationError(faults)) => {
            assert_eq!(faults.len(), 1);
            assert_eq!(faults[0].message, "Maximum length is 64");
        }
        other => panic!("{:?}", other),
    }
    assert!(matches!(
        s.add_group(&p(1), post(&"n".repeat(64)), &members(), true, 0),
        AddStep::Stored { .. }
    ));
    assert!(matches!(s.add_group(&p(1), post("abc"), &members(), true, 0), AddStep::Stored { .. }));
    assert_eq!(s.entries.len(), 2);
}

#[test]
fn a_gated_group_needs_a_creator_that_was_let_in() {
    let mut s = store(10);
    let mut gated = post("gated");
    gated.privacy = Privacy::Gated(GatedType::Token(vec![TokenGated {
        name: "t".to_string(),
        description: String::new(),
        standard: "EXT".to_string(),
        principal: p(50),
        amount: 1,
    }]));
    match s.add_group(&p(1), gated.clone(), &members(), false, 0) {
        AddStep::Refused(ApiError::Unauthorized(m)) => {
            assert_eq!(m.tag, "NOT_OWNING_NFT");
            assert_eq!(
                m.location,
                format!("{}/groups - 4/add_invite_or_join_group_to_member", text(&node_id()))
            );
        }
        other => panic!("{:?}", other),
    }
    let mut staked = post("staked");
    staked.privacy = Privacy::Gated(GatedType::Neuron(vec![]));
    match s.add_group(&p(1), staked, &members(), false, 0) {
        AddStep::Refused(ApiError::Unauthorized(m)) => assert_eq!(m.tag, "NOT_OWNING_NEURON"),
        other => panic!("{:?}", other),
    }
    assert!(matches!(s.add_group(&p(1), gated, &members(), true, 0), AddStep::Stored { .. }));
}

#[test]
fn a_full_node_closes_and_the_next_one_takes_the_group() {
    let mut s = store(1);
    add(&mut s, &p(1), "first", 1);
    let (error, group) = match s.add_group(&p(1), post("second"), &members(), true, 2) {
        AddStep::AtCapacity { error, last_entry_id, group } => {
            assert_eq!(last_entry_id, 0);
            assert_eq!(group.name, "second");
            (error, group)
        }
        other => panic!("{:?}", other),
    };
    assert_eq!(
        error,
        ApiError::CanisterAtCapacity(ErrorMessage {
            tag: "CANISTER_AT_CAPACITY".to_string(),
            message: format!("canister '{}' reached capacity", text(&node_id())),
            location: format!("{}/groups - 4/_add_entry", text(&node_id())),
            inputs: None,
        })
    );
    assert!(!s.data.is_available);
    assert_eq!(s.entries.len(), 1);
    // The full node stays closed and says so.
    match s.add_group(&p(1), post("third"), &members(), true, 3) {
        AddStep::Refused(ApiError::BadRequest(m)) => assert_eq!(m.tag, "UNAVAILABLE_CANISTER"),
        other => panic!("{:?}", other),
    }
    // The caller gets the report of the full node even though the group has moved on.
    let reported = s.spawn_sibling(error.clone(), Ok(Ok(p(203))));
    assert_eq!(reported, error);
    // The write succeeds on the node that follows.
    let mut next = Store::new(p(203), parent(), "groups".to_string(), 5, 1, 4).unwrap();
    let moved = match next.add_group(&group.owner, post("second"), &members(), true, 4) {
        AddStep::Stored { identifier, .. } => identifier,
        other => panic!("{:?}", other),
    };
    assert_eq!(next.get_group(&moved).unwrap().name, "second");
}

#[test]
fn a_failure_to_bring_up_the_next_node_takes_the_place_of_the_report() {
    let s = store(1);
    let full = s.full();
    let unreachable = s.spawn_sibling(full.clone(), Err("unreachable".to_string()));
    assert_eq!(tag(&unreachable), "SIBLING_SPAWN_FAILED");
    let inner = s.fail(scalable_groups::error::ApiErrorType::BadRequest, "X", "y", "z", None);
    assert_eq!(s.spawn_sibling(full, Ok(Err(inner.clone()))), inner);
}

#[test]
fn the_owner_is_entered_or_the_group_is_taken_out_again() {
    let mut s = store(10);
    let id = add(&mut s, &p(1), "first", 1);
    let g = s.add_owner(&p(2), &id, Ok(Ok(p(77))), 9).unwrap();
    assert_eq!(g.owner, p(2));
    assert_eq!(g.created_by, p(1));
    assert_eq!(g.updated_on, 9);
    let id2 = add(&mut s, &p(1), "second", 2);
    match s.add_owner(&p(1), &id2, Err("no route".to_string()), 9) {
        Err(ApiError::BadRequest(m)) => {
            assert_eq!((m.tag.as_str(), m.message.as_str()), ("OWNER_NOT_ADDED", "no route"))
        }
        other => panic!("{:?}", other),
    }
    assert!(s.get_group(&id2).is_err());
    assert!(s.get_group(&id).is_ok());
    let id3 = add(&mut s, &p(1), "third", 3);
    let refused =
        s.fail(scalable_groups::error::ApiErrorType::Unauthorized, "NOPE", "n", "m", None);
    assert_eq!(s.add_owner(&p(1), &id3, Ok(Err(refused.clone())), 9).unwrap_err(), refused);
    assert!(s.get_group(&id3).is_err());
    assert_eq!(tag(&s.add_owner(&p(1), &p(9), Ok(Ok(p(1))), 9).unwrap_err()), "ENTRY_NOT_FOUND");
}

#[test]
fn a_group_is_changed_in_place() {
    let mut s = store(10);
    let id = add(&mut s, &p(1), "first", 1);
    let g = s.update_group(&p(1), &id, update("renamed"), 8).unwrap();
    assert_eq!(g.name, "renamed");
    assert_eq!(g.description, "changed");
    assert_eq!(g.privacy, Privacy::Private);
    assert_eq!(g.tags, vec![9]);
    assert_eq!((g.created_on, g.updated_on), (1, 8));
    assert_eq!(g.matrix_space_id, "space");
    assert_eq!(s.get_group(&id).unwrap().name, "renamed");
    let missing = s.update_group(&p(1), &p(9), update("renamed"), 8).unwrap_err();
    assert_eq!(tag(&missing), "ENTRY_NOT_FOUND");
    assert_eq!(tag(&s.update_group(&p(1), &id, update("ab"), 8).unwrap_err()), "VALIDATION");
}

#[test]
fn a_deleted_group_is_hidden_from_lists_and_still_read_by_its_identifier() {
    let mut s = store(10);
    let a = add(&mut s, &p(1), "first", 1);
    let b = add(&mut s, &p(1), "second", 2);
    let deleted = s.delete_group(&p(1), &a, 7).unwrap();
    assert!(deleted.is_deleted);
    assert_eq!(deleted.updated_on, 7);
    assert_eq!(deleted.name, "first");
    // Read by its identifier.
    let read = s.get_group(&a).unwrap();
    assert!(read.is_deleted);
    assert_eq!(s.get_group_owner_and_privacy(&a).unwrap().0, p(1));
    // Hidden from the pages.
    let by_name = GroupSort::Name(SortDirection::Asc);
    let page = s.get_groups(10, 1, vec![], FilterType::And, by_name, true);
    assert_eq!(page.total, 1);
    assert_eq!(page.data[0].identifier, b);
    // Hidden from what the directory gathers.
    let gathered = s.get_chunked_groups(vec![], FilterType::Or);
    assert_eq!(gathered.len(), 1);
    assert_eq!(gathered[0].identifier, b);
    let by_id =
        s.get_chunked_groups(vec![GroupFilter::Identifiers(vec![a.clone()])], FilterType::And);
    assert!(by_id.is_empty());
    // Hidden from the answer to a list of identifiers.
    let found = s.get_groups_by_id(vec![a.clone(), b.clone(), p(9)]);
    assert_eq!(found.len(), 1);
    assert_eq!(found[0].identifier, b);
    // A deleted group is not changed any more.
    match s.update_group(&p(1), &a, update("renamed"), 9) {
        Err(ApiError::BadRequest(m)) => {
            assert_eq!(m.tag, "DELETED_GROUP");
            assert_eq!(m.inputs.unwrap()[2], "update_group - renamed");
        }
        other => panic!("{:?}", other),
    }
}

#[test]
fn only_the_owner_deletes() {
    let mut s = store(10);
    let a = add(&mut s, &p(1), "first", 1);
    match s.delete_group(&p(2), &a, 7) {
        Err(ApiError::Unauthorized(m)) => {
            assert_eq!(m.tag, "CANT_DELETE_GROUP");
            assert_eq!(m.message, "Only the owner can delete the group");
        }
        other => panic!("{:?}", other),
    }
    assert!(!s.get_group(&a).unwrap().is_deleted);
    assert_eq!(tag(&s.delete_group(&p(1), &p(9), 7).unwrap_err()), "ENTRY_NOT_FOUND");
}

#[test]
fn lists_leave_out_invite_only_groups_unless_asked() {
    let mut s = store(10);
    let a = add(&mut s, &p(1), "open", 1);
    let mut hidden = post("hidden");
    hidden.privacy = Privacy::InviteOnly;
    let b = match s.add_group(&p(1), hidden, &members(), true, 2) {
        AddStep::Stored { identifier, .. } => identifier,
        other => panic!("{:?}", other),
    };
    let sort = GroupSort::CreatedOn(SortDirection::Desc);
    let page = s.get_groups(10, 1, vec![], FilterType::And, sort, false);
    assert_eq!(page.data.iter().map(|g| g.identifier.clone()).collect::<Vec<_>>(), vec![a.clone()]);
    let page = s.get_groups(10, 1, vec![], FilterType::And, sort, true);
    assert_eq!(page.data.iter().map(|g| g.identifier.clone()).collect::<Vec<_>>(), vec![b, a]);
    assert_eq!(s.get_chunked_groups(vec![], FilterType::And).len(), 2);
}

#[test]
fn pages_of_groups_are_filtered_then_sorted_then_cut() {
    let mut s = store(10);
    for (i, name) in ["delta", "alpha", "Carol", "bravo", "alps"].iter().enumerate() {
        add(&mut s, &p(1), name, i as u64);
    }
    let filters = vec![GroupFilter::Name("a".to_string())];
    let sort = GroupSort::Name(SortDirection::Asc);
    let page = s.get_groups(2, 1, filters.clone(), FilterType::And, sort, true);
    assert_eq!((page.page, page.limit, page.total, page.number_of_pages), (1, 2, 5, 3));
    let names: Vec<String> = page.data.iter().map(|g| g.name.clone()).collect();
    assert_eq!(names, vec!["Carol", "alpha"]);
    let page = s.get_groups(2, 3, filters, FilterType::And, sort, true);
    assert_eq!(page.data.iter().map(|g| g.name.clone()).collect::<Vec<_>>(), vec!["delta"]);
}

#[test]
fn chunks_are_for_the_directory_only() {
    let s = store(10);
    let bytes: Vec<u8> = (0..10).collect();
    assert_eq!(s.get_chunked_data(&parent(), Some(&bytes), 1, 4), (vec![4, 5, 6, 7], (1, 3)));
    assert_eq!(s.get_chunked_data(&parent(), Some(&bytes), 0, 100), (bytes.clone(), (0, 0)));
    assert_eq!(s.get_chunked_data(&p(9), Some(&bytes), 1, 4), (vec![], (0, 0)));
    assert_eq!(s.get_chunked_data(&parent(), None, 1, 4), (vec![], (0, 0)));
}

#[test]
fn wallets_are_kept_by_the_owner() {
    let mut s = store(10);
    let a = add(&mut s, &p(1), "first", 1);
    assert_eq!(s.add_wallet(&p(1), &a, p(30), "cold".to_string(), 5), Ok(()));
    assert_eq!(s.add_wallet(&p(1), &a, p(31), "hot".to_string(), 6), Ok(()));
    assert_eq!(s.add_wallet(&p(1), &a, p(30), "colder".to_string(), 7), Ok(()));
    let g = s.get_group(&a).unwrap();
    assert_eq!(g.wallets, vec![(p(30), "colder".to_string()), (p(31), "hot".to_string())]);
    assert_eq!(g.updated_on, 7);
    match s.add_wallet(&p(2), &a, p(32), "mine".to_string(), 8) {
        Err(ApiError::Unauthorized(m)) => {
            assert_eq!(m.tag, "CANT_ADD_WALLET");
            assert_eq!(m.inputs.unwrap()[3], "description - mine");
        }
        other => panic!("{:?}", other),
    }
    assert_eq!(tag(&s.remove_wallet(&p(2), &a, &p(30), 9).unwrap_err()), "CANT_DELETE_WALLET");
    assert_eq!(s.remove_wallet(&p(1), &a, &p(30), 9), Ok(()));
    assert_eq!(s.remove_wallet(&p(1), &a, &p(99), 10), Ok(()));
    let g = s.get_group(&a).unwrap();
    assert_eq!(g.wallets, vec![(p(31), "hot".to_string())]);
    assert_eq!(g.updated_on, 10);
    let missing = s.add_wallet(&p(1), &p(9), p(30), "x".to_string(), 1).unwrap_err();
    assert_eq!(tag(&missing), "ENTRY_NOT_FOUND");
}

#[test]
fn member_counts_come_from_the_node_that_counts_them() {
    let mut s = store(10);
    let a = add(&mut s, &p(1), "first", 1);
    assert_eq!(s.update_member_count(&members(), &a, members(), 5), Ok(()));
    assert_eq!(s.get_group(&a).unwrap().member_count, 5);
    assert_eq!(s.update_member_count(&p(40), &a, p(40), 7), Ok(()));
    assert_eq!(s.get_group(&a).unwrap().member_count, 12);
    // The asserted source must be the caller.
    assert_eq!(s.update_member_count(&p(41), &a, p(40), 100), Err(false));
    // The identifier must be that of a group.
    let member = encode_identifier(0, &node_id(), "mbr").unwrap();
    assert_eq!(s.update_member_count(&p(40), &member, p(40), 100), Err(false));
    assert_eq!(s.update_member_count(&p(40), &p(9), p(40), 100), Err(false));
    let short = Principal::from_slice(&[4]).unwrap();
    assert_eq!(s.update_member_count(&p(40), &short, p(40), 100), Err(false));
    // The node must hold the group.
    let other = encode_identifier(55, &node_id(), "grp").unwrap();
    assert_eq!(s.update_member_count(&p(40), &other, p(40), 100), Err(false));
    assert_eq!(s.get_group(&a).unwrap().member_count, 12);
}

#[test]
fn the_count_of_members_stops_at_the_largest_number() {
    let mut s = store(10);
    let a = add(&mut s, &p(1), "first", 1);
    s.update_member_count(&p(40), &a, p(40), usize::MAX).unwrap();
    assert_eq!(s.get_group(&a).unwrap().member_count, usize::MAX);
}
