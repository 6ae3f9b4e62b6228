use ic_scalable_misc::enums::asset_type::Asset;
use ic_scalable_misc::enums::location_type::Location;
use ic_scalable_misc::helpers::role_helper;
use ic_scalable_misc::models::group_role::GroupRole as OutsideRole;
use ic_scalable_misc::models::permissions_models::{
    Permission as OutsidePermission, PermissionActionType as OutsideAction,
    PermissionActions as OutsideActions, PermissionType as OutsideType,
};
use scalable_groups::access::{
    entry_check, stakes_let_in, token_standard, whole, DissolveState, EntryCheck, Neuron,
    TokenStandard,
};
use scalable_groups::error::ApiError;
use scalable_groups::group_model::{
    GatedType, NeuronGated, NeuronGatedRules, PostGroup, Privacy, TokenGated,
};
use scalable_groups::principal::Principal;
use scalable_groups::roles::{
    has_permission, GroupRole, Permission, PermissionActionType, PermissionActions,
    PermissionType, PostPermission,
};
use scalable_groups::admission::AddStep;
use scalable_groups::store::Store;

fn p(n: u8) -> Principal {
    Principal::from_slice(&[n, 4, 4]).unwrap()
}

fn store_with_group() -> (Store, Principal) {
    let mut s = Store::new(p(200), p(201), "groups".to_string(), 0, 10, 0).unwrap();
    let post = PostGroup {
        name: "group".to_string(),
        description: String::new(),
        website: String::new(),
        matrix_space_id: String::new(),
        location: Location::None,
        privacy: Privacy::Public,
        privacy_gated_type_amount: None,
        image: Asset::None,
        banner_image: Asset::None,
        tags: vec![],
    };
    let id = match s.add_group(&p(1), post, &p(202), true, 1) {
        AddStep::Stored { identifier, .. } => identifier,
        other => panic!("{:?}", other),
    };
    (s, id)
}

fn actions(write: bool, read: bool, edit: bool, delete: bool) -> PermissionActions {
    PermissionActions { write, read, edit, delete }
}

fn all() -> PermissionActions {
    actions(true, true, true, true)
}

fn read_only() -> PermissionActions {
    actions(false, true, false, false)
}

fn add_only() -> PermissionActions {
    actions(true, true, false, false)
}

const KINDS: [&str; 13] = [
    "task",
    "event",
    "attendee",
    "group",
    "invite",
    "member",
    "chat_notification",
    "chat_message",
    "chat_channel",
    "chat_embed",
    "chat_files",
    "chat_mention",
    "chat_polls",
];

fn uniform(a: PermissionActions) -> Vec<Permission> {
    KINDS.iter().map(|k| Permission { name: k.to_string(), protected: true, actions: a }).collect()
}

fn built_in(name: &str, color: &str, permissions: Vec<Permission>) -> GroupRole {
    GroupRole {
        name: name.to_string(),
        protected: true,
        permissions,
        color: color.to_string(),
        index: None,
    }
}

fn expected_defaults() -> Vec<GroupRole> {
    let moderator = KINDS
        .iter()
        .map(|k| Permission {
            name: k.to_string(),
            protected: true,
            actions: match *k {
                "event" | "attendee" => add_only(),
                "group" => read_only(),
                _ => all(),
            },
        })
        .collect();
    vec![
        built_in("owner", "#FFB800", uniform(all())),
        built_in("admin", "#F56E00", uniform(all())),
        built_in("moderator", "#06E143", moderator),
        built_in("member", "#7A9CF2", uniform(read_only())),
    ]
}

fn outside(role: &GroupRole) -> OutsideRole {
    OutsideRole {
        name: role.name.clone(),
        protected: role.protected,
        permissions: role
            .permissions
            .iter()
            .map(|p| OutsidePermission {
                name: p.name.clone(),
                protected: p.protected,
                actions: OutsideActions {
                    write: p.actions.write,
                    read: p.actions.read,
                    edit: p.actions.edit,
                    delete: p.actions.delete,
                },
            })
            .collect(),
        color: role.color.clone(),
        index: role.index,
    }
}

#[test]
fn a_group_has_the_built_in_roles_after_its_own() {
    let (mut s, id) = store_with_group();
    assert_eq!(s.get_group_roles(&id), expected_defaults());
    s.add_role(&p(1), &id, "scribe".to_string(), "#000".to_string(), 3, 2).unwrap();
    let roles = s.get_group_roles(&id);
    assert_eq!(roles.len(), 5);
    assert_eq!(roles[0].name, "scribe");
    assert_eq!(roles[1..].to_vec(), expected_defaults());
    assert_eq!(s.get_group(&id).unwrap().roles, roles);
}

#[test]
fn the_names_of_the_kinds_are_those_of_the_outside_crate() {
    let ours = [
        PermissionType::Task,
        PermissionType::Event,
        PermissionType::Attendee,
        PermissionType::Group,
        PermissionType::Invite,
        PermissionType::Member,
        PermissionType::ChatNotification,
        PermissionType::ChatMessage,
        PermissionType::ChatChannel,
        PermissionType::ChatEmbed,
        PermissionType::ChatFiles,
        PermissionType::ChatMention,
        PermissionType::ChatPolls,
    ];
    let theirs = [
        OutsideType::Task(None),
        OutsideType::Event(None),
        OutsideType::Attendee(None),
        OutsideType::Group(None),
        OutsideType::Invite(None),
        OutsideType::Member(None),
        OutsideType::ChatNotification(None),
        OutsideType::ChatMessage(None),
        OutsideType::ChatChannel(None),
        OutsideType::ChatEmbed(None),
        OutsideType::ChatFiles(None),
        OutsideType::ChatMention(None),
        OutsideType::ChatPolls(None),
    ];
    for i in 0..13 {
        assert_eq!(ours[i].name(), theirs[i].to_string());
        assert_eq!(ours[i].name(), KINDS[i]);
    }
}

#[test]
fn a_role_is_added_by_the_owner_with_leave_to_read() {
    let (mut s, id) = store_with_group();
    let role = s.add_role(&p(1), &id, "scribe".to_string(), "#123".to_string(), 3, 20).unwrap();
    assert_eq!(
        role,
        GroupRole {
            name: "scribe".to_string(),
            protected: false,
            permissions: uniform(read_only()),
            color: "#123".to_string(),
            index: Some(3),
        }
    );
    assert_eq!(s.get_group(&id).unwrap().updated_on, 20);
    match s.add_role(&p(2), &id, "other".to_string(), String::new(), 0, 21) {
        Err(ApiError::Unauthorized(m)) => {
            assert_eq!(m.tag, "UNAUTHORIZED");
            assert_eq!(m.message, "Only owner of a group can add roles");
            assert_eq!(m.inputs.unwrap()[2], "role_name - other");
        }
        other => panic!("{:?}", other),
    }
    for taken in ["scribe", "owner", "admin", "moderator", "member"] {
        match s.add_role(&p(1), &id, taken.to_string(), String::new(), 0, 22) {
            Err(ApiError::BadRequest(m)) => assert_eq!(m.tag, "EXISTING_ROLE"),
            other => panic!("{:?}", other),
        }
    }
    assert!(s.add_role(&p(1), &p(9), "x".to_string(), String::new(), 0, 22).is_err());
    assert_eq!(s.get_group_roles(&id).len(), 5);
}

#[test]
fn a_role_is_removed_by_the_owner() {
    let (mut s, id) = store_with_group();
    s.add_role(&p(1), &id, "a".to_string(), String::new(), 0, 2).unwrap();
    s.add_role(&p(1), &id, "b".to_string(), String::new(), 0, 3).unwrap();
    s.add_role(&p(1), &id, "c".to_string(), String::new(), 0, 4).unwrap();
    assert!(s.remove_role(&p(2), &id, "b".to_string(), 5).is_err());
    match s.remove_role(&p(1), &id, "zz".to_string(), 5) {
        Err(ApiError::NotFound(m)) => assert_eq!(m.tag, "ROLE_NOT_FOUND"),
        other => panic!("{:?}", other),
    }
    // The built-in roles are not stored, so they are not there to remove.
    let built_in = s.remove_role(&p(1), &id, "owner".to_string(), 5);
    assert!(matches!(built_in, Err(ApiError::NotFound(_))));
    assert_eq!(s.remove_role(&p(1), &id, "b".to_string(), 6), Ok(true));
    let names: Vec<String> =
        s.get_group_roles(&id).iter().take(2).map(|r| r.name.clone()).collect();
    assert_eq!(names, vec!["a", "c"]);
    assert_eq!(s.get_group(&id).unwrap().updated_on, 6);
}

#[test]
fn a_protected_role_stays() {
    let (mut s, id) = store_with_group();
    s.add_role(&p(1), &id, "a".to_string(), String::new(), 0, 2).unwrap();
    s.entries.set_at(0, {
        let mut g = s.entries.value_at(0).clone();
        g.roles[0].protected = true;
        g
    });
    match s.remove_role(&p(1), &id, "a".to_string(), 5) {
        Err(ApiError::BadRequest(m)) => assert_eq!(m.tag, "PROTECTED_ROLE"),
        other => panic!("{:?}", other),
    }
}

#[test]
fn the_permissions_of_a_role_are_replaced_as_one() {
    let (mut s, id) = store_with_group();
    s.add_role(&p(1), &id, "a".to_string(), "#a".to_string(), 1, 2).unwrap();
    s.add_role(&p(1), &id, "b".to_string(), "#b".to_string(), 2, 3).unwrap();
    let asked = vec![
        PostPermission { name: "group".to_string(), actions: all() },
        PostPermission { name: "custom".to_string(), actions: add_only() },
    ];
    assert_eq!(s.update_role_permissions(&p(1), &id, "a".to_string(), asked.clone(), 9), Ok(true));
    let roles = s.get_group_roles(&id);
    let names: Vec<String> = roles.iter().take(2).map(|r| r.name.clone()).collect();
    assert_eq!(names, vec!["b", "a"]);
    assert_eq!(
        roles[1],
        GroupRole {
            name: "a".to_string(),
            protected: false,
            permissions: vec![
                // A permission that every role must have keeps its actions.
                Permission { name: "group".to_string(), protected: true, actions: read_only() },
                Permission { name: "custom".to_string(), protected: false, actions: add_only() },
            ],
            color: "#a".to_string(),
            index: Some(1),
        }
    );
    assert_eq!(s.update_role_permissions(&p(1), &id, "a".to_string(), asked, 10), Ok(true));
    assert_eq!(s.get_group_roles(&id).iter().filter(|r| r.name == "a").count(), 1);
    assert!(s.update_role_permissions(&p(2), &id, "a".to_string(), vec![], 10).is_err());
    assert!(matches!(
        s.update_role_permissions(&p(1), &id, "zz".to_string(), vec![], 10),
        Err(ApiError::NotFound(_))
    ));
}

#[test]
fn permissions_agree_with_the_outside_crate() {
    let mut roles = expected_defaults();
    roles.insert(0, GroupRole {
        name: "scribe".to_string(),
        protected: false,
        permissions: vec![Permission {
            name: "group".to_string(),
            protected: false,
            actions: actions(false, true, true, false),
        }],
        color: String::new(),
        index: None,
    });
    roles.push(GroupRole {
        name: "scribe".to_string(),
        protected: false,
        permissions: vec![Permission {
            name: "group".to_string(),
            protected: false,
            actions: all(),
        }],
        color: String::new(),
        index: None,
    });
    let theirs: Vec<OutsideRole> = roles.iter().map(outside).collect();
    let pairs = [
        (PermissionActionType::Write, OutsideAction::Write),
        (PermissionActionType::Read, OutsideAction::Read),
        (PermissionActionType::Edit, OutsideAction::Edit),
        (PermissionActionType::Delete, OutsideAction::Delete),
    ];
    let kinds = [
        (PermissionType::Group, OutsideType::Group(None)),
        (PermissionType::Event, OutsideType::Event(None)),
        (PermissionType::ChatPolls, OutsideType::ChatPolls(None)),
    ];
    let holders: Vec<Vec<String>> = vec![
        vec![],
        vec!["member".to_string()],
        vec!["moderator".to_string()],
        vec!["scribe".to_string()],
        vec!["nobody".to_string(), "admin".to_string()],
        vec!["member".to_string(), "scribe".to_string()],
    ];
    for held in &holders {
        for (kind, outside_kind) in &kinds {
            for (action, outside_action) in &pairs {
                assert_eq!(
                    has_permission(held, kind, &roles, action),
                    role_helper::has_permission(held, outside_kind, &theirs, outside_action),
                    "{:?} {:?} {:?}",
                    held,
                    kind,
                    action
                );
            }
        }
    }
    // The first role of a name decides.
    assert!(!has_permission(
        &vec!["scribe".to_string()],
        &PermissionType::Group,
        &roles,
        &PermissionActionType::Delete
    ));
    assert!(has_permission(
        &vec!["scribe".to_string()],
        &PermissionType::Group,
        &roles,
        &PermissionActionType::Edit
    ));
}

#[test]
fn a_member_is_checked_against_its_roles() {
    let (s, id) = store_with_group();
    let member = |roles: &[&str]| Ok((p(5), roles.iter().map(|r| r.to_string()).collect()));
    assert_eq!(s.can_read(&p(5), &id, member(&["member"])), Ok(p(5)));
    assert_eq!(s.can_write(&p(5), &id, member(&["admin"])), Ok(p(5)));
    assert_eq!(s.can_delete(&p(5), &id, member(&["owner"])), Ok(p(5)));
    assert_eq!(s.can_edit(&p(5), &id, member(&["admin", "member"])), Ok(p(5)));
    match s.can_write(&p(5), &id, member(&["member"])) {
        Err(ApiError::Unauthorized(m)) => {
            assert_eq!(m.tag, "NO_PERMISSION");
            assert_eq!(m.message, "No permission");
            assert_eq!(m.inputs, Some(vec!["member".to_string()]));
        }
        other => panic!("{:?}", other),
    }
    assert!(s.can_edit(&p(5), &id, member(&["moderator"])).is_err());
    assert!(s.can_delete(&p(5), &id, member(&[])).is_err());
    match s.can_read(&p(6), &id, member(&["owner"])) {
        Err(ApiError::Unauthorized(m)) => assert_eq!(m.tag, "PRINCIPAL_MISMATCH"),
        other => panic!("{:?}", other),
    }
    match s.can_read(&p(5), &id, Err("Wrong member principal".to_string())) {
        Err(ApiError::Unauthorized(m)) => {
            assert_eq!(m.tag, "NO_PERMISSION");
            assert_eq!(m.message, "Wrong member principal");
        }
        other => panic!("{:?}", other),
    }
}

#[test]
fn the_owner_edits_without_being_asked_for_roles() {
    let (s, id) = store_with_group();
    assert!(s.is_owner(&p(1), &id));
    assert!(!s.is_owner(&p(2), &id));
    assert!(!s.is_owner(&p(1), &p(9)));
    assert_eq!(s.can_edit(&p(1), &id, Err("not asked".to_string())), Ok(p(1)));
    assert!(s.can_delete(&p(1), &id, Err("not asked".to_string())).is_err());
}

fn token(standard: &str, amount: u64) -> TokenGated {
    TokenGated {
        name: "t".to_string(),
        description: String::new(),
        standard: standard.to_string(),
        principal: p(60),
        amount,
    }
}

#[test]
fn a_balance_lets_in_from_the_amount_asked_for() {
    let account = Some("acc".to_string());
    assert_eq!(token_standard(&token("EXT", 1)), Some(TokenStandard::Ext));
    assert_eq!(token_standard(&token("DIP20", 1)), Some(TokenStandard::Dip20));
    assert_eq!(token_standard(&token("DIP721", 1)), Some(TokenStandard::Dip721));
    assert_eq!(token_standard(&token("DIP721_LEGACY", 1)), Some(TokenStandard::Dip721Legacy));
    assert_eq!(token_standard(&token("ext", 1)), None);
    assert!(Store::validate_nft_gated(&account, &token("EXT", 2), 2));
    assert!(!Store::validate_nft_gated(&account, &token("EXT", 2), 1));
    assert!(!Store::validate_nft_gated(&None, &token("EXT", 2), 5));
    assert!(Store::validate_nft_gated(&None, &token("DIP20", 2), 2));
    assert!(Store::validate_nft_gated(&None, &token("DIP721", 0), 0));
    assert!(!Store::validate_nft_gated(&None, &token("DIP721_LEGACY", 3), 2));
    assert!(!Store::validate_nft_gated(&account, &token("OTHER", 0), 9));
    assert!(!Store::validate_nft_gated(&account, &token("DIP20", u64::MAX), u32::MAX));
}

fn neuron(id: u8, state: Option<DissolveState>, created: u64, stake: u64) -> Neuron {
    Neuron {
        id: vec![id],
        dissolve_state: state,
        created_timestamp_seconds: created,
        cached_neuron_stake_e8s: stake,
    }
}

#[test]
fn a_stake_lets_in_when_it_meets_every_rule() {
    let locked = Some(DissolveState::DissolveDelaySeconds(100));
    let leaving = Some(DissolveState::WhenDissolvedTimestampSeconds(100));
    let n = neuron(1, locked, 50, 250_000_000);
    assert!(n.meets(NeuronGatedRules::MinAge(50)));
    assert!(!n.meets(NeuronGatedRules::MinAge(51)));
    assert!(n.meets(NeuronGatedRules::MinDissolveDelay(100)));
    assert!(!n.meets(NeuronGatedRules::MinDissolveDelay(101)));
    assert!(!n.meets(NeuronGatedRules::IsDisolving(true)));
    assert!(neuron(1, leaving, 0, 0).meets(NeuronGatedRules::IsDisolving(true)));
    assert!(!neuron(1, leaving, 0, 0).meets(NeuronGatedRules::MinDissolveDelay(0)));
    assert!(!neuron(1, None, 0, 0).meets(NeuronGatedRules::IsDisolving(false)));
    assert!(!neuron(1, None, 0, 0).meets(NeuronGatedRules::MinDissolveDelay(0)));
    // Stakes are compared in whole tokens, rounded up.
    assert_eq!(whole(0), 0);
    assert_eq!(whole(1), 1);
    assert_eq!(whole(100_000_000), 1);
    assert_eq!(whole(100_000_001), 2);
    assert!(n.meets(NeuronGatedRules::MinStake(300_000_000)));
    assert!(!n.meets(NeuronGatedRules::MinStake(300_000_001)));
    for (stake, min) in [(1u64, 99_999_999u64), (250_000_000, 200_000_001), (5, 100_000_001)] {
        let theirs = (stake as f64 / 100_000_000.0).ceil() < (min as f64 / 100_000_000.0).ceil();
        assert_eq!(neuron(1, None, 0, stake).meets(NeuronGatedRules::MinStake(min)), !theirs);
    }
    let rules = vec![NeuronGatedRules::MinAge(10), NeuronGatedRules::MinStake(100_000_000)];
    assert!(n.meets_all(&rules));
    assert!(n.meets_all(&vec![]));
    assert!(stakes_let_in(&vec![neuron(2, None, 0, 0), n.clone()], &rules));
    assert!(!stakes_let_in(&vec![neuron(2, None, 0, 0)], &rules));
    assert!(!stakes_let_in(&vec![], &vec![]));
    // Of stakes with one identifier the last one counts.
    assert!(!stakes_let_in(&vec![n.clone(), neuron(1, None, 0, 0)], &rules));
    assert!(stakes_let_in(&vec![neuron(1, None, 0, 0), n.clone()], &rules));
    assert!(Store::validate_neuron_gated(&Ok(vec![n]), &rules));
    assert!(!Store::validate_neuron_gated(&Err("unreachable".to_string()), &vec![]));
}

#[test]
fn conditions_of_entry_are_tried_in_order_until_one_is_met() {
    for open in [Privacy::Public, Privacy::Private, Privacy::InviteOnly] {
        assert_eq!(entry_check(&open, 0, false), EntryCheck::Decided(true));
        assert_eq!(entry_check(&open, 3, false), EntryCheck::Decided(true));
    }
    let tokens = Privacy::Gated(GatedType::Token(vec![token("EXT", 1), token("DIP20", 2)]));
    assert_eq!(entry_check(&tokens, 0, false), EntryCheck::Balance(token("EXT", 1)));
    // What was met before anything was tried does not count.
    assert_eq!(entry_check(&tokens, 0, true), EntryCheck::Balance(token("EXT", 1)));
    assert_eq!(entry_check(&tokens, 1, false), EntryCheck::Balance(token("DIP20", 2)));
    assert_eq!(entry_check(&tokens, 1, true), EntryCheck::Decided(true));
    assert_eq!(entry_check(&tokens, 2, false), EntryCheck::Decided(false));
    assert_eq!(entry_check(&tokens, 2, true), EntryCheck::Decided(true));
    let stake = NeuronGated {
        name: "n".to_string(),
        description: String::new(),
        governance_canister: p(70),
        ledger_canister: p(71),
        rules: vec![NeuronGatedRules::MinAge(1)],
    };
    let stakes = Privacy::Gated(GatedType::Neuron(vec![stake.clone()]));
    assert_eq!(entry_check(&stakes, 0, false), EntryCheck::Stakes(stake));
    assert_eq!(entry_check(&stakes, 1, false), EntryCheck::Decided(false));
    let none = Privacy::Gated(GatedType::Neuron(vec![]));
    assert_eq!(entry_check(&none, 0, false), EntryCheck::Decided(false));
}
