use civic::error::CivicError;
use civic::identity::Identity;
use civic::ledger::{decimal, Token, TokenLedger};
use civic::metadata::Metadata;
use civic::policy::{guard, policy, ArgType, Authorization, Operation};
use civic::registry::Registry;
use civic::roles::{Admins, GateKeepers};
use civic::status::{status_is_active, Status, STATUS_KEY};

fn meta_from(pairs: &[(&str, &str)]) -> Metadata {
    let mut meta = Metadata::new();
    for (k, v) in pairs {
        meta.insert(k.to_string(), v.to_string());
    }
    meta
}

fn setup() -> (Registry, Identity) {
    let d = Identity::new("account-hash-d");
    let r = Registry::deploy(
        &d,
        "CIVIC_KYC".to_string(),
        "CKYC".to_string(),
        meta_from(&[("origin", "kyc")]),
        None,
    );
    (r, d)
}

#[test]
fn deployer_is_admin_and_gatekeeper() {
    let (r, d) = setup();
    assert!(r.is_admin(&d));
    assert!(r.is_gatekeeper(&d));
    assert!(!r.is_paused());
    assert_eq!(r.total_supply(), 0);
}

#[test]
fn explicit_admin_replaces_deployer() {
    let d = Identity::new("account-hash-d");
    let a = Identity::new("account-hash-a");
    let r = Registry::deploy(&d, "n".to_string(), "s".to_string(), Metadata::new(), Some(a.clone()));
    assert!(r.is_admin(&a));
    assert!(r.is_gatekeeper(&a));
    assert!(!r.is_admin(&d));
    assert!(!r.is_gatekeeper(&d));
}

#[test]
fn gatekeeper_grant_revoke_leaves_admins() {
    let (mut r, d) = setup();
    let g = Identity::new("account-hash-g");
    r.grant_gatekeeper(&d, &g).unwrap();
    assert!(r.is_gatekeeper(&g));
    assert!(!r.is_admin(&g));
    assert!(r.is_admin(&d));
    r.revoke_gatekeeper(&d, &g).unwrap();
    assert!(!r.is_gatekeeper(&g));
    assert!(r.is_admin(&d));
    // Granting twice and revoking a non-member are no-ops, not failures.
    r.grant_gatekeeper(&d, &g).unwrap();
    r.grant_gatekeeper(&d, &g).unwrap();
    r.revoke_gatekeeper(&d, &g).unwrap();
    assert!(!r.is_gatekeeper(&g));
    r.revoke_gatekeeper(&d, &g).unwrap();
}

#[test]
fn role_management_needs_admin() {
    let (mut r, d) = setup();
    let g = Identity::new("account-hash-g");
    r.grant_gatekeeper(&d, &g).unwrap();
    assert_eq!(r.grant_admin(&g, &g), Err(CivicError::Unauthorized));
    assert_eq!(r.grant_gatekeeper(&g, &g), Err(CivicError::Unauthorized));
    assert_eq!(r.revoke_admin(&g, &d), Err(CivicError::Unauthorized));
    assert!(r.is_admin(&d));
    r.grant_admin(&d, &g).unwrap();
    assert!(r.is_admin(&g));
    r.revoke_admin(&g, &d).unwrap();
    assert!(!r.is_admin(&d));
}

#[test]
fn mint_counts_and_indexes() {
    let (mut r, d) = setup();
    let bob = Identity::new("account-hash-bob");
    r.mint(&d, &bob, Some("a".to_string()), Metadata::new()).unwrap();
    let meta = meta_from(&[("status", "Frozen")]);
    r.mint(&d, &bob, Some("t".to_string()), meta_from(&[("status", "Frozen")])).unwrap();
    assert_eq!(r.token_meta(&"t".to_string()).unwrap(), meta);
    assert_eq!(r.get_token_by_index(&bob, 0), Some("a".to_string()));
    assert_eq!(r.get_token_by_index(&bob, 1), Some("t".to_string()));
    assert_eq!(r.get_token_by_index(&bob, 2), None);
    assert_eq!(r.balance_of(&bob), 2);
    assert_eq!(r.total_supply(), 2);
    assert_eq!(r.owner_of(&"t".to_string()), Some(bob));
}

#[test]
fn mint_without_id_names_tokens_by_counter() {
    let (mut r, d) = setup();
    let bob = Identity::new("account-hash-bob");
    r.mint(&d, &bob, None, Metadata::new()).unwrap();
    r.mint(&d, &bob, None, Metadata::new()).unwrap();
    assert_eq!(r.get_token_by_index(&bob, 0), Some("0".to_string()));
    assert_eq!(r.get_token_by_index(&bob, 1), Some("1".to_string()));
}

#[test]
fn decimal_text_of_numbers() {
    assert_eq!(decimal(0), "0");
    assert_eq!(decimal(7), "7");
    assert_eq!(decimal(10), "10");
    assert_eq!(decimal(1234567890), "1234567890");
    assert_eq!(decimal(u64::MAX), "18446744073709551615");
}

#[test]
fn mint_duplicate_id_already_exists() {
    let (mut r, d) = setup();
    let bob = Identity::new("account-hash-bob");
    r.mint(&d, &bob, Some("0".to_string()), Metadata::new()).unwrap();
    let again = r.mint(&d, &bob, Some("0".to_string()), Metadata::new());
    assert_eq!(again, Err(CivicError::AlreadyExists));
    // A generated id that is already taken is refused too.
    let generated = r.mint(&d, &bob, None, Metadata::new());
    assert_eq!(generated, Err(CivicError::AlreadyExists));
    assert_eq!(r.total_supply(), 1);
}

#[test]
fn burn_compacts_index_in_order() {
    let (mut r, d) = setup();
    let bob = Identity::new("account-hash-bob");
    let eve = Identity::new("account-hash-eve");
    for id in ["a", "b", "c"] {
        r.mint(&d, &bob, Some(id.to_string()), Metadata::new()).unwrap();
    }
    r.mint(&d, &eve, Some("e".to_string()), Metadata::new()).unwrap();
    r.burn(&d, &bob, &"b".to_string()).unwrap();
    assert_eq!(r.get_token_by_index(&bob, 0), Some("a".to_string()));
    assert_eq!(r.get_token_by_index(&bob, 1), Some("c".to_string()));
    assert_eq!(r.get_token_by_index(&bob, 2), None);
    assert_eq!(r.balance_of(&bob), 2);
    assert_eq!(r.balance_of(&eve), 1);
    assert_eq!(r.total_supply(), 3);
    assert_eq!(r.owner_of(&"b".to_string()), None);
    assert!(r.token_meta(&"b".to_string()).is_none());
}

#[test]
fn burn_missing_or_not_owned_is_not_found() {
    let (mut r, d) = setup();
    let bob = Identity::new("account-hash-bob");
    let eve = Identity::new("account-hash-eve");
    r.mint(&d, &bob, Some("a".to_string()), Metadata::new()).unwrap();
    assert_eq!(r.burn(&d, &bob, &"zz".to_string()), Err(CivicError::NotFound));
    assert_eq!(r.burn(&d, &eve, &"a".to_string()), Err(CivicError::NotFound));
    assert_eq!(r.total_supply(), 1);
}

#[test]
fn transfer_keeps_supply_and_metadata() {
    let (mut r, d) = setup();
    let ali = Identity::new("account-hash-ali");
    let bob = Identity::new("account-hash-bob");
    r.mint(&d, &ali, Some("t".to_string()), meta_from(&[("status", "Active")])).unwrap();
    r.mint(&d, &bob, Some("u".to_string()), Metadata::new()).unwrap();
    r.transfer_from(&d, &ali, &bob, &vec!["t".to_string()]).unwrap();
    assert_eq!(r.owner_of(&"t".to_string()), Some(bob.clone()));
    assert_eq!(r.balance_of(&ali), 0);
    assert_eq!(r.balance_of(&bob), 2);
    assert_eq!(r.total_supply(), 2);
    assert_eq!(r.token_meta(&"t".to_string()).unwrap(), meta_from(&[("status", "Active")]));
}

#[test]
fn transfer_is_all_or_nothing() {
    let (mut r, d) = setup();
    let ali = Identity::new("account-hash-ali");
    let bob = Identity::new("account-hash-bob");
    r.mint(&d, &ali, Some("t".to_string()), Metadata::new()).unwrap();
    r.mint(&d, &bob, Some("u".to_string()), Metadata::new()).unwrap();
    let ids = vec!["t".to_string(), "u".to_string()];
    assert_eq!(r.transfer_from(&d, &ali, &bob, &ids), Err(CivicError::NotFound));
    assert_eq!(r.owner_of(&"t".to_string()), Some(ali.clone()));
    let twice = vec!["t".to_string(), "t".to_string()];
    assert_eq!(r.transfer_from(&d, &ali, &bob, &twice), Err(CivicError::NotFound));
    assert_eq!(r.balance_of(&ali), 1);
    // Naming a token twice is fine when it stays with its owner.
    r.transfer_from(&d, &ali, &ali, &twice).unwrap();
    assert_eq!(r.owner_of(&"t".to_string()), Some(ali));
}

#[test]
fn transfer_by_admin_moves_own_tokens() {
    let (mut r, d) = setup();
    let bob = Identity::new("account-hash-bob");
    r.mint(&d, &d, Some("t".to_string()), Metadata::new()).unwrap();
    assert_eq!(r.transfer(&bob, &d, &vec!["t".to_string()]), Err(CivicError::Unauthorized));
    r.transfer(&d, &bob, &vec!["t".to_string()]).unwrap();
    assert_eq!(r.owner_of(&"t".to_string()), Some(bob.clone()));
    assert_eq!(r.transfer(&d, &bob, &vec!["t".to_string()]), Err(CivicError::NotFound));
}

#[test]
fn kyc_is_proved_only_by_active_status() {
    let (mut r, d) = setup();
    let u = Identity::new("account-hash-u");
    assert!(!r.is_kyc_proved(&u, None));
    r.mint(&d, &u, Some("t".to_string()), Metadata::new()).unwrap();
    assert!(!r.is_kyc_proved(&u, None));
    for s in ["Revoked", "Frozen", "Unregistered", "active", "Active "] {
        r.update_token_meta(&d, &"t".to_string(), "status".to_string(), s.to_string()).unwrap();
        assert!(!r.is_kyc_proved(&u, None));
    }
    r.update_token_meta(&d, &"t".to_string(), "status".to_string(), "Active".to_string()).unwrap();
    assert!(r.is_kyc_proved(&u, None));
    assert!(r.is_kyc_proved(&u, Some(0)));
    assert!(!r.is_kyc_proved(&u, Some(1)));
}

#[test]
fn kyc_uses_the_given_index() {
    let (mut r, d) = setup();
    let u = Identity::new("account-hash-u");
    r.mint(&d, &u, Some("t0".to_string()), meta_from(&[("status", "Revoked")])).unwrap();
    r.mint(&d, &u, Some("t1".to_string()), meta_from(&[("status", "Active")])).unwrap();
    assert!(!r.is_kyc_proved(&u, None));
    assert!(r.is_kyc_proved(&u, Some(1)));
}

#[test]
fn status_names_and_check() {
    assert_eq!(Status::Active.name(), "Active");
    assert_eq!(Status::Revoked.name(), "Revoked");
    assert_eq!(Status::Frozen.name(), "Frozen");
    assert_eq!(Status::Unregistered.name(), "Unregistered");
    assert_eq!(STATUS_KEY, "status");
    assert!(status_is_active(&meta_from(&[("status", "Active")])));
    assert!(!status_is_active(&meta_from(&[("state", "Active")])));
    assert!(!status_is_active(&Metadata::new()));
}

#[test]
fn pause_blocks_mint_until_unpause() {
    let (mut r, d) = setup();
    let u = Identity::new("account-hash-u");
    r.pause(&d).unwrap();
    assert!(r.is_paused());
    assert_eq!(
        r.mint(&d, &u, Some("t".to_string()), Metadata::new()),
        Err(CivicError::OperationPaused)
    );
    assert_eq!(r.pause(&d), Err(CivicError::AlreadyPaused));
    // Reads and role management are not gated.
    assert_eq!(r.total_supply(), 0);
    r.grant_gatekeeper(&d, &u).unwrap();
    r.unpause(&d).unwrap();
    assert_eq!(r.unpause(&d), Err(CivicError::AlreadyActive));
    r.mint(&d, &u, Some("t".to_string()), Metadata::new()).unwrap();
    assert_eq!(r.total_supply(), 1);
}

#[test]
fn pause_needs_admin() {
    let (mut r, _) = setup();
    let u = Identity::new("account-hash-u");
    assert_eq!(r.pause(&u), Err(CivicError::Unauthorized));
    assert_eq!(r.unpause(&u), Err(CivicError::Unauthorized));
}

#[test]
fn end_to_end_attestation() {
    let d = Identity::new("account-hash-d");
    let u = Identity::new("account-hash-u");
    let g = Identity::new("account-hash-g");
    let mut r = Registry::deploy(&d, "n".to_string(), "s".to_string(), Metadata::new(), None);
    assert!(r.is_admin(&d) && r.is_gatekeeper(&d));
    r.mint(&d, &u, Some("t1".to_string()), meta_from(&[("status", "Unverified")])).unwrap();
    assert!(!r.is_kyc_proved(&u, None));
    r.set_token_meta(&d, &"t1".to_string(), meta_from(&[("status", "Active")])).unwrap();
    assert!(r.is_kyc_proved(&u, None));
    r.grant_gatekeeper(&d, &g).unwrap();
    r.revoke_gatekeeper(&d, &g).unwrap();
    assert_eq!(
        r.mint(&g, &u, Some("t2".to_string()), Metadata::new()),
        Err(CivicError::Unauthorized)
    );
}

#[test]
fn constructor_runs_once() {
    let (mut r, d) = setup();
    let again = r.constructor(&d, "x".to_string(), "y".to_string(), Metadata::new(), None);
    assert_eq!(again, Err(CivicError::InvalidState));
    assert_eq!(r.name(), "CIVIC_KYC");

    let mut fresh = Registry::new();
    fresh.constructor(&d, "x".to_string(), "y".to_string(), Metadata::new(), None).unwrap();
    let twice = fresh.constructor(&d, "z".to_string(), "w".to_string(), Metadata::new(), None);
    assert_eq!(twice, Err(CivicError::InvalidState));
    assert_eq!(fresh.name(), "x");
}

#[test]
fn constructor_after_capability_removed_fails() {
    let d = Identity::new("account-hash-d");
    let mut r = Registry::new();
    r.remove_constructor_access();
    let res = r.constructor(&d, "x".to_string(), "y".to_string(), Metadata::new(), None);
    assert_eq!(res, Err(CivicError::InvalidState));
}

#[test]
fn operations_before_construction_are_invalid() {
    let d = Identity::new("account-hash-d");
    let mut r = Registry::new();
    assert_eq!(
        r.mint(&d, &d, Some("t".to_string()), Metadata::new()),
        Err(CivicError::InvalidState)
    );
    assert_eq!(r.pause(&d), Err(CivicError::InvalidState));
    assert_eq!(r.total_supply(), 0);
}

#[test]
fn update_missing_token_is_not_found() {
    let (mut r, d) = setup();
    let res = r.update_token_meta(&d, &"none".to_string(), "k".to_string(), "v".to_string());
    assert_eq!(res, Err(CivicError::NotFound));
    let res = r.set_token_meta(&d, &"none".to_string(), Metadata::new());
    assert_eq!(res, Err(CivicError::NotFound));
}

#[test]
fn admin_may_edit_metadata() {
    let (mut r, d) = setup();
    let a = Identity::new("account-hash-a");
    let u = Identity::new("account-hash-u");
    r.grant_admin(&d, &a).unwrap();
    r.mint(&d, &u, Some("t".to_string()), Metadata::new()).unwrap();
    r.update_token_meta(&a, &"t".to_string(), "k".to_string(), "v".to_string()).unwrap();
    assert_eq!(r.token_meta(&"t".to_string()).unwrap(), meta_from(&[("k", "v")]));
    assert_eq!(r.assert_authorized_caller(&a), Ok(()));
    assert_eq!(r.assert_caller_is_gatekeeper(&a), Err(CivicError::Unauthorized));
    assert_eq!(r.assert_caller_is_admin(&u), Err(CivicError::Unauthorized));
}

#[test]
fn metadata_is_a_map() {
    let a = meta_from(&[("x", "1"), ("y", "2")]);
    let b = meta_from(&[("y", "2"), ("x", "1")]);
    assert_eq!(a, b);
    let mut c = meta_from(&[("x", "0"), ("y", "2")]);
    assert_ne!(a, c);
    c.insert("x".to_string(), "1".to_string());
    assert_eq!(a, c);
    assert_eq!(c.len(), 2);
    assert_eq!(c.get("x"), Some(&"1".to_string()));
    assert_eq!(c.get("z"), None);
    assert_ne!(a, meta_from(&[("x", "1")]));
    assert_eq!(a.duplicate(), a);
}

#[test]
fn policy_table() {
    assert_eq!(policy(Operation::Mint).authorization, Authorization::Gatekeeper);
    assert!(policy(Operation::Mint).pausable);
    assert_eq!(policy(Operation::TransferFrom).authorization, Authorization::Admin);
    assert_eq!(policy(Operation::SetTokenMeta).authorization, Authorization::AdminOrGatekeeper);
    assert_eq!(policy(Operation::IsKycProved).authorization, Authorization::Public);
    assert!(!policy(Operation::Pause).pausable);
    assert_eq!(guard(Operation::Mint, true, false, false), Err(CivicError::Unauthorized));
    assert_eq!(guard(Operation::Mint, false, true, true), Err(CivicError::OperationPaused));
    assert_eq!(guard(Operation::Mint, false, true, false), Ok(()));
    assert_eq!(guard(Operation::Name, false, false, true), Ok(()));
    assert_eq!(guard(Operation::Constructor, true, true, false), Err(CivicError::Unauthorized));
}

#[test]
fn entry_point_table() {
    let all = Operation::all();
    assert_eq!(all.len(), 22);
    assert_eq!(all[0].entry_name(), "constructor");
    assert_eq!(Operation::GetTokenByIndex.entry_name(), "get_token_by_index");
    let params = Operation::Mint.parameters();
    assert_eq!(params.len(), 3);
    assert_eq!(params[0].name, "recipient");
    assert_eq!(params[1].ty, ArgType::OptionTokenId);
    assert_eq!(Operation::IsKycProved.result_type(), ArgType::Bool);
    assert_eq!(Operation::Pause.parameters().len(), 0);
}

#[test]
fn registry_survives_parts_round_trip() {
    let (mut r, d) = setup();
    let u = Identity::new("account-hash-u");
    r.mint(&d, &u, Some("t".to_string()), meta_from(&[("status", "Active")])).unwrap();
    r.mint(&d, &u, None, Metadata::new()).unwrap();
    r.pause(&d).unwrap();
    let tokens: Vec<Token> = r
        .ledger()
        .tokens()
        .iter()
        .map(|t| Token { id: t.id.clone(), owner: t.owner.clone(), meta: t.meta.duplicate() })
        .collect();
    let ledger = TokenLedger::from_parts(tokens, r.ledger().next_id()).unwrap();
    let back = Registry::restore(
        false,
        true,
        r.name().clone(),
        r.symbol().clone(),
        r.meta().duplicate(),
        Admins::from_members(&r.admins().members()),
        GateKeepers::from_members(&r.gatekeepers().members()),
        r.is_paused(),
        ledger,
    );
    assert_eq!(back.name(), "CIVIC_KYC");
    assert!(back.is_admin(&d));
    assert!(back.is_gatekeeper(&d));
    assert!(back.is_paused());
    assert_eq!(back.balance_of(&u), 2);
    assert!(back.is_kyc_proved(&u, None));
    assert_eq!(back.ledger().next_id(), 1);
    assert_eq!(back.get_token_by_index(&u, 1), Some("0".to_string()));
}

#[test]
fn ledger_parts_with_repeated_id_are_refused() {
    let u = Identity::new("account-hash-u");
    let tokens = vec![
        Token { id: "t".to_string(), owner: u.clone(), meta: Metadata::new() },
        Token { id: "t".to_string(), owner: u.clone(), meta: Metadata::new() },
    ];
    assert!(TokenLedger::from_parts(tokens, 0).is_none());
}

#[test]
fn admins_from_members_drops_repeats() {
    let a = Identity::new("account-hash-a");
    let admins = Admins::from_members(&vec![a.clone(), a.clone()]);
    assert!(admins.is_admin(&a));
    assert_eq!(admins.members().len(), 1);
}
