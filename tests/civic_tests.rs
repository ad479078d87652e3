use civic::error::CivicError;
use civic::identity::Identity;
use civic::metadata::Metadata;
use civic::registry::Registry;

const NAME: &str = "CIVIC_KYC";
const SYMBOL: &str = "CKYC";

fn meta_from(pairs: &[(&str, &str)]) -> Metadata {
    let mut meta = Metadata::new();
    for (k, v) in pairs {
        meta.insert(k.to_string(), v.to_string());
    }
    meta
}

fn contract_meta() -> Metadata {
    meta_from(&[("origin", "kyc")])
}

fn verified_kyc() -> Metadata {
    meta_from(&[("status", "verified")])
}

fn unverified_kyc() -> Metadata {
    meta_from(&[("status", "unverified")])
}

struct Env {
    next: u32,
}

impl Env {
    fn new() -> Env {
        Env { next: 0 }
    }

    fn next_user(&mut self) -> Identity {
        self.next += 1;
        Identity::new(&format!("account-hash-{:064x}", self.next))
    }
}

fn deploy() -> (Env, Registry, Identity) {
    let mut env = Env::new();
    let owner = env.next_user();
    let token = Registry::deploy(
        &owner,
        NAME.to_string(),
        SYMBOL.to_string(),
        contract_meta(),
        Some(owner.clone()),
    );
    (env, token, owner)
}

#[test]
fn test_deploy() {
    let (_, token, owner) = deploy();
    assert_eq!(token.name(), NAME);
    assert_eq!(token.symbol(), SYMBOL);
    assert_eq!(*token.meta(), contract_meta());
    assert_eq!(token.total_supply(), 0);
    assert!(token.is_admin(&owner));
}

#[test]
fn test_add_gatekeeper() {
    let (mut env, mut token, owner) = deploy();
    let user = env.next_user();

    token.grant_gatekeeper(&owner, &user).unwrap();
    assert!(token.is_gatekeeper(&user));
}

#[test]
fn test_revoke_gatekeeper() {
    let (mut env, mut token, owner) = deploy();
    let user = env.next_user();

    token.grant_gatekeeper(&owner, &user).unwrap();
    assert!(token.is_gatekeeper(&user));

    token.revoke_gatekeeper(&owner, &user).unwrap();
    assert!(!token.is_gatekeeper(&user));
}

#[test]
fn test_mint_from_gatekeeper() {
    let (mut env, mut token, owner) = deploy();
    let ali = env.next_user();
    let bob = env.next_user();
    let token_id = String::from("custom_token_id");

    token.grant_gatekeeper(&owner, &ali).unwrap();

    token
        .mint(&ali, &bob, Some(token_id.clone()), unverified_kyc())
        .unwrap();

    let user_token_meta = token.token_meta(&token_id);
    assert_eq!(user_token_meta.unwrap(), unverified_kyc());

    let first_user_token = token.get_token_by_index(&bob, 0);
    assert_eq!(first_user_token, Some(token_id));
}

#[test]
fn test_mint_from_non_gatekeeper() {
    let (mut env, mut token, _) = deploy();
    let ali = env.next_user();
    let bob = env.next_user();
    let token_id = String::from("custom_token_id");

    let r = token.mint(&ali, &bob, Some(token_id), unverified_kyc());
    assert_eq!(r, Err(CivicError::Unauthorized));
    assert_eq!(token.total_supply(), 0);
}

#[test]
fn test_burn_from_gatekeeper() {
    let (mut env, mut token, owner) = deploy();
    let ali = env.next_user();
    let bob = env.next_user();
    token.mint(&owner, &bob, None, unverified_kyc()).unwrap();
    token.mint(&owner, &bob, None, verified_kyc()).unwrap();

    token.grant_gatekeeper(&owner, &ali).unwrap();

    let first_user_token = token.get_token_by_index(&bob, 0);
    let second_user_token = token.get_token_by_index(&bob, 1);
    token.burn(&ali, &bob, &first_user_token.unwrap()).unwrap();
    assert_eq!(token.total_supply(), 1);
    assert_eq!(token.balance_of(&bob), 1);

    let new_first_user_token = token.get_token_by_index(&bob, 0);
    let new_second_user_token = token.get_token_by_index(&bob, 1);
    assert_eq!(new_first_user_token, second_user_token);
    assert_eq!(new_second_user_token, None);
}

#[test]
fn test_burn_from_non_gatekeeper() {
    let (mut env, mut token, owner) = deploy();
    let ali = env.next_user();
    let bob = env.next_user();
    token.mint(&owner, &bob, None, unverified_kyc()).unwrap();
    token.mint(&owner, &bob, None, verified_kyc()).unwrap();

    token.grant_gatekeeper(&owner, &ali).unwrap();

    let first_user_token = token.get_token_by_index(&bob, 0);
    let second_user_token = token.get_token_by_index(&bob, 1);
    token.burn(&ali, &bob, &first_user_token.unwrap()).unwrap();

    token.revoke_gatekeeper(&owner, &ali).unwrap();
    let r = token.burn(&ali, &bob, &second_user_token.unwrap());
    assert_eq!(r, Err(CivicError::Unauthorized));
    assert_eq!(token.balance_of(&bob), 1);
}

#[test]
fn test_transfer_from_admin() {
    let (mut env, mut token, owner) = deploy();
    let ali = env.next_user();
    let bob = env.next_user();

    token.mint(&owner, &ali, None, unverified_kyc()).unwrap();
    token.mint(&owner, &ali, None, verified_kyc()).unwrap();
    let first_ali_token = token.get_token_by_index(&ali, 0);
    let second_ali_token = token.get_token_by_index(&ali, 1);

    assert_eq!(token.total_supply(), 2);
    assert_eq!(token.balance_of(&ali), 2);
    assert_eq!(
        token.owner_of(&first_ali_token.clone().unwrap()).unwrap(),
        ali
    );
    assert_eq!(token.owner_of(&second_ali_token.unwrap()).unwrap(), ali);
    token.grant_admin(&owner, &ali).unwrap();
    token
        .transfer_from(&ali, &ali, &bob, &vec![first_ali_token.unwrap()])
        .unwrap();
    let new_first_ali_token = token.get_token_by_index(&ali, 0);
    let new_second_ali_token = token.get_token_by_index(&ali, 1);
    let new_first_bob_token = token.get_token_by_index(&bob, 0);
    let new_second_bob_token = token.get_token_by_index(&bob, 1);
    println!("{:?}", new_first_ali_token);
    println!("{:?}", new_second_ali_token);
    println!("{:?}", new_first_bob_token);
    println!("{:?}", new_second_bob_token);
    assert_eq!(token.total_supply(), 2);
    assert_eq!(token.balance_of(&ali), 1);
    assert_eq!(token.balance_of(&bob), 1);
    assert_eq!(token.owner_of(&new_first_ali_token.unwrap()).unwrap(), ali);
    assert_eq!(token.owner_of(&new_first_bob_token.unwrap()).unwrap(), bob);
    assert_eq!(new_second_ali_token, None);
    assert_eq!(new_second_bob_token, None);
}

#[test]
fn test_transfer_from_non_admin() {
    let (mut env, mut token, owner) = deploy();
    let ali = env.next_user();
    let bob = env.next_user();

    token.mint(&owner, &ali, None, unverified_kyc()).unwrap();
    token.mint(&owner, &ali, None, verified_kyc()).unwrap();
    let first_ali_token = token.get_token_by_index(&ali, 0);
    let second_ali_token = token.get_token_by_index(&ali, 1);

    assert_eq!(token.total_supply(), 2);
    assert_eq!(token.balance_of(&ali), 2);
    assert_eq!(
        token.owner_of(&first_ali_token.clone().unwrap()).unwrap(),
        ali
    );
    assert_eq!(token.owner_of(&second_ali_token.unwrap()).unwrap(), ali);
    let r = token.transfer_from(&ali, &ali, &bob, &vec![first_ali_token.unwrap()]);
    assert_eq!(r, Err(CivicError::Unauthorized));
    assert_eq!(token.balance_of(&ali), 2);
}

#[test]
fn test_token_meta() {
    let (mut env, mut token, owner) = deploy();
    let user = env.next_user();
    let token_id = String::from("custom_token_id");

    token
        .mint(&owner, &user, Some(token_id.clone()), unverified_kyc())
        .unwrap();

    let user_token_meta = token.token_meta(&token_id);
    assert_eq!(user_token_meta.unwrap(), unverified_kyc());

    let first_user_token = token.get_token_by_index(&user, 0);
    assert_eq!(first_user_token, Some(token_id));
}

#[test]
fn test_token_metadata_set_from_gatekeeper() {
    let (mut env, mut token, owner) = deploy();
    let ali = env.next_user();
    let bob = env.next_user();
    let token_id = String::from("123456");

    token
        .mint(&owner, &bob, Some(token_id.clone()), unverified_kyc())
        .unwrap();
    token.grant_gatekeeper(&owner, &ali).unwrap();
    token.set_token_meta(&ali, &token_id, verified_kyc()).unwrap();
    assert_eq!(token.token_meta(&token_id).unwrap(), verified_kyc());
}

#[test]
fn test_token_metadata_set_from_non_gatekeeper() {
    let (mut env, mut token, owner) = deploy();
    let ali = env.next_user();
    let bob = env.next_user();
    let token_id = String::from("123456");

    token
        .mint(&owner, &bob, Some(token_id.clone()), unverified_kyc())
        .unwrap();
    let r = token.set_token_meta(&ali, &token_id, verified_kyc());
    assert_eq!(r, Err(CivicError::Unauthorized));
    assert_eq!(token.token_meta(&token_id).unwrap(), unverified_kyc());
}

#[test]
fn test_token_metadata_update_from_gatekeeper() {
    let (mut env, mut token, owner) = deploy();
    let ali = env.next_user();
    let bob = env.next_user();
    let token_id = String::from("123456");

    token
        .mint(&owner, &bob, Some(token_id.clone()), unverified_kyc())
        .unwrap();
    token.grant_gatekeeper(&owner, &ali).unwrap();
    token.set_token_meta(&ali, &token_id, verified_kyc()).unwrap();
    token
        .update_token_meta(
            &ali,
            &token_id,
            String::from("expiry"),
            String::from("5555555"),
        )
        .unwrap();
    let mut expected_result = verified_kyc();
    expected_result.insert(String::from("expiry"), String::from("5555555"));
    assert_eq!(token.token_meta(&token_id).unwrap(), expected_result);
}

#[test]
fn test_token_metadata_update_from_non_gatekeeper() {
    let (mut env, mut token, owner) = deploy();
    let ali = env.next_user();
    let bob = env.next_user();
    let token_id = String::from("123456");

    token
        .mint(&owner, &bob, Some(token_id.clone()), unverified_kyc())
        .unwrap();
    token.grant_gatekeeper(&owner, &ali).unwrap();
    token.set_token_meta(&ali, &token_id, verified_kyc()).unwrap();
    token.revoke_gatekeeper(&owner, &ali).unwrap();
    let r = token.update_token_meta(
        &ali,
        &token_id,
        String::from("expiry"),
        String::from("5555555"),
    );
    assert_eq!(r, Err(CivicError::Unauthorized));
    assert_eq!(token.token_meta(&token_id).unwrap(), verified_kyc());
}
