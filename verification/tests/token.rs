use issuance::address::Address;
use issuance::authorization::Authorization;
use issuance::error::{Error, ErrorKind};
use issuance::event::{Event, RedemptionEntry};
use issuance::permission_manager::PermissionManager;
use issuance::redemption::{Redemption, RedemptionStatus};
use issuance::role::Role;
use issuance::token::{BurnBatchOperation, MintBatchOperation, Token};

fn generate(n: u128) -> Address {
    Address::account(5, n)
}

/// Every principal that the tests name authorizes every call.
fn setup_env() -> Authorization {
    let mut signers = Vec::new();
    for n in 0u128..16 {
        signers.push(generate(n));
        signers.push(Address::contract(5, n));
    }
    Authorization::of_all(signers)
}

fn deploy_token() -> (Address, Address, Token) {
    let owner = generate(0);
    let token_address = Address::contract(5, 0);
    let client = Token::new(
        token_address,
        owner,
        String::from("Token"),
        String::from("EUTBL"),
        6,
    );
    (owner, token_address, client)
}

fn deploy_permission_manager() -> (Address, Address, PermissionManager) {
    let admin = generate(1);
    let permission_manager_address = Address::contract(5, 1);
    let client = PermissionManager::new(permission_manager_address, admin);
    (admin, permission_manager_address, client)
}

fn deploy_redemption() -> (Address, Address, Redemption) {
    let owner = generate(2);
    let redemption_address = Address::contract(5, 2);
    let client = Redemption::new(redemption_address, owner);
    (owner, redemption_address, client)
}

/// A mint of one amount under an idempotency key.
fn mint_with_key(
    client: &mut Token,
    e: &Authorization,
    pm: &PermissionManager,
    account: Address,
    amount: i128,
    minter: Address,
    key: &str,
) -> Result<Vec<Event>, Error> {
    let operations = vec![MintBatchOperation(account, amount)];
    client.mint_batch(e, pm, &operations, minter, &String::from(key))
}

/// A burn of one amount under an idempotency key.
fn burn_with_key(
    client: &mut Token,
    e: &Authorization,
    pm: &PermissionManager,
    account: Address,
    amount: i128,
    burner: Address,
    key: &str,
) -> Result<Vec<Event>, Error> {
    let operations = vec![BurnBatchOperation(account, amount)];
    client.burn_batch(e, pm, &operations, burner, &String::from(key))
}

fn assert_mint_event(event: &Event, token_address: Address, to: Address, amount: i128) {
    assert_eq!(event.contract(), token_address);
    assert_eq!(event.topic_count(), 2);
    assert_eq!(event.topic(), "mint");
    assert_eq!(event, &Event::Mint { contract: token_address, to, amount });
}

fn assert_burn_event(event: &Event, token_address: Address, from: Address, amount: i128) {
    assert_eq!(event.contract(), token_address);
    assert_eq!(event.topic_count(), 2);
    assert_eq!(event.topic(), "burn");
    assert_eq!(event, &Event::Burn { contract: token_address, from, amount });
}

fn assert_transfer_event(
    event: &Event,
    token_address: Address,
    from: Address,
    to: Address,
    amount: i128,
) {
    assert_eq!(event.contract(), token_address);
    assert_eq!(event.topic_count(), 3);
    assert_eq!(event.topic(), "transfer");
    assert_eq!(event, &Event::Transfer { contract: token_address, from, to, amount });
}

#[test]
fn test_test_should_set_owner_on_constructor() {
    let (owner, _, client) = deploy_token();

    let fetched_owner = client.get_owner();

    assert_eq!(fetched_owner, Some(owner));
}

//// set_permission_manager

#[test]
fn test_test_set_permission_manager_should_require_owner_auth() {
    let (owner, _, mut client) = deploy_token();
    let (_, permission_manager_address, _) = deploy_permission_manager();

    let unsigned = client.set_permission_manager(&Authorization::none(), permission_manager_address);
    let by_other =
        client.set_permission_manager(&Authorization::of(generate(9)), permission_manager_address);
    let by_owner =
        client.set_permission_manager(&Authorization::of(owner), permission_manager_address);

    assert_eq!(unsigned, Err(Error::SignatureMissing));
    assert_eq!(by_other, Err(Error::SignatureMissing));
    assert_eq!(by_owner, Ok(()));
}

//// set_redemption

#[test]
fn test_set_redemption_should_require_owner_auth() {
    let (owner, _, mut client) = deploy_token();
    let (_, redemption_address, _) = deploy_redemption();

    let unsigned = client.set_redemption(&Authorization::none(), redemption_address);
    let by_other = client.set_redemption(&Authorization::of(generate(9)), redemption_address);
    let by_owner = client.set_redemption(&Authorization::of(owner), redemption_address);

    assert_eq!(unsigned, Err(Error::SignatureMissing));
    assert_eq!(by_other, Err(Error::SignatureMissing));
    assert_eq!(by_owner, Ok(()));
}

//// mint

#[test]
fn test_mint_should_emit_a_mint_event() {
    let e = setup_env();
    let minter = generate(3);
    let user = generate(4);
    let amount: i128 = 1000000;
    let (_, token_address, mut client) = deploy_token();
    let (admin, permission_manager_address, mut permission_manager_client) =
        deploy_permission_manager();
    client.set_permission_manager(&e, permission_manager_address).unwrap();
    permission_manager_client.grant_role(&e, admin, minter, Role::Minter).unwrap();
    permission_manager_client.grant_role(&e, admin, user, Role::Whitelisted).unwrap();

    let events = mint_with_key(
        &mut client,
        &e,
        &permission_manager_client,
        user,
        amount,
        minter,
        "IDEMPOTENCY_KEY",
    )
    .unwrap();

    assert_eq!(events.len(), 1);
    assert_mint_event(&events[0], token_address, user, amount);
}

#[test]
fn test_mint_should_require_auth_and_mint_and_emit_a_mint_event() {
    let minter = generate(3);
    let user = generate(4);
    let amount: i128 = 1000000;
    let (owner, token_address, mut client) = deploy_token();
    let (admin, permission_manager_address, mut permission_manager_client) =
        deploy_permission_manager();
    client.set_permission_manager(&Authorization::of(owner), permission_manager_address).unwrap();
    permission_manager_client
        .grant_role(&Authorization::of(admin), admin, minter, Role::Minter)
        .unwrap();
    permission_manager_client
        .grant_role(&Authorization::of(admin), admin, user, Role::Whitelisted)
        .unwrap();

    let unsigned = mint_with_key(
        &mut client,
        &Authorization::none(),
        &permission_manager_client,
        user,
        amount,
        minter,
        "IDEMPOTENCY_KEY",
    );
    assert_eq!(unsigned, Err(Error::SignatureMissing));
    let events = mint_with_key(
        &mut client,
        &Authorization::of(minter),
        &permission_manager_client,
        user,
        amount,
        minter,
        "IDEMPOTENCY_KEY",
    )
    .unwrap();

    assert_eq!(events.len(), 1);
    assert_mint_event(&events[0], token_address, user, amount);

    let balance = client.balance(user);
    assert_eq!(balance, amount);
}

#[test]
fn test_mint_should_fail_if_minter_is_not_minter() {
    let e = setup_env();
    let minter = generate(3);
    let user = generate(4);
    let amount: i128 = 1000000;
    let (_, _, mut client) = deploy_token();
    let (admin, permission_manager_address, mut permission_manager_client) =
        deploy_permission_manager();
    client.set_permission_manager(&e, permission_manager_address).unwrap();
    permission_manager_client.grant_role(&e, admin, user, Role::Whitelisted).unwrap();

    let result = mint_with_key(
        &mut client,
        &e,
        &permission_manager_client,
        user,
        amount,
        minter,
        "IDEMPOTENCY_KEY",
    );

    assert!(result.is_err());
    assert_eq!(result, Err(Error::RoleMissing));
    assert_eq!(
        client.mint(&e, &permission_manager_client, user, amount, minter),
        Err(Error::RoleMissing)
    );
}

#[test]
fn test_mint_should_fail_if_user_is_not_whitelisted() {
    let e = setup_env();
    let minter = generate(3);
    let user = generate(4);
    let amount: i128 = 1000000;
    let (_, _, mut client) = deploy_token();
    let (admin, permission_manager_address, mut permission_manager_client) =
        deploy_permission_manager();
    client.set_permission_manager(&e, permission_manager_address).unwrap();
    permission_manager_client.grant_role(&e, admin, minter, Role::Minter).unwrap();

    let result = mint_with_key(
        &mut client,
        &e,
        &permission_manager_client,
        user,
        amount,
        minter,
        "IDEMPOTENCY_KEY",
    );

    assert!(result.is_err());
    assert_eq!(result, Err(Error::NotWhitelisted));
    assert_eq!(
        client.mint(&e, &permission_manager_client, user, amount, minter),
        Err(Error::NotWhitelisted)
    );
}

#[test]
fn test_mint_should_fail_if_idempotency_key_is_already_used() {
    let e = setup_env();
    let minter = generate(3);
    let user = generate(4);
    let amount: i128 = 1000000;
    let (_, _, mut client) = deploy_token();
    let (admin, permission_manager_address, mut permission_manager_client) =
        deploy_permission_manager();
    client.set_permission_manager(&e, permission_manager_address).unwrap();
    permission_manager_client.grant_role(&e, admin, minter, Role::Minter).unwrap();
    permission_manager_client.grant_role(&e, admin, user, Role::Whitelisted).unwrap();

    mint_with_key(
        &mut client,
        &e,
        &permission_manager_client,
        user,
        amount,
        minter,
        "IDEMPOTENCY_KEY",
    )
    .unwrap();
    let result = mint_with_key(
        &mut client,
        &e,
        &permission_manager_client,
        user,
        amount,
        minter,
        "IDEMPOTENCY_KEY",
    );

    assert!(result.is_err());
    assert_eq!(result, Err(Error::KeyUsed));
    assert_eq!(client.balance(user), amount);
}

//// mint_batch

#[test]
fn test_mint_batch_should_require_auth_and_mint_and_emit_mint_events() {
    let minter = generate(3);
    let user1 = generate(4);
    let user2 = generate(5);
    let amount1: i128 = 1000000;
    let amount2: i128 = 2000000;
    let idempotency_key = String::from("IDEMPOTENCY_KEY");
    let (owner, token_address, mut client) = deploy_token();
    let (admin, permission_manager_address, mut permission_manager_client) =
        deploy_permission_manager();
    let by_admin = Authorization::of(admin);
    client.set_permission_manager(&Authorization::of(owner), permission_manager_address).unwrap();
    permission_manager_client.grant_role(&by_admin, admin, minter, Role::Minter).unwrap();
    permission_manager_client.grant_role(&by_admin, admin, user1, Role::Whitelisted).unwrap();
    permission_manager_client.grant_role(&by_admin, admin, user2, Role::Whitelisted).unwrap();
    let mut operations = Vec::new();
    operations.insert(0, MintBatchOperation(user1, amount1));
    operations.insert(0, MintBatchOperation(user2, amount2));

    let unsigned = client.mint_batch(
        &Authorization::none(),
        &permission_manager_client,
        &operations,
        minter,
        &idempotency_key,
    );
    assert_eq!(unsigned, Err(Error::SignatureMissing));
    let events = client
        .mint_batch(
            &Authorization::of(minter),
            &permission_manager_client,
            &operations,
            minter,
            &idempotency_key,
        )
        .unwrap();

    assert_eq!(events.len(), 2);
    assert_mint_event(&events[0], token_address, user2, amount2);
    assert_mint_event(&events[1], token_address, user1, amount1);

    let balance1 = client.balance(user1);
    assert_eq!(balance1, amount1);
    let balance2 = client.balance(user2);
    assert_eq!(balance2, amount2);
}

#[test]
fn test_mint_batch_should_fail_if_minter_is_not_minter() {
    let e = setup_env();
    let minter = generate(3);
    let user1 = generate(4);
    let user2 = generate(5);
    let amount1: i128 = 1000000;
    let amount2: i128 = 2000000;
    let idempotency_key = String::from("IDEMPOTENCY_KEY");
    let (_, _, mut client) = deploy_token();
    let (admin, permission_manager_address, mut permission_manager_client) =
        deploy_permission_manager();
    client.set_permission_manager(&e, permission_manager_address).unwrap();
    permission_manager_client.grant_role(&e, admin, user1, Role::Whitelisted).unwrap();
    permission_manager_client.grant_role(&e, admin, user2, Role::Whitelisted).unwrap();
    let mut operations = Vec::new();
    operations.insert(0, MintBatchOperation(user1, amount1));
    operations.insert(0, MintBatchOperation(user2, amount2));

    let result =
        client.mint_batch(&e, &permission_manager_client, &operations, minter, &idempotency_key);

    assert!(result.is_err());
    assert_eq!(result, Err(Error::RoleMissing));
}

#[test]
fn test_mint_batch_should_fail_if_one_of_the_users_is_not_whitelisted() {
    let e = setup_env();
    let minter = generate(3);
    let user1 = generate(4);
    let user2 = generate(5);
    let amount1: i128 = 1000000;
    let amount2: i128 = 2000000;
    let idempotency_key = String::from("IDEMPOTENCY_KEY");
    let (_, _, mut client) = deploy_token();
    let (admin, permission_manager_address, mut permission_manager_client) =
        deploy_permission_manager();
    client.set_permission_manager(&e, permission_manager_address).unwrap();
    permission_manager_client.grant_role(&e, admin, minter, Role::Minter).unwrap();
    permission_manager_client.grant_role(&e, admin, user1, Role::Whitelisted).unwrap();
    let mut operations = Vec::new();
    operations.insert(0, MintBatchOperation(user1, amount1));
    operations.insert(0, MintBatchOperation(user2, amount2));

    let result =
        client.mint_batch(&e, &permission_manager_client, &operations, minter, &idempotency_key);

    assert!(result.is_err());
    assert_eq!(result, Err(Error::NotWhitelisted));
    assert_eq!(Error::NotWhitelisted.kind(), ErrorKind::Validation);
    assert_eq!(client.balance(user1), 0);
    assert_eq!(client.balance(user2), 0);
    assert_eq!(client.total_supply(), 0);
    assert!(!client.key_used(&idempotency_key));
}

#[test]
fn test_mint_batch_should_fail_if_idempotency_key_is_already_used() {
    let e = setup_env();
    let minter = generate(3);
    let user1 = generate(4);
    let user2 = generate(5);
    let amount1: i128 = 1000000;
    let amount2: i128 = 2000000;
    let idempotency_key = String::from("IDEMPOTENCY_KEY");
    let (_, _, mut client) = deploy_token();
    let (admin, permission_manager_address, mut permission_manager_client) =
        deploy_permission_manager();
    client.set_permission_manager(&e, permission_manager_address).unwrap();
    permission_manager_client.grant_role(&e, admin, minter, Role::Minter).unwrap();
    permission_manager_client.grant_role(&e, admin, user1, Role::Whitelisted).unwrap();
    permission_manager_client.grant_role(&e, admin, user2, Role::Whitelisted).unwrap();
    let mut operations = Vec::new();
    operations.insert(0, MintBatchOperation(user1, amount1));
    operations.insert(0, MintBatchOperation(user2, amount2));

    client
        .mint_batch(&e, &permission_manager_client, &operations, minter, &idempotency_key)
        .unwrap();
    let result =
        client.mint_batch(&e, &permission_manager_client, &operations, minter, &idempotency_key);

    assert!(result.is_err());
    assert_eq!(result, Err(Error::KeyUsed));
}

//// redeem

#[test]
fn test_redeem_should_require_auth_and_redeem_and_emit_a_redeem_event_and_call_redemption_on_redeem(
) {
    let e = setup_env();
    let amount: i128 = 1000000;
    let redeem_idempotency_key = String::from("IDEMPOTENCY_KEY");
    let user = generate(4);
    let minter = generate(3);
    let (_, token_address, mut client) = deploy_token();
    let (_, redemption_address, mut redemption_client) = deploy_redemption();
    let (admin, permission_manager_address, mut permission_manager_client) =
        deploy_permission_manager();
    client.set_permission_manager(&e, permission_manager_address).unwrap();
    client.set_redemption(&e, redemption_address).unwrap();
    redemption_client.add_token(&e, token_address).unwrap();
    permission_manager_client.grant_role(&e, admin, minter, Role::Minter).unwrap();
    permission_manager_client.grant_role(&e, admin, user, Role::Whitelisted).unwrap();
    permission_manager_client
        .grant_role(&e, admin, redemption_address, Role::Whitelisted)
        .unwrap();
    mint_with_key(
        &mut client,
        &e,
        &permission_manager_client,
        user,
        amount,
        minter,
        "IDEMPOTENCY_KEY2",
    )
    .unwrap();

    let unsigned = client.redeem(
        &Authorization::none(),
        &permission_manager_client,
        &mut redemption_client,
        amount,
        user,
        &redeem_idempotency_key,
    );
    assert_eq!(unsigned, Err(Error::SignatureMissing));
    let events = client
        .redeem(
            &Authorization::of(user),
            &permission_manager_client,
            &mut redemption_client,
            amount,
            user,
            &redeem_idempotency_key,
        )
        .unwrap();

    assert_eq!(events.len(), 2);

    assert_transfer_event(&events[0], token_address, user, redemption_address, amount);

    let redemption_event = &events[1];
    assert_eq!(redemption_event.contract(), redemption_address);
    assert_eq!(redemption_event.topic_count(), 2);
    assert_eq!(redemption_event.topic(), "REDEEM");
    assert_eq!(redemption_event.transition(), Some("INIT"));
    assert_eq!(
        redemption_event,
        &Event::RedemptionInitiated {
            contract: redemption_address,
            entry: RedemptionEntry(token_address, user, amount, redeem_idempotency_key.clone()),
        }
    );

    let balance = client.balance(redemption_address);
    assert_eq!(balance, amount);
    assert_eq!(client.balance(user), 0);
    assert_eq!(
        redemption_client.status_of(token_address, user, amount, &redeem_idempotency_key),
        Some(RedemptionStatus::Pending)
    );
}

#[test]
fn test_redeem_should_fail_if_amount_is_not_positive() {
    let e = setup_env();
    let amount: i128 = 0;
    let redeem_idempotency_key = String::from("IDEMPOTENCY_KEY");
    let user = generate(4);
    let minter = generate(3);
    let (_, token_address, mut client) = deploy_token();
    let (_, redemption_address, mut redemption_client) = deploy_redemption();
    let (admin, permission_manager_address, mut permission_manager_client) =
        deploy_permission_manager();
    client.set_permission_manager(&e, permission_manager_address).unwrap();
    client.set_redemption(&e, redemption_address).unwrap();
    redemption_client.add_token(&e, token_address).unwrap();
    permission_manager_client.grant_role(&e, admin, minter, Role::Minter).unwrap();
    permission_manager_client.grant_role(&e, admin, user, Role::Whitelisted).unwrap();
    permission_manager_client
        .grant_role(&e, admin, redemption_address, Role::Whitelisted)
        .unwrap();
    let minted = mint_with_key(
        &mut client,
        &e,
        &permission_manager_client,
        user,
        amount,
        minter,
        "IDEMPOTENCY_KEY2",
    );
    assert_eq!(minted, Err(Error::NonPositiveAmount));

    let result = client.redeem(
        &e,
        &permission_manager_client,
        &mut redemption_client,
        amount,
        user,
        &redeem_idempotency_key,
    );

    assert!(result.is_err());
    assert_eq!(result, Err(Error::NonPositiveAmount));
    assert_eq!(
        client.redeem(
            &e,
            &permission_manager_client,
            &mut redemption_client,
            -1,
            user,
            &redeem_idempotency_key,
        ),
        Err(Error::NonPositiveAmount)
    );
}

#[test]
fn test_redeem_should_fail_if_user_is_not_whitelisted() {
    let e = setup_env();
    let amount: i128 = 1000000;
    let redeem_idempotency_key = String::from("IDEMPOTENCY_KEY");
    let user = generate(4);
    let minter = generate(3);
    let (_, token_address, mut client) = deploy_token();
    let (_, redemption_address, mut redemption_client) = deploy_redemption();
    let (admin, permission_manager_address, mut permission_manager_client) =
        deploy_permission_manager();
    client.set_permission_manager(&e, permission_manager_address).unwrap();
    client.set_redemption(&e, redemption_address).unwrap();
    redemption_client.add_token(&e, token_address).unwrap();
    permission_manager_client.grant_role(&e, admin, minter, Role::Minter).unwrap();
    permission_manager_client.grant_role(&e, admin, user, Role::Whitelisted).unwrap();
    permission_manager_client
        .grant_role(&e, admin, redemption_address, Role::Whitelisted)
        .unwrap();
    mint_with_key(
        &mut client,
        &e,
        &permission_manager_client,
        user,
        amount,
        minter,
        "IDEMPOTENCY_KEY2",
    )
    .unwrap();
    permission_manager_client.revoke_role(&e, admin, user, Role::Whitelisted).unwrap();

    let result = client.redeem(
        &e,
        &permission_manager_client,
        &mut redemption_client,
        amount,
        user,
        &redeem_idempotency_key,
    );

    assert!(result.is_err());
    assert_eq!(result, Err(Error::NotWhitelisted));
}

#[test]
fn test_redeem_should_fail_if_redemption_contract_is_not_whitelisted() {
    let e = setup_env();
    let amount: i128 = 1000000;
    let redeem_idempotency_key = String::from("IDEMPOTENCY_KEY");
    let user = generate(4);
    let minter = generate(3);
    let (_, token_address, mut client) = deploy_token();
    let (_, redemption_address, mut redemption_client) = deploy_redemption();
    let (admin, permission_manager_address, mut permission_manager_client) =
        deploy_permission_manager();
    client.set_permission_manager(&e, permission_manager_address).unwrap();
    client.set_redemption(&e, redemption_address).unwrap();
    redemption_client.add_token(&e, token_address).unwrap();
    permission_manager_client.grant_role(&e, admin, minter, Role::Minter).unwrap();
    permission_manager_client.grant_role(&e, admin, user, Role::Whitelisted).unwrap();
    permission_manager_client
        .grant_role(&e, admin, redemption_address, Role::Whitelisted)
        .unwrap();
    mint_with_key(
        &mut client,
        &e,
        &permission_manager_client,
        user,
        amount,
        minter,
        "IDEMPOTENCY_KEY2",
    )
    .unwrap();
    permission_manager_client
        .revoke_role(&e, admin, redemption_address, Role::Whitelisted)
        .unwrap();

    let result = client.redeem(
        &e,
        &permission_manager_client,
        &mut redemption_client,
        amount,
        user,
        &redeem_idempotency_key,
    );

    assert!(result.is_err());
    assert_eq!(result, Err(Error::NotWhitelisted));
    assert_eq!(client.balance(user), amount);
}

#[test]
fn test_redeem_should_fail_if_not_enough_balance() {
    let e = setup_env();
    let amount: i128 = 1000000;
    let redeem_idempotency_key = String::from("IDEMPOTENCY_KEY");
    let user = generate(4);
    let minter = generate(3);
    let (_, token_address, mut client) = deploy_token();
    let (_, redemption_address, mut redemption_client) = deploy_redemption();
    let (admin, permission_manager_address, mut permission_manager_client) =
        deploy_permission_manager();
    client.set_permission_manager(&e, permission_manager_address).unwrap();
    client.set_redemption(&e, redemption_address).unwrap();
    redemption_client.add_token(&e, token_address).unwrap();
    permission_manager_client.grant_role(&e, admin, minter, Role::Minter).unwrap();
    permission_manager_client.grant_role(&e, admin, user, Role::Whitelisted).unwrap();
    permission_manager_client
        .grant_role(&e, admin, redemption_address, Role::Whitelisted)
        .unwrap();
    mint_with_key(
        &mut client,
        &e,
        &permission_manager_client,
        user,
        amount / 2,
        minter,
        "IDEMPOTENCY_KEY2",
    )
    .unwrap();

    let result = client.redeem(
        &e,
        &permission_manager_client,
        &mut redemption_client,
        amount,
        user,
        &redeem_idempotency_key,
    );

    assert!(result.is_err());
    assert_eq!(result, Err(Error::InsufficientBalance));
    assert_eq!(client.balance(user), amount / 2);
    assert_eq!(client.balance(redemption_address), 0);
    assert_eq!(
        redemption_client.status_of(token_address, user, amount, &redeem_idempotency_key),
        Some(RedemptionStatus::Null)
    );
}

#[test]
fn test_redeem_should_fail_if_idempotency_key_is_already_used() {
    let e = setup_env();
    let amount: i128 = 1000000;
    let redeem_idempotency_key = String::from("IDEMPOTENCY_KEY");
    let user = generate(4);
    let minter = generate(3);
    let (_, token_address, mut client) = deploy_token();
    let (_, redemption_address, mut redemption_client) = deploy_redemption();
    let (admin, permission_manager_address, mut permission_manager_client) =
        deploy_permission_manager();
    client.set_permission_manager(&e, permission_manager_address).unwrap();
    client.set_redemption(&e, redemption_address).unwrap();
    redemption_client.add_token(&e, token_address).unwrap();
    permission_manager_client.grant_role(&e, admin, minter, Role::Minter).unwrap();
    permission_manager_client.grant_role(&e, admin, user, Role::Whitelisted).unwrap();
    permission_manager_client
        .grant_role(&e, admin, redemption_address, Role::Whitelisted)
        .unwrap();
    mint_with_key(
        &mut client,
        &e,
        &permission_manager_client,
        user,
        amount * 3,
        minter,
        "IDEMPOTENCY_KEY2",
    )
    .unwrap();

    client
        .redeem(
            &e,
            &permission_manager_client,
            &mut redemption_client,
            amount,
            user,
            &redeem_idempotency_key,
        )
        .unwrap();
    let result = client.redeem(
        &e,
        &permission_manager_client,
        &mut redemption_client,
        amount,
        user,
        &redeem_idempotency_key,
    );

    assert!(result.is_err());
    assert_eq!(result, Err(Error::KeyUsed));
    assert_eq!(client.balance(user), amount * 2);
    assert_eq!(client.balance(redemption_address), amount);
}

//// transfer

#[test]
fn test_safe_transfer_should_transfer_tokens_and_emit_a_transfer_event() {
    let e = setup_env();
    let amount: i128 = 1000000;
    let user1 = generate(4);
    let user2 = generate(5);
    let minter = generate(3);
    let transfer_idempotency_key = String::from("IDEMPOTENCY_KEY2");
    let (_, token_address, mut client) = deploy_token();
    let (admin, permission_manager_address, mut permission_manager_client) =
        deploy_permission_manager();
    client.set_permission_manager(&e, permission_manager_address).unwrap();
    permission_manager_client.grant_role(&e, admin, minter, Role::Minter).unwrap();
    permission_manager_client.grant_role(&e, admin, user1, Role::Whitelisted).unwrap();
    permission_manager_client.grant_role(&e, admin, user2, Role::Whitelisted).unwrap();
    mint_with_key(
        &mut client,
        &e,
        &permission_manager_client,
        user1,
        amount,
        minter,
        "IDEMPOTENCY_KEY",
    )
    .unwrap();

    let unsigned = client.safe_transfer(
        &Authorization::of(user2),
        &permission_manager_client,
        user1,
        user2,
        amount,
        &transfer_idempotency_key,
    );
    assert_eq!(unsigned, Err(Error::SignatureMissing));
    let events = client
        .safe_transfer(
            &Authorization::of(user1),
            &permission_manager_client,
            user1,
            user2,
            amount,
            &transfer_idempotency_key,
        )
        .unwrap();

    assert_eq!(events.len(), 1);
    assert_transfer_event(&events[0], token_address, user1, user2, amount);

    let balance1 = client.balance(user1);
    assert_eq!(balance1, 0);
    let balance2 = client.balance(user2);
    assert_eq!(balance2, amount);
}

#[test]
fn test_safe_transfer_should_fail_if_user1_is_not_whitelisted() {
    let e = setup_env();
    let amount: i128 = 1000000;
    let user1 = generate(4);
    let user2 = generate(5);
    let minter = generate(3);
    let transfer_idempotency_key = String::from("IDEMPOTENCY_KEY2");
    let (_, _, mut client) = deploy_token();
    let (admin, permission_manager_address, mut permission_manager_client) =
        deploy_permission_manager();
    client.set_permission_manager(&e, permission_manager_address).unwrap();
    permission_manager_client.grant_role(&e, admin, minter, Role::Minter).unwrap();
    permission_manager_client.grant_role(&e, admin, user1, Role::Whitelisted).unwrap();
    permission_manager_client.grant_role(&e, admin, user2, Role::Whitelisted).unwrap();
    mint_with_key(
        &mut client,
        &e,
        &permission_manager_client,
        user1,
        amount,
        minter,
        "IDEMPOTENCY_KEY",
    )
    .unwrap();
    permission_manager_client.revoke_role(&e, admin, user1, Role::Whitelisted).unwrap();

    let result = client.safe_transfer(
        &e,
        &permission_manager_client,
        user1,
        user2,
        amount,
        &transfer_idempotency_key,
    );

    assert!(result.is_err());
    assert_eq!(result, Err(Error::NotWhitelisted));
}

#[test]
fn test_safe_transfer_should_fail_if_user2_is_not_whitelisted() {
    let e = setup_env();
    let amount: i128 = 1000000;
    let user1 = generate(4);
    let user2 = generate(5);
    let minter = generate(3);
    let transfer_idempotency_key = String::from("IDEMPOTENCY_KEY2");
    let (_, _, mut client) = deploy_token();
    let (admin, permission_manager_address, mut permission_manager_client) =
        deploy_permission_manager();
    client.set_permission_manager(&e, permission_manager_address).unwrap();
    permission_manager_client.grant_role(&e, admin, minter, Role::Minter).unwrap();
    permission_manager_client.grant_role(&e, admin, user1, Role::Whitelisted).unwrap();
    permission_manager_client.grant_role(&e, admin, user2, Role::Whitelisted).unwrap();
    mint_with_key(
        &mut client,
        &e,
        &permission_manager_client,
        user1,
        amount,
        minter,
        "IDEMPOTENCY_KEY",
    )
    .unwrap();
    permission_manager_client.revoke_role(&e, admin, user2, Role::Whitelisted).unwrap();

    let result = client.safe_transfer(
        &e,
        &permission_manager_client,
        user1,
        user2,
        amount,
        &transfer_idempotency_key,
    );

    assert!(result.is_err());
    assert_eq!(result, Err(Error::NotWhitelisted));
}

#[test]
fn test_transfer_should_fail_if_not_enough_balance() {
    let e = setup_env();
    let amount: i128 = 1000000;
    let user1 = generate(4);
    let user2 = generate(5);
    let minter = generate(3);
    let transfer_idempotency_key = String::from("IDEMPOTENCY_KEY2");
    let (_, _, mut client) = deploy_token();
    let (admin, permission_manager_address, mut permission_manager_client) =
        deploy_permission_manager();
    client.set_permission_manager(&e, permission_manager_address).unwrap();
    permission_manager_client.grant_role(&e, admin, minter, Role::Minter).unwrap();
    permission_manager_client.grant_role(&e, admin, user1, Role::Whitelisted).unwrap();
    permission_manager_client.grant_role(&e, admin, user2, Role::Whitelisted).unwrap();
    mint_with_key(
        &mut client,
        &e,
        &permission_manager_client,
        user1,
        amount / 2,
        minter,
        "IDEMPOTENCY_KEY",
    )
    .unwrap();

    let result = client.safe_transfer(
        &e,
        &permission_manager_client,
        user1,
        user2,
        amount,
        &transfer_idempotency_key,
    );

    assert!(result.is_err());
    assert_eq!(result, Err(Error::InsufficientBalance));
    assert_eq!(Error::InsufficientBalance.kind(), ErrorKind::State);
    assert!(!client.key_used(&transfer_idempotency_key));
    assert_eq!(
        client.transfer(&e, &permission_manager_client, user1, user2, amount),
        Err(Error::InsufficientBalance)
    );
}

#[test]
fn test_transfer_should_fail_if_idempotency_key_is_already_used() {
    let e = setup_env();
    let amount: i128 = 1000000;
    let user1 = generate(4);
    let user2 = generate(5);
    let minter = generate(3);
    let transfer_idempotency_key = String::from("IDEMPOTENCY_KEY2");
    let (_, _, mut client) = deploy_token();
    let (admin, permission_manager_address, mut permission_manager_client) =
        deploy_permission_manager();
    client.set_permission_manager(&e, permission_manager_address).unwrap();
    permission_manager_client.grant_role(&e, admin, minter, Role::Minter).unwrap();
    permission_manager_client.grant_role(&e, admin, user1, Role::Whitelisted).unwrap();
    permission_manager_client.grant_role(&e, admin, user2, Role::Whitelisted).unwrap();
    mint_with_key(
        &mut client,
        &e,
        &permission_manager_client,
        user1,
        amount * 3,
        minter,
        "IDEMPOTENCY_KEY",
    )
    .unwrap();

    client
        .safe_transfer(
            &e,
            &permission_manager_client,
            user1,
            user2,
            amount,
            &transfer_idempotency_key,
        )
        .unwrap();
    let result = client.safe_transfer(
        &e,
        &permission_manager_client,
        user1,
        user2,
        amount,
        &transfer_idempotency_key,
    );

    assert!(result.is_err());
    assert_eq!(result, Err(Error::KeyUsed));
    assert_eq!(client.balance(user1), amount * 2);
    assert_eq!(client.balance(user2), amount);
}

//// burn

#[test]
fn test_burn_should_require_auth_and_burn_and_emit_a_burn_event() {
    let e = setup_env();
    let amount: i128 = 1000000;
    let minter = generate(3);
    let burner = generate(6);
    let (_, token_address, mut client) = deploy_token();
    let (_, redemption_address, _) = deploy_redemption();
    let (admin, permission_manager_address, mut permission_manager_client) =
        deploy_permission_manager();
    client.set_permission_manager(&e, permission_manager_address).unwrap();
    permission_manager_client.grant_role(&e, admin, minter, Role::Minter).unwrap();
    permission_manager_client
        .grant_role(&e, admin, redemption_address, Role::Whitelisted)
        .unwrap();
    permission_manager_client.grant_role(&e, admin, burner, Role::Burner).unwrap();
    mint_with_key(
        &mut client,
        &e,
        &permission_manager_client,
        redemption_address,
        amount,
        minter,
        "IDEMPOTENCY_KEY",
    )
    .unwrap();

    let unsigned = burn_with_key(
        &mut client,
        &Authorization::none(),
        &permission_manager_client,
        redemption_address,
        amount,
        burner,
        "IDEMPOTENCY_KEY2",
    );
    assert_eq!(unsigned, Err(Error::SignatureMissing));
    let events = burn_with_key(
        &mut client,
        &Authorization::of(burner),
        &permission_manager_client,
        redemption_address,
        amount,
        burner,
        "IDEMPOTENCY_KEY2",
    )
    .unwrap();

    assert_eq!(events.len(), 1);
    assert_burn_event(&events[0], token_address, redemption_address, amount);

    let balance = client.balance(redemption_address);
    assert_eq!(balance, 0);
}

#[test]
fn test_burn_should_fail_if_not_burner() {
    let e = setup_env();
    let amount: i128 = 1000000;
    let minter = generate(3);
    let burner = generate(6);
    let (_, _, mut client) = deploy_token();
    let (_, redemption_address, _) = deploy_redemption();
    let (admin, permission_manager_address, mut permission_manager_client) =
        deploy_permission_manager();
    client.set_permission_manager(&e, permission_manager_address).unwrap();
    client.set_redemption(&e, redemption_address).unwrap();
    permission_manager_client.grant_role(&e, admin, minter, Role::Minter).unwrap();
    permission_manager_client
        .grant_role(&e, admin, redemption_address, Role::Whitelisted)
        .unwrap();
    mint_with_key(
        &mut client,
        &e,
        &permission_manager_client,
        redemption_address,
        amount,
        minter,
        "IDEMPOTENCY_KEY",
    )
    .unwrap();

    let result = burn_with_key(
        &mut client,
        &e,
        &permission_manager_client,
        redemption_address,
        amount,
        burner,
        "IDEMPOTENCY_KEY2",
    );

    assert!(result.is_err());
    assert_eq!(result, Err(Error::RoleMissing));
    assert_eq!(
        client.burn(&e, &permission_manager_client, redemption_address, amount, burner),
        Err(Error::RoleMissing)
    );
    assert_eq!(client.balance(redemption_address), amount);
}

#[test]
fn test_burn_should_fail_if_idempotency_key_is_already_used() {
    let e = setup_env();
    let amount: i128 = 1000000;
    let minter = generate(3);
    let burner = generate(6);
    let (_, _, mut client) = deploy_token();
    let (_, redemption_address, _) = deploy_redemption();
    let (admin, permission_manager_address, mut permission_manager_client) =
        deploy_permission_manager();
    client.set_permission_manager(&e, permission_manager_address).unwrap();
    permission_manager_client.grant_role(&e, admin, minter, Role::Minter).unwrap();
    permission_manager_client
        .grant_role(&e, admin, redemption_address, Role::Whitelisted)
        .unwrap();
    permission_manager_client.grant_role(&e, admin, burner, Role::Burner).unwrap();
    mint_with_key(
        &mut client,
        &e,
        &permission_manager_client,
        redemption_address,
        amount * 3,
        minter,
        "IDEMPOTENCY_KEY",
    )
    .unwrap();

    burn_with_key(
        &mut client,
        &e,
        &permission_manager_client,
        redemption_address,
        amount,
        burner,
        "IDEMPOTENCY_KEY2",
    )
    .unwrap();
    let result = burn_with_key(
        &mut client,
        &e,
        &permission_manager_client,
        redemption_address,
        amount,
        burner,
        "IDEMPOTENCY_KEY2",
    );

    assert!(result.is_err());
    assert_eq!(result, Err(Error::KeyUsed));
    assert_eq!(client.balance(redemption_address), amount * 2);
}

//// burn_batch

#[test]
fn test_burn_batch_should_require_auth_and_burn_and_emit_a_burn_events() {
    let e = setup_env();
    let amount: i128 = 1000000;
    let minter = generate(3);
    let burner = generate(6);
    let burn_idempotency_key = String::from("IDEMPOTENCY_KEY2");
    let (_, token_address, mut client) = deploy_token();
    let (_, redemption_address, _) = deploy_redemption();
    let (admin, permission_manager_address, mut permission_manager_client) =
        deploy_permission_manager();
    client.set_permission_manager(&e, permission_manager_address).unwrap();
    permission_manager_client.grant_role(&e, admin, minter, Role::Minter).unwrap();
    permission_manager_client
        .grant_role(&e, admin, redemption_address, Role::Whitelisted)
        .unwrap();
    permission_manager_client.grant_role(&e, admin, burner, Role::Burner).unwrap();
    mint_with_key(
        &mut client,
        &e,
        &permission_manager_client,
        redemption_address,
        amount,
        minter,
        "IDEMPOTENCY_KEY",
    )
    .unwrap();
    let mut operations = Vec::new();
    operations.insert(0, BurnBatchOperation(redemption_address, amount / 2));
    operations.insert(0, BurnBatchOperation(redemption_address, amount / 2));

    let unsigned = client.burn_batch(
        &Authorization::none(),
        &permission_manager_client,
        &operations,
        burner,
        &burn_idempotency_key,
    );
    assert_eq!(unsigned, Err(Error::SignatureMissing));
    let events = client
        .burn_batch(
            &Authorization::of(burner),
            &permission_manager_client,
            &operations,
            burner,
            &burn_idempotency_key,
        )
        .unwrap();

    assert_eq!(events.len(), 2);
    assert_burn_event(&events[0], token_address, redemption_address, amount / 2 as i128);
    assert_burn_event(&events[1], token_address, redemption_address, amount / 2 as i128);

    let balance = client.balance(redemption_address);
    assert_eq!(balance, 0);
}

#[test]
fn test_burn_batch_should_fail_if_not_burner() {
    let e = setup_env();
    let amount: i128 = 1000000;
    let minter = generate(3);
    let burner = generate(6);
    let burn_idempotency_key = String::from("IDEMPOTENCY_KEY2");
    let (_, _, mut client) = deploy_token();
    let (_, redemption_address, _) = deploy_redemption();
    let (admin, permission_manager_address, mut permission_manager_client) =
        deploy_permission_manager();
    client.set_permission_manager(&e, permission_manager_address).unwrap();
    client.set_redemption(&e, redemption_address).unwrap();
    permission_manager_client.grant_role(&e, admin, minter, Role::Minter).unwrap();
    permission_manager_client
        .grant_role(&e, admin, redemption_address, Role::Whitelisted)
        .unwrap();
    mint_with_key(
        &mut client,
        &e,
        &permission_manager_client,
        redemption_address,
        amount,
        minter,
        "IDEMPOTENCY_KEY",
    )
    .unwrap();
    let mut operations = Vec::new();
    operations.insert(0, BurnBatchOperation(redemption_address, amount / 2));
    operations.insert(0, BurnBatchOperation(redemption_address, amount / 2));

    let result = client.burn_batch(
        &e,
        &permission_manager_client,
        &operations,
        burner,
        &burn_idempotency_key,
    );

    assert!(result.is_err());
    assert_eq!(result, Err(Error::RoleMissing));
}

#[test]
fn test_burn_batch_should_fail_if_idempotency_key_is_already_used() {
    let e = setup_env();
    let amount: i128 = 1000000;
    let minter = generate(3);
    let burner = generate(6);
    let burn_idempotency_key = String::from("IDEMPOTENCY_KEY2");
    let (_, _, mut client) = deploy_token();
    let (_, redemption_address, _) = deploy_redemption();
    let (admin, permission_manager_address, mut permission_manager_client) =
        deploy_permission_manager();
    client.set_permission_manager(&e, permission_manager_address).unwrap();
    permission_manager_client.grant_role(&e, admin, minter, Role::Minter).unwrap();
    permission_manager_client
        .grant_role(&e, admin, redemption_address, Role::Whitelisted)
        .unwrap();
    permission_manager_client.grant_role(&e, admin, burner, Role::Burner).unwrap();
    mint_with_key(
        &mut client,
        &e,
        &permission_manager_client,
        redemption_address,
        amount * 3,
        minter,
        "IDEMPOTENCY_KEY",
    )
    .unwrap();
    let mut operations = Vec::new();
    operations.insert(0, BurnBatchOperation(redemption_address, amount / 2));
    operations.insert(0, BurnBatchOperation(redemption_address, amount / 2));

    client
        .burn_batch(&e, &permission_manager_client, &operations, burner, &burn_idempotency_key)
        .unwrap();
    let result = client.burn_batch(
        &e,
        &permission_manager_client,
        &operations,
        burner,
        &burn_idempotency_key,
    );

    assert!(result.is_err());
    assert_eq!(result, Err(Error::KeyUsed));
    assert_eq!(client.balance(redemption_address), amount * 2);
}
