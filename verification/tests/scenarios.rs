use issuance::address::Address;
use issuance::authorization::Authorization;
use issuance::error::Error;
use issuance::event::{Event, RedemptionEntry};
use issuance::permission_manager::PermissionManager;
use issuance::redemption::{ExecuteRedemptionOperation, Redemption, RedemptionStatus};
use issuance::role::Role;
use issuance::token::Token;

struct World {
    e: Authorization,
    pm: PermissionManager,
    tokens: Vec<Token>,
    redemption: Redemption,
    admin: Address,
    minter: Address,
    executor: Address,
    user: Address,
    token_address: Address,
    redemption_address: Address,
}

/// A registry, a token and a redemption contract wired together: the user
/// and the redemption contract are whitelisted, and the redemption contract
/// may burn.
fn world() -> World {
    let admin = Address::account(11, 1);
    let owner = Address::account(11, 2);
    let minter = Address::account(11, 3);
    let executor = Address::account(11, 4);
    let user = Address::account(11, 5);
    let registry_address = Address::contract(11, 1);
    let token_address = Address::contract(11, 2);
    let redemption_address = Address::contract(11, 3);
    let e = Authorization::of_all(vec![admin, owner, minter, executor, user]);

    let mut pm = PermissionManager::new(registry_address, admin);
    pm.grant_role(&e, admin, minter, Role::Minter).unwrap();
    pm.grant_role(&e, admin, executor, Role::RedemptionExecutor).unwrap();
    pm.grant_role(&e, admin, user, Role::Whitelisted).unwrap();
    pm.grant_role(&e, admin, redemption_address, Role::Whitelisted).unwrap();
    pm.grant_role(&e, admin, redemption_address, Role::Burner).unwrap();

    let mut token =
        Token::new(token_address, owner, String::from("Token"), String::from("EUTBL"), 6);
    token.set_permission_manager(&e, registry_address).unwrap();
    token.set_redemption(&e, redemption_address).unwrap();

    let mut redemption = Redemption::new(redemption_address, owner);
    redemption.set_permission_manager(&e, registry_address).unwrap();
    redemption.add_token(&e, token_address).unwrap();

    World {
        e,
        pm,
        tokens: vec![token],
        redemption,
        admin,
        minter,
        executor,
        user,
        token_address,
        redemption_address,
    }
}

#[test]
fn redeem_then_execute_burns_the_held_tokens() {
    let mut w = world();
    let key = String::from("K1");
    w.tokens[0].mint(&w.e, &w.pm, w.user, 100, w.minter).unwrap();
    let supply_before = w.tokens[0].total_supply();

    w.tokens[0].redeem(&w.e, &w.pm, &mut w.redemption, 100, w.user, &key).unwrap();

    assert_eq!(w.tokens[0].balance(w.redemption_address), 100);
    assert_eq!(w.tokens[0].balance(w.user), 0);
    assert_eq!(
        w.redemption.status_of(w.token_address, w.user, 100, &key),
        Some(RedemptionStatus::Pending)
    );
    assert_eq!(w.tokens[0].total_supply(), supply_before);

    let operations = vec![ExecuteRedemptionOperation(w.token_address, w.user, 100, key.clone())];
    let events = w
        .redemption
        .execute_redemptions(&w.e, &w.pm, &mut w.tokens, w.executor, &operations)
        .unwrap();

    assert_eq!(w.tokens[0].balance(w.redemption_address), 0);
    assert_eq!(
        w.redemption.status_of(w.token_address, w.user, 100, &key),
        Some(RedemptionStatus::Executed)
    );
    assert_eq!(w.tokens[0].total_supply(), supply_before - 100);
    assert_eq!(
        events,
        vec![
            Event::Burn { contract: w.token_address, from: w.redemption_address, amount: 100 },
            Event::RedemptionExecuted {
                contract: w.redemption_address,
                entry: RedemptionEntry(w.token_address, w.user, 100, key),
            },
        ]
    );
}

#[test]
fn redeem_then_cancel_gives_the_tokens_back() {
    let mut w = world();
    let key = String::from("K1");
    w.tokens[0].mint(&w.e, &w.pm, w.user, 100, w.minter).unwrap();
    w.tokens[0].redeem(&w.e, &w.pm, &mut w.redemption, 60, w.user, &key).unwrap();

    let events = w
        .redemption
        .cancel_redemption(&w.e, &w.pm, &mut w.tokens[0], w.executor, w.user, 60, &key)
        .unwrap();

    assert_eq!(w.tokens[0].balance(w.redemption_address), 0);
    assert_eq!(w.tokens[0].balance(w.user), 100);
    assert_eq!(w.tokens[0].total_supply(), 100);
    assert_eq!(
        w.redemption.status_of(w.token_address, w.user, 60, &key),
        Some(RedemptionStatus::Canceled)
    );
    assert_eq!(
        events,
        vec![
            Event::Transfer {
                contract: w.token_address,
                from: w.redemption_address,
                to: w.user,
                amount: 60,
            },
            Event::RedemptionCancelled {
                contract: w.redemption_address,
                entry: RedemptionEntry(w.token_address, w.user, 60, key),
            },
        ]
    );
}

#[test]
fn batch_with_a_request_that_is_not_pending_changes_nothing() {
    let mut w = world();
    w.tokens[0].mint(&w.e, &w.pm, w.user, 100, w.minter).unwrap();
    let first = String::from("K1");
    let second = String::from("K2");
    let never = String::from("K3");
    w.tokens[0].redeem(&w.e, &w.pm, &mut w.redemption, 30, w.user, &first).unwrap();
    w.tokens[0].redeem(&w.e, &w.pm, &mut w.redemption, 20, w.user, &second).unwrap();

    let operations = vec![
        ExecuteRedemptionOperation(w.token_address, w.user, 30, first.clone()),
        ExecuteRedemptionOperation(w.token_address, w.user, 20, second.clone()),
        ExecuteRedemptionOperation(w.token_address, w.user, 10, never.clone()),
    ];
    let result =
        w.redemption.execute_redemptions(&w.e, &w.pm, &mut w.tokens, w.executor, &operations);

    assert_eq!(result, Err(Error::StatusMismatch));
    assert_eq!(w.tokens[0].balance(w.redemption_address), 50);
    assert_eq!(w.tokens[0].balance(w.user), 50);
    assert_eq!(w.tokens[0].total_supply(), 100);
    assert_eq!(
        w.redemption.status_of(w.token_address, w.user, 30, &first),
        Some(RedemptionStatus::Pending)
    );
    assert_eq!(
        w.redemption.status_of(w.token_address, w.user, 20, &second),
        Some(RedemptionStatus::Pending)
    );
    assert_eq!(
        w.redemption.status_of(w.token_address, w.user, 10, &never),
        Some(RedemptionStatus::Null)
    );
}

#[test]
fn batch_whose_burn_fails_midway_changes_nothing() {
    let mut w = world();
    w.tokens[0].mint(&w.e, &w.pm, w.user, 100, w.minter).unwrap();
    let first = String::from("K1");
    let second = String::from("K2");
    w.tokens[0].redeem(&w.e, &w.pm, &mut w.redemption, 30, w.user, &first).unwrap();
    // The second request was recorded without the tokens being handed over.
    let by_token = Authorization::of(w.token_address);
    w.redemption.on_redeem(&by_token, w.token_address, w.user, 40, &second).unwrap();

    let operations = vec![
        ExecuteRedemptionOperation(w.token_address, w.user, 30, first.clone()),
        ExecuteRedemptionOperation(w.token_address, w.user, 40, second.clone()),
    ];
    let result =
        w.redemption.execute_redemptions(&w.e, &w.pm, &mut w.tokens, w.executor, &operations);

    assert_eq!(result, Err(Error::InsufficientBalance));
    assert_eq!(w.tokens[0].balance(w.redemption_address), 30);
    assert_eq!(w.tokens[0].total_supply(), 100);
    assert_eq!(
        w.redemption.status_of(w.token_address, w.user, 30, &first),
        Some(RedemptionStatus::Pending)
    );
    assert_eq!(
        w.redemption.status_of(w.token_address, w.user, 40, &second),
        Some(RedemptionStatus::Pending)
    );
}

#[test]
fn execution_fails_while_the_redemption_contract_may_not_burn() {
    let mut w = world();
    w.tokens[0].mint(&w.e, &w.pm, w.user, 100, w.minter).unwrap();
    let key = String::from("K1");
    w.tokens[0].redeem(&w.e, &w.pm, &mut w.redemption, 30, w.user, &key).unwrap();
    w.pm.revoke_role(&w.e, w.admin, w.redemption_address, Role::Burner).unwrap();
    let operations = vec![ExecuteRedemptionOperation(w.token_address, w.user, 30, key.clone())];

    let result =
        w.redemption.execute_redemptions(&w.e, &w.pm, &mut w.tokens, w.executor, &operations);

    assert_eq!(result, Err(Error::RoleMissing));
    assert_eq!(w.tokens[0].balance(w.redemption_address), 30);
    assert_eq!(
        w.redemption.status_of(w.token_address, w.user, 30, &key),
        Some(RedemptionStatus::Pending)
    );
}

#[test]
fn batch_over_two_tokens_burns_from_each() {
    let mut w = world();
    let second_address = Address::contract(11, 9);
    let owner = Address::account(11, 2);
    let mut second =
        Token::new(second_address, owner, String::from("Second"), String::from("SND"), 2);
    second.set_permission_manager(&w.e, w.pm.address()).unwrap();
    second.set_redemption(&w.e, w.redemption_address).unwrap();
    w.redemption.add_token(&w.e, second_address).unwrap();
    w.tokens.push(second);
    w.tokens[0].mint(&w.e, &w.pm, w.user, 100, w.minter).unwrap();
    w.tokens[1].mint(&w.e, &w.pm, w.user, 500, w.minter).unwrap();
    let key = String::from("K1");
    let (head, tail) = w.tokens.split_at_mut(1);
    head[0].redeem(&w.e, &w.pm, &mut w.redemption, 70, w.user, &key).unwrap();
    tail[0].redeem(&w.e, &w.pm, &mut w.redemption, 200, w.user, &key).unwrap();

    let operations = vec![
        ExecuteRedemptionOperation(second_address, w.user, 200, key.clone()),
        ExecuteRedemptionOperation(w.token_address, w.user, 70, key.clone()),
    ];
    let events = w
        .redemption
        .execute_redemptions(&w.e, &w.pm, &mut w.tokens, w.executor, &operations)
        .unwrap();

    assert_eq!(events.len(), 4);
    assert_eq!(events[0].contract(), second_address);
    assert_eq!(events[1].transition(), Some("EXEC"));
    assert_eq!(events[2].contract(), w.token_address);
    assert_eq!(w.tokens[0].total_supply(), 30);
    assert_eq!(w.tokens[1].total_supply(), 300);
    assert_eq!(w.tokens[0].balance(w.redemption_address), 0);
    assert_eq!(w.tokens[1].balance(w.redemption_address), 0);
    assert_eq!(
        w.redemption.status_of(second_address, w.user, 200, &key),
        Some(RedemptionStatus::Executed)
    );
    assert_eq!(
        w.redemption.status_of(w.token_address, w.user, 70, &key),
        Some(RedemptionStatus::Executed)
    );
}

#[test]
fn cancel_fails_and_keeps_the_request_while_the_ledger_is_paused() {
    let mut w = world();
    let pauser = Address::account(11, 7);
    let e = Authorization::of_all(vec![w.admin, w.executor, w.user, w.minter, pauser]);
    w.pm.grant_role(&e, w.admin, pauser, Role::Pauser).unwrap();
    w.tokens[0].mint(&e, &w.pm, w.user, 100, w.minter).unwrap();
    let key = String::from("K1");
    w.tokens[0].redeem(&e, &w.pm, &mut w.redemption, 60, w.user, &key).unwrap();
    w.tokens[0].pause(&e, &w.pm, pauser).unwrap();

    let result =
        w.redemption.cancel_redemption(&e, &w.pm, &mut w.tokens[0], w.executor, w.user, 60, &key);

    assert_eq!(result, Err(Error::Paused));
    assert_eq!(w.tokens[0].balance(w.redemption_address), 60);
    assert_eq!(
        w.redemption.status_of(w.token_address, w.user, 60, &key),
        Some(RedemptionStatus::Pending)
    );
}
