use revenue_converter::contract::{distribute_denom, get_action_msg, sweep};
use revenue_converter::denom::{key_order, same_text, KeyOrder};
use revenue_converter::distribution::{distribute, sum_weights};
use revenue_converter::error::ContractError;
use revenue_converter::host::{balance_of, coins, Coin, CosmosMsg, SubMsg};
use revenue_converter::state::{Action, Config, Store};

fn action(denom: &str, limit: u128) -> Action {
    Action {
        denom: denom.to_string(),
        contract: format!("contract-{}", denom),
        limit,
        msg: vec![7],
    }
}

fn targets(list: &[(&str, u8)]) -> Vec<(String, u8)> {
    list.iter().map(|(a, w)| (a.to_string(), *w)).collect()
}

fn ledger(denoms: &[&str]) -> Store {
    let mut store = Store::new();
    for d in denoms {
        Action::set(&mut store, action(d, 10));
    }
    store
}

fn denoms_of(store: &Store) -> Vec<String> {
    Action::all(store).into_iter().map(|a| a.denom).collect()
}

#[test]
fn split_one_to_three() {
    let t = targets(&[("addr1", 1), ("addr2", 3)]);
    assert_eq!(
        distribute(1000, &t),
        Ok(vec![("addr1".to_string(), 250), ("addr2".to_string(), 750)])
    );
    assert_eq!(
        distribute(2000, &t),
        Ok(vec![("addr1".to_string(), 500), ("addr2".to_string(), 1500)])
    );
}

#[test]
fn split_conserves_the_balance() {
    let t = targets(&[("a", 3), ("b", 7), ("c", 0), ("d", 5), ("e", 255)]);
    for balance in [1u128, 2, 9, 10, 269, 270, 271, 1_000_003, u128::MAX - 1, u128::MAX] {
        let sends = distribute(balance, &t).unwrap();
        let mut total: u128 = 0;
        for (_, amount) in &sends {
            assert!(*amount > 0);
            total = total.checked_add(*amount).unwrap();
        }
        assert_eq!(total, balance);
    }
}

#[test]
fn last_target_takes_the_remainder() {
    let t = targets(&[("a", 1), ("b", 1), ("c", 1)]);
    assert_eq!(
        distribute(10, &t),
        Ok(vec![("a".to_string(), 3), ("b".to_string(), 3), ("c".to_string(), 4)])
    );
    // The floor share of the last one is 3; it receives no less.
    assert_eq!(
        distribute(2, &t),
        Ok(vec![("c".to_string(), 2)])
    );
}

#[test]
fn last_target_of_weight_zero_still_takes_the_dust() {
    let t = targets(&[("a", 3), ("b", 0)]);
    assert_eq!(distribute(9, &t), Ok(vec![("a".to_string(), 9)]));
    let t = targets(&[("a", 1), ("b", 2), ("c", 0)]);
    assert_eq!(
        distribute(10, &t),
        Ok(vec![("a".to_string(), 3), ("b".to_string(), 6), ("c".to_string(), 1)])
    );
}

#[test]
fn split_of_nothing_is_empty() {
    assert_eq!(distribute(0, &targets(&[("a", 1), ("b", 3)])), Ok(vec![]));
    assert_eq!(distribute(0, &targets(&[("a", 0)])), Ok(vec![]));
    assert_eq!(distribute(0, &targets(&[])), Ok(vec![]));
}

#[test]
fn split_over_no_targets_is_empty() {
    assert_eq!(distribute(5, &targets(&[])), Ok(vec![]));
}

#[test]
fn split_without_weight_is_refused() {
    assert_eq!(distribute(5, &targets(&[("a", 0)])), Err(ContractError::UndefinedSplit));
    assert_eq!(
        distribute(1, &targets(&[("a", 0), ("b", 0)])),
        Err(ContractError::UndefinedSplit)
    );
}

#[test]
fn single_target_takes_everything() {
    assert_eq!(distribute(77, &targets(&[("a", 9)])), Ok(vec![("a".to_string(), 77)]));
}

#[test]
fn split_of_the_largest_balance() {
    let t = targets(&[("a", 255), ("b", 255), ("c", 1)]);
    let sends = distribute(u128::MAX, &t).unwrap();
    let share = 169808226154284360436713355959101553661u128;
    assert_eq!(share, ((u128::MAX / 511) * 255) + ((u128::MAX % 511) * 255) / 511);
    assert_eq!(sends[0], ("a".to_string(), share));
    assert_eq!(sends[1], ("b".to_string(), share));
    assert_eq!(sends[2], ("c".to_string(), u128::MAX - 2 * share));
}

#[test]
fn weights_add_up_beyond_a_byte() {
    assert_eq!(sum_weights(&targets(&[("a", 255), ("b", 255), ("c", 2)])), 512);
    assert_eq!(sum_weights(&targets(&[])), 0);
}

#[test]
fn denominations_are_ordered_by_their_bytes() {
    assert_eq!(key_order("token-a", "token-b"), KeyOrder::Less);
    assert_eq!(key_order("token-b", "token-a"), KeyOrder::Greater);
    assert_eq!(key_order("token-a", "token-a"), KeyOrder::Equal);
    assert_eq!(key_order("", "a"), KeyOrder::Less);
    assert_eq!(key_order("", ""), KeyOrder::Equal);
    assert_eq!(key_order("ab", "b"), KeyOrder::Less);
    assert_eq!(key_order("token", "token-a"), KeyOrder::Less);
    assert_eq!(key_order("z", "\u{e9}"), KeyOrder::Less);
    assert_eq!(key_order("\u{10000}", "\u{ffff}"), KeyOrder::Greater);
    assert!(same_text("ukuji", "ukuji"));
    assert!(!same_text("ukuji", "ukujI"));
}

#[test]
fn ledger_is_kept_in_ascending_order() {
    let store = ledger(&["token-c", "token-a", "token-e", "token-b", "token-d"]);
    assert_eq!(
        denoms_of(&store),
        vec!["token-a", "token-b", "token-c", "token-d", "token-e"]
    );
}

#[test]
fn set_replaces_the_action_of_a_denomination() {
    let mut store = ledger(&["b", "a"]);
    Action::set(&mut store, action("a", 99));
    let all = Action::all(&store);
    assert_eq!(all.len(), 2);
    assert_eq!(all[0], action("a", 99));
    assert_eq!(all[1], action("b", 10));
    assert_eq!(Action::get(&store, "a"), Some(action("a", 99)));
    assert_eq!(Action::get(&store, "c"), None);
}

#[test]
fn unset_removes_and_ignores_what_is_absent() {
    let mut store = ledger(&["a", "b", "c"]);
    Action::unset(&mut store, "b".to_string());
    assert_eq!(denoms_of(&store), vec!["a", "c"]);
    Action::unset(&mut store, "b".to_string());
    Action::unset(&mut store, "zzz".to_string());
    assert_eq!(denoms_of(&store), vec!["a", "c"]);
    Action::unset(&mut store, "a".to_string());
    Action::unset(&mut store, "c".to_string());
    assert!(Action::all(&store).is_empty());
}

#[test]
fn next_on_an_empty_ledger_leaves_the_cursor() {
    let mut store = Store::new();
    assert_eq!(Action::next(&mut store), None);
    assert_eq!(Action::last(&store), None);
    let mut store = ledger(&["a"]);
    assert_eq!(Action::next(&mut store).unwrap().denom, "a");
    Action::unset(&mut store, "a".to_string());
    assert_eq!(Action::next(&mut store), None);
    assert_eq!(Action::last(&store), Some("a".to_string()));
}

#[test]
fn next_visits_every_action_in_turn() {
    let mut store = ledger(&["c", "a", "b"]);
    let mut seen: Vec<String> = Vec::new();
    for _ in 0..7 {
        seen.push(Action::next(&mut store).unwrap().denom);
    }
    assert_eq!(seen, vec!["a", "b", "c", "a", "b", "c", "a"]);
    assert_eq!(seen.iter().filter(|d| d.as_str() == "a").count(), 3);
    assert_eq!(seen.iter().filter(|d| d.as_str() == "b").count(), 2);
    assert_eq!(seen.iter().filter(|d| d.as_str() == "c").count(), 2);
    assert_eq!(Action::last(&store), Some("a".to_string()));
}

#[test]
fn next_resumes_after_a_stale_cursor() {
    let mut store = ledger(&["a", "c", "e"]);
    assert_eq!(Action::next(&mut store).unwrap().denom, "a");
    assert_eq!(Action::next(&mut store).unwrap().denom, "c");
    // The action under the cursor goes, one before it and one after it come.
    Action::unset(&mut store, "c".to_string());
    Action::set(&mut store, action("b", 1));
    Action::set(&mut store, action("d", 1));
    assert_eq!(Action::next(&mut store).unwrap().denom, "d");
    assert_eq!(Action::next(&mut store).unwrap().denom, "e");
    assert_eq!(Action::next(&mut store).unwrap().denom, "a");
    assert_eq!(Action::next(&mut store).unwrap().denom, "b");
    // Nothing is left after the cursor: wrap to the start.
    Action::unset(&mut store, "d".to_string());
    Action::unset(&mut store, "e".to_string());
    store.restore_last(Some("z".to_string()));
    assert_eq!(Action::next(&mut store).unwrap().denom, "a");
}

#[test]
fn execute_caps_the_amount_at_the_limit() {
    let a = action("uatom", 100);
    let funds_of = |balance: u128| match a
        .execute(Coin { denom: "uatom".to_string(), amount: balance })
        .unwrap()
    {
        Some(CosmosMsg::Execute { contract_addr, msg, funds }) => {
            assert_eq!(contract_addr, "contract-uatom");
            assert_eq!(msg, vec![7]);
            Some(funds)
        }
        Some(other) => panic!("unexpected request {:?}", other),
        None => None,
    };
    assert_eq!(funds_of(1000), Some(coins(100, "uatom")));
    assert_eq!(funds_of(100), Some(coins(100, "uatom")));
    assert_eq!(funds_of(99), Some(coins(99, "uatom")));
    assert_eq!(funds_of(1), Some(coins(1, "uatom")));
    assert_eq!(funds_of(0), None);
}

#[test]
fn execute_with_limit_zero_asks_for_nothing() {
    let a = action("uatom", 0);
    assert_eq!(a.execute(Coin { denom: "uatom".to_string(), amount: 1000 }), Ok(None));
    let b = action("uatom", u128::MAX);
    assert_eq!(b.execute(Coin { denom: "uatom".to_string(), amount: 0 }), Ok(None));
}

#[test]
fn execute_refuses_another_denomination() {
    let a = action("uatom", 100);
    assert_eq!(
        a.execute(Coin { denom: "uosmo".to_string(), amount: 1000 }),
        Err(ContractError::InvalidDenom)
    );
    assert_eq!(
        a.execute(Coin { denom: "uosmo".to_string(), amount: 0 }),
        Err(ContractError::InvalidDenom)
    );
}

#[test]
fn balance_is_that_of_the_first_entry() {
    let balances = vec![
        Coin { denom: "a".to_string(), amount: 5 },
        Coin { denom: "b".to_string(), amount: 6 },
        Coin { denom: "a".to_string(), amount: 7 },
    ];
    assert_eq!(balance_of(&balances, "a"), Coin { denom: "a".to_string(), amount: 5 });
    assert_eq!(balance_of(&balances, "b"), Coin { denom: "b".to_string(), amount: 6 });
    assert_eq!(balance_of(&balances, "c"), Coin { denom: "c".to_string(), amount: 0 });
}

#[test]
fn selection_moves_the_cursor_also_past_an_inert_action() {
    let mut store = ledger(&["a", "b"]);
    let balances = vec![Coin { denom: "b".to_string(), amount: 25 }];
    assert_eq!(get_action_msg(&mut store, &balances), Ok(None));
    assert_eq!(Action::last(&store), Some("a".to_string()));
    let (selected, msg) = get_action_msg(&mut store, &balances).unwrap().unwrap();
    assert_eq!(selected, action("b", 10));
    assert_eq!(
        msg,
        CosmosMsg::Execute {
            contract_addr: "contract-b".to_string(),
            msg: vec![7],
            funds: coins(10, "b"),
        }
    );
    assert_eq!(Action::last(&store), Some("b".to_string()));
}

#[test]
fn distribution_of_one_denomination_appends_to_the_requests() {
    let config = Config {
        owner: "o".to_string(),
        executor: "e".to_string(),
        target_denoms: vec!["x".to_string(), "y".to_string()],
        target_addresses: targets(&[("a", 1), ("b", 1)]),
    };
    let balances = vec![Coin { denom: "x".to_string(), amount: 1 }];
    let mut sends: Vec<SubMsg> = Vec::new();
    distribute_denom(&config, &balances, &mut sends, "y").unwrap();
    assert!(sends.is_empty());
    distribute_denom(&config, &balances, &mut sends, "x").unwrap();
    assert_eq!(sends.len(), 1);
    assert_eq!(
        sends[0].msg,
        CosmosMsg::Send { to_address: "b".to_string(), amount: coins(1, "x") }
    );
    let res = sweep(&config, &balances).unwrap();
    assert_eq!(res.messages, sends);
}

#[test]
fn configuration_is_stored_and_read_back() {
    let config = Config {
        owner: "o".to_string(),
        executor: "e".to_string(),
        target_denoms: vec!["x".to_string()],
        target_addresses: targets(&[("a", 1)]),
    };
    let mut store = Store::new();
    config.save(&mut store);
    assert_eq!(Config::load(&store), Ok(config));
}
