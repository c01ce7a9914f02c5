use revenue_converter::contract::{execute, execute_reply, instantiate, migrate, query, reply, QueryResponse};
use revenue_converter::error::ContractError;
use revenue_converter::host::{coins, Coin, CosmosMsg, ReplyOn, Response, SubMsg};
use revenue_converter::msg::{
    ActionResponse, ActionsResponse, ConfigResponse, ExecuteMsg, InstantiateMsg, QueryMsg,
    StatusResponse,
};
use revenue_converter::state::{Action, Config, Store};

const FEE_ADDRESS: &str = "kujira17xpfvakm2amg962yls6f84z3kell8c5lp3pcxh";

fn coin(amount: u128, denom: &str) -> Coin {
    Coin { denom: denom.to_string(), amount }
}

fn denoms(names: &[&str]) -> Vec<String> {
    names.iter().map(|n| n.to_string()).collect()
}

fn instantiate_msg(targets: Vec<(String, u8)>) -> InstantiateMsg {
    InstantiateMsg {
        owner: "owner".to_string(),
        target_denoms: denoms(&["ukuji", "another"]),
        target_addresses: targets,
        executor: "executor".to_string(),
    }
}

fn config_of(store: &Store) -> ConfigResponse {
    match query(store, QueryMsg::Config {}).unwrap() {
        QueryResponse::Config(c) => c,
        other => panic!("unexpected answer {:?}", other),
    }
}

fn status_of(store: &Store) -> StatusResponse {
    match query(store, QueryMsg::Status {}).unwrap() {
        QueryResponse::Status(s) => s,
        other => panic!("unexpected answer {:?}", other),
    }
}

fn actions_of(store: &Store) -> ActionsResponse {
    match query(store, QueryMsg::Actions {}).unwrap() {
        QueryResponse::Actions(a) => a,
        other => panic!("unexpected answer {:?}", other),
    }
}

fn run(store: &mut Store, balances: &Vec<Coin>) -> Result<Response, ContractError> {
    execute(store, balances, "executor", ExecuteMsg::Run {})
}

fn set_action(store: &mut Store, denom: &str, contract: &str, limit: u128) {
    execute(
        store,
        &vec![],
        "owner",
        ExecuteMsg::SetAction(Action {
            denom: denom.to_string(),
            contract: contract.to_string(),
            limit,
            msg: Vec::new(),
        }),
    )
    .unwrap();
}

fn send(to: &str, amount: u128, denom: &str) -> SubMsg {
    SubMsg {
        id: 0,
        msg: CosmosMsg::Send { to_address: to.to_string(), amount: coins(amount, denom) },
        gas_limit: None,
        reply_on: ReplyOn::Never,
    }
}

#[test]
fn instantiation() {
    let mut store = Store::new();
    let msg = instantiate_msg(vec![(FEE_ADDRESS.to_string(), 1)]);
    instantiate(&mut store, msg).unwrap();
    let config = config_of(&store);
    assert_eq!(config.owner, "owner".to_string());
    assert_eq!(config.target_denoms, denoms(&["ukuji", "another"]));
    let status = status_of(&store);
    assert_eq!(status.last, None);
    let actions = actions_of(&store);
    assert_eq!(actions.actions, vec![]);
}

#[test]
fn authorization() {
    let mut store = Store::new();
    let none: Vec<Coin> = vec![];
    let msg = instantiate_msg(vec![(FEE_ADDRESS.to_string(), 1)]);
    instantiate(&mut store, msg).unwrap();

    execute(&mut store, &none, "owner", ExecuteMsg::SetOwner("owner-new".to_string())).unwrap();

    execute(&mut store, &none, "owner", ExecuteMsg::SetOwner("owner-new".to_string()))
        .unwrap_err();

    let action = Action {
        denom: "uatom".to_string(),
        contract: "fin".to_string(),
        limit: u128::MAX,
        msg: Vec::new(),
    };

    execute(&mut store, &none, "owner", ExecuteMsg::SetAction(action.clone())).unwrap_err();

    execute(&mut store, &none, "owner-new", ExecuteMsg::SetAction(action.clone())).unwrap();

    let actions = actions_of(&store);
    assert_eq!(
        actions.actions,
        vec![ActionResponse {
            denom: action.denom.clone(),
            contract: action.contract,
            limit: action.limit,
            msg: action.msg
        }]
    );

    execute(&mut store, &none, "owner", ExecuteMsg::UnsetAction(action.denom.clone()))
        .unwrap_err();
    execute(&mut store, &none, "owner-new", ExecuteMsg::UnsetAction(action.denom)).unwrap();

    let actions = actions_of(&store);
    assert_eq!(actions.actions, vec![]);

    execute(&mut store, &none, "owner-new", ExecuteMsg::Run {}).unwrap_err();

    execute(&mut store, &none, "executor", ExecuteMsg::Run {}).unwrap();
}

#[test]
fn cranking() {
    let balances = vec![
        coin(1000u128, "token-b"),
        coin(1000u128, "token-c"),
        coin(1000u128, "token-d"),
        coin(1000u128, "token-e"),
    ];
    let mut store = Store::new();
    let msg = instantiate_msg(vec![(FEE_ADDRESS.to_string(), 1)]);
    instantiate(&mut store, msg).unwrap();

    // Make sure that execution ends when there are no actions
    run(&mut store, &balances).unwrap();
    let status = status_of(&store);
    assert_eq!(status.last, None);

    // Set some actions
    set_action(&mut store, "token-a", "contract-a", u128::MAX);
    set_action(&mut store, "token-b", "contract-b", u128::MAX);
    set_action(&mut store, "token-c", "contract-c", 100u128);
    set_action(&mut store, "token-d", "contract-d", u128::MAX);
    set_action(&mut store, "token-e", "contract-e", u128::MAX);

    let res = run(&mut store, &balances).unwrap();
    // Nothing done
    assert_eq!(res.events.len(), 0);
    let status = status_of(&store);
    assert_eq!(status.last, Some("token-a".to_string()));

    let res = run(&mut store, &balances).unwrap();
    let status = status_of(&store);
    assert_eq!(status.last, Some("token-b".to_string()));
    assert_eq!(res.events[0].clone().ty, "revenue/run");
    assert_eq!(res.events[0].clone().attributes[0].clone().key, "denom");
    assert_eq!(res.events[0].clone().attributes[0].clone().value, "token-b");

    // Run for c, d, e and then loop back to a
    let res = run(&mut store, &balances).unwrap();
    assert_eq!(res.events[0].clone().attributes[0].clone().value, "token-c");

    let res = run(&mut store, &balances).unwrap();
    assert_eq!(res.events[0].clone().attributes[0].clone().value, "token-d");

    let res = run(&mut store, &balances).unwrap();
    assert_eq!(res.events[0].clone().attributes[0].clone().value, "token-e");

    let res = run(&mut store, &balances).unwrap();

    assert_eq!(res.events.len(), 0);
    let status = status_of(&store);
    assert_eq!(status.last, Some("token-a".to_string()));
}

#[test]
fn distribution() {
    let balances = vec![coin(1000u128, "ukuji"), coin(2000u128, "another")];
    let mut store = Store::new();
    let msg = instantiate_msg(vec![(FEE_ADDRESS.to_string(), 1), ("another".to_string(), 3)]);
    instantiate(&mut store, msg).unwrap();
    // Dummy action to make sure it cranks the reply
    set_action(&mut store, "token-a", "contract-a", u128::MAX);

    let res = run(&mut store, &balances).unwrap();

    assert!(res.messages.contains(&send(FEE_ADDRESS, 250, "ukuji")));
    assert!(res.messages.contains(&send("another", 750, "ukuji")));
    assert!(res.messages.contains(&send(FEE_ADDRESS, 500, "another")));
    assert!(res.messages.contains(&send("another", 1500, "another")));
}

#[test]
fn fee_address_is_the_one_of_the_chain_library() {
    assert_eq!(kujira::fee_address().to_string(), FEE_ADDRESS);
}

#[test]
fn sweep_emits_transfers_in_configured_order() {
    let balances = vec![coin(1000u128, "ukuji"), coin(2000u128, "another")];
    let mut store = Store::new();
    instantiate(
        &mut store,
        instantiate_msg(vec![(FEE_ADDRESS.to_string(), 1), ("another".to_string(), 3)]),
    )
    .unwrap();
    let res = run(&mut store, &balances).unwrap();
    assert_eq!(
        res.messages,
        vec![
            send(FEE_ADDRESS, 250, "ukuji"),
            send("another", 750, "ukuji"),
            send(FEE_ADDRESS, 500, "another"),
            send("another", 1500, "another"),
        ]
    );
    assert!(res.events.is_empty());
}

#[test]
fn crank_with_limit_asks_for_capped_operation_and_callback() {
    let balances = vec![coin(1000u128, "token-c")];
    let mut store = Store::new();
    instantiate(&mut store, instantiate_msg(vec![(FEE_ADDRESS.to_string(), 1)])).unwrap();
    execute(
        &mut store,
        &balances,
        "owner",
        ExecuteMsg::SetAction(Action {
            denom: "token-c".to_string(),
            contract: "contract-c".to_string(),
            limit: 100,
            msg: vec![1, 2, 3],
        }),
    )
    .unwrap();
    let res = run(&mut store, &balances).unwrap();
    assert_eq!(
        res.messages,
        vec![SubMsg {
            id: 0,
            msg: CosmosMsg::Execute {
                contract_addr: "contract-c".to_string(),
                msg: vec![1, 2, 3],
                funds: coins(100, "token-c"),
            },
            gas_limit: None,
            reply_on: ReplyOn::Always,
        }]
    );
    assert_eq!(res.events.len(), 1);
    assert_eq!(Action::last(&store), Some("token-c".to_string()));
}

#[test]
fn completion_callback_sweeps_and_keeps_the_cursor() {
    let balances = vec![coin(10u128, "ukuji")];
    let mut store = Store::new();
    instantiate(
        &mut store,
        instantiate_msg(vec![("a".to_string(), 1), ("b".to_string(), 1), ("c".to_string(), 1)]),
    )
    .unwrap();
    set_action(&mut store, "token-a", "contract-a", 5);
    let res = execute_reply(&store, &balances).unwrap();
    assert_eq!(
        res.messages,
        vec![send("a", 3, "ukuji"), send("b", 3, "ukuji"), send("c", 4, "ukuji")]
    );
    assert_eq!(reply(&store, &balances).unwrap(), res);
    assert_eq!(Action::last(&store), None);
}

#[test]
fn operations_fail_without_configuration() {
    let mut store = Store::new();
    let none: Vec<Coin> = vec![];
    assert_eq!(run(&mut store, &none), Err(ContractError::NotFound));
    assert_eq!(
        execute(&mut store, &none, "owner", ExecuteMsg::SetOwner("x".to_string())),
        Err(ContractError::NotFound)
    );
    assert_eq!(execute_reply(&store, &none), Err(ContractError::NotFound));
    assert_eq!(query(&store, QueryMsg::Config {}), Err(ContractError::NotFound));
    assert_eq!(Config::load(&store), Err(ContractError::NotFound));
}

#[test]
fn unauthorized_callers_change_nothing() {
    let mut store = Store::new();
    let none: Vec<Coin> = vec![];
    instantiate(&mut store, instantiate_msg(vec![(FEE_ADDRESS.to_string(), 1)])).unwrap();
    set_action(&mut store, "token-a", "contract-a", 5);
    assert_eq!(
        execute(&mut store, &none, "executor", ExecuteMsg::SetExecutor("me".to_string())),
        Err(ContractError::Unauthorized)
    );
    assert_eq!(
        execute(&mut store, &none, "stranger", ExecuteMsg::UnsetAction("token-a".to_string())),
        Err(ContractError::Unauthorized)
    );
    assert_eq!(
        execute(&mut store, &none, "owner", ExecuteMsg::Run {}),
        Err(ContractError::Unauthorized)
    );
    assert_eq!(config_of(&store).executor, "executor");
    assert_eq!(actions_of(&store).actions.len(), 1);
    assert_eq!(status_of(&store).last, None);
}

#[test]
fn set_executor_hands_the_crank_over() {
    let mut store = Store::new();
    let none: Vec<Coin> = vec![];
    instantiate(&mut store, instantiate_msg(vec![(FEE_ADDRESS.to_string(), 1)])).unwrap();
    execute(&mut store, &none, "owner", ExecuteMsg::SetExecutor("bot".to_string())).unwrap();
    assert_eq!(config_of(&store).executor, "bot");
    assert_eq!(config_of(&store).owner, "owner");
    assert_eq!(run(&mut store, &none), Err(ContractError::Unauthorized));
    execute(&mut store, &none, "bot", ExecuteMsg::Run {}).unwrap();
}

#[test]
fn undefined_split_fails_the_crank_and_keeps_the_cursor() {
    let balances = vec![coin(7u128, "ukuji")];
    let mut store = Store::new();
    instantiate(
        &mut store,
        instantiate_msg(vec![("a".to_string(), 0), ("b".to_string(), 0)]),
    )
    .unwrap();
    set_action(&mut store, "token-a", "contract-a", 5);
    assert_eq!(run(&mut store, &balances), Err(ContractError::UndefinedSplit));
    assert_eq!(Action::last(&store), None);
    // With nothing held the same configuration sweeps nothing.
    let res = run(&mut store, &vec![]).unwrap();
    assert!(res.messages.is_empty());
    assert_eq!(Action::last(&store), Some("token-a".to_string()));
}

#[test]
fn migration_replaces_the_configuration() {
    let mut store = Store::new();
    instantiate(&mut store, instantiate_msg(vec![(FEE_ADDRESS.to_string(), 1)])).unwrap();
    set_action(&mut store, "token-a", "contract-a", 5);
    let msg = InstantiateMsg {
        owner: "owner-2".to_string(),
        executor: "executor-2".to_string(),
        target_denoms: denoms(&["uusk"]),
        target_addresses: vec![("x".to_string(), 2)],
    };
    let res = migrate(&mut store, msg).unwrap();
    assert!(res.messages.is_empty() && res.events.is_empty());
    let config = config_of(&store);
    assert_eq!(config.owner, "owner-2");
    assert_eq!(config.executor, "executor-2");
    assert_eq!(config.target_denoms, denoms(&["uusk"]));
    assert_eq!(config.target_addresses, vec![("x".to_string(), 2)]);
    assert_eq!(actions_of(&store).actions.len(), 1);
}
