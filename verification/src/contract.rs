//! The orchestrator: what each operation does to the state and what it asks
//! of the host.
//!
//! A crank selects one action. Where that action has something to convert,
//! the crank asks for the external operation and for a completion callback
//! that fires whatever the outcome. Otherwise, and in the callback, the held
//! balances of the configured denominations are swept to the recipients.
//!
//! Two policies are fixed here. Selection is single-shot: a crank looks at
//! one action only, and an action with nothing to convert still takes the
//! cursor with it. And a sweep whose split is undefined fails the whole
//! crank, which then leaves the state, the cursor included, as it was.

use crate::denom::same_text;
use crate::distribution::{distribute, split, undefined_split, Transfers};
use crate::error::ContractError;
use crate::host::{
    balance_of, coins, empty_response, held, one_coin, Attribute, Coin, CoinModel, CosmosMsg,
    EventModel, Event, MsgModel, ReplyOn, Response, ResponseModel, SubMsg, SubMsgModel,
};
use crate::msg::{
    ActionResponse, ActionsResponse, ConfigResponse, ExecuteMsg, InstantiateMsg, QueryMsg,
    StatusResponse,
};
use crate::state::{
    action_request, capped, cursor_after, removed, selected, upserted, Action, ActionModel,
    Config, ConfigModel, Store,
};
use vstd::prelude::*;

verus! {

/// What a query answers.
#[derive(Clone, Debug, PartialEq, Eq)]
pub enum QueryResponse {
    Config(ConfigResponse),
    Actions(ActionsResponse),
    Status(StatusResponse),
}

/// A transfer as the host is asked for it: no callback.
pub open spec fn send_request(denom: Seq<char>, recipient: Seq<char>, amount: u128) -> SubMsgModel {
    SubMsgModel {
        id: 0,
        msg: MsgModel::Send { to_address: recipient, amount: one_coin(amount, denom) },
        gas_limit: None,
        reply_on: ReplyOn::Never,
    }
}

/// The requests that carry out `transfers` of `denom`, in order.
pub open spec fn send_requests(denom: Seq<char>, transfers: Transfers) -> Seq<SubMsgModel> {
    Seq::new(transfers.len(), |i: int| send_request(denom, transfers[i].0, transfers[i].1))
}

/// The requests that sweep the first `n` configured denominations.
pub open spec fn sweep_upto(config: ConfigModel, balances: Seq<CoinModel>, n: int) -> Seq<
    SubMsgModel,
>
    decreases n,
{
    if n <= 0 {
        Seq::empty()
    } else {
        let denom = config.target_denoms[n - 1];
        sweep_upto(config, balances, n - 1) + send_requests(
            denom,
            split(held(balances, denom), config.target_addresses),
        )
    }
}

/// Whether one of the first `n` configured denominations has an undefined
/// split.
pub open spec fn undefined_upto(config: ConfigModel, balances: Seq<CoinModel>, n: int) -> bool {
    exists|i: int|
        0 <= i < n && undefined_split(
            held(balances, #[trigger] config.target_denoms[i]),
            config.target_addresses,
        )
}

/// Whether the sweep is undefined for one of the configured denominations.
pub open spec fn sweep_undefined(config: ConfigModel, balances: Seq<CoinModel>) -> bool {
    undefined_upto(config, balances, config.target_denoms.len() as int)
}

/// The response of a sweep: one transfer for every non-zero amount of every
/// configured denomination, no event.
pub open spec fn sweep_response(config: ConfigModel, balances: Seq<CoinModel>) -> ResponseModel {
    ResponseModel {
        messages: sweep_upto(config, balances, config.target_denoms.len() as int),
        events: Seq::empty(),
    }
}

/// The event that records which denomination a crank has processed.
pub open spec fn run_event(denom: Seq<char>) -> EventModel {
    EventModel { ty: "revenue/run"@, attributes: seq![("denom"@, denom)] }
}

/// The response of a crank that runs `action` on `amount`: the external
/// operation with a callback that always fires, and the event.
pub open spec fn action_response(action: ActionModel, amount: u128) -> ResponseModel {
    ResponseModel {
        messages: seq![
            SubMsgModel {
                id: 0,
                msg: action_request(action, amount),
                gas_limit: None,
                reply_on: ReplyOn::Always,
            },
        ],
        events: seq![run_event(action.denom)],
    }
}

/// The amount that a crank converts: the balance held in the selected
/// denomination, capped at the action's limit; zero on an empty ledger.
pub open spec fn run_amount(
    ledger: Seq<ActionModel>,
    cursor: Option<Seq<char>>,
    balances: Seq<CoinModel>,
) -> u128 {
    if ledger.len() == 0 {
        0
    } else {
        let action = selected(ledger, cursor);
        capped(held(balances, action.denom), action.limit)
    }
}

/// Whether the state is the same in all three parts.
pub open spec fn unchanged(before: &Store, after: &Store) -> bool {
    &&& after.config() == before.config()
    &&& after.last() == before.last()
    &&& after.ledger() == before.ledger()
}

/// What an owner-gated or executor-gated operation does once the stored
/// configuration is known.
pub open spec fn execute_outcome(
    before: &Store,
    after: &Store,
    config: ConfigModel,
    balances: Seq<CoinModel>,
    sender: Seq<char>,
    msg: ExecuteMsg,
    r: Result<Response, ContractError>,
) -> bool {
    match msg {
        ExecuteMsg::SetOwner(owner) => if sender != config.owner {
            r matches Err(e) && e == ContractError::Unauthorized
        } else {
            &&& r matches Ok(resp) && resp.deep_view() == empty_response()
            &&& after.config() == Some(ConfigModel { owner: owner@, ..config })
            &&& after.last() == before.last()
            &&& after.ledger() == before.ledger()
        },
        ExecuteMsg::SetExecutor(executor) => if sender != config.owner {
            r matches Err(e) && e == ContractError::Unauthorized
        } else {
            &&& r matches Ok(resp) && resp.deep_view() == empty_response()
            &&& after.config() == Some(ConfigModel { executor: executor@, ..config })
            &&& after.last() == before.last()
            &&& after.ledger() == before.ledger()
        },
        ExecuteMsg::SetAction(action) => if sender != config.owner {
            r matches Err(e) && e == ContractError::Unauthorized
        } else {
            &&& r matches Ok(resp) && resp.deep_view() == empty_response()
            &&& after.config() == before.config()
            &&& after.last() == before.last()
            &&& upserted(before.ledger(), after.ledger(), action.deep_view())
        },
        ExecuteMsg::UnsetAction(denom) => if sender != config.owner {
            r matches Err(e) && e == ContractError::Unauthorized
        } else {
            &&& r matches Ok(resp) && resp.deep_view() == empty_response()
            &&& after.config() == before.config()
            &&& after.last() == before.last()
            &&& removed(before.ledger(), after.ledger(), denom@)
        },
        ExecuteMsg::Run {  } => if sender != config.executor {
            r matches Err(e) && e == ContractError::Unauthorized
        } else if run_amount(before.ledger(), before.last(), balances) > 0 {
            &&& r matches Ok(resp) && resp.deep_view() == action_response(
                selected(before.ledger(), before.last()),
                run_amount(before.ledger(), before.last(), balances),
            )
            &&& after.config() == before.config()
            &&& after.ledger() == before.ledger()
            &&& after.last() == cursor_after(before.ledger(), before.last())
        } else if sweep_undefined(config, balances) {
            r matches Err(e) && e == ContractError::UndefinedSplit
        } else {
            &&& r matches Ok(resp) && resp.deep_view() == sweep_response(config, balances)
            &&& after.config() == before.config()
            &&& after.ledger() == before.ledger()
            &&& after.last() == cursor_after(before.ledger(), before.last())
        },
    }
}

/// Replaces the configuration by the one that `msg` describes.
pub fn migrate(storage: &mut Store, msg: InstantiateMsg) -> (r: Result<Response, ContractError>)
    ensures
        r matches Ok(resp) && resp.deep_view() == empty_response(),
        final(storage).config() == Some(msg.deep_view()),
        final(storage).last() == old(storage).last(),
        final(storage).ledger() == old(storage).ledger(),
        old(storage).wf() ==> final(storage).wf(),
{
    let config = Config::from(msg);
    config.save(storage);
    Ok(Response::new())
}

/// Stores the first configuration.
pub fn instantiate(storage: &mut Store, msg: InstantiateMsg) -> (r: Result<
    Response,
    ContractError,
>)
    ensures
        r matches Ok(resp) && resp.deep_view() == empty_response(),
        final(storage).config() == Some(msg.deep_view()),
        final(storage).last() == old(storage).last(),
        final(storage).ledger() == old(storage).ledger(),
        old(storage).wf() ==> final(storage).wf(),
{
    let config = Config::from(msg);
    config.save(storage);
    Ok(Response::new())
}

/// Carries out one operation on behalf of `sender`.
///
/// `balances` is what the component holds when the operation starts. Without
/// a stored configuration every operation fails. The setters are reserved to
/// the owner, the crank to the executor. A crank selects the next action and
/// moves the cursor to it; where the capped balance of its denomination is
/// positive it asks for the external operation, otherwise it sweeps. A
/// failed operation leaves the state as it was.
pub fn execute(storage: &mut Store, balances: &Vec<Coin>, sender: &str, msg: ExecuteMsg) -> (r:
    Result<Response, ContractError>)
    requires
        old(storage).wf(),
    ensures
        final(storage).wf(),
        r is Err ==> unchanged(old(storage), final(storage)),
        old(storage).config() is None ==> (r matches Err(e) && e == ContractError::NotFound),
        old(storage).config() matches Some(config) ==> execute_outcome(
            old(storage),
            final(storage),
            config,
            balances.deep_view(),
            sender@,
            msg,
            r,
        ),
{
    let mut config = match Config::load(storage) {
        Ok(config) => config,
        Err(e) => {
            return Err(e);
        },
    };
    match msg {
        ExecuteMsg::SetOwner(owner) => {
            if !same_text(sender, config.owner.as_str()) {
                return Err(ContractError::Unauthorized);
            }
            config.owner = owner;
            config.save(storage);
            Ok(Response::new())
        },
        ExecuteMsg::SetAction(action) => {
            if !same_text(sender, config.owner.as_str()) {
                return Err(ContractError::Unauthorized);
            }
            Action::set(storage, action);
            Ok(Response::new())
        },
        ExecuteMsg::UnsetAction(denom) => {
            if !same_text(sender, config.owner.as_str()) {
                return Err(ContractError::Unauthorized);
            }
            Action::unset(storage, denom);
            Ok(Response::new())
        },
        ExecuteMsg::SetExecutor(executor) => {
            if !same_text(sender, config.owner.as_str()) {
                return Err(ContractError::Unauthorized);
            }
            config.executor = executor;
            config.save(storage);
            Ok(Response::new())
        },
        ExecuteMsg::Run {  } => {
            if !same_text(sender, config.executor.as_str()) {
                return Err(ContractError::Unauthorized);
            }
            let saved = Action::last(storage);
            match get_action_msg(storage, balances) {
                Err(e) => {
                    storage.restore_last(saved);
                    Err(e)
                },
                Ok(Some((action, msg))) => {
                    let mut attributes: Vec<Attribute> = Vec::new();
                    attributes.push(
                        Attribute { key: "denom".to_owned(), value: action.denom.clone() },
                    );
                    let mut events: Vec<Event> = Vec::new();
                    events.push(Event { ty: "revenue/run".to_owned(), attributes });
                    let mut messages: Vec<SubMsg> = Vec::new();
                    messages.push(SubMsg { id: 0, msg, gas_limit: None, reply_on: ReplyOn::Always });
                    let resp = Response { messages, events };
                    proof {
                        let model = action_response(
                            action.deep_view(),
                            run_amount(old(storage).ledger(), old(storage).last(), balances.deep_view()),
                        );
                        assert(resp.events@[0].attributes.deep_view() =~= seq![
                            ("denom"@, action.denom@),
                        ]);
                        assert(resp.events.deep_view() =~= model.events);
                        assert(resp.messages.deep_view() =~= model.messages);
                    }
                    Ok(resp)
                },
                // Nothing to convert: sweep in the same crank.
                Ok(None) => {
                    match sweep(&config, balances) {
                        Ok(resp) => Ok(resp),
                        Err(e) => {
                            storage.restore_last(saved);
                            Err(e)
                        },
                    }
                },
            }
        },
    }
}

/// Selects the next action, moves the cursor to it, and decides on the
/// external operation from the balance held in its denomination.
pub fn get_action_msg(storage: &mut Store, balances: &Vec<Coin>) -> (r: Result<
    Option<(Action, CosmosMsg)>,
    ContractError,
>)
    ensures
        r is Ok,
        final(storage).config() == old(storage).config(),
        final(storage).ledger() == old(storage).ledger(),
        old(storage).wf() ==> final(storage).wf(),
        final(storage).last() == cursor_after(old(storage).ledger(), old(storage).last()),
        run_amount(old(storage).ledger(), old(storage).last(), balances.deep_view()) == 0
            ==> r matches Ok(None),
        run_amount(old(storage).ledger(), old(storage).last(), balances.deep_view()) > 0 ==> (
        r matches Ok(Some(pair)) && pair.0.deep_view() == selected(
            old(storage).ledger(),
            old(storage).last(),
        ) && pair.1.deep_view() == action_request(
            pair.0.deep_view(),
            run_amount(old(storage).ledger(), old(storage).last(), balances.deep_view()),
        )),
{
    if let Some(action) = Action::next(storage) {
        let balance = balance_of(balances, action.denom.as_str());
        return match action.execute(balance) {
            Ok(None) => Ok(None),
            Ok(Some(msg)) => Ok(Some((action, msg))),
            Err(e) => Err(e),
        };
    }
    Ok(None)
}

/// The completion callback: sweeps, whatever became of the external
/// operation.
pub fn reply(storage: &Store, balances: &Vec<Coin>) -> (r: Result<Response, ContractError>)
    ensures
        storage.config() is None ==> (r matches Err(e) && e == ContractError::NotFound),
        storage.config() matches Some(config) ==> sweep_outcome(config, balances.deep_view(), r),
{
    execute_reply(storage, balances)
}

/// What a sweep returns under a given configuration.
pub open spec fn sweep_outcome(
    config: ConfigModel,
    balances: Seq<CoinModel>,
    r: Result<Response, ContractError>,
) -> bool {
    if sweep_undefined(config, balances) {
        r matches Err(e) && e == ContractError::UndefinedSplit
    } else {
        r matches Ok(resp) && resp.deep_view() == sweep_response(config, balances)
    }
}

/// Sweeps the held balances of the configured denominations to the
/// recipients. It does not attempt the action again.
pub fn execute_reply(storage: &Store, balances: &Vec<Coin>) -> (r: Result<Response, ContractError>)
    ensures
        storage.config() is None ==> (r matches Err(e) && e == ContractError::NotFound),
        storage.config() matches Some(config) ==> sweep_outcome(config, balances.deep_view(), r),
{
    let config = match Config::load(storage) {
        Ok(config) => config,
        Err(e) => {
            return Err(e);
        },
    };
    sweep(&config, balances)
}

/// Distributes every configured denomination in turn.
pub fn sweep(config: &Config, balances: &Vec<Coin>) -> (r: Result<Response, ContractError>)
    ensures
        sweep_outcome(config.deep_view(), balances.deep_view(), r),
{
    let ghost model = config.deep_view();
    let ghost held_coins = balances.deep_view();
    let mut sends: Vec<SubMsg> = Vec::new();
    let n = config.target_denoms.len();
    let mut i: usize = 0;
    assert(sends.deep_view() =~= sweep_upto(model, held_coins, 0));
    while i < n
        invariant
            i <= n,
            n == config.target_denoms.len(),
            model == config.deep_view(),
            held_coins == balances.deep_view(),
            sends.deep_view() == sweep_upto(model, held_coins, i as int),
            !undefined_upto(model, held_coins, i as int),
        decreases n - i,
    {
        assert(model.target_denoms[i as int] == config.target_denoms@[i as int]@);
        match distribute_denom(config, balances, &mut sends, config.target_denoms[i].as_str()) {
            Ok(()) => {},
            Err(e) => {
                assert(undefined_upto(model, held_coins, n as int));
                return Err(e);
            },
        }
        i += 1;
    }
    let resp = Response { messages: sends, events: Vec::new() };
    assert(resp.events.deep_view() =~= Seq::empty());
    Ok(resp)
}

/// Answers a query from the stored state.
pub fn query(storage: &Store, msg: QueryMsg) -> (r: Result<QueryResponse, ContractError>)
    ensures
        match msg {
            QueryMsg::Config {  } => match storage.config() {
                Some(config) => r matches Ok(QueryResponse::Config(resp)) && resp.deep_view()
                    == config,
                None => r matches Err(e) && e == ContractError::NotFound,
            },
            QueryMsg::Actions {  } => r matches Ok(QueryResponse::Actions(resp))
                && resp.actions.deep_view() == storage.ledger(),
            QueryMsg::Status {  } => r matches Ok(QueryResponse::Status(resp))
                && resp.last.deep_view() == storage.last(),
        },
{
    match msg {
        QueryMsg::Config {  } => {
            match Config::load(storage) {
                Ok(config) => Ok(QueryResponse::Config(ConfigResponse::from(config))),
                Err(e) => Err(e),
            }
        },
        QueryMsg::Actions {  } => {
            let all = Action::all(storage);
            let mut actions: Vec<ActionResponse> = Vec::new();
            let mut i: usize = 0;
            while i < all.len()
                invariant
                    i <= all.len(),
                    actions.len() == i,
                    forall|j: int| 0 <= j < i ==> actions@[j].deep_view() == all@[j].deep_view(),
                decreases all.len() - i,
            {
                actions.push(ActionResponse::from(all[i].duplicate()));
                i += 1;
            }
            assert(actions.deep_view() =~= all.deep_view());
            Ok(QueryResponse::Actions(ActionsResponse { actions }))
        },
        QueryMsg::Status {  } => Ok(QueryResponse::Status(StatusResponse { last: Action::last(storage) })),
    }
}

/// Splits the held balance of `denom` over the configured recipients and
/// appends one transfer for every non-zero amount to `sends`.
pub fn distribute_denom(
    config: &Config,
    balances: &Vec<Coin>,
    sends: &mut Vec<SubMsg>,
    denom: &str,
) -> (r: Result<(), ContractError>)
    ensures
        r is Err <==> undefined_split(
            held(balances.deep_view(), denom@),
            config.deep_view().target_addresses,
        ),
        r matches Err(e) ==> e == ContractError::UndefinedSplit && final(sends).deep_view() == old(
            sends,
        ).deep_view(),
        r is Ok ==> final(sends).deep_view() == old(sends).deep_view() + send_requests(
            denom@,
            split(held(balances.deep_view(), denom@), config.deep_view().target_addresses),
        ),
{
    let balance = balance_of(balances, denom);
    let transfers = match distribute(balance.amount, &config.target_addresses) {
        Ok(transfers) => transfers,
        Err(e) => {
            return Err(e);
        },
    };
    let ghost before = sends.deep_view();
    let ghost wanted = send_requests(denom@, transfers.deep_view());
    let mut i: usize = 0;
    assert(sends.deep_view() =~= before + wanted.subrange(0, 0));
    while i < transfers.len()
        invariant
            i <= transfers.len(),
            wanted == send_requests(denom@, transfers.deep_view()),
            sends.deep_view() == before + wanted.subrange(0, i as int),
        decreases transfers.len() - i,
    {
        let ghost sofar = sends.deep_view();
        let msg = CosmosMsg::Send {
            to_address: transfers[i].0.clone(),
            amount: coins(transfers[i].1, denom),
        };
        sends.push(SubMsg { id: 0, msg, gas_limit: None, reply_on: ReplyOn::Never });
        assert(transfers.deep_view()[i as int] == (transfers@[i as int].0@, transfers@[i as int].1));
        assert(sends.deep_view() =~= sofar.push(wanted[i as int]));
        assert(sofar.push(wanted[i as int]) =~= before + wanted.subrange(0, i + 1));
        i += 1;
    }
    assert(wanted.subrange(0, transfers.len() as int) =~= wanted);
    Ok(())
}

} // verus!
