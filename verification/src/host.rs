//! What the engine hands to its host: coins, requests and the response of an
//! invocation, each with its mathematical model.

use crate::denom::same_text;
use vstd::prelude::*;

verus! {

/// An amount of one denomination.
#[derive(Clone, Debug, PartialEq, Eq)]
pub struct Coin {
    pub denom: String,
    pub amount: u128,
}

/// The model of a [`Coin`].
pub ghost struct CoinModel {
    pub denom: Seq<char>,
    pub amount: u128,
}

impl DeepView for Coin {
    type V = CoinModel;

    open spec fn deep_view(&self) -> CoinModel {
        CoinModel { denom: self.denom@, amount: self.amount }
    }
}

/// A request to the host.
#[derive(Clone, Debug, PartialEq, Eq)]
pub enum CosmosMsg {
    /// Transfer `amount` to `to_address`.
    Send { to_address: String, amount: Vec<Coin> },
    /// Invoke the operation `msg` on `contract_addr`, with `funds` attached.
    Execute { contract_addr: String, msg: Vec<u8>, funds: Vec<Coin> },
}

/// The model of a [`CosmosMsg`].
pub ghost enum MsgModel {
    Send { to_address: Seq<char>, amount: Seq<CoinModel> },
    Execute { contract_addr: Seq<char>, msg: Seq<u8>, funds: Seq<CoinModel> },
}

impl DeepView for CosmosMsg {
    type V = MsgModel;

    open spec fn deep_view(&self) -> MsgModel {
        match self {
            CosmosMsg::Send { to_address, amount } => MsgModel::Send {
                to_address: to_address@,
                amount: amount.deep_view(),
            },
            CosmosMsg::Execute { contract_addr, msg, funds } => MsgModel::Execute {
                contract_addr: contract_addr@,
                msg: msg@,
                funds: funds.deep_view(),
            },
        }
    }
}

/// When the host calls back after a request has resolved.
#[derive(Clone, Copy, Debug, PartialEq, Eq, Structural)]
pub enum ReplyOn {
    /// Whatever the outcome of the request.
    Always,
    /// Never.
    Never,
}

/// A request together with the completion callback asked for.
#[derive(Clone, Debug, PartialEq, Eq)]
pub struct SubMsg {
    pub id: u64,
    pub msg: CosmosMsg,
    pub gas_limit: Option<u64>,
    pub reply_on: ReplyOn,
}

/// The model of a [`SubMsg`].
pub ghost struct SubMsgModel {
    pub id: u64,
    pub msg: MsgModel,
    pub gas_limit: Option<u64>,
    pub reply_on: ReplyOn,
}

impl DeepView for SubMsg {
    type V = SubMsgModel;

    open spec fn deep_view(&self) -> SubMsgModel {
        SubMsgModel {
            id: self.id,
            msg: self.msg.deep_view(),
            gas_limit: self.gas_limit,
            reply_on: self.reply_on,
        }
    }
}

/// One key and value of an event.
#[derive(Clone, Debug, PartialEq, Eq)]
pub struct Attribute {
    pub key: String,
    pub value: String,
}

impl DeepView for Attribute {
    type V = (Seq<char>, Seq<char>);

    open spec fn deep_view(&self) -> (Seq<char>, Seq<char>) {
        (self.key@, self.value@)
    }
}

/// An observability event.
#[derive(Clone, Debug, PartialEq, Eq)]
pub struct Event {
    pub ty: String,
    pub attributes: Vec<Attribute>,
}

/// The model of an [`Event`].
pub ghost struct EventModel {
    pub ty: Seq<char>,
    pub attributes: Seq<(Seq<char>, Seq<char>)>,
}

impl DeepView for Event {
    type V = EventModel;

    open spec fn deep_view(&self) -> EventModel {
        EventModel { ty: self.ty@, attributes: self.attributes.deep_view() }
    }
}

/// What one invocation asks of the host.
#[derive(Clone, Debug, PartialEq, Eq)]
pub struct Response {
    pub messages: Vec<SubMsg>,
    pub events: Vec<Event>,
}

/// The model of a [`Response`].
pub ghost struct ResponseModel {
    pub messages: Seq<SubMsgModel>,
    pub events: Seq<EventModel>,
}

impl DeepView for Response {
    type V = ResponseModel;

    open spec fn deep_view(&self) -> ResponseModel {
        ResponseModel { messages: self.messages.deep_view(), events: self.events.deep_view() }
    }
}

/// The response that asks for nothing.
pub open spec fn empty_response() -> ResponseModel {
    ResponseModel { messages: Seq::empty(), events: Seq::empty() }
}

impl Response {
    /// A response without requests or events.
    pub fn new() -> (r: Response)
        ensures
            r.deep_view() == empty_response(),
    {
        let r = Response { messages: Vec::new(), events: Vec::new() };
        assert(r.messages.deep_view() =~= Seq::empty());
        assert(r.events.deep_view() =~= Seq::empty());
        r
    }
}

/// A single coin as a list, as requests carry it.
pub open spec fn one_coin(amount: u128, denom: Seq<char>) -> Seq<CoinModel> {
    seq![CoinModel { denom, amount }]
}

/// The list that holds `amount` of `denom` and nothing else.
pub fn coins(amount: u128, denom: &str) -> (r: Vec<Coin>)
    ensures
        r.deep_view() == one_coin(amount, denom@),
{
    let mut r: Vec<Coin> = Vec::new();
    r.push(Coin { denom: denom.to_owned(), amount });
    assert(r.deep_view() =~= one_coin(amount, denom@));
    r
}

/// The amount of `denom` among `balances`: that of its first entry, zero
/// where it has none.
pub open spec fn held(balances: Seq<CoinModel>, denom: Seq<char>) -> u128
    decreases balances.len(),
{
    if balances.len() == 0 {
        0
    } else if balances[0].denom == denom {
        balances[0].amount
    } else {
        held(balances.drop_first(), denom)
    }
}

/// Looks up the balance of `denom` in a snapshot of the component's holdings.
pub fn balance_of(balances: &Vec<Coin>, denom: &str) -> (r: Coin)
    ensures
        r.deep_view() == (CoinModel { denom: denom@, amount: held(balances.deep_view(), denom@) }),
{
    let ghost model = balances.deep_view();
    let mut i: usize = 0;
    assert(model.subrange(0, model.len() as int) =~= model);
    while i < balances.len()
        invariant
            i <= balances.len(),
            model == balances.deep_view(),
            held(model, denom@) == held(model.subrange(i as int, model.len() as int), denom@),
        decreases balances.len() - i,
    {
        proof {
            let rest = model.subrange(i as int, model.len() as int);
            assert(rest[0] == model[i as int]);
            assert(rest.drop_first() =~= model.subrange(i + 1, model.len() as int));
        }
        if same_text(balances[i].denom.as_str(), denom) {
            return Coin { denom: denom.to_owned(), amount: balances[i].amount };
        }
        i += 1;
    }
    Coin { denom: denom.to_owned(), amount: 0 }
}

} // verus!
