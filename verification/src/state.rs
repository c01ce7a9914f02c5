//! The persistent state: configuration, the action ledger and the cursor,
//! and the selector that walks the ledger round-robin.

use crate::denom::{key_lt, key_order, lemma_key_lt_transitive, lemma_key_lt_trichotomy, KeyOrder};
use crate::error::ContractError;
use crate::host::{coins, one_coin, Coin, CosmosMsg, MsgModel};
use crate::msg::InstantiateMsg;
use vstd::prelude::*;

verus! {

/// Owner, executor, the denominations that are swept, and the weighted list
/// of recipients.
#[derive(Clone, Debug, PartialEq, Eq)]
pub struct Config {
    /// The identity permitted to change the configuration and the ledger.
    pub owner: String,
    /// The identity permitted to crank.
    pub executor: String,
    /// The denominations that are distributed at the end of a crank.
    pub target_denoms: Vec<String>,
    /// The recipients and their relative weights.
    pub target_addresses: Vec<(String, u8)>,
}

/// The model of a [`Config`].
pub ghost struct ConfigModel {
    pub owner: Seq<char>,
    pub executor: Seq<char>,
    pub target_denoms: Seq<Seq<char>>,
    pub target_addresses: Seq<(Seq<char>, u8)>,
}

impl DeepView for Config {
    type V = ConfigModel;

    open spec fn deep_view(&self) -> ConfigModel {
        ConfigModel {
            owner: self.owner@,
            executor: self.executor@,
            target_denoms: self.target_denoms.deep_view(),
            target_addresses: self.target_addresses.deep_view(),
        }
    }
}

impl From<InstantiateMsg> for Config {
    /// The configuration that an instantiation asks for.
    fn from(value: InstantiateMsg) -> (r: Config) {
        Config {
            owner: value.owner,
            executor: value.executor,
            target_denoms: value.target_denoms,
            target_addresses: value.target_addresses,
        }
    }
}

impl vstd::std_specs::convert::FromSpecImpl<InstantiateMsg> for Config {
    open spec fn obeys_from_spec() -> bool {
        true
    }

    open spec fn from_spec(value: InstantiateMsg) -> Config {
        Config {
            owner: value.owner,
            executor: value.executor,
            target_denoms: value.target_denoms,
            target_addresses: value.target_addresses,
        }
    }
}

/// One configured conversion: a denomination, the operation that converts
/// it, and the most that one invocation may include.
#[derive(Clone, Debug, PartialEq, Eq)]
pub struct Action {
    /// The denomination that the action consumes; the key in the ledger.
    pub denom: String,
    /// The destination of the external operation.
    pub contract: String,
    /// The maximum amount included in one invocation.
    pub limit: u128,
    /// The payload of the external operation.
    pub msg: Vec<u8>,
}

/// The model of an [`Action`].
pub ghost struct ActionModel {
    pub denom: Seq<char>,
    pub contract: Seq<char>,
    pub limit: u128,
    pub msg: Seq<u8>,
}

impl DeepView for Action {
    type V = ActionModel;

    open spec fn deep_view(&self) -> ActionModel {
        ActionModel {
            denom: self.denom@,
            contract: self.contract@,
            limit: self.limit,
            msg: self.msg@,
        }
    }
}

/// A ledger in ascending order of denomination, each denomination once.
pub open spec fn sorted(ledger: Seq<ActionModel>) -> bool {
    forall|i: int, j: int|
        0 <= i < j < ledger.len() ==> key_lt((#[trigger] ledger[i]).denom, (#[trigger] ledger[j]).denom)
}

/// A sorted ledger is determined by what it holds: two sorted ledgers with
/// the same actions are the same ledger.
pub proof fn lemma_ledger_determined(a: Seq<ActionModel>, b: Seq<ActionModel>)
    requires
        sorted(a),
        sorted(b),
        forall|m: ActionModel| a.contains(m) <==> b.contains(m),
    ensures
        a == b,
    decreases a.len(),
{
    if a.len() == 0 {
        if b.len() > 0 {
            assert(b.contains(b[0]));
        }
        assert(a =~= b);
    } else {
        assert(a.contains(a[0]));
        let j = choose|j: int| 0 <= j < b.len() && b[j] == a[0];
        assert(b.contains(b[0]));
        let i = choose|i: int| 0 <= i < a.len() && a[i] == b[0];
        lemma_key_lt_trichotomy(b[0].denom, a[0].denom);
        assert(j == 0 && i == 0);
        let at = a.drop_first();
        let bt = b.drop_first();
        assert forall|m: ActionModel| at.contains(m) <==> bt.contains(m) by {
            if at.contains(m) {
                let k = choose|k: int| 0 <= k < at.len() && at[k] == m;
                assert(a[k + 1] == m);
                assert(a.contains(m));
                let l = choose|l: int| 0 <= l < b.len() && b[l] == m;
                lemma_key_lt_trichotomy(a[0].denom, a[k + 1].denom);
                assert(bt[l - 1] == m);
            }
            if bt.contains(m) {
                let k = choose|k: int| 0 <= k < bt.len() && bt[k] == m;
                assert(b[k + 1] == m);
                assert(b.contains(m));
                let l = choose|l: int| 0 <= l < a.len() && a[l] == m;
                lemma_key_lt_trichotomy(b[0].denom, b[k + 1].denom);
                assert(at[l - 1] == m);
            }
        }
        assert forall|p: int, q: int| 0 <= p < q < at.len() implies key_lt(
            (#[trigger] at[p]).denom,
            (#[trigger] at[q]).denom,
        ) by {
            assert(at[p] == a[p + 1] && at[q] == a[q + 1]);
        }
        assert forall|p: int, q: int| 0 <= p < q < bt.len() implies key_lt(
            (#[trigger] bt[p]).denom,
            (#[trigger] bt[q]).denom,
        ) by {
            assert(bt[p] == b[p + 1] && bt[q] == b[q + 1]);
        }
        lemma_ledger_determined(at, bt);
        assert(a =~= seq![a[0]] + at);
        assert(b =~= seq![b[0]] + bt);
    }
}

/// Whether `after` is `before` with `action` stored under its denomination:
/// a sorted ledger that holds `action` and, of `before`, exactly the actions
/// of other denominations.
pub open spec fn upserted(
    before: Seq<ActionModel>,
    after: Seq<ActionModel>,
    action: ActionModel,
) -> bool {
    &&& sorted(after)
    &&& forall|m: ActionModel|
        after.contains(m) <==> (m == action || (before.contains(m) && m.denom != action.denom))
}

/// Whether `after` is `before` without the action of `denom`: a sorted
/// ledger that holds, of `before`, exactly the actions of other denominations.
pub open spec fn removed(before: Seq<ActionModel>, after: Seq<ActionModel>, denom: Seq<char>) -> bool {
    &&& sorted(after)
    &&& forall|m: ActionModel| after.contains(m) <==> (before.contains(m) && m.denom != denom)
}

/// Storing an action is idempotent: storing it a second time changes nothing.
pub proof fn lemma_upsert_idempotent(
    before: Seq<ActionModel>,
    once: Seq<ActionModel>,
    twice: Seq<ActionModel>,
    action: ActionModel,
)
    requires
        upserted(before, once, action),
        upserted(once, twice, action),
    ensures
        twice == once,
{
    lemma_ledger_determined(once, twice);
}

/// Removing the action of a denomination that has none changes nothing.
pub proof fn lemma_remove_absent(
    before: Seq<ActionModel>,
    after: Seq<ActionModel>,
    denom: Seq<char>,
)
    requires
        sorted(before),
        removed(before, after, denom),
        forall|m: ActionModel| before.contains(m) ==> m.denom != denom,
    ensures
        after == before,
{
    lemma_ledger_determined(before, after);
}

/// Whether `i` is the first position of the ledger whose denomination comes
/// after `cursor`.
pub open spec fn first_after(ledger: Seq<ActionModel>, cursor: Seq<char>, i: int) -> bool {
    &&& 0 <= i < ledger.len()
    &&& key_lt(cursor, ledger[i].denom)
    &&& forall|j: int| 0 <= j < i ==> !key_lt(cursor, (#[trigger] ledger[j]).denom)
}

/// Whether no denomination of the ledger comes after `cursor`.
pub open spec fn none_after(ledger: Seq<ActionModel>, cursor: Seq<char>) -> bool {
    forall|j: int| 0 <= j < ledger.len() ==> !key_lt(cursor, (#[trigger] ledger[j]).denom)
}

/// Whether a crank with the given cursor selects position `i`: the first
/// position after the cursor, or the start where there is no cursor or
/// nothing after it.
pub open spec fn selects(ledger: Seq<ActionModel>, cursor: Option<Seq<char>>, i: int) -> bool {
    &&& 0 <= i < ledger.len()
    &&& match cursor {
        Some(c) => first_after(ledger, c, i) || (i == 0 && none_after(ledger, c)),
        None => i == 0,
    }
}

/// The position that a crank with the given cursor selects.
pub open spec fn next_index(ledger: Seq<ActionModel>, cursor: Option<Seq<char>>) -> int {
    choose|i: int| selects(ledger, cursor, i)
}

/// The selection is unique: a position that is selected is the selected one.
pub proof fn lemma_next_index(ledger: Seq<ActionModel>, cursor: Option<Seq<char>>, i: int)
    requires
        selects(ledger, cursor, i),
    ensures
        next_index(ledger, cursor) == i,
{
    let k = next_index(ledger, cursor);
    assert(selects(ledger, cursor, k));
    if let Some(c) = cursor {
        if k < i {
            assert(!key_lt(c, ledger[k].denom) || !first_after(ledger, c, i));
        } else if i < k {
            assert(!key_lt(c, ledger[i].denom) || !first_after(ledger, c, k));
        }
    }
}

/// The action that a crank selects on a non-empty ledger.
pub open spec fn selected(ledger: Seq<ActionModel>, cursor: Option<Seq<char>>) -> ActionModel {
    ledger[next_index(ledger, cursor)]
}

/// The cursor after a crank: the selected denomination, or the old cursor on
/// an empty ledger.
pub open spec fn cursor_after(ledger: Seq<ActionModel>, cursor: Option<Seq<char>>) -> Option<
    Seq<char>,
> {
    if ledger.len() == 0 {
        cursor
    } else {
        Some(selected(ledger, cursor).denom)
    }
}

/// On a sorted ledger the selected action is the one with the smallest
/// denomination after the cursor; where there is no cursor, or nothing after
/// it, the one with the smallest denomination of all.
pub proof fn lemma_selected_is_least(
    ledger: Seq<ActionModel>,
    cursor: Option<Seq<char>>,
    i: int,
    j: int,
)
    requires
        sorted(ledger),
        selects(ledger, cursor, i),
        0 <= j < ledger.len(),
        j != i,
    ensures
        match cursor {
            Some(c) => if key_lt(c, ledger[i].denom) {
                key_lt(c, ledger[j].denom) ==> key_lt(ledger[i].denom, ledger[j].denom)
            } else {
                !key_lt(c, ledger[j].denom) && key_lt(ledger[i].denom, ledger[j].denom)
            },
            None => key_lt(ledger[i].denom, ledger[j].denom),
        },
{
}

/// The amount that one invocation of an action includes: the balance, capped
/// at the limit.
pub open spec fn capped(balance: u128, limit: u128) -> u128 {
    if balance < limit {
        balance
    } else {
        limit
    }
}

/// The request that runs `action` on `amount` of its denomination.
pub open spec fn action_request(action: ActionModel, amount: u128) -> MsgModel {
    MsgModel::Execute {
        contract_addr: action.contract,
        msg: action.msg,
        funds: one_coin(amount, action.denom),
    }
}

/// The persistent state of the component.
#[derive(Clone, Debug)]
pub struct Store {
    config: Option<Config>,
    last: Option<String>,
    actions: Vec<Action>,
}

/// Copies a payload.
fn copy_bytes(bytes: &Vec<u8>) -> (r: Vec<u8>)
    ensures
        r@ == bytes@,
{
    let mut r: Vec<u8> = Vec::new();
    let mut i: usize = 0;
    while i < bytes.len()
        invariant
            i <= bytes.len(),
            r@ == bytes@.subrange(0, i as int),
        decreases bytes.len() - i,
    {
        r.push(bytes[i]);
        assert(r@ =~= bytes@.subrange(0, i + 1));
        i += 1;
    }
    assert(r@ =~= bytes@);
    r
}

/// Copies a list of denominations.
fn copy_denoms(denoms: &Vec<String>) -> (r: Vec<String>)
    ensures
        r.deep_view() == denoms.deep_view(),
{
    let mut r: Vec<String> = Vec::new();
    let mut i: usize = 0;
    while i < denoms.len()
        invariant
            i <= denoms.len(),
            r.len() == i,
            forall|j: int| 0 <= j < i ==> r@[j]@ == denoms@[j]@,
        decreases denoms.len() - i,
    {
        r.push(denoms[i].clone());
        i += 1;
    }
    assert(r.deep_view() =~= denoms.deep_view());
    r
}

/// Copies a list of weighted recipients.
fn copy_targets(targets: &Vec<(String, u8)>) -> (r: Vec<(String, u8)>)
    ensures
        r.deep_view() == targets.deep_view(),
{
    let mut r: Vec<(String, u8)> = Vec::new();
    let mut i: usize = 0;
    while i < targets.len()
        invariant
            i <= targets.len(),
            r.len() == i,
            forall|j: int| 0 <= j < i ==> r@[j].deep_view() == targets@[j].deep_view(),
        decreases targets.len() - i,
    {
        r.push((targets[i].0.clone(), targets[i].1));
        i += 1;
    }
    assert(r.deep_view() =~= targets.deep_view());
    r
}

impl Store {
    /// The stored configuration, if any.
    pub closed spec fn config(&self) -> Option<ConfigModel> {
        self.config.deep_view()
    }

    /// The cursor: the denomination of the action selected last, if any.
    pub closed spec fn last(&self) -> Option<Seq<char>> {
        self.last.deep_view()
    }

    /// The ledger, in storage order.
    pub closed spec fn ledger(&self) -> Seq<ActionModel> {
        self.actions.deep_view()
    }

    /// The invariant of the store: the ledger is in ascending order of
    /// denomination and holds each denomination once.
    pub open spec fn wf(&self) -> bool {
        sorted(self.ledger())
    }

    /// The state before anything has been stored.
    pub fn new() -> (r: Store)
        ensures
            r.wf(),
            r.config() is None,
            r.last() is None,
            r.ledger() == Seq::<ActionModel>::empty(),
    {
        let r = Store { config: None, last: None, actions: Vec::new() };
        assert(r.actions.deep_view() =~= Seq::<ActionModel>::empty());
        r
    }

    /// Sets the cursor to a value that was read earlier: from persistent
    /// storage, or before a crank that failed.
    pub fn restore_last(&mut self, last: Option<String>)
        ensures
            final(self).last() == last.deep_view(),
            final(self).ledger() == old(self).ledger(),
            final(self).config() == old(self).config(),
            old(self).wf() ==> final(self).wf(),
    {
        self.last = last;
    }
}

impl Config {
    /// A copy of the configuration.
    pub fn duplicate(&self) -> (r: Config)
        ensures
            r.deep_view() == self.deep_view(),
    {
        Config {
            owner: self.owner.clone(),
            executor: self.executor.clone(),
            target_denoms: copy_denoms(&self.target_denoms),
            target_addresses: copy_targets(&self.target_addresses),
        }
    }

    /// Reads the stored configuration; fails where none has been stored.
    pub fn load(storage: &Store) -> (r: Result<Config, ContractError>)
        ensures
            match storage.config() {
                Some(c) => r matches Ok(config) && config.deep_view() == c,
                None => r matches Err(e) && e == ContractError::NotFound,
            },
    {
        match &storage.config {
            Some(c) => Ok(c.duplicate()),
            None => Err(ContractError::NotFound),
        }
    }

    /// Stores the configuration, replacing an earlier one.
    pub fn save(&self, storage: &mut Store)
        ensures
            final(storage).config() == Some(self.deep_view()),
            final(storage).last() == old(storage).last(),
            final(storage).ledger() == old(storage).ledger(),
            old(storage).wf() ==> final(storage).wf(),
    {
        storage.config = Some(self.duplicate());
    }
}

/// Where `denom` stands in a sorted ledger: the number of entries before it,
/// and whether the entry at that position holds it.
fn position(actions: &Vec<Action>, denom: &str) -> (r: (usize, bool))
    requires
        sorted(actions.deep_view()),
    ensures
        r.0 <= actions.len(),
        forall|j: int| 0 <= j < r.0 ==> key_lt((#[trigger] actions.deep_view()[j]).denom, denom@),
        r.1 ==> r.0 < actions.len() && actions.deep_view()[r.0 as int].denom == denom@,
        !r.1 ==> forall|j: int|
            r.0 <= j < actions.len() ==> key_lt(denom@, (#[trigger] actions.deep_view()[j]).denom),
{
    let ghost ledger = actions.deep_view();
    let mut i: usize = 0;
    while i < actions.len()
        invariant
            i <= actions.len(),
            ledger == actions.deep_view(),
            sorted(ledger),
            forall|j: int| 0 <= j < i ==> key_lt((#[trigger] ledger[j]).denom, denom@),
        decreases actions.len() - i,
    {
        match key_order(actions[i].denom.as_str(), denom) {
            KeyOrder::Less => {},
            KeyOrder::Equal => {
                return (i, true);
            },
            KeyOrder::Greater => {
                proof {
                    assert forall|j: int| i <= j < actions.len() implies key_lt(
                        denom@,
                        (#[trigger] ledger[j]).denom,
                    ) by {
                        if j > i {
                            lemma_key_lt_transitive(denom@, ledger[i as int].denom, ledger[j].denom);
                        }
                    }
                }
                return (i, false);
            },
        }
        i += 1;
    }
    (i, false)
}

impl Action {
    /// A copy of the action.
    pub fn duplicate(&self) -> (r: Action)
        ensures
            r.deep_view() == self.deep_view(),
    {
        Action {
            denom: self.denom.clone(),
            contract: self.contract.clone(),
            limit: self.limit,
            msg: copy_bytes(&self.msg),
        }
    }

    /// The cursor: the denomination of the action selected last.
    pub fn last(storage: &Store) -> (r: Option<String>)
        ensures
            r.deep_view() == storage.last(),
    {
        match &storage.last {
            Some(denom) => Some(denom.clone()),
            None => None,
        }
    }

    /// Selects the next action and moves the cursor to it.
    ///
    /// The action selected is the first whose denomination comes after the
    /// cursor, or the first of the ledger where there is no cursor or nothing
    /// comes after it. On an empty ledger nothing is selected and the cursor
    /// stays.
    pub fn next(storage: &mut Store) -> (r: Option<Action>)
        ensures
            final(storage).ledger() == old(storage).ledger(),
            final(storage).config() == old(storage).config(),
            old(storage).wf() ==> final(storage).wf(),
            final(storage).last() == cursor_after(old(storage).ledger(), old(storage).last()),
            old(storage).ledger().len() == 0 ==> r is None,
            old(storage).ledger().len() > 0 ==> (r matches Some(action) && action.deep_view()
                == selected(old(storage).ledger(), old(storage).last())),
            old(storage).ledger().len() > 0 ==> selects(
                old(storage).ledger(),
                old(storage).last(),
                next_index(old(storage).ledger(), old(storage).last()),
            ),
    {
        let ghost ledger = storage.ledger();
        let ghost cursor = storage.last();
        let n = storage.actions.len();
        if n == 0 {
            return None;
        }
        let mut found: usize = 0;
        if let Some(c) = &storage.last {
            let mut i: usize = 0;
            let mut hit = false;
            while i < n && !hit
                invariant
                    i <= n,
                    n == storage.actions.len(),
                    ledger == storage.actions.deep_view(),
                    c@ == cursor->0,
                    cursor is Some,
                    !hit ==> forall|j: int| 0 <= j < i ==> !key_lt(c@, (#[trigger] ledger[j]).denom),
                    hit ==> first_after(ledger, c@, found as int),
                    !hit ==> found == 0,
                decreases n - i + (if hit { 0int } else { 1int }),
            {
                match key_order(c.as_str(), storage.actions[i].denom.as_str()) {
                    KeyOrder::Less => {
                        found = i;
                        hit = true;
                    },
                    _ => {
                        i += 1;
                    },
                }
            }
        }
        proof {
            assert(selects(ledger, cursor, found as int));
            lemma_next_index(ledger, cursor, found as int);
        }
        Some(Action::load(storage, found))
    }

    /// Moves the cursor to the action at `index` and returns that action.
    fn load(storage: &mut Store, index: usize) -> (r: Action)
        requires
            index < old(storage).ledger().len(),
        ensures
            r.deep_view() == old(storage).ledger()[index as int],
            final(storage).last() == Some(r.deep_view().denom),
            final(storage).ledger() == old(storage).ledger(),
            final(storage).config() == old(storage).config(),
    {
        let action = storage.actions[index].duplicate();
        storage.last = Some(action.denom.clone());
        action
    }

    /// Every action of the ledger, in ascending order of denomination.
    pub fn all(storage: &Store) -> (r: Vec<Action>)
        ensures
            r.deep_view() == storage.ledger(),
            storage.wf() ==> sorted(r.deep_view()),
    {
        let mut r: Vec<Action> = Vec::new();
        let mut i: usize = 0;
        while i < storage.actions.len()
            invariant
                i <= storage.actions.len(),
                r.len() == i,
                forall|j: int| 0 <= j < i ==> r@[j].deep_view() == storage.actions@[j].deep_view(),
            decreases storage.actions.len() - i,
        {
            r.push(storage.actions[i].duplicate());
            i += 1;
        }
        assert(r.deep_view() =~= storage.actions.deep_view());
        r
    }

    /// The action stored for `denom`, if there is one.
    pub fn get(storage: &Store, denom: &str) -> (r: Option<Action>)
        requires
            storage.wf(),
        ensures
            match r {
                Some(action) => storage.ledger().contains(action.deep_view())
                    && action.deep_view().denom == denom@,
                None => forall|m: ActionModel| storage.ledger().contains(m) ==> m.denom != denom@,
            },
    {
        let (i, present) = position(&storage.actions, denom);
        if present {
            Some(storage.actions[i].duplicate())
        } else {
            proof {
                let ledger = storage.ledger();
                assert forall|m: ActionModel| ledger.contains(m) implies m.denom != denom@ by {
                    let j = choose|j: int| 0 <= j < ledger.len() && ledger[j] == m;
                    assert(ledger[j] == m);
                    lemma_key_lt_trichotomy(m.denom, denom@);
                }
            }
            None
        }
    }

    /// Stores `action` under its denomination, replacing the action that was
    /// stored under it before.
    pub fn set(storage: &mut Store, action: Action)
        requires
            old(storage).wf(),
        ensures
            final(storage).wf(),
            final(storage).config() == old(storage).config(),
            final(storage).last() == old(storage).last(),
            upserted(old(storage).ledger(), final(storage).ledger(), action.deep_view()),
    {
        let ghost before = storage.ledger();
        let ghost a = action.deep_view();
        let (i, present) = position(&storage.actions, action.denom.as_str());
        if present {
            storage.actions.set(i, action);
            proof {
                let after = storage.ledger();
                assert(after =~= before.update(i as int, a));
            }
        } else {
            storage.actions.insert(i, action);
            proof {
                let after = storage.ledger();
                assert(after =~= before.insert(i as int, a));
            }
        }
        proof {
            let after = storage.ledger();
            let shift = if present { 1int } else { 0int };
            assert(after.len() == before.len() + 1 - shift);
            assert(after[i as int] == a);
            assert(forall|j: int| 0 <= j < i ==> after[j] == before[j]);
            assert(forall|j: int| i < j < after.len() ==> after[j] == before[j - 1 + shift]);
            assert forall|p: int, q: int| 0 <= p < q < after.len() implies key_lt(
                (#[trigger] after[p]).denom,
                (#[trigger] after[q]).denom,
            ) by {
                if p < i && q > i {
                    lemma_key_lt_transitive(after[p].denom, a.denom, after[q].denom);
                }
            }
            assert forall|m: ActionModel| after.contains(m) <==> (m == a || (before.contains(m)
                && m.denom != a.denom)) by {
                if after.contains(m) {
                    let j = choose|j: int| 0 <= j < after.len() && after[j] == m;
                    lemma_key_lt_trichotomy(m.denom, a.denom);
                    if j < i {
                        assert(before[j] == m);
                    } else if j > i {
                        assert(before[j - 1 + shift] == m);
                    }
                }
                if m == a {
                    assert(after[i as int] == m);
                }
                if before.contains(m) && m.denom != a.denom {
                    let j = choose|j: int| 0 <= j < before.len() && before[j] == m;
                    if j < i {
                        assert(after[j] == m);
                    } else {
                        assert(after[j + 1 - shift] == m);
                    }
                }
            }
        }
    }

    /// Removes the action stored under `denom`; nothing happens where there
    /// is none.
    pub fn unset(storage: &mut Store, denom: String)
        requires
            old(storage).wf(),
        ensures
            final(storage).wf(),
            final(storage).config() == old(storage).config(),
            final(storage).last() == old(storage).last(),
            removed(old(storage).ledger(), final(storage).ledger(), denom@),
    {
        let ghost before = storage.ledger();
        let (i, present) = position(&storage.actions, denom.as_str());
        if present {
            storage.actions.remove(i);
            proof {
                let after = storage.ledger();
                assert(after =~= before.remove(i as int));
                assert forall|p: int, q: int| 0 <= p < q < after.len() implies key_lt(
                    (#[trigger] after[p]).denom,
                    (#[trigger] after[q]).denom,
                ) by {
                    let pp = if p < i { p } else { p + 1 };
                    let qq = if q < i { q } else { q + 1 };
                    assert(after[p] == before[pp] && after[q] == before[qq]);
                }
            }
        }
        proof {
            let after = storage.ledger();
            assert forall|m: ActionModel| after.contains(m) <==> (before.contains(m) && m.denom
                != denom@) by {
                if after.contains(m) {
                    let j = choose|j: int| 0 <= j < after.len() && after[j] == m;
                    let jj = if present && j >= i { j + 1 } else { j };
                    assert(before[jj] == m);
                    lemma_key_lt_trichotomy(m.denom, denom@);
                }
                if before.contains(m) && m.denom != denom@ {
                    let j = choose|j: int| 0 <= j < before.len() && before[j] == m;
                    let jj = if present && j > i { j - 1 } else { j };
                    assert(after[jj] == m);
                }
            }
        }
    }

    /// Decides what a crank asks for, given the balance held in the action's
    /// denomination.
    ///
    /// A balance in another denomination is refused. Nothing is asked for
    /// when the balance, capped at the limit, is zero. Otherwise the one
    /// request runs the action on the capped amount, which never exceeds the
    /// limit.
    pub fn execute(&self, amount: Coin) -> (r: Result<Option<CosmosMsg>, ContractError>)
        ensures
            r is Err <==> amount.denom@ != self.denom@,
            r matches Err(e) ==> e == ContractError::InvalidDenom,
            r matches Ok(None) ==> capped(amount.amount, self.limit) == 0,
            r matches Ok(Some(msg)) ==> (capped(amount.amount, self.limit) > 0 && msg.deep_view()
                == action_request(self.deep_view(), capped(amount.amount, self.limit))),
            r matches Ok(Some(msg)) ==> (msg.deep_view() matches MsgModel::Execute { funds, .. }
                && funds.len() == 1 && 0 < funds[0].amount <= self.limit && funds[0].amount
                <= amount.amount),
    {
        if amount.denom != self.denom {
            return Err(ContractError::InvalidDenom);
        }
        let total = if amount.amount < self.limit {
            amount.amount
        } else {
            self.limit
        };
        if total == 0 {
            return Ok(None);
        }
        let funds = coins(total, amount.denom.as_str());
        let msg = CosmosMsg::Execute {
            contract_addr: self.contract.clone(),
            msg: copy_bytes(&self.msg),
            funds,
        };
        Ok(Some(msg))
    }
}

} // verus!
