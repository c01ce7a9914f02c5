//! The distribution engine: an exact, remainder-safe proportional split.
//!
//! Every target but the last receives the floor of its proportional share;
//! the last receives what is left, so the amounts always add up to the
//! balance. Amounts of zero are not emitted.

use crate::error::ContractError;
use crate::math::multiply_ratio;
use vstd::prelude::*;

verus! {

/// The model of a weighted list of recipients.
pub type Targets = Seq<(Seq<char>, u8)>;

/// The model of a list of transfers: recipient and amount.
pub type Transfers = Seq<(Seq<char>, u128)>;

/// The sum of the weights of the first `n` targets.
pub open spec fn weight_sum(targets: Targets, n: int) -> nat
    decreases n,
{
    if n <= 0 {
        0
    } else {
        weight_sum(targets, n - 1) + targets[n - 1].1 as nat
    }
}

/// The sum of all weights.
pub open spec fn total_weight(targets: Targets) -> nat {
    weight_sum(targets, targets.len() as int)
}

/// The floor of the proportional share of a target of weight `weight`.
pub open spec fn floor_share(balance: nat, weight: nat, total: nat) -> nat {
    if total == 0 {
        0
    } else {
        balance * weight / total
    }
}

/// The sum of the floor shares of the first `n` targets.
pub open spec fn floor_sum(balance: nat, targets: Targets, n: int) -> nat
    decreases n,
{
    if n <= 0 {
        0
    } else {
        floor_sum(balance, targets, n - 1) + floor_share(
            balance,
            targets[n - 1].1 as nat,
            total_weight(targets),
        )
    }
}

/// The amount assigned to target `i`: its floor share, or for the last target
/// whatever the others leave.
pub open spec fn share(balance: nat, targets: Targets, i: int) -> int {
    if i == targets.len() - 1 {
        balance - floor_sum(balance, targets, i)
    } else {
        floor_share(balance, targets[i].1 as nat, total_weight(targets)) as int
    }
}

/// The transfers to the first `n` targets, in configured order, without those
/// of amount zero.
pub open spec fn transfers_upto(balance: nat, targets: Targets, n: int) -> Transfers
    decreases n,
{
    if n <= 0 {
        Seq::empty()
    } else {
        let before = transfers_upto(balance, targets, n - 1);
        let amount = share(balance, targets, n - 1);
        if amount == 0 {
            before
        } else {
            before.push((targets[n - 1].0, amount as u128))
        }
    }
}

/// The transfers that distribute `balance` over `targets`.
pub open spec fn split(balance: u128, targets: Targets) -> Transfers {
    if balance == 0 {
        Seq::empty()
    } else {
        transfers_upto(balance as nat, targets, targets.len() as int)
    }
}

/// Whether the split is undefined: something to hand out, someone to hand it
/// to, and no weight at all.
pub open spec fn undefined_split(balance: u128, targets: Targets) -> bool {
    balance > 0 && targets.len() > 0 && total_weight(targets) == 0
}

/// The sum of the amounts of a list of transfers.
pub open spec fn sum_amounts(transfers: Transfers) -> nat
    decreases transfers.len(),
{
    if transfers.len() == 0 {
        0
    } else {
        sum_amounts(transfers.drop_last()) + transfers.last().1 as nat
    }
}

proof fn lemma_weight_sum_bounds(targets: Targets, n: int)
    requires
        0 <= n <= targets.len(),
    ensures
        weight_sum(targets, n) <= 255 * n,
        weight_sum(targets, n) <= total_weight(targets),
    decreases targets.len() - n,
{
    lemma_weight_sum_prefix(targets, n);
    if n < targets.len() {
        lemma_weight_sum_bounds(targets, n + 1);
    }
}

proof fn lemma_weight_sum_prefix(targets: Targets, n: int)
    requires
        0 <= n <= targets.len(),
    ensures
        weight_sum(targets, n) <= 255 * n,
    decreases n,
{
    if n > 0 {
        lemma_weight_sum_prefix(targets, n - 1);
    }
}

proof fn lemma_floor_times(balance: nat, weight: nat, total: nat)
    requires
        total > 0,
    ensures
        (balance * weight / total) * total <= balance * weight,
        weight <= total ==> balance * weight / total <= balance,
{
    let x = balance * weight;
    assert((x / total) * total <= x) by (nonlinear_arith)
        requires
            total > 0,
            x >= 0,
    ;
    if weight <= total {
        assert(x <= balance * total) by (nonlinear_arith)
            requires
                x == balance * weight,
                weight <= total,
        ;
        assert(x / total <= balance) by (nonlinear_arith)
            requires
                x <= balance * total,
                total > 0,
                x >= 0,
        ;
    }
}

/// The floor shares of the first `n` targets take no more than the part of
/// the balance that their weights stand for.
pub proof fn lemma_floor_sum_bound(balance: nat, targets: Targets, n: int)
    requires
        0 <= n <= targets.len(),
        total_weight(targets) > 0,
    ensures
        floor_sum(balance, targets, n) * total_weight(targets) <= balance * weight_sum(targets, n),
        floor_sum(balance, targets, n) <= balance,
    decreases n,
{
    let total = total_weight(targets);
    if n > 0 {
        lemma_floor_sum_bound(balance, targets, n - 1);
        let w = targets[n - 1].1 as nat;
        let f = floor_share(balance, w, total);
        let before = floor_sum(balance, targets, n - 1);
        let ws = weight_sum(targets, n - 1);
        lemma_floor_times(balance, w, total);
        assert((before + f) * total <= balance * (ws + w)) by (nonlinear_arith)
            requires
                before * total <= balance * ws,
                f * total <= balance * w,
        ;
        assert(floor_sum(balance, targets, n) == before + f);
        assert(weight_sum(targets, n) == ws + w);
    }
    lemma_weight_sum_bounds(targets, n);
    let fs = floor_sum(balance, targets, n);
    let wn = weight_sum(targets, n);
    if n == 0 {
        assert(fs == 0 && wn == 0);
        assert(fs * total <= balance * wn) by (nonlinear_arith)
            requires
                fs == 0,
                wn == 0,
        ;
    }
    assert(fs <= balance) by (nonlinear_arith)
        requires
            fs * total <= balance * wn,
            wn <= total,
            total > 0,
    ;
}

/// Every amount of a defined split lies between zero and the balance.
pub proof fn lemma_share_range(balance: nat, targets: Targets, i: int)
    requires
        0 <= i < targets.len(),
        total_weight(targets) > 0,
    ensures
        0 <= share(balance, targets, i) <= balance,
{
    lemma_floor_sum_bound(balance, targets, i);
    lemma_weight_sum_bounds(targets, i + 1);
    lemma_floor_times(balance, targets[i].1 as nat, total_weight(targets));
}

proof fn lemma_sum_transfers(balance: nat, targets: Targets, n: int)
    requires
        0 <= n < targets.len(),
        total_weight(targets) > 0,
        balance <= u128::MAX,
    ensures
        sum_amounts(transfers_upto(balance, targets, n)) == floor_sum(balance, targets, n),
    decreases n,
{
    if n > 0 {
        lemma_sum_transfers(balance, targets, n - 1);
        lemma_share_range(balance, targets, n - 1);
        let before = transfers_upto(balance, targets, n - 1);
        let amount = share(balance, targets, n - 1);
        if amount != 0 {
            assert(before.push((targets[n - 1].0, amount as u128)).drop_last() =~= before);
        }
    }
}

/// Conservation: the amounts of a defined split over a non-empty list add up
/// to the balance exactly.
pub proof fn lemma_split_conserves(balance: u128, targets: Targets)
    requires
        targets.len() > 0,
        total_weight(targets) > 0,
    ensures
        sum_amounts(split(balance, targets)) == balance,
{
    if balance > 0 {
        let n = targets.len() as int;
        let b = balance as nat;
        lemma_sum_transfers(b, targets, n - 1);
        lemma_share_range(b, targets, n - 1);
        let before = transfers_upto(b, targets, n - 1);
        let amount = share(b, targets, n - 1);
        if amount != 0 {
            assert(before.push((targets[n - 1].0, amount as u128)).drop_last() =~= before);
        }
    }
}

/// Remainder placement: the last target receives the balance less the floor
/// shares of all the others, and that is never less than its own floor share.
pub proof fn lemma_remainder_placement(balance: u128, targets: Targets)
    requires
        targets.len() > 0,
        total_weight(targets) > 0,
    ensures
        share(balance as nat, targets, targets.len() - 1) == balance - floor_sum(
            balance as nat,
            targets,
            targets.len() - 1,
        ),
        share(balance as nat, targets, targets.len() - 1) >= floor_share(
            balance as nat,
            targets.last().1 as nat,
            total_weight(targets),
        ),
        share(balance as nat, targets, targets.len() - 1) > 0 ==> split(balance, targets).last() == (
            targets.last().0,
            share(balance as nat, targets, targets.len() - 1) as u128,
        ),
{
    let n = targets.len() as int;
    let b = balance as nat;
    let total = total_weight(targets);
    let w = targets.last().1 as nat;
    let fs = floor_sum(b, targets, n - 1);
    let ws = weight_sum(targets, n - 1);
    lemma_floor_sum_bound(b, targets, n - 1);
    assert(ws + w == total);
    assert(b * w / total <= b - fs) by (nonlinear_arith)
        requires
            fs * total <= b * ws,
            ws + w == total,
            total > 0,
            fs <= b,
    ;
}

/// No-op on an empty balance: nothing is transferred, whatever the targets.
pub proof fn lemma_split_of_nothing(targets: Targets)
    ensures
        split(0, targets) == Transfers::empty(),
        !undefined_split(0, targets),
{
}

/// Adds up the weights of all targets.
pub fn sum_weights(targets: &Vec<(String, u8)>) -> (total: u128)
    ensures
        total == total_weight(targets.deep_view()),
{
    let mut total: u128 = 0;
    let mut i: usize = 0;
    while i < targets.len()
        invariant
            i <= targets.len(),
            total == weight_sum(targets.deep_view(), i as int),
            total <= 255 * i,
        decreases targets.len() - i,
    {
        total = total + targets[i].1 as u128;
        i += 1;
    }
    total
}

/// Splits `balance` over `targets`.
///
/// Nothing is transferred when the balance is zero or there is no target.
/// When there is a balance and there are targets but their weights sum to
/// zero, the split is undefined and refused. Otherwise the result is the
/// list of non-zero amounts in configured order, the last target taking the
/// remainder.
pub fn distribute(balance: u128, targets: &Vec<(String, u8)>) -> (r: Result<
    Vec<(String, u128)>,
    ContractError,
>)
    ensures
        undefined_split(balance, targets.deep_view()) <==> r is Err,
        r is Err ==> r == Err::<Vec<(String, u128)>, ContractError>(ContractError::UndefinedSplit),
        r matches Ok(sends) ==> sends.deep_view() == split(balance, targets.deep_view()),
{
    let ghost model = targets.deep_view();
    let mut sends: Vec<(String, u128)> = Vec::new();
    if balance == 0 || targets.len() == 0 {
        assert(sends.deep_view() =~= split(balance, model));
        return Ok(sends);
    }
    let total = sum_weights(targets);
    if total == 0 {
        return Err(ContractError::UndefinedSplit);
    }
    let n = targets.len();
    let mut remaining: u128 = balance;
    let mut i: usize = 0;
    assert(sends.deep_view() =~= transfers_upto(balance as nat, model, 0));
    while i < n
        invariant
            i <= n,
            n == targets.len(),
            model == targets.deep_view(),
            total == total_weight(model),
            total > 0,
            i < n ==> remaining == balance - floor_sum(balance as nat, model, i as int),
            sends.deep_view() == transfers_upto(balance as nat, model, i as int),
        decreases n - i,
    {
        let weight = targets[i].1;
        proof {
            lemma_floor_sum_bound(balance as nat, model, i + 1);
            lemma_weight_sum_bounds(model, i + 1);
            lemma_floor_times(balance as nat, weight as nat, total as nat);
            lemma_share_range(balance as nat, model, i as int);
        }
        let amount = if i + 1 == n {
            remaining
        } else {
            multiply_ratio(balance, weight as u128, total)
        };
        assert(amount == share(balance as nat, model, i as int));
        let ghost before = sends.deep_view();
        if amount != 0 {
            let recipient = targets[i].0.clone();
            sends.push((recipient, amount));
            assert(sends.deep_view() =~= before.push((model[i as int].0, amount)));
        }
        if i + 1 < n {
            remaining = remaining - amount;
        }
        i += 1;
    }
    Ok(sends)
}

} // verus!
