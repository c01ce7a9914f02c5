//! Round-robin fairness of the selector on a ledger that does not change.

use crate::denom::{key_lt, lemma_key_lt_trichotomy};
use crate::state::{
    cursor_after, first_after, lemma_next_index, next_index, none_after, selects, sorted,
    ActionModel,
};
use vstd::arithmetic::div_mod::{
    lemma_add_mod_noop_right, lemma_fundamental_div_mod, lemma_fundamental_div_mod_converse,
    lemma_mod_pos_bound, lemma_small_mod,
};
use vstd::prelude::*;

verus! {

/// The cursor after `n` cranks.
pub open spec fn cursor_at(ledger: Seq<ActionModel>, cursor: Option<Seq<char>>, n: nat) -> Option<
    Seq<char>,
>
    decreases n,
{
    if n == 0 {
        cursor
    } else {
        cursor_after(ledger, cursor_at(ledger, cursor, (n - 1) as nat))
    }
}

/// The position that crank number `n` selects, counting from zero.
pub open spec fn visit(ledger: Seq<ActionModel>, cursor: Option<Seq<char>>, n: nat) -> int {
    next_index(ledger, cursor_at(ledger, cursor, n))
}

/// How many of the first `n` cranks select position `i`.
pub open spec fn visits(ledger: Seq<ActionModel>, cursor: Option<Seq<char>>, i: int, n: nat) -> nat
    decreases n,
{
    if n == 0 {
        0
    } else {
        visits(ledger, cursor, i, (n - 1) as nat) + if visit(ledger, cursor, (n - 1) as nat) == i {
            1nat
        } else {
            0nat
        }
    }
}

/// The first position from `from` on whose denomination comes after `c`, or
/// the length of the ledger where there is none.
spec fn scan(ledger: Seq<ActionModel>, c: Seq<char>, from: int) -> int
    decreases ledger.len() - from,
{
    if from >= ledger.len() {
        ledger.len() as int
    } else if key_lt(c, ledger[from].denom) {
        from
    } else {
        scan(ledger, c, from + 1)
    }
}

proof fn lemma_scan(ledger: Seq<ActionModel>, c: Seq<char>, from: int)
    requires
        0 <= from <= ledger.len(),
    ensures
        from <= scan(ledger, c, from) <= ledger.len(),
        forall|j: int| from <= j < scan(ledger, c, from) ==> !key_lt(c, (#[trigger] ledger[j]).denom),
        scan(ledger, c, from) < ledger.len() ==> key_lt(c, ledger[scan(ledger, c, from)].denom),
    decreases ledger.len() - from,
{
    if from < ledger.len() && !key_lt(c, ledger[from].denom) {
        lemma_scan(ledger, c, from + 1);
    }
}

/// On a non-empty ledger every crank selects a position, whatever the
/// cursor, also one that is no longer in the ledger.
pub proof fn lemma_selection_exists(ledger: Seq<ActionModel>, cursor: Option<Seq<char>>)
    requires
        ledger.len() > 0,
    ensures
        selects(ledger, cursor, next_index(ledger, cursor)),
{
    match cursor {
        None => {
            assert(selects(ledger, cursor, 0));
        },
        Some(c) => {
            lemma_scan(ledger, c, 0);
            let k = scan(ledger, c, 0);
            if k < ledger.len() {
                assert(first_after(ledger, c, k));
                assert(selects(ledger, cursor, k));
            } else {
                assert(none_after(ledger, c));
                assert(selects(ledger, cursor, 0));
            }
        },
    }
}

/// With the cursor on position `i`, the next crank selects the position
/// after it, and the first one after the last.
pub proof fn lemma_successor(ledger: Seq<ActionModel>, i: int)
    requires
        sorted(ledger),
        0 <= i < ledger.len(),
    ensures
        next_index(ledger, Some(ledger[i].denom)) == (i + 1) % (ledger.len() as int),
{
    let c = ledger[i].denom;
    let k = ledger.len() as int;
    assert forall|j: int| 0 <= j <= i implies !key_lt(c, (#[trigger] ledger[j]).denom) by {
        lemma_key_lt_trichotomy(c, ledger[j].denom);
    }
    if i + 1 < k {
        lemma_small_mod((i + 1) as nat, k as nat);
        assert(key_lt(ledger[i].denom, ledger[i + 1].denom));
        assert(first_after(ledger, c, i + 1));
        lemma_next_index(ledger, Some(c), i + 1);
    } else {
        lemma_fundamental_div_mod_converse(i + 1, k, 1, 0);
        assert(none_after(ledger, c));
        lemma_next_index(ledger, Some(c), 0);
    }
}

/// Cyclic order: the cranks walk the ledger in ascending order of
/// denomination, one position per crank, and start over after the last.
pub proof fn lemma_cyclic_order(ledger: Seq<ActionModel>, cursor: Option<Seq<char>>, n: nat)
    requires
        sorted(ledger),
        ledger.len() > 0,
    ensures
        0 <= visit(ledger, cursor, 0) < ledger.len(),
        visit(ledger, cursor, n) == (visit(ledger, cursor, 0) + n) % (ledger.len() as int),
    decreases n,
{
    let k = ledger.len() as int;
    let s = visit(ledger, cursor, 0);
    lemma_selection_exists(ledger, cursor);
    if n == 0 {
        lemma_small_mod(s as nat, k as nat);
    } else {
        let m = (n - 1) as nat;
        lemma_cyclic_order(ledger, cursor, m);
        let before = cursor_at(ledger, cursor, m);
        let v = visit(ledger, cursor, m);
        lemma_selection_exists(ledger, before);
        assert(cursor_at(ledger, cursor, n) == Some(ledger[v].denom));
        lemma_successor(ledger, v);
        lemma_add_mod_noop_right(1, s + m, k);
        assert(1 + (s + m) == s + n);
        assert(1 + v == v + 1);
    }
}

proof fn lemma_next_remainder(x: int, k: int)
    requires
        0 <= x,
        0 < k,
    ensures
        0 <= x % k < k,
        x % k == k - 1 ==> (x + 1) % k == 0 && (x + 1) / k == x / k + 1,
        x % k != k - 1 ==> (x + 1) % k == x % k + 1 && (x + 1) / k == x / k,
{
    lemma_fundamental_div_mod(x, k);
    lemma_mod_pos_bound(x, k);
    let q = x / k;
    let r = x % k;
    if r == k - 1 {
        assert(x + 1 == (q + 1) * k + 0) by (nonlinear_arith)
            requires
                x == k * q + r,
                r == k - 1,
        ;
        lemma_fundamental_div_mod_converse(x + 1, k, q + 1, 0);
    } else {
        assert(x + 1 == q * k + (r + 1)) by (nonlinear_arith)
            requires
                x == k * q + r,
        ;
        lemma_fundamental_div_mod_converse(x + 1, k, q, r + 1);
    }
}

/// The distance from position `s` forward to position `i` on a cycle of
/// length `k`.
spec fn ahead(s: int, i: int, k: int) -> int {
    if i >= s {
        i - s
    } else {
        i - s + k
    }
}

proof fn lemma_hit(s: int, i: int, k: int, m: int)
    requires
        0 <= s < k,
        0 <= i < k,
        0 <= m,
    ensures
        (s + m) % k == i <==> m % k == ahead(s, i, k),
{
    let r = m % k;
    lemma_mod_pos_bound(m, k);
    lemma_add_mod_noop_right(s, m, k);
    if s + r < k {
        lemma_small_mod((s + r) as nat, k as nat);
    } else {
        lemma_fundamental_div_mod_converse(s + r, k, 1, s + r - k);
    }
}

proof fn lemma_visits_count(ledger: Seq<ActionModel>, cursor: Option<Seq<char>>, i: int, n: nat)
    requires
        sorted(ledger),
        ledger.len() > 0,
        0 <= i < ledger.len(),
    ensures
        visits(ledger, cursor, i, n) == n / ledger.len() + if ahead(
            visit(ledger, cursor, 0),
            i,
            ledger.len() as int,
        ) < n % ledger.len() {
            1int
        } else {
            0int
        },
    decreases n,
{
    let k = ledger.len() as int;
    let s = visit(ledger, cursor, 0);
    lemma_cyclic_order(ledger, cursor, 0);
    if n == 0 {
        lemma_fundamental_div_mod_converse(0, k, 0, 0);
    } else {
        let m = (n - 1) as nat;
        lemma_visits_count(ledger, cursor, i, m);
        lemma_cyclic_order(ledger, cursor, m);
        lemma_hit(s, i, k, m as int);
        lemma_next_remainder(m as int, k);
    }
}

/// Round-robin fairness: among any number of cranks on an unchanged ledger,
/// every position is selected the floor or the ceiling of that number
/// divided by the number of actions.
pub proof fn lemma_round_robin_fairness(
    ledger: Seq<ActionModel>,
    cursor: Option<Seq<char>>,
    i: int,
    n: nat,
)
    requires
        sorted(ledger),
        ledger.len() > 0,
        0 <= i < ledger.len(),
    ensures
        n / ledger.len() <= visits(ledger, cursor, i, n),
        visits(ledger, cursor, i, n) <= n / ledger.len() + if n % ledger.len() == 0 {
            0int
        } else {
            1int
        },
{
    lemma_visits_count(ledger, cursor, i, n);
    lemma_cyclic_order(ledger, cursor, 0);
    lemma_mod_pos_bound(n as int, ledger.len() as int);
}

} // verus!
