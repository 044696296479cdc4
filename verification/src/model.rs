//! The shared-state concurrency model and its guarantees.
//!
//! Operations on the wallet are totally ordered by its lock, so any concurrent
//! execution of withdraw-and-append rounds is observed as some sequence of
//! atomic operations, each a `(name, price)` purchase attempt. One such
//! attempt is exactly the pre/post relation of `Wallet::safe_withdraw`
//! followed, on success, by `Pocket::add_product`. The lemmas here state what
//! holds of every such sequence, hence of every thread schedule: the balance
//! accounts exactly for the successful withdraws and never goes negative;
//! equal-amount contention admits exactly `floor(balance / amount)` winners;
//! the log records each successful withdraw exactly once; and any
//! interleaving of the same two sessions ends, when funds suffice, at the
//! same balance and log length.

use vstd::prelude::*;
use vstd::arithmetic::div_mod::{lemma_basic_div, lemma_div_minus_one, lemma_div_pos_is_pos};

verus! {

/// The balance after a sequence of atomic conditional withdraws: each
/// operation debits its price exactly when the balance at its turn suffices,
/// and otherwise changes nothing.
pub open spec fn balance_after(b: int, ops: Seq<(Seq<char>, int)>) -> int
    decreases ops.len(),
{
    if ops.len() == 0 {
        b
    } else if b >= ops[0].1 {
        balance_after(b - ops[0].1, ops.drop_first())
    } else {
        balance_after(b, ops.drop_first())
    }
}

/// The sum of the amounts of the withdraws that succeed.
pub open spec fn spent(b: int, ops: Seq<(Seq<char>, int)>) -> int
    decreases ops.len(),
{
    if ops.len() == 0 {
        0
    } else if b >= ops[0].1 {
        ops[0].1 + spent(b - ops[0].1, ops.drop_first())
    } else {
        spent(b, ops.drop_first())
    }
}

/// How many withdraws succeed.
pub open spec fn succ_count(b: int, ops: Seq<(Seq<char>, int)>) -> int
    decreases ops.len(),
{
    if ops.len() == 0 {
        0
    } else if b >= ops[0].1 {
        1 + succ_count(b - ops[0].1, ops.drop_first())
    } else {
        succ_count(b, ops.drop_first())
    }
}

/// How many withdraws of product `name` succeed.
pub open spec fn succ_count_of(b: int, ops: Seq<(Seq<char>, int)>, name: Seq<char>) -> int
    decreases ops.len(),
{
    if ops.len() == 0 {
        0
    } else if b >= ops[0].1 {
        (if ops[0].0 == name {
            1int
        } else {
            0int
        }) + succ_count_of(b - ops[0].1, ops.drop_first(), name)
    } else {
        succ_count_of(b, ops.drop_first(), name)
    }
}

/// The log after the sequence: each successful withdraw appends its name.
pub open spec fn log_after(b: int, log: Seq<Seq<char>>, ops: Seq<(Seq<char>, int)>) -> Seq<
    Seq<char>,
>
    decreases ops.len(),
{
    if ops.len() == 0 {
        log
    } else if b >= ops[0].1 {
        log_after(b - ops[0].1, log.push(ops[0].0), ops.drop_first())
    } else {
        log_after(b, log, ops.drop_first())
    }
}

/// How often `name` occurs in a log.
pub open spec fn count_of(log: Seq<Seq<char>>, name: Seq<char>) -> int
    decreases log.len(),
{
    if log.len() == 0 {
        0
    } else {
        (if log[0] == name {
            1int
        } else {
            0int
        }) + count_of(log.drop_first(), name)
    }
}

/// The sum of all amounts, successful or not.
pub open spec fn total(ops: Seq<(Seq<char>, int)>) -> int
    decreases ops.len(),
{
    if ops.len() == 0 {
        0
    } else {
        ops[0].1 + total(ops.drop_first())
    }
}

/// All amounts in the sequence are non-negative.
pub open spec fn amounts_nonneg(ops: Seq<(Seq<char>, int)>) -> bool {
    forall|k: int| 0 <= k < ops.len() ==> ops[k].1 >= 0
}

/// `t` is an interleaving of `s1` and `s2`: it merges the two, keeping each
/// one's internal order. This is how two concurrent sessions' operations can
/// reach the shared state, in any schedule.
pub open spec fn is_interleaving(
    s1: Seq<(Seq<char>, int)>,
    s2: Seq<(Seq<char>, int)>,
    t: Seq<(Seq<char>, int)>,
) -> bool
    decreases t.len(),
{
    if t.len() == 0 {
        s1.len() == 0 && s2.len() == 0
    } else {
        ||| (s1.len() > 0 && s1[0] == t[0] && is_interleaving(s1.drop_first(), s2, t.drop_first()))
        ||| (s2.len() > 0 && s2[0] == t[0] && is_interleaving(s1, s2.drop_first(), t.drop_first()))
    }
}

/// Balance non-negativity: for every sequence of withdraws of non-negative
/// amounts against a non-negative balance, the final balance is the initial
/// balance minus exactly the sum of the successful amounts, and the balance
/// is non-negative after every prefix of the sequence.
pub proof fn lemma_balance_non_negativity(b: int, ops: Seq<(Seq<char>, int)>)
    requires
        b >= 0,
        amounts_nonneg(ops),
    ensures
        balance_after(b, ops) == b - spent(b, ops),
        0 <= spent(b, ops) <= b,
        forall|k: int| 0 <= k <= ops.len() ==> balance_after(b, #[trigger] ops.take(k)) >= 0,
    decreases ops.len(),
{
    if ops.len() > 0 {
        let rest = ops.drop_first();
        if b >= ops[0].1 {
            lemma_balance_non_negativity(b - ops[0].1, rest);
        } else {
            lemma_balance_non_negativity(b, rest);
        }
    }
    assert forall|k: int| 0 <= k <= ops.len() implies balance_after(b, #[trigger] ops.take(k))
        >= 0 by {
        if k == ops.len() {
            assert(ops.take(k) =~= ops);
        } else {
            let p = ops.take(k);
            assert(amounts_nonneg(p));
            lemma_prefix_balance(b, p);
        }
    }
}

/// The balance stays non-negative over any non-negative amounts.
proof fn lemma_prefix_balance(b: int, ops: Seq<(Seq<char>, int)>)
    requires
        b >= 0,
        amounts_nonneg(ops),
    ensures
        balance_after(b, ops) >= 0,
    decreases ops.len(),
{
    if ops.len() > 0 {
        if b >= ops[0].1 {
            lemma_prefix_balance(b - ops[0].1, ops.drop_first());
        } else {
            lemma_prefix_balance(b, ops.drop_first());
        }
    }
}

/// Withdraw atomicity under equal amounts: when every operation withdraws
/// the same positive amount `a` from an initial balance `b`, exactly
/// `b / a` of them succeed, capped at the number of operations — whatever
/// the order, i.e. whatever the thread schedule.
pub proof fn lemma_withdraw_atomicity(b: int, a: int, ops: Seq<(Seq<char>, int)>)
    requires
        b >= 0,
        a > 0,
        forall|k: int| 0 <= k < ops.len() ==> ops[k].1 == a,
    ensures
        succ_count(b, ops) == if b / a < ops.len() {
            b / a
        } else {
            ops.len() as int
        },
    decreases ops.len(),
{
    if ops.len() == 0 {
        lemma_div_pos_is_pos(b, a);
    } else {
        let rest = ops.drop_first();
        if b >= a {
            lemma_withdraw_atomicity(b - a, a, rest);
            lemma_div_minus_one(b, a);
        } else {
            lemma_withdraw_atomicity(b, a, rest);
            lemma_basic_div(b, a);
        }
    }
}

/// Counting occurrences after a push.
proof fn lemma_count_push(log: Seq<Seq<char>>, x: Seq<char>, name: Seq<char>)
    ensures
        count_of(log.push(x), name) == count_of(log, name) + if x == name {
            1int
        } else {
            0int
        },
    decreases log.len(),
{
    assert(log.push(x)[0] == if log.len() == 0 {
        x
    } else {
        log[0]
    });
    if log.len() == 0 {
        assert(log.push(x).drop_first() =~= Seq::<Seq<char>>::empty());
        assert(count_of(log.push(x).drop_first(), name) == 0);
    } else {
        assert(log.push(x).drop_first() =~= log.drop_first().push(x));
        lemma_count_push(log.drop_first(), x, name);
    }
}

/// Append completeness: after any sequence of withdraws, the log has grown
/// by exactly one entry per successful withdraw, and each product's name
/// occurs exactly once per successful withdraw of that product.
pub proof fn lemma_append_completeness(
    b: int,
    log: Seq<Seq<char>>,
    ops: Seq<(Seq<char>, int)>,
    name: Seq<char>,
)
    ensures
        log_after(b, log, ops).len() == log.len() + succ_count(b, ops),
        count_of(log_after(b, log, ops), name) == count_of(log, name) + succ_count_of(
            b,
            ops,
            name,
        ),
    decreases ops.len(),
{
    if ops.len() > 0 {
        let rest = ops.drop_first();
        if b >= ops[0].1 {
            lemma_count_push(log, ops[0].0, name);
            lemma_append_completeness(b - ops[0].1, log.push(ops[0].0), rest, name);
        } else {
            lemma_append_completeness(b, log, rest, name);
        }
    }
}

/// The sum of non-negative amounts is non-negative, and bounds each element.
proof fn lemma_total_nonneg(ops: Seq<(Seq<char>, int)>)
    requires
        amounts_nonneg(ops),
    ensures
        total(ops) >= 0,
    decreases ops.len(),
{
    if ops.len() > 0 {
        assert(amounts_nonneg(ops.drop_first()));
        lemma_total_nonneg(ops.drop_first());
    }
}

/// When the whole sum fits in the balance, every withdraw succeeds: the
/// final balance is the initial balance minus the whole sum, and the log
/// grows by one entry per operation.
pub proof fn lemma_all_succeed(b: int, log: Seq<Seq<char>>, ops: Seq<(Seq<char>, int)>)
    requires
        amounts_nonneg(ops),
        total(ops) <= b,
    ensures
        balance_after(b, ops) == b - total(ops),
        log_after(b, log, ops).len() == log.len() + ops.len(),
    decreases ops.len(),
{
    if ops.len() > 0 {
        let rest = ops.drop_first();
        assert(amounts_nonneg(rest));
        lemma_total_nonneg(rest);
        lemma_all_succeed(b - ops[0].1, log.push(ops[0].0), rest);
    }
}

/// An interleaving carries over length, sum, and non-negativity of amounts.
pub proof fn lemma_interleaving_parts(
    s1: Seq<(Seq<char>, int)>,
    s2: Seq<(Seq<char>, int)>,
    t: Seq<(Seq<char>, int)>,
)
    requires
        is_interleaving(s1, s2, t),
    ensures
        t.len() == s1.len() + s2.len(),
        total(t) == total(s1) + total(s2),
        amounts_nonneg(s1) && amounts_nonneg(s2) ==> amounts_nonneg(t),
    decreases t.len(),
{
    if t.len() > 0 {
        if s1.len() > 0 && s1[0] == t[0] && is_interleaving(s1.drop_first(), s2, t.drop_first()) {
            lemma_interleaving_parts(s1.drop_first(), s2, t.drop_first());
            assert(amounts_nonneg(s1) ==> amounts_nonneg(s1.drop_first()));
            assert(amounts_nonneg(s1) && amounts_nonneg(s2) ==> amounts_nonneg(t)) by {
                if amounts_nonneg(s1) && amounts_nonneg(s2) {
                    assert forall|k: int| 0 <= k < t.len() implies t[k].1 >= 0 by {
                        if k > 0 {
                            assert(t[k] == t.drop_first()[k - 1]);
                        }
                    }
                }
            }
        } else {
            lemma_interleaving_parts(s1, s2.drop_first(), t.drop_first());
            assert(amounts_nonneg(s2) ==> amounts_nonneg(s2.drop_first()));
            assert(amounts_nonneg(s1) && amounts_nonneg(s2) ==> amounts_nonneg(t)) by {
                if amounts_nonneg(s1) && amounts_nonneg(s2) {
                    assert forall|k: int| 0 <= k < t.len() implies t[k].1 >= 0 by {
                        if k > 0 {
                            assert(t[k] == t.drop_first()[k - 1]);
                        }
                    }
                }
            }
        }
    }
}

/// No lost updates: when two sessions' withdraws fit in the balance
/// together, every interleaving of them — every thread schedule — ends at
/// the same final balance and the same log length. Which order the entries
/// land in may differ; the totals never do.
pub proof fn lemma_no_lost_updates(
    b: int,
    log: Seq<Seq<char>>,
    s1: Seq<(Seq<char>, int)>,
    s2: Seq<(Seq<char>, int)>,
    t1: Seq<(Seq<char>, int)>,
    t2: Seq<(Seq<char>, int)>,
)
    requires
        amounts_nonneg(s1),
        amounts_nonneg(s2),
        total(s1) + total(s2) <= b,
        is_interleaving(s1, s2, t1),
        is_interleaving(s1, s2, t2),
    ensures
        balance_after(b, t1) == balance_after(b, t2),
        balance_after(b, t1) == b - (total(s1) + total(s2)),
        log_after(b, log, t1).len() == log_after(b, log, t2).len(),
        log_after(b, log, t1).len() == log.len() + s1.len() + s2.len(),
{
    lemma_interleaving_parts(s1, s2, t1);
    lemma_interleaving_parts(s1, s2, t2);
    lemma_all_succeed(b, log, t1);
    lemma_all_succeed(b, log, t2);
}

} // verus!
