//! The per-session shopping protocol.
//!
//! A session repeatedly takes a command, looks its price up in the shared
//! catalog, attempts the atomic withdraw against the shared wallet and, on
//! success, appends the purchase to the shared pocket. `session_step` is one
//! such round as a pure state transition; `run_session` drives a whole
//! command sequence until a quit command, an unknown product, an exhausted
//! balance, or the end of the commands. Terminal input and the threads that
//! interleave several sessions stay outside the library and feed commands in
//! as plain strings.

use vstd::prelude::*;
use crate::model::{balance_after, log_after};
use crate::pocket::Pocket;
use crate::store::Store;
use crate::text::str_eq;
use crate::wallet::Wallet;

verus! {

/// What one shopping round did.
#[derive(Clone, Copy, PartialEq, Eq, Structural, Debug)]
pub enum StepOutcome {
    /// The withdraw succeeded and the purchase was logged.
    Purchased,
    /// The command was the quit token; nothing changed.
    Quit,
    /// The catalog does not have the product; nothing changed.
    ProductNotFound,
    /// The balance was too small; nothing changed.
    InsufficientFunds,
}

/// Why a session's loop ended.
#[derive(Clone, Copy, PartialEq, Eq, Structural, Debug)]
pub enum SessionEnd {
    /// Every command was consumed and purchased.
    OutOfCommands,
    /// A quit command ended the session.
    Quit,
    /// An unknown product ended the session.
    ProductNotFound,
    /// A failed withdraw ended the session.
    InsufficientFunds,
}

/// The state a finished session run leaves behind.
pub struct SessionResult {
    /// The wallet balance after the run.
    pub balance: int,
    /// The pocket contents after the run.
    pub log: Seq<Seq<char>>,
    /// Why the run stopped.
    pub end: SessionEnd,
}

/// The outcome of one round on command `cmd` with balance `balance`.
pub open spec fn step_outcome(store: Store, balance: int, cmd: Seq<char>) -> StepOutcome {
    if cmd == "quit"@ {
        StepOutcome::Quit
    } else {
        match store.price_of(cmd) {
            Option::None => StepOutcome::ProductNotFound,
            Option::Some(price) => if balance >= price {
                StepOutcome::Purchased
            } else {
                StepOutcome::InsufficientFunds
            },
        }
    }
}

/// The balance after one round: debited by the price exactly on a purchase.
pub open spec fn step_balance(store: Store, balance: int, cmd: Seq<char>) -> int {
    if step_outcome(store, balance, cmd) is Purchased {
        balance - store.price_of(cmd)->Some_0
    } else {
        balance
    }
}

/// The log after one round: the command appended exactly on a purchase.
pub open spec fn step_log(store: Store, balance: int, log: Seq<Seq<char>>, cmd: Seq<char>) -> Seq<
    Seq<char>,
> {
    if step_outcome(store, balance, cmd) is Purchased {
        log.push(cmd)
    } else {
        log
    }
}

/// The user-facing message for each outcome.
pub open spec fn outcome_message(o: StepOutcome) -> Seq<char> {
    match o {
        StepOutcome::Purchased => "purchase succeeded"@,
        StepOutcome::Quit => "session ending"@,
        StepOutcome::ProductNotFound => "unknown product, session ending"@,
        StepOutcome::InsufficientFunds => "insufficient funds, session ending"@,
    }
}

/// The session run over the commands from position `i` on: rounds repeat
/// while they purchase, and the first non-purchase round ends the run with
/// the state it left.
pub open spec fn run_from(
    store: Store,
    balance: int,
    log: Seq<Seq<char>>,
    cmds: Seq<Seq<char>>,
    i: int,
) -> SessionResult
    decreases cmds.len() - i,
{
    if i < 0 || i >= cmds.len() {
        SessionResult { balance, log, end: SessionEnd::OutOfCommands }
    } else {
        match step_outcome(store, balance, cmds[i]) {
            StepOutcome::Purchased => run_from(
                store,
                step_balance(store, balance, cmds[i]),
                step_log(store, balance, log, cmds[i]),
                cmds,
                i + 1,
            ),
            StepOutcome::Quit => SessionResult { balance, log, end: SessionEnd::Quit },
            StepOutcome::ProductNotFound => SessionResult {
                balance,
                log,
                end: SessionEnd::ProductNotFound,
            },
            StepOutcome::InsufficientFunds => SessionResult {
                balance,
                log,
                end: SessionEnd::InsufficientFunds,
            },
        }
    }
}

impl StepOutcome {
    /// The user-visible message distinguishing the outcomes.
    pub fn describe(&self) -> (r: &'static str)
        ensures
            r@ == outcome_message(*self),
    {
        match self {
            StepOutcome::Purchased => "purchase succeeded",
            StepOutcome::Quit => "session ending",
            StepOutcome::ProductNotFound => "unknown product, session ending",
            StepOutcome::InsufficientFunds => "insufficient funds, session ending",
        }
    }

}

/// One shopping round: quit check, catalog lookup, atomic withdraw, and on
/// success the append to the pocket. Exactly a purchase mutates the shared
/// state, and it debits the wallet by the catalog price of `command` and
/// appends `command` to the pocket.
pub fn session_step(store: &Store, wallet: &mut Wallet, pocket: &mut Pocket, command: &str) -> (r:
    StepOutcome)
    requires
        store.wf(),
    ensures
        r == step_outcome(*store, old(wallet).balance_spec(), command@),
        final(wallet).balance_spec() == step_balance(*store, old(wallet).balance_spec(), command@),
        final(pocket).log() == step_log(
            *store,
            old(wallet).balance_spec(),
            old(pocket).log(),
            command@,
        ),
        old(wallet).inv() ==> final(wallet).inv(),
{
    if str_eq(command, "quit") {
        return StepOutcome::Quit;
    }
    match store.get_product_price(command) {
        Err(_) => StepOutcome::ProductNotFound,
        Ok(price) => {
            proof {
                crate::store::lemma_lookup_price_nonneg(store.entries(), 0, command@);
            }
            if wallet.safe_withdraw(price) {
                pocket.add_product(command.to_owned());
                StepOutcome::Purchased
            } else {
                StepOutcome::InsufficientFunds
            }
        },
    }
}

/// A whole session over a fixed command sequence: rounds run while they
/// purchase; the first quit, unknown product or failed withdraw ends the
/// run, as does running out of commands. The final wallet and pocket are
/// exactly what the round-by-round specification `run_from` computes.
pub fn run_session(
    store: &Store,
    wallet: &mut Wallet,
    pocket: &mut Pocket,
    commands: &Vec<String>,
) -> (end: SessionEnd)
    requires
        store.wf(),
    ensures
        ({
            let r = run_from(
                *store,
                old(wallet).balance_spec(),
                old(pocket).log(),
                crate::text::views_of(commands@),
                0,
            );
            &&& end == r.end
            &&& final(wallet).balance_spec() == r.balance
            &&& final(pocket).log() == r.log
        }),
        old(wallet).inv() ==> final(wallet).inv(),
{
    let ghost cmds = crate::text::views_of(commands@);
    let ghost b0 = wallet.balance_spec();
    let ghost log0 = pocket.log();
    let ghost inv0 = old(wallet).inv();
    let mut i: usize = 0;
    while i < commands.len()
        invariant
            i <= commands.len(),
            cmds == crate::text::views_of(commands@),
            cmds.len() == commands.len(),
            store.wf(),
            inv0 == old(wallet).inv(),
            b0 == old(wallet).balance_spec(),
            log0 == old(pocket).log(),
            inv0 ==> wallet.inv(),
            run_from(*store, wallet.balance_spec(), pocket.log(), cmds, i as int) == run_from(
                *store,
                b0,
                log0,
                cmds,
                0,
            ),
        decreases commands.len() - i,
    {
        let outcome = session_step(store, wallet, pocket, commands[i].as_str());
        match outcome {
            StepOutcome::Purchased => {
                i = i + 1;
            },
            StepOutcome::Quit => {
                return SessionEnd::Quit;
            },
            StepOutcome::ProductNotFound => {
                return SessionEnd::ProductNotFound;
            },
            StepOutcome::InsufficientFunds => {
                return SessionEnd::InsufficientFunds;
            },
        }
    }
    SessionEnd::OutOfCommands
}

/// The withdraw attempts a session submits to the shared state: one
/// `(name, price)` operation per round, up to and including the first failed
/// withdraw; a quit command, an unknown product and the end of the commands
/// submit nothing further.
pub open spec fn submitted_ops(store: Store, balance: int, cmds: Seq<Seq<char>>, i: int) -> Seq<
    (Seq<char>, int),
>
    decreases cmds.len() - i,
{
    if i < 0 || i >= cmds.len() || cmds[i] == "quit"@ {
        Seq::empty()
    } else {
        match store.price_of(cmds[i]) {
            Option::None => Seq::empty(),
            Option::Some(price) => if balance >= price {
                seq![(cmds[i], price)] + submitted_ops(store, balance - price, cmds, i + 1)
            } else {
                seq![(cmds[i], price)]
            },
        }
    }
}

/// A session's effect on the shared state is exactly the concurrency model's
/// effect of the operations it submits: the session driver itself adds no
/// mutation beyond its withdraw-and-append rounds.
pub proof fn lemma_session_matches_model(
    store: Store,
    balance: int,
    log: Seq<Seq<char>>,
    cmds: Seq<Seq<char>>,
    i: int,
)
    ensures
        run_from(store, balance, log, cmds, i).balance == balance_after(
            balance,
            submitted_ops(store, balance, cmds, i),
        ),
        run_from(store, balance, log, cmds, i).log == log_after(
            balance,
            log,
            submitted_ops(store, balance, cmds, i),
        ),
    decreases cmds.len() - i,
{
    let ops = submitted_ops(store, balance, cmds, i);
    let empty = Seq::<(Seq<char>, int)>::empty();
    assert(balance_after(balance, empty) == balance);
    assert(log_after(balance, log, empty) == log);
    if 0 <= i < cmds.len() && cmds[i] != "quit"@ {
        match store.price_of(cmds[i]) {
            Option::None => {},
            Option::Some(price) => {
                if balance >= price {
                    let rest = submitted_ops(store, balance - price, cmds, i + 1);
                    assert(ops[0] == (cmds[i], price));
                    assert(ops.drop_first() =~= rest);
                    lemma_session_matches_model(
                        store,
                        balance - price,
                        log.push(cmds[i]),
                        cmds,
                        i + 1,
                    );
                    assert(balance_after(balance, ops) == balance_after(balance - price, rest));
                    assert(log_after(balance, log, ops) == log_after(
                        balance - price,
                        log.push(cmds[i]),
                        rest,
                    ));
                } else {
                    assert(ops[0] == (cmds[i], price));
                    assert(ops.drop_first() =~= empty);
                    assert(balance_after(balance, ops) == balance_after(balance, empty));
                    assert(log_after(balance, log, ops) == log_after(balance, log, empty));
                }
            },
        }
    }
}

} // verus!
