use shopcart::{Pocket, SessionEnd, ShopError, StepOutcome, Store, Wallet};
use shopcart::session::{run_session, session_step};
use shopcart::text::{join_strings, str_eq, u32_to_string};

fn cmds(list: &[&str]) -> Vec<String> {
    list.iter().map(|s| s.to_string()).collect()
}

#[test]
fn wallet_starts_at_default_balance() {
    let wallet = Wallet::new();
    assert_eq!(wallet.get_balance(), 30000);
}

#[test]
fn wallet_with_balance_takes_initial_value() {
    let wallet = Wallet::with_balance(250);
    assert_eq!(wallet.get_balance(), 250);
}

#[test]
fn withdraw_success_debits_exactly() {
    let mut wallet = Wallet::with_balance(100);
    assert!(wallet.safe_withdraw(40));
    assert_eq!(wallet.get_balance(), 60);
}

#[test]
fn withdraw_failure_changes_nothing() {
    let mut wallet = Wallet::with_balance(100);
    assert!(!wallet.safe_withdraw(101));
    assert_eq!(wallet.get_balance(), 100);
}

#[test]
fn withdraw_whole_balance_reaches_zero() {
    let mut wallet = Wallet::with_balance(100);
    assert!(wallet.safe_withdraw(100));
    assert_eq!(wallet.get_balance(), 0);
}

#[test]
fn equal_withdraws_admit_floor_of_quotient() {
    // Three contenders for 30000 against 30000: exactly floor(30000/30000) = 1 wins.
    let mut wallet = Wallet::with_balance(30000);
    let results = [
        wallet.safe_withdraw(30000),
        wallet.safe_withdraw(30000),
        wallet.safe_withdraw(30000),
    ];
    assert_eq!(results.iter().filter(|r| **r).count(), 1);
    assert_eq!(wallet.get_balance(), 0);
}

#[test]
fn equal_withdraws_capped_at_contenders() {
    // Two contenders for 40 against 100: floor(100/40) = 2 would win, both do.
    let mut wallet = Wallet::with_balance(100);
    assert!(wallet.safe_withdraw(40));
    assert!(wallet.safe_withdraw(40));
    assert!(!wallet.safe_withdraw(40));
    assert_eq!(wallet.get_balance(), 20);
}

#[test]
fn store_has_the_fixed_catalog() {
    let store = Store::new();
    assert_eq!(store.get_product_price("candies"), Ok(1));
    assert_eq!(store.get_product_price("car"), Ok(30000));
    assert_eq!(store.get_product_price("pen"), Ok(40));
    assert_eq!(store.get_product_price("book"), Ok(100));
}

#[test]
fn store_reports_unknown_product() {
    let store = Store::new();
    assert_eq!(store.get_product_price("bicycle"), Err(ShopError::ProductNotFound));
}

#[test]
fn store_as_string_lists_every_entry() {
    let store = Store::new();
    assert_eq!(store.as_string(), "candies\t1\ncar\t30000\npen\t40\nbook\t100\n");
}

#[test]
fn from_entries_accepts_unique_nonnegative() {
    let store = Store::from_entries(vec![
        ("tea".to_string(), 3),
        ("mug".to_string(), 12),
    ])
    .expect("a valid catalog");
    assert_eq!(store.get_product_price("tea"), Ok(3));
    assert_eq!(store.get_product_price("mug"), Ok(12));
    assert_eq!(store.get_product_price("pen"), Err(ShopError::ProductNotFound));
}

#[test]
fn from_entries_rejects_duplicate_name() {
    let r = Store::from_entries(vec![
        ("tea".to_string(), 3),
        ("tea".to_string(), 5),
    ]);
    assert!(r.is_none());
}

#[test]
fn from_entries_rejects_negative_price() {
    let r = Store::from_entries(vec![("tea".to_string(), -1)]);
    assert!(r.is_none());
}

#[test]
fn pocket_starts_empty() {
    let pocket = Pocket::new();
    assert_eq!(pocket.snapshot().len(), 0);
    assert_eq!(pocket.get_pocket(), "");
}

#[test]
fn pocket_appends_in_order() {
    let mut pocket = Pocket::new();
    pocket.add_product("book".to_string());
    pocket.add_product("pen".to_string());
    assert_eq!(pocket.snapshot(), vec!["book".to_string(), "pen".to_string()]);
    assert_eq!(pocket.get_pocket(), "book, pen");
}

#[test]
fn pocket_snapshot_is_a_copy() {
    let mut pocket = Pocket::new();
    pocket.add_product("book".to_string());
    let before = pocket.snapshot();
    pocket.add_product("pen".to_string());
    assert_eq!(before, vec!["book".to_string()]);
    assert_eq!(pocket.snapshot().len(), 2);
}

#[test]
fn step_quit_changes_nothing() {
    let store = Store::new();
    let mut wallet = Wallet::new();
    let mut pocket = Pocket::new();
    let outcome = session_step(&store, &mut wallet, &mut pocket, "quit");
    assert_eq!(outcome, StepOutcome::Quit);
    assert_eq!(wallet.get_balance(), 30000);
    assert_eq!(pocket.snapshot().len(), 0);
}

#[test]
fn step_purchase_debits_and_logs() {
    let store = Store::new();
    let mut wallet = Wallet::new();
    let mut pocket = Pocket::new();
    let outcome = session_step(&store, &mut wallet, &mut pocket, "book");
    assert_eq!(outcome, StepOutcome::Purchased);
    assert_eq!(wallet.get_balance(), 29900);
    assert_eq!(pocket.snapshot(), vec!["book".to_string()]);
}

#[test]
fn step_unknown_product_changes_nothing() {
    // A session asking for "bicycle" ends with ProductNotFound and must not
    // have touched the balance or the log.
    let store = Store::new();
    let mut wallet = Wallet::new();
    let mut pocket = Pocket::new();
    let outcome = session_step(&store, &mut wallet, &mut pocket, "bicycle");
    assert_eq!(outcome, StepOutcome::ProductNotFound);
    assert_eq!(wallet.get_balance(), 30000);
    assert_eq!(pocket.snapshot().len(), 0);
}

#[test]
fn step_insufficient_funds_changes_nothing() {
    let store = Store::new();
    let mut wallet = Wallet::with_balance(39);
    let mut pocket = Pocket::new();
    let outcome = session_step(&store, &mut wallet, &mut pocket, "pen");
    assert_eq!(outcome, StepOutcome::InsufficientFunds);
    assert_eq!(wallet.get_balance(), 39);
    assert_eq!(pocket.snapshot().len(), 0);
}

#[test]
fn outcome_messages_distinguish_conditions() {
    assert_eq!(StepOutcome::Purchased.describe(), "purchase succeeded");
    assert_eq!(
        StepOutcome::InsufficientFunds.describe(),
        "insufficient funds, session ending"
    );
    assert_eq!(
        StepOutcome::ProductNotFound.describe(),
        "unknown product, session ending"
    );
    assert_eq!(StepOutcome::Quit.describe(), "session ending");
}

#[test]
fn session_buys_car_with_whole_balance() {
    // Buying "car" (30000) from balance 30000 succeeds and empties the wallet.
    let store = Store::new();
    let mut wallet = Wallet::new();
    let mut pocket = Pocket::new();
    let end = run_session(&store, &mut wallet, &mut pocket, &cmds(&["car"]));
    assert_eq!(end, SessionEnd::OutOfCommands);
    assert_eq!(wallet.get_balance(), 0);
    assert_eq!(pocket.snapshot(), vec!["car".to_string()]);
}

#[test]
fn session_stops_at_insufficient_funds() {
    // "car" then "pen" from 30000: the second withdraw fails and the session
    // ends with only the car in the log.
    let store = Store::new();
    let mut wallet = Wallet::new();
    let mut pocket = Pocket::new();
    let end = run_session(&store, &mut wallet, &mut pocket, &cmds(&["car", "pen"]));
    assert_eq!(end, SessionEnd::InsufficientFunds);
    assert_eq!(wallet.get_balance(), 0);
    assert_eq!(pocket.snapshot(), vec!["car".to_string()]);
}

#[test]
fn session_ends_on_unknown_product() {
    let store = Store::new();
    let mut wallet = Wallet::new();
    let mut pocket = Pocket::new();
    let end = run_session(&store, &mut wallet, &mut pocket, &cmds(&["bicycle"]));
    assert_eq!(end, SessionEnd::ProductNotFound);
    assert_eq!(wallet.get_balance(), 30000);
    assert_eq!(pocket.snapshot().len(), 0);
}

#[test]
fn session_ends_on_quit() {
    let store = Store::new();
    let mut wallet = Wallet::new();
    let mut pocket = Pocket::new();
    let end = run_session(&store, &mut wallet, &mut pocket, &cmds(&["book", "quit", "pen"]));
    assert_eq!(end, SessionEnd::Quit);
    assert_eq!(wallet.get_balance(), 29900);
    assert_eq!(pocket.snapshot(), vec!["book".to_string()]);
}

fn count_in(log: &[String], name: &str) -> usize {
    log.iter().filter(|s| s.as_str() == name).count()
}

#[test]
fn two_sessions_book_pen_quit_sequentially() {
    // Two sessions, each buying "book" (100) then "pen" (40) then quitting,
    // against one shared wallet of 30000: final balance 29720 and the log
    // holds book twice and pen twice.
    let store = Store::new();
    let mut wallet = Wallet::new();
    let mut pocket = Pocket::new();
    let script = cmds(&["book", "pen", "quit"]);
    let end1 = run_session(&store, &mut wallet, &mut pocket, &script);
    let end2 = run_session(&store, &mut wallet, &mut pocket, &script);
    assert_eq!(end1, SessionEnd::Quit);
    assert_eq!(end2, SessionEnd::Quit);
    assert_eq!(wallet.get_balance(), 29720);
    let log = pocket.snapshot();
    assert_eq!(log.len(), 4);
    assert_eq!(count_in(&log, "book"), 2);
    assert_eq!(count_in(&log, "pen"), 2);
}

#[test]
fn two_sessions_book_pen_quit_interleaved() {
    // The same two sessions with their steps interleaved: the totals match
    // the sequential run, only the order within the log may differ.
    let store = Store::new();
    let mut wallet = Wallet::new();
    let mut pocket = Pocket::new();
    for command in ["book", "book", "pen", "pen", "quit", "quit"] {
        session_step(&store, &mut wallet, &mut pocket, command);
    }
    assert_eq!(wallet.get_balance(), 29720);
    let log = pocket.snapshot();
    assert_eq!(log.len(), 4);
    assert_eq!(count_in(&log, "book"), 2);
    assert_eq!(count_in(&log, "pen"), 2);
}

#[test]
fn every_interleaving_reaches_the_same_totals() {
    // Two sessions, each buying "book" then "pen": whichever way their four
    // steps interleave, the final balance and the log length are the same.
    let interleavings: [[u8; 4]; 6] = [
        [1, 1, 2, 2],
        [1, 2, 1, 2],
        [1, 2, 2, 1],
        [2, 1, 1, 2],
        [2, 1, 2, 1],
        [2, 2, 1, 1],
    ];
    for order in interleavings {
        let store = Store::new();
        let mut wallet = Wallet::new();
        let mut pocket = Pocket::new();
        let mut next1 = ["book", "pen"].iter();
        let mut next2 = ["book", "pen"].iter();
        for session in order {
            let command = if session == 1 { next1.next() } else { next2.next() };
            let outcome = session_step(&store, &mut wallet, &mut pocket, command.unwrap());
            assert_eq!(outcome, StepOutcome::Purchased);
        }
        assert_eq!(wallet.get_balance(), 29720);
        let log = pocket.snapshot();
        assert_eq!(log.len(), 4);
        assert_eq!(count_in(&log, "book"), 2);
        assert_eq!(count_in(&log, "pen"), 2);
    }
}

#[test]
fn repeated_runs_are_deterministic() {
    // Running the same scenario again yields the same final balance and the
    // same log length.
    let mut balances = Vec::new();
    let mut lengths = Vec::new();
    for _ in 0..3 {
        let store = Store::new();
        let mut wallet = Wallet::new();
        let mut pocket = Pocket::new();
        let script = cmds(&["book", "pen", "quit"]);
        run_session(&store, &mut wallet, &mut pocket, &script);
        run_session(&store, &mut wallet, &mut pocket, &script);
        balances.push(wallet.get_balance());
        lengths.push(pocket.snapshot().len());
    }
    assert!(balances.iter().all(|b| *b == 29720));
    assert!(lengths.iter().all(|l| *l == 4));
}

#[test]
fn balance_accounts_for_successful_withdraws_only() {
    // Final balance is the initial balance minus the sum of exactly the
    // withdraws that returned true.
    let mut wallet = Wallet::with_balance(150);
    let attempts = [100, 100, 40, 20];
    let mut successful_sum = 0;
    for amount in attempts {
        if wallet.safe_withdraw(amount) {
            successful_sum += amount;
        }
        assert!(wallet.get_balance() >= 0);
    }
    assert_eq!(successful_sum, 140);
    assert_eq!(wallet.get_balance(), 150 - successful_sum);
}

#[test]
fn log_length_equals_successful_withdraw_count() {
    let store = Store::new();
    let mut wallet = Wallet::with_balance(200);
    let mut pocket = Pocket::new();
    let mut purchases = 0;
    for command in ["book", "pen", "book", "pen", "candies"] {
        if session_step(&store, &mut wallet, &mut pocket, command) == StepOutcome::Purchased {
            purchases += 1;
        }
        assert_eq!(pocket.snapshot().len(), purchases);
    }
    // 100 + 40 succeed, the second book (100) fails on 60, the second pen
    // (40) succeeds on 60, candies (1) succeeds on 20.
    assert_eq!(purchases, 4);
    assert_eq!(wallet.get_balance(), 19);
}

#[test]
fn str_eq_compares_contents() {
    assert!(str_eq("pen", "pen"));
    assert!(!str_eq("pen", "pens"));
    assert!(!str_eq("pen", "peg"));
    assert!(str_eq("", ""));
}

#[test]
fn u32_to_string_renders_decimal() {
    assert_eq!(u32_to_string(0), "0");
    assert_eq!(u32_to_string(7), "7");
    assert_eq!(u32_to_string(30000), "30000");
    assert_eq!(u32_to_string(4294967295), "4294967295");
}

#[test]
fn join_strings_puts_separator_between() {
    assert_eq!(join_strings(&cmds(&[]), ", "), "");
    assert_eq!(join_strings(&cmds(&["a"]), ", "), "a");
    assert_eq!(join_strings(&cmds(&["a", "b", "c"]), ", "), "a, b, c");
}
