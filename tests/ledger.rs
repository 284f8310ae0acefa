use rune_launchpad::contract::{registry_is_valid, Contract, OldContract};
use rune_launchpad::runes::{LaunchType, Rune, RuneError};

fn s(x: &str) -> String {
    x.to_string()
}

fn launchpad() -> Contract {
    Contract::new(s("mpc"), s("admin"), s("usdt"))
}

#[test]
fn always_true() {
    assert_eq!(true, true);
}

#[test]
fn mint_and_get_success() {
    let mut contract = Contract::new_default(s("admin"));
    let ticker = "example".to_string();
    let created = contract.new_rune(
        &s("admin"),
        ticker.clone(),
        "FixedPrice".to_string(),
        1000,
        1,
        s("creator"),
    );
    assert_eq!(created, Ok(()));
    let rune = contract.get_rune(ticker).ok().unwrap();
    assert_eq!(rune.total, 1000);
    assert_eq!(rune.minted, 0);
    assert_eq!(rune.price, 1);
}

#[test]
fn default_services() {
    let contract = Contract::new_default(s("admin"));
    assert_eq!(contract.mpc_contract, "signer.canhazgas.testnet");
    assert_eq!(contract.usdt_contract, "wrap.testnet");
    assert_eq!(contract.admin, "admin");
}

#[test]
fn launch_scenario() {
    let mut c = launchpad();
    assert_eq!(
        c.new_rune(&s("admin"), s("ABC"), s("FixedPrice"), 1000, 2, s("creator")),
        Ok(())
    );
    assert_eq!(c.ft_on_transfer(&s("usdt"), s("alice"), 10, s("ABC")), Ok(0));
    assert_eq!(c.get_rune_balance(s("ABC"), s("alice")), Ok(5));
    let view = c.get_rune(s("ABC")).ok().unwrap();
    assert_eq!(view.minted, 5);
    assert_eq!(c.runes[0].creator_balance, 10);

    assert_eq!(
        c.ft_on_transfer(&s("usdt"), s("alice"), 1992, s("ABC")),
        Err(RuneError::SupplyExceeded)
    );
    assert_eq!(c.get_rune_balance(s("ABC"), s("alice")), Ok(5));
    assert_eq!(c.runes[0].minted, 5);
    assert_eq!(c.runes[0].creator_balance, 10);

    assert_eq!(c.withdraw(&s("admin"), s("ABC"), s("alice")), Ok(5));
    assert_eq!(c.get_rune_balance(s("ABC"), s("alice")), Ok(0));

    let payout = c.creator_withdraw(&s("creator"), s("ABC")).ok().unwrap();
    assert_eq!(payout.amount, 10);
    let transfer = payout.transfer.unwrap();
    assert_eq!(transfer.token, "usdt");
    assert_eq!(transfer.receiver, "creator");
    assert_eq!(transfer.amount, 10);
    assert_eq!(c.runes[0].creator_balance, 0);

    assert_eq!(c.on_creator_withdraw(s("ABC"), 10, false), Ok(()));
    assert_eq!(c.runes[0].creator_balance, 10);
}

#[test]
fn payment_buying_exactly_the_rest_succeeds() {
    let mut c = launchpad();
    c.new_rune(&s("admin"), s("ABC"), s("FixedPrice"), 1000, 2, s("creator")).unwrap();
    assert_eq!(c.ft_on_transfer(&s("usdt"), s("alice"), 10, s("ABC")), Ok(0));
    assert_eq!(c.ft_on_transfer(&s("usdt"), s("alice"), 1991, s("ABC")), Ok(0));
    assert_eq!(c.runes[0].minted, 1000);
    assert_eq!(c.get_rune_balance(s("ABC"), s("alice")), Ok(1000));
    assert_eq!(c.runes[0].creator_balance, 2001);
}

#[test]
fn other_launch_type_registers_nothing() {
    let mut c = launchpad();
    assert_eq!(
        c.new_rune(&s("admin"), s("BC"), s("BondingCurve"), 1000, 2, s("creator")),
        Ok(())
    );
    assert_eq!(c.runes.len(), 0);
    assert!(matches!(c.get_rune(s("BC")), Err(RuneError::UnknownTicker)));
}

#[test]
fn duplicate_ticker_is_refused() {
    let mut c = launchpad();
    assert_eq!(c.new_rune(&s("admin"), s("ABC"), s("FixedPrice"), 10, 1, s("x")), Ok(()));
    assert_eq!(
        c.new_rune(&s("admin"), s("ABC"), s("FixedPrice"), 20, 3, s("y")),
        Err(RuneError::DuplicateTicker)
    );
    assert_eq!(c.runes.len(), 1);
    assert_eq!(c.runes[0].total, 10);
}

#[test]
fn only_admin_creates() {
    let mut c = launchpad();
    assert_eq!(
        c.new_rune(&s("mallory"), s("ABC"), s("FixedPrice"), 10, 1, s("x")),
        Err(RuneError::Unauthorized)
    );
    assert_eq!(c.runes.len(), 0);
}

#[test]
fn payment_below_price_is_refused() {
    let mut c = launchpad();
    c.new_rune(&s("admin"), s("ABC"), s("FixedPrice"), 1000, 7, s("creator")).unwrap();
    assert_eq!(
        c.ft_on_transfer(&s("usdt"), s("alice"), 6, s("ABC")),
        Err(RuneError::InsufficientPayment)
    );
    assert_eq!(c.get_rune_balance(s("ABC"), s("alice")), Ok(0));
    assert_eq!(c.runes[0].minted, 0);
    assert_eq!(c.runes[0].creator_balance, 0);
    assert_eq!(c.get_rune_balances(0, None, s("alice")).len(), 0);
}

#[test]
fn remainder_goes_to_creator() {
    let mut c = launchpad();
    c.new_rune(&s("admin"), s("ABC"), s("FixedPrice"), 1000, 7, s("creator")).unwrap();
    assert_eq!(c.ft_on_transfer(&s("usdt"), s("alice"), 20, s("ABC")), Ok(0));
    assert_eq!(c.get_rune_balance(s("ABC"), s("alice")), Ok(2));
    assert_eq!(c.runes[0].creator_balance, 20);
}

#[test]
fn supply_can_be_sold_out_exactly() {
    let mut c = launchpad();
    c.new_rune(&s("admin"), s("ABC"), s("FixedPrice"), 10, 3, s("creator")).unwrap();
    assert_eq!(c.ft_on_transfer(&s("usdt"), s("alice"), 30, s("ABC")), Ok(0));
    assert_eq!(c.runes[0].minted, 10);
    assert_eq!(
        c.ft_on_transfer(&s("usdt"), s("bob"), 3, s("ABC")),
        Err(RuneError::SupplyExceeded)
    );
}

#[test]
fn payment_from_other_token_is_refused() {
    let mut c = launchpad();
    c.new_rune(&s("admin"), s("ABC"), s("FixedPrice"), 10, 1, s("creator")).unwrap();
    assert_eq!(
        c.ft_on_transfer(&s("fake"), s("alice"), 5, s("ABC")),
        Err(RuneError::Unauthorized)
    );
    assert_eq!(
        c.ft_on_transfer(&s("usdt"), s("alice"), 5, s("XYZ")),
        Err(RuneError::UnknownTicker)
    );
    assert_eq!(c.runes[0].minted, 0);
}

#[test]
fn escrow_overflow_is_refused() {
    let mut c = launchpad();
    c.new_rune(&s("admin"), s("ABC"), s("FixedPrice"), u128::MAX, u128::MAX / 2, s("creator")).unwrap();
    assert_eq!(c.ft_on_transfer(&s("usdt"), s("alice"), u128::MAX, s("ABC")), Ok(0));
    assert_eq!(
        c.ft_on_transfer(&s("usdt"), s("bob"), u128::MAX / 2, s("ABC")),
        Err(RuneError::AmountOverflow)
    );
    assert_eq!(c.runes[0].minted, 2);
}

#[test]
fn second_creator_withdraw_takes_nothing() {
    let mut c = launchpad();
    c.new_rune(&s("admin"), s("ABC"), s("FixedPrice"), 100, 1, s("creator")).unwrap();
    c.ft_on_transfer(&s("usdt"), s("alice"), 40, s("ABC")).unwrap();
    let first = c.creator_withdraw(&s("creator"), s("ABC")).ok().unwrap();
    assert_eq!(first.amount, 40);
    assert!(first.transfer.is_some());
    let second = c.creator_withdraw(&s("creator"), s("ABC")).ok().unwrap();
    assert_eq!(second.amount, 0);
    assert!(second.transfer.is_none());
    assert_eq!(c.on_creator_withdraw(s("ABC"), 40, false), Ok(()));
    assert_eq!(c.runes[0].creator_balance, 40);
}

#[test]
fn successful_transfer_changes_nothing() {
    let mut c = launchpad();
    c.new_rune(&s("admin"), s("ABC"), s("FixedPrice"), 100, 1, s("creator")).unwrap();
    c.ft_on_transfer(&s("usdt"), s("alice"), 40, s("ABC")).unwrap();
    c.creator_withdraw(&s("creator"), s("ABC")).ok().unwrap();
    assert_eq!(c.on_creator_withdraw(s("ABC"), 40, true), Ok(()));
    assert_eq!(c.runes[0].creator_balance, 0);
    assert_eq!(
        c.on_creator_withdraw(s("NOPE"), 40, false),
        Err(RuneError::UnknownTicker)
    );
}

#[test]
fn creator_withdraw_refuses_others_and_unknown_tickers() {
    let mut c = launchpad();
    c.new_rune(&s("admin"), s("ABC"), s("FixedPrice"), 100, 1, s("creator")).unwrap();
    c.ft_on_transfer(&s("usdt"), s("alice"), 40, s("ABC")).unwrap();
    assert!(matches!(
        c.creator_withdraw(&s("admin"), s("ABC")),
        Err(RuneError::Unauthorized)
    ));
    assert!(matches!(
        c.creator_withdraw(&s("creator"), s("XYZ")),
        Err(RuneError::UnknownTicker)
    ));
    assert_eq!(c.runes[0].creator_balance, 40);
}

#[test]
fn withdraw_clears_balance_and_index() {
    let mut c = launchpad();
    c.new_rune(&s("admin"), s("ABC"), s("FixedPrice"), 100, 1, s("creator")).unwrap();
    c.new_rune(&s("admin"), s("DEF"), s("FixedPrice"), 100, 1, s("creator")).unwrap();
    c.ft_on_transfer(&s("usdt"), s("alice"), 4, s("ABC")).unwrap();
    c.ft_on_transfer(&s("usdt"), s("alice"), 6, s("DEF")).unwrap();
    c.ft_on_transfer(&s("usdt"), s("bob"), 3, s("ABC")).unwrap();
    assert_eq!(c.withdraw(&s("bob"), s("ABC"), s("alice")), Err(RuneError::Unauthorized));
    assert_eq!(c.withdraw(&s("admin"), s("XYZ"), s("alice")), Err(RuneError::UnknownTicker));
    assert_eq!(c.withdraw(&s("admin"), s("ABC"), s("alice")), Ok(4));
    assert_eq!(c.get_rune_balance(s("ABC"), s("alice")), Ok(0));
    assert_eq!(c.get_rune_balance(s("ABC"), s("bob")), Ok(3));
    let listed = c.get_rune_balances(0, None, s("alice"));
    assert_eq!(listed.len(), 1);
    assert_eq!(listed[0].ticker, "DEF");
    assert_eq!(listed[0].balance, 6);
    assert_eq!(c.withdraw(&s("admin"), s("ABC"), s("alice")), Ok(0));
}

#[test]
fn balances_are_paged() {
    let mut c = launchpad();
    for t in ["A", "B", "C"] {
        c.new_rune(&s("admin"), s(t), s("FixedPrice"), 100, 1, s("creator")).unwrap();
    }
    c.ft_on_transfer(&s("usdt"), s("alice"), 1, s("A")).unwrap();
    c.ft_on_transfer(&s("usdt"), s("alice"), 2, s("B")).unwrap();
    c.ft_on_transfer(&s("usdt"), s("alice"), 3, s("C")).unwrap();
    c.ft_on_transfer(&s("usdt"), s("alice"), 4, s("A")).unwrap();
    let all = c.get_rune_balances(0, None, s("alice"));
    assert_eq!(all.len(), 3);
    assert_eq!(all[0].ticker, "A");
    assert_eq!(all[0].balance, 5);
    let page = c.get_rune_balances(1, Some(1), s("alice"));
    assert_eq!(page.len(), 1);
    assert_eq!(page[0].ticker, "B");
    assert_eq!(page[0].balance, 2);
    assert_eq!(c.get_rune_balances(5, None, s("alice")).len(), 0);
}

#[test]
fn runes_are_paged() {
    let mut c = launchpad();
    for i in 0..12u128 {
        c.new_rune(&s("admin"), format!("T{}", i), s("FixedPrice"), 100 + i, 1, s("creator")).unwrap();
    }
    let first = c.get_runes(0, None);
    assert_eq!(first.len(), 10);
    assert_eq!(first[0].ticker, "T0");
    let rest = c.get_runes(10, Some(5));
    assert_eq!(rest.len(), 2);
    assert_eq!(rest[1].ticker, "T11");
    assert_eq!(rest[1].total, 111);
    assert_eq!(c.get_runes(3, Some(0)).len(), 0);
    assert_eq!(c.get_runes(40, Some(3)).len(), 0);
}

#[test]
fn admin_changes_signer_and_signs() {
    let mut c = launchpad();
    assert_eq!(c.change_mpc_contract(&s("bob"), s("evil")), Err(RuneError::Unauthorized));
    assert_eq!(c.change_mpc_contract(&s("admin"), s("mpc2")), Ok(()));
    assert_eq!(c.mpc_contract, "mpc2");
    assert!(matches!(c.sign(&s("bob"), vec![1, 2], s("ABC"), 0), Err(RuneError::Unauthorized)));
    let req = c.sign(&s("admin"), vec![1, 2, 3], s("ABC"), 0).ok().unwrap();
    assert_eq!(req.signer, "mpc2");
    assert_eq!(req.payload, vec![1, 2, 3]);
    assert_eq!(req.path, "ABC");
}

#[test]
fn migrate_keeps_runes() {
    let mut c = launchpad();
    c.new_rune(&s("admin"), s("ABC"), s("FixedPrice"), 100, 1, s("creator")).unwrap();
    let old = OldContract {
        runes: c.runes,
        mpc_contract: s("mpc"),
        usdt_contract: s("usdt"),
        admin: s("admin"),
    };
    let mut m = Contract::migrate(old);
    assert_eq!(m.runes.len(), 1);
    assert_eq!(m.get_rune_balances(0, None, s("alice")).len(), 0);
    assert_eq!(m.ft_on_transfer(&s("usdt"), s("alice"), 3, s("ABC")), Ok(0));
    assert_eq!(m.get_rune_balances(0, None, s("alice")).len(), 1);
}

#[test]
fn rune_ledger_primitives() {
    let mut r = Rune::new(s("XYZ"), LaunchType::FixedPrice, 50, 4, s("creator"));
    assert_eq!(r.get_derivation_path(), "XYZ");
    assert_eq!(r.mint(3, &s("a")), Err(RuneError::InsufficientPayment));
    assert_eq!(r.mint(9, &s("a")), Ok(2));
    assert_eq!(r.mint(8, &s("b")), Ok(2));
    assert_eq!(r.mint(4, &s("a")), Ok(1));
    assert_eq!(r.get_balance(&s("a")), 3);
    assert_eq!(r.get_balance(&s("b")), 2);
    assert_eq!(r.get_balance(&s("c")), 0);
    assert_eq!(r.minted, 5);
    assert_eq!(r.withdraw(&s("a")), 3);
    assert_eq!(r.get_balance(&s("a")), 0);
    assert_eq!(r.get_balance(&s("b")), 2);
    assert_eq!(r.creator_withdraw(), 21);
    assert_eq!(r.creator_balance, 0);
    r.creator_withdraw_failed(21);
    assert_eq!(r.creator_balance, 21);
}

#[test]
fn registry_validity() {
    let mut c = launchpad();
    c.new_rune(&s("admin"), s("ABC"), s("FixedPrice"), 100, 1, s("creator")).unwrap();
    c.new_rune(&s("admin"), s("DEF"), s("FixedPrice"), 100, 1, s("creator")).unwrap();
    c.ft_on_transfer(&s("usdt"), s("alice"), 7, s("ABC")).unwrap();
    assert!(registry_is_valid(&c.runes));
    let mut dup = Vec::new();
    dup.push(Rune::new(s("X"), LaunchType::FixedPrice, 10, 1, s("c")));
    dup.push(Rune::new(s("X"), LaunchType::FixedPrice, 20, 1, s("c")));
    assert!(!registry_is_valid(&dup));
    let unpriced = vec![Rune::new(s("Y"), LaunchType::FixedPrice, 10, 0, s("c"))];
    assert!(!registry_is_valid(&unpriced));
    let mut overdrawn = Rune::new(s("Z"), LaunchType::FixedPrice, 10, 1, s("c"));
    overdrawn.balance.entries.push((s("a"), 3));
    assert!(!registry_is_valid(&vec![overdrawn]));
}
