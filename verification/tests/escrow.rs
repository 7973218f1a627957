use coffee_exchange::address::{holding_address, offer_address, Address};
use coffee_exchange::escrow::{
    make_offer, make_offer_addresses, make_offer_with, take_offer, take_offer_addresses,
    take_offer_with, EscrowError, MakeOfferAddresses, MakeOfferInstruction,
    MakeOfferInstructionAccounts, MakeOfferInstructionData, TakeOfferAddresses,
    TakeOfferInstruction, TakeOfferInstructionAccounts, TakeOfferInstructionData,
};
use coffee_exchange::ledger::{Ledger, Offer};

const FEE: u64 = 3;

fn who(n: u8) -> Address {
    Address::new([n; 32])
}

fn alice() -> Address {
    who(1)
}

fn bob() -> Address {
    who(2)
}

fn carol() -> Address {
    who(3)
}

fn gold() -> Address {
    who(10)
}

fn silver() -> Address {
    who(11)
}

fn making(maker: Address, a: Address, b: Address, id: u64) -> MakeOfferInstructionAccounts {
    let (offer, _) = offer_address(&maker, id).unwrap();
    MakeOfferInstructionAccounts {
        maker,
        token_mint_a: a,
        token_mint_b: b,
        maker_token_account_a: holding_address(&maker, &a).unwrap(),
        offer,
        vault: holding_address(&offer, &a).unwrap(),
    }
}

fn taking(taker: Address, maker: Address, a: Address, b: Address, id: u64) -> TakeOfferInstructionAccounts {
    let (offer, _) = offer_address(&maker, id).unwrap();
    TakeOfferInstructionAccounts {
        taker,
        maker,
        token_mint_a: a,
        token_mint_b: b,
        taker_token_account_a: holding_address(&taker, &a).unwrap(),
        taker_token_account_b: holding_address(&taker, &b).unwrap(),
        maker_token_account_b: holding_address(&maker, &b).unwrap(),
        offer,
        vault: holding_address(&offer, &a).unwrap(),
    }
}

/// Alice holds 1000 gold and 50 native units, Bob 300 silver, Carol 90 silver.
fn bazaar() -> Ledger {
    let mut ledger = Ledger::new(FEE);
    assert!(ledger.register_asset(gold()));
    assert!(ledger.register_asset(silver()));
    assert!(ledger.fund(alice(), 50));
    assert!(ledger.issue(alice(), gold(), 1000));
    assert!(ledger.issue(bob(), silver(), 300));
    assert!(ledger.issue(carol(), silver(), 90));
    ledger
}

fn units(ledger: &Ledger, owner: &Address, asset: &Address) -> u64 {
    ledger.amount(owner, asset)
}

fn native(ledger: &Ledger, owner: &Address) -> u64 {
    ledger.balance(owner)
}

#[test]
fn instruction_shapes_hold_their_fields() {
    let data = MakeOfferInstructionData { id: 4, token_a_offered_amount: 5, token_b_wanted_amount: 6 };
    let make = MakeOfferInstruction { accounts: making(alice(), gold(), silver(), 4), data };
    assert_eq!(make.data.id, 4);
    assert_eq!(make.data.token_a_offered_amount, 5);
    assert_eq!(make.data.token_b_wanted_amount, 6);
    assert_eq!(make.accounts.maker, alice());
    assert_eq!(MakeOfferInstructionData::default().id, 0);
    let take = TakeOfferInstruction {
        accounts: taking(bob(), alice(), gold(), silver(), 4),
        data: TakeOfferInstructionData::default(),
    };
    assert_eq!(take.accounts.offer, make.accounts.offer);
    assert_eq!(take.accounts.vault, make.accounts.vault);
    assert_eq!(take.data, TakeOfferInstructionData {});
}

#[test]
fn make_offer_returns_the_stored_terms() {
    let mut ledger = bazaar();
    let accounts = making(alice(), gold(), silver(), 9);
    let (_, bump) = offer_address(&alice(), 9).unwrap();
    let offer = make_offer(&mut ledger, &accounts, 9, 1, 0).unwrap();
    assert_eq!(
        offer,
        Offer {
            id: 9,
            maker: alice(),
            token_mint_a: gold(),
            token_mint_b: silver(),
            token_b_wanted_amount: 0,
            bump,
        }
    );
    assert_eq!(ledger.offer(&accounts.offer).unwrap().address, accounts.offer);
    assert_eq!(units(&ledger, &accounts.offer, &gold()), 1);
    assert_eq!(units(&ledger, &alice(), &gold()), 999);
    assert_eq!(native(&ledger, &alice()), 50 - 2 * FEE);
}

#[test]
fn make_offer_rejects_a_wrong_offer_address() {
    let mut ledger = bazaar();
    let mut accounts = making(alice(), gold(), silver(), 1);
    accounts.offer = offer_address(&alice(), 2).unwrap().0;
    let before = ledger.clone();
    assert_eq!(make_offer(&mut ledger, &accounts, 1, 10, 10), Err(EscrowError::InvalidDerivation));
    assert_eq!(ledger, before);
}

#[test]
fn make_offer_rejects_a_wrong_vault_address() {
    let mut ledger = bazaar();
    let mut accounts = making(alice(), gold(), silver(), 1);
    accounts.vault = holding_address(&accounts.offer, &silver()).unwrap();
    assert_eq!(make_offer(&mut ledger, &accounts, 1, 10, 10), Err(EscrowError::InvalidDerivation));
}

#[test]
fn make_offer_rejects_a_wrong_source_address() {
    let mut ledger = bazaar();
    let mut accounts = making(alice(), gold(), silver(), 1);
    accounts.maker_token_account_a = holding_address(&bob(), &gold()).unwrap();
    assert_eq!(make_offer(&mut ledger, &accounts, 1, 10, 10), Err(EscrowError::InvalidDerivation));
}

#[test]
fn make_offer_rejects_an_unregistered_asset() {
    let mut ledger = bazaar();
    let before = ledger.clone();
    let accounts = making(alice(), gold(), who(12), 1);
    assert_eq!(make_offer(&mut ledger, &accounts, 1, 10, 10), Err(EscrowError::InvalidAsset));
    let accounts = making(alice(), who(12), silver(), 1);
    assert_eq!(make_offer(&mut ledger, &accounts, 1, 10, 10), Err(EscrowError::InvalidAsset));
    assert_eq!(ledger, before);
}

#[test]
fn make_offer_rejects_more_than_the_maker_holds() {
    let mut ledger = bazaar();
    let before = ledger.clone();
    let accounts = making(alice(), gold(), silver(), 1);
    assert_eq!(make_offer(&mut ledger, &accounts, 1, 1001, 10), Err(EscrowError::InsufficientFunds));
    assert_eq!(ledger, before);
    assert!(make_offer(&mut ledger, &accounts, 1, 1000, 10).is_ok());
    assert_eq!(units(&ledger, &alice(), &gold()), 0);
}

#[test]
fn make_offer_rejects_a_maker_without_a_holding() {
    let mut ledger = bazaar();
    let accounts = making(bob(), gold(), silver(), 1);
    assert!(ledger.fund(bob(), 50));
    assert_eq!(make_offer(&mut ledger, &accounts, 1, 1, 10), Err(EscrowError::InsufficientFunds));
}

#[test]
fn make_offer_rejects_a_maker_who_cannot_pay_for_storage() {
    let mut ledger = Ledger::new(FEE);
    assert!(ledger.register_asset(gold()));
    assert!(ledger.register_asset(silver()));
    assert!(ledger.issue(alice(), gold(), 1000));
    let accounts = making(alice(), gold(), silver(), 1);
    assert_eq!(make_offer(&mut ledger, &accounts, 1, 10, 10), Err(EscrowError::InsufficientFunds));
    assert!(ledger.fund(alice(), 2 * FEE - 1));
    assert_eq!(make_offer(&mut ledger, &accounts, 1, 10, 10), Err(EscrowError::InsufficientFunds));
    assert!(ledger.fund(alice(), 1));
    assert!(make_offer(&mut ledger, &accounts, 1, 10, 10).is_ok());
    assert_eq!(native(&ledger, &alice()), 0);
}

#[test]
fn make_offer_is_free_where_storage_is() {
    let mut ledger = Ledger::new(0);
    assert!(ledger.register_asset(gold()));
    assert!(ledger.register_asset(silver()));
    assert!(ledger.issue(alice(), gold(), 5));
    let accounts = making(alice(), gold(), silver(), 1);
    assert!(make_offer(&mut ledger, &accounts, 1, 5, 7).is_ok());
    assert!(ledger.wallet(&alice()).is_none());
    assert_eq!(ledger.holding(&accounts.offer, &gold()).unwrap().reserve, 0);
}

#[test]
fn make_offer_under_a_taken_identifier_is_rejected_whatever_the_terms() {
    let mut ledger = bazaar();
    let accounts = making(alice(), gold(), silver(), 1);
    assert!(make_offer(&mut ledger, &accounts, 1, 500, 200).is_ok());
    let before = ledger.clone();
    assert_eq!(make_offer(&mut ledger, &accounts, 1, 1, 1), Err(EscrowError::AlreadyExists));
    assert_eq!(make_offer(&mut ledger, &accounts, 1, 5000, 1), Err(EscrowError::AlreadyExists));
    let other = making(alice(), silver(), gold(), 1);
    assert_eq!(make_offer(&mut ledger, &other, 1, 1, 1), Err(EscrowError::AlreadyExists));
    assert_eq!(ledger, before);
    let next = making(alice(), gold(), silver(), 2);
    assert!(make_offer(&mut ledger, &next, 2, 1, 1).is_ok());
}

#[test]
fn make_offer_with_goes_by_the_addresses_it_is_given() {
    let mut ledger = bazaar();
    let accounts = MakeOfferInstructionAccounts {
        maker: alice(),
        token_mint_a: gold(),
        token_mint_b: silver(),
        maker_token_account_a: who(30),
        offer: who(31),
        vault: who(32),
    };
    let none = MakeOfferAddresses { offer: None, vault: Some(who(32)), maker_token_account_a: Some(who(30)) };
    assert_eq!(
        make_offer_with(&mut ledger, &accounts, &none, 1, 10, 10),
        Err(EscrowError::InvalidDerivation)
    );
    let no_vault =
        MakeOfferAddresses { offer: Some((who(31), 7)), vault: None, maker_token_account_a: Some(who(30)) };
    assert_eq!(
        make_offer_with(&mut ledger, &accounts, &no_vault, 1, 10, 10),
        Err(EscrowError::InvalidDerivation)
    );
    let derived = MakeOfferAddresses {
        offer: Some((who(31), 7)),
        vault: Some(who(32)),
        maker_token_account_a: Some(who(30)),
    };
    let offer = make_offer_with(&mut ledger, &accounts, &derived, 1, 10, 20).unwrap();
    assert_eq!(offer.bump, 7);
    assert_eq!(units(&ledger, &who(31), &gold()), 10);
    assert_eq!(ledger.offer(&who(31)).unwrap().offer, offer);
}

#[test]
fn make_offer_addresses_are_the_derived_ones() {
    let accounts = making(alice(), gold(), silver(), 1);
    let derived = make_offer_addresses(&accounts, 1);
    assert_eq!(derived.offer, offer_address(&alice(), 1));
    assert_eq!(derived.vault, Some(accounts.vault));
    assert_eq!(derived.maker_token_account_a, Some(accounts.maker_token_account_a));
}

#[test]
fn take_offer_addresses_are_the_derived_ones() {
    let mut ledger = bazaar();
    let offer = make_offer(&mut ledger, &making(alice(), gold(), silver(), 1), 1, 5, 5).unwrap();
    let accounts = taking(bob(), alice(), gold(), silver(), 1);
    let derived = take_offer_addresses(&accounts, &offer);
    assert_eq!(derived.offer, Some((accounts.offer, offer.bump)));
    assert_eq!(derived.vault, Some(accounts.vault));
    assert_eq!(derived.taker_token_account_a, Some(accounts.taker_token_account_a));
    assert_eq!(derived.taker_token_account_b, Some(accounts.taker_token_account_b));
    assert_eq!(derived.maker_token_account_b, Some(accounts.maker_token_account_b));
}

#[test]
fn take_offer_of_nothing_is_not_found() {
    let mut ledger = bazaar();
    let before = ledger.clone();
    let accounts = taking(bob(), alice(), gold(), silver(), 1);
    assert_eq!(take_offer(&mut ledger, &accounts), Err(EscrowError::NotFound));
    assert_eq!(ledger, before);
}

#[test]
fn take_offer_twice_is_not_found() {
    let mut ledger = bazaar();
    assert!(make_offer(&mut ledger, &making(alice(), gold(), silver(), 1), 1, 500, 100).is_ok());
    let accounts = taking(bob(), alice(), gold(), silver(), 1);
    assert_eq!(take_offer(&mut ledger, &accounts), Ok(()));
    let before = ledger.clone();
    assert_eq!(take_offer(&mut ledger, &accounts), Err(EscrowError::NotFound));
    let other = taking(carol(), alice(), gold(), silver(), 1);
    assert_eq!(take_offer(&mut ledger, &other), Err(EscrowError::NotFound));
    assert_eq!(ledger, before);
    assert_eq!(units(&ledger, &bob(), &silver()), 200);
}

#[test]
fn take_offer_rejects_other_assets_than_the_stored_ones() {
    let mut ledger = bazaar();
    assert!(make_offer(&mut ledger, &making(alice(), gold(), silver(), 1), 1, 500, 100).is_ok());
    let before = ledger.clone();
    let mut accounts = taking(bob(), alice(), gold(), silver(), 1);
    accounts.token_mint_b = gold();
    assert_eq!(take_offer(&mut ledger, &accounts), Err(EscrowError::InvalidAsset));
    let mut accounts = taking(bob(), alice(), gold(), silver(), 1);
    accounts.token_mint_a = silver();
    assert_eq!(take_offer(&mut ledger, &accounts), Err(EscrowError::InvalidAsset));
    assert_eq!(ledger, before);
}

#[test]
fn take_offer_rejects_addresses_that_are_not_the_derived_ones() {
    let mut ledger = bazaar();
    assert!(make_offer(&mut ledger, &making(alice(), gold(), silver(), 1), 1, 500, 100).is_ok());
    let before = ledger.clone();
    let good = taking(bob(), alice(), gold(), silver(), 1);

    let mut accounts = good;
    accounts.maker = carol();
    assert_eq!(take_offer(&mut ledger, &accounts), Err(EscrowError::InvalidDerivation));
    let mut accounts = good;
    accounts.vault = holding_address(&accounts.offer, &silver()).unwrap();
    assert_eq!(take_offer(&mut ledger, &accounts), Err(EscrowError::InvalidDerivation));
    let mut accounts = good;
    accounts.taker_token_account_a = good.taker_token_account_b;
    assert_eq!(take_offer(&mut ledger, &accounts), Err(EscrowError::InvalidDerivation));
    let mut accounts = good;
    accounts.taker_token_account_b = good.taker_token_account_a;
    assert_eq!(take_offer(&mut ledger, &accounts), Err(EscrowError::InvalidDerivation));
    let mut accounts = good;
    accounts.maker_token_account_b = good.taker_token_account_b;
    assert_eq!(take_offer(&mut ledger, &accounts), Err(EscrowError::InvalidDerivation));
    let mut accounts = good;
    accounts.taker = good.offer;
    accounts.taker_token_account_a = holding_address(&good.offer, &gold()).unwrap();
    accounts.taker_token_account_b = holding_address(&good.offer, &silver()).unwrap();
    assert_eq!(take_offer(&mut ledger, &accounts), Err(EscrowError::InvalidDerivation));

    assert_eq!(ledger, before);
    assert_eq!(take_offer(&mut ledger, &good), Ok(()));
}

#[test]
fn take_offer_with_goes_by_the_addresses_it_is_given() {
    let mut ledger = bazaar();
    let offer = make_offer(&mut ledger, &making(alice(), gold(), silver(), 1), 1, 500, 100).unwrap();
    let accounts = taking(bob(), alice(), gold(), silver(), 1);
    let good = take_offer_addresses(&accounts, &offer);
    let before = ledger.clone();
    let stale = TakeOfferAddresses { offer: Some((accounts.offer, offer.bump.wrapping_add(1))), ..good };
    assert_eq!(take_offer_with(&mut ledger, &accounts, &stale), Err(EscrowError::InvalidDerivation));
    let lost = TakeOfferAddresses { offer: None, ..good };
    assert_eq!(take_offer_with(&mut ledger, &accounts, &lost), Err(EscrowError::InvalidDerivation));
    let no_vault = TakeOfferAddresses { vault: None, ..good };
    assert_eq!(take_offer_with(&mut ledger, &accounts, &no_vault), Err(EscrowError::InvalidDerivation));
    assert_eq!(ledger, before);
    assert_eq!(take_offer_with(&mut ledger, &accounts, &good), Ok(()));
    assert_eq!(units(&ledger, &bob(), &gold()), 500);
}

#[test]
fn take_offer_rejects_a_taker_who_holds_too_little() {
    let mut ledger = bazaar();
    assert!(make_offer(&mut ledger, &making(alice(), gold(), silver(), 1), 1, 500, 91).is_ok());
    let before = ledger.clone();
    let accounts = taking(carol(), alice(), gold(), silver(), 1);
    assert_eq!(take_offer(&mut ledger, &accounts), Err(EscrowError::InsufficientFunds));
    assert_eq!(ledger, before);
    assert!(ledger.issue(carol(), silver(), 1));
    assert_eq!(take_offer(&mut ledger, &accounts), Ok(()));
    assert_eq!(units(&ledger, &carol(), &silver()), 0);
    assert_eq!(units(&ledger, &carol(), &gold()), 500);
}

#[test]
fn take_offer_opens_the_holdings_that_receive() {
    let mut ledger = bazaar();
    assert!(make_offer(&mut ledger, &making(alice(), gold(), silver(), 1), 1, 500, 100).is_ok());
    assert!(ledger.holding(&alice(), &silver()).is_none());
    assert!(ledger.holding(&bob(), &gold()).is_none());
    assert_eq!(take_offer(&mut ledger, &taking(bob(), alice(), gold(), silver(), 1)), Ok(()));
    let paid = ledger.holding(&alice(), &silver()).unwrap();
    assert_eq!((paid.amount, paid.custodial, paid.reserve), (100, false, 0));
    let got = ledger.holding(&bob(), &gold()).unwrap();
    assert_eq!((got.amount, got.custodial, got.reserve), (500, false, 0));
}

#[test]
fn take_offer_returns_the_storage_cost_to_the_maker() {
    let mut ledger = bazaar();
    assert!(make_offer(&mut ledger, &making(alice(), gold(), silver(), 1), 1, 500, 100).is_ok());
    assert_eq!(native(&ledger, &alice()), 50 - 2 * FEE);
    assert_eq!(take_offer(&mut ledger, &taking(bob(), alice(), gold(), silver(), 1)), Ok(()));
    assert_eq!(native(&ledger, &alice()), 50);
    assert_eq!(native(&ledger, &bob()), 0);
}

#[test]
fn a_maker_may_take_the_own_offer() {
    let mut ledger = bazaar();
    assert!(ledger.issue(alice(), silver(), 100));
    assert!(make_offer(&mut ledger, &making(alice(), gold(), silver(), 1), 1, 500, 100).is_ok());
    assert_eq!(take_offer(&mut ledger, &taking(alice(), alice(), gold(), silver(), 1)), Ok(()));
    assert_eq!(units(&ledger, &alice(), &gold()), 1000);
    assert_eq!(units(&ledger, &alice(), &silver()), 100);
    assert_eq!(native(&ledger, &alice()), 50);
}

#[test]
fn an_offer_may_want_the_asset_it_gives() {
    let mut ledger = bazaar();
    assert!(ledger.issue(bob(), gold(), 40));
    assert!(make_offer(&mut ledger, &making(alice(), gold(), gold(), 1), 1, 500, 40).is_ok());
    assert_eq!(take_offer(&mut ledger, &taking(bob(), alice(), gold(), gold(), 1)), Ok(()));
    assert_eq!(units(&ledger, &alice(), &gold()), 540);
    assert_eq!(units(&ledger, &bob(), &gold()), 500);
    assert_eq!(ledger.asset(&gold()).unwrap().supply, 1040);
}

#[test]
fn an_offer_may_want_nothing() {
    let mut ledger = bazaar();
    assert!(make_offer(&mut ledger, &making(alice(), gold(), silver(), 1), 1, 500, 0).is_ok());
    let pauper = who(4);
    assert_eq!(take_offer(&mut ledger, &taking(pauper, alice(), gold(), silver(), 1)), Ok(()));
    assert_eq!(units(&ledger, &pauper, &gold()), 500);
    assert_eq!(units(&ledger, &alice(), &silver()), 0);
}

#[test]
fn a_vault_cannot_be_issued_to() {
    let mut ledger = bazaar();
    let accounts = making(alice(), gold(), silver(), 1);
    assert!(make_offer(&mut ledger, &accounts, 1, 500, 100).is_ok());
    assert!(!ledger.issue(accounts.offer, gold(), 1));
    assert_eq!(units(&ledger, &accounts.offer, &gold()), 500);
    assert_eq!(ledger.asset(&gold()).unwrap().supply, 1000);
}

#[test]
fn what_a_vault_holds_is_not_spendable() {
    let mut ledger = bazaar();
    let accounts = making(alice(), gold(), silver(), 1);
    assert!(make_offer(&mut ledger, &accounts, 1, 500, 100).is_ok());
    assert_eq!(ledger.amount(&accounts.offer, &gold()), 500);
    assert_eq!(ledger.spendable(&accounts.offer, &gold()), 0);
    assert_eq!(ledger.spendable(&alice(), &gold()), 500);
    assert_eq!(ledger.spendable(&alice(), &silver()), 0);
    assert_eq!(ledger.amount(&bob(), &gold()), 0);
}

#[test]
fn a_cycle_conserves_both_assets() {
    let mut ledger = bazaar();
    let total = |l: &Ledger, asset: &Address, x: &Address| {
        units(l, &alice(), asset) + units(l, &bob(), asset) + units(l, x, asset)
    };
    let accounts = making(alice(), gold(), silver(), 1);
    let x = accounts.offer;
    let (gold_before, silver_before) = (total(&ledger, &gold(), &x), total(&ledger, &silver(), &x));
    assert_eq!((gold_before, silver_before), (1000, 300));
    assert!(make_offer(&mut ledger, &accounts, 1, 640, 120).is_ok());
    assert_eq!(total(&ledger, &gold(), &x), gold_before);
    assert_eq!(total(&ledger, &silver(), &x), silver_before);
    assert_eq!(take_offer(&mut ledger, &taking(bob(), alice(), gold(), silver(), 1)), Ok(()));
    assert_eq!(total(&ledger, &gold(), &x), gold_before);
    assert_eq!(total(&ledger, &silver(), &x), silver_before);
    assert_eq!(ledger.asset(&gold()).unwrap().supply, 1000);
    assert_eq!(ledger.asset(&silver()).unwrap().supply, 390);
    assert_eq!(units(&ledger, &carol(), &silver()), 90);
}

#[test]
fn offers_and_vaults_come_and_go_together() {
    let mut ledger = bazaar();
    let first = making(alice(), gold(), silver(), 1);
    let second = making(alice(), gold(), silver(), 2);
    let paired = |l: &Ledger, x: &Address| {
        let vault = l.holding(x, &gold());
        (l.offer(x).is_some(), vault.map(|v| v.custodial && v.amount > 0).unwrap_or(false))
    };
    assert_eq!(paired(&ledger, &first.offer), (false, false));
    assert!(make_offer(&mut ledger, &first, 1, 10, 1).is_ok());
    assert_eq!(paired(&ledger, &first.offer), (true, true));
    assert_eq!(paired(&ledger, &second.offer), (false, false));
    assert!(make_offer(&mut ledger, &second, 2, 20, 2).is_ok());
    assert_eq!(paired(&ledger, &second.offer), (true, true));
    assert_eq!(take_offer(&mut ledger, &taking(bob(), alice(), gold(), silver(), 1)), Ok(()));
    assert_eq!(paired(&ledger, &first.offer), (false, false));
    assert_eq!(paired(&ledger, &second.offer), (true, true));
    assert_eq!(take_offer(&mut ledger, &taking(carol(), alice(), gold(), silver(), 2)), Ok(()));
    assert_eq!(paired(&ledger, &second.offer), (false, false));
}

#[test]
fn an_identifier_can_be_used_again_once_its_offer_is_taken() {
    let mut ledger = bazaar();
    let accounts = making(alice(), gold(), silver(), 1);
    assert!(make_offer(&mut ledger, &accounts, 1, 10, 1).is_ok());
    assert_eq!(take_offer(&mut ledger, &taking(bob(), alice(), gold(), silver(), 1)), Ok(()));
    assert!(make_offer(&mut ledger, &accounts, 1, 20, 2).is_ok());
    assert_eq!(units(&ledger, &accounts.offer, &gold()), 20);
}

#[test]
fn default_shapes_are_empty() {
    let offer = Offer::default();
    assert_eq!((offer.id, offer.token_b_wanted_amount, offer.bump), (0, 0, 0));
    assert_eq!(offer.maker, Address::default());
    let make = MakeOfferInstruction::default();
    assert_eq!(make.accounts.vault, Address::default());
    assert_eq!(make.data, MakeOfferInstructionData::default());
    let take = TakeOfferInstruction::default();
    assert_eq!(take.accounts.taker, Address::default());
}
