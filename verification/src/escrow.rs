//! The exchange itself: making an offer and taking it.
//!
//! Either operation is one atomic step on the ledger. It is applied whole, or
//! it is rejected with an error and the ledger is left as it was.

use crate::address::{
    holding_address, holding_address_of, offer_address, offer_address_of, Address,
};
use crate::ledger::{Ledger, LedgerState, Offer, VaultAuthority};
use vstd::prelude::*;

verus! {

/// Why an operation was rejected.
#[derive(Clone, Copy, Debug, PartialEq, Eq, Structural)]
pub enum EscrowError {
    /// A party lacks the balance that the operation needs.
    InsufficientFunds,
    /// The address of the new offer, or of its vault, is taken.
    AlreadyExists,
    /// There is no offer at the address given.
    NotFound,
    /// An address given does not match the one derived from the stored or
    /// supplied fields, or the taker is the offer itself.
    InvalidDerivation,
    /// An asset is not registered, or is not the one the offer names.
    InvalidAsset,
}

/// The accounts that making an offer involves, each by its role.
#[derive(Clone, Copy, Debug, Default)]
pub struct MakeOfferInstructionAccounts {
    pub maker: Address,
    pub token_mint_a: Address,
    pub token_mint_b: Address,
    pub maker_token_account_a: Address,
    pub offer: Address,
    pub vault: Address,
}

/// The arguments of making an offer.
#[derive(Clone, Copy, Debug, Default, PartialEq, Eq)]
pub struct MakeOfferInstructionData {
    pub id: u64,
    pub token_a_offered_amount: u64,
    pub token_b_wanted_amount: u64,
}

/// The request to make an offer.
#[derive(Clone, Copy, Debug, Default)]
pub struct MakeOfferInstruction {
    pub accounts: MakeOfferInstructionAccounts,
    pub data: MakeOfferInstructionData,
}

/// The accounts that taking an offer involves, each by its role.
#[derive(Clone, Copy, Debug, Default)]
pub struct TakeOfferInstructionAccounts {
    pub taker: Address,
    pub maker: Address,
    pub token_mint_a: Address,
    pub token_mint_b: Address,
    pub taker_token_account_a: Address,
    pub taker_token_account_b: Address,
    pub maker_token_account_b: Address,
    pub offer: Address,
    pub vault: Address,
}

/// The arguments of taking an offer: there are none.
#[derive(Clone, Copy, Debug, Default, PartialEq, Eq)]
pub struct TakeOfferInstructionData {

}

/// The request to take an offer.
#[derive(Clone, Copy, Debug, Default)]
pub struct TakeOfferInstruction {
    pub accounts: TakeOfferInstructionAccounts,
    pub data: TakeOfferInstructionData,
}

/// What the derivation gives for the accounts of a new offer: the address and
/// tag of the offer, the address of its vault, and the address of the holding
/// from which the maker pays. Each is `None` where the derivation finds no
/// address.
#[derive(Clone, Copy, Debug)]
pub struct MakeOfferAddresses {
    pub offer: Option<(Address, u8)>,
    pub vault: Option<Address>,
    pub maker_token_account_a: Option<Address>,
}

/// The derived addresses for the accounts of a new offer: the offer's from
/// the maker and the identifier, the vault's from the offer and the asset
/// given, the maker's holding from the maker and that asset.
pub open spec fn make_offer_addresses_of(
    accounts: MakeOfferInstructionAccounts,
    id: u64,
) -> MakeOfferAddresses {
    let offer = offer_address_of(accounts.maker, id);
    MakeOfferAddresses {
        offer,
        vault: match offer {
            Some((x, _)) => holding_address_of(x, accounts.token_mint_a),
            None => None,
        },
        maker_token_account_a: holding_address_of(accounts.maker, accounts.token_mint_a),
    }
}

/// The addresses supplied for a new offer are the derived ones.
pub open spec fn make_offer_derived(
    accounts: MakeOfferInstructionAccounts,
    derived: MakeOfferAddresses,
) -> bool {
    &&& match derived.offer {
        Some((x, _)) => x == accounts.offer,
        None => false,
    }
    &&& derived.vault == Some(accounts.vault)
    &&& derived.maker_token_account_a == Some(accounts.maker_token_account_a)
}

/// The tag byte of a derived offer address; zero where there is none.
pub open spec fn derived_bump(offer: Option<(Address, u8)>) -> u8 {
    match offer {
        Some((_, tag)) => tag,
        None => 0,
    }
}

/// The ledger after an offer was made: the maker has opened the vault, which
/// holds the quantity offered, and then the offer, and has paid for the
/// storage of both.
pub open spec fn make_offer_effect(
    s: LedgerState,
    offer: Offer,
    x: Address,
    amount_a: u64,
) -> LedgerState {
    s.open_vault(x, offer.token_mint_a, amount_a, offer.maker).open_offer(x, offer, offer.maker)
}

/// What making an offer comes to, given the derived addresses: the new ledger
/// and the offer, or the reason for which it is rejected. The reasons are
/// tried in this order: a supplied address that is not the derived one; an
/// offer or a holding that stands where the new records belong; an asset that
/// is not registered; a maker who cannot spend the quantity offered or pay
/// for the storage of two records.
pub open spec fn make_offer_outcome(
    s: LedgerState,
    accounts: MakeOfferInstructionAccounts,
    derived: MakeOfferAddresses,
    id: u64,
    amount_a: u64,
    wanted_b: u64,
) -> Result<(LedgerState, Offer), EscrowError> {
    if !make_offer_derived(accounts, derived) {
        Err(EscrowError::InvalidDerivation)
    } else if s.offers.contains_key(accounts.offer) || s.holdings.contains_key(
        (accounts.offer, accounts.token_mint_a),
    ) {
        Err(EscrowError::AlreadyExists)
    } else if !s.assets.contains_key(accounts.token_mint_a) || !s.assets.contains_key(
        accounts.token_mint_b,
    ) {
        Err(EscrowError::InvalidAsset)
    } else if s.spendable(accounts.maker, accounts.token_mint_a) < amount_a || s.balance(
        accounts.maker,
    ) < 2 * s.storage_cost {
        Err(EscrowError::InsufficientFunds)
    } else {
        let offer = Offer {
            id,
            maker: accounts.maker,
            token_mint_a: accounts.token_mint_a,
            token_mint_b: accounts.token_mint_b,
            token_b_wanted_amount: wanted_b,
            bump: derived_bump(derived.offer),
        };
        Ok((make_offer_effect(s, offer, accounts.offer, amount_a), offer))
    }
}

/// What making an offer comes to, the addresses being derived from the
/// accounts and the identifier.
pub open spec fn make_offer_result(
    s: LedgerState,
    accounts: MakeOfferInstructionAccounts,
    id: u64,
    amount_a: u64,
    wanted_b: u64,
) -> Result<(LedgerState, Offer), EscrowError> {
    make_offer_outcome(s, accounts, make_offer_addresses_of(accounts, id), id, amount_a, wanted_b)
}

/// Derives the addresses for the accounts of a new offer.
pub fn make_offer_addresses(accounts: &MakeOfferInstructionAccounts, id: u64) -> (derived:
    MakeOfferAddresses)
    ensures
        derived == make_offer_addresses_of(*accounts, id),
{
    let offer = offer_address(&accounts.maker, id);
    let vault = match offer {
        Some((x, _)) => holding_address(&x, &accounts.token_mint_a),
        None => None,
    };
    MakeOfferAddresses {
        offer,
        vault,
        maker_token_account_a: holding_address(&accounts.maker, &accounts.token_mint_a),
    }
}

/// Whether `found` is the address `given`.
fn is_address(found: Option<Address>, given: &Address) -> (same: bool)
    ensures
        same == (found == Some(*given)),
{
    match found {
        Some(address) => address == *given,
        None => false,
    }
}

/// Checks the addresses supplied for a new offer against the derived ones.
fn check_make_offer_derived(
    accounts: &MakeOfferInstructionAccounts,
    derived: &MakeOfferAddresses,
) -> (ok: bool)
    ensures
        ok == make_offer_derived(*accounts, *derived),
{
    let offer_ok = match derived.offer {
        Some((x, _)) => x == accounts.offer,
        None => false,
    };
    offer_ok && is_address(derived.vault, &accounts.vault) && is_address(
        derived.maker_token_account_a,
        &accounts.maker_token_account_a,
    )
}

/// Makes an offer, given the derived addresses of its accounts: locks
/// `token_a_offered_amount` units of the first asset, which is more than
/// nothing, in a new vault and publishes the terms at the offer's address.
///
/// The offer comes back as it was stored. A rejected call leaves the ledger
/// untouched.
pub fn make_offer_with(
    ledger: &mut Ledger,
    accounts: &MakeOfferInstructionAccounts,
    derived: &MakeOfferAddresses,
    id: u64,
    token_a_offered_amount: u64,
    token_b_wanted_amount: u64,
) -> (result: Result<Offer, EscrowError>)
    requires
        old(ledger).wf(),
        token_a_offered_amount > 0,
    ensures
        final(ledger).wf(),
        make_offer_outcome(
            old(ledger)@,
            *accounts,
            *derived,
            id,
            token_a_offered_amount,
            token_b_wanted_amount,
        ) == match result {
            Ok(offer) => Ok((final(ledger)@, offer)),
            Err(e) => Err(e),
        },
        result is Err ==> *final(ledger) == *old(ledger),
{
    let maker = accounts.maker;
    let mint_a = accounts.token_mint_a;
    let mint_b = accounts.token_mint_b;
    let x = accounts.offer;
    if !check_make_offer_derived(accounts, derived) {
        return Err(EscrowError::InvalidDerivation);
    }
    if ledger.offer(&x).is_some() || ledger.holding(&x, &mint_a).is_some() {
        return Err(EscrowError::AlreadyExists);
    }
    if ledger.asset(&mint_a).is_none() || ledger.asset(&mint_b).is_none() {
        return Err(EscrowError::InvalidAsset);
    }
    let balance = ledger.balance(&maker);
    let cost = ledger.storage_cost();
    if ledger.spendable(&maker, &mint_a) < token_a_offered_amount || balance < cost || balance
        - cost < cost {
        return Err(EscrowError::InsufficientFunds);
    }
    let bump = match derived.offer {
        Some((_, tag)) => tag,
        None => 0,
    };
    let offer = Offer {
        id,
        maker,
        token_mint_a: mint_a,
        token_mint_b: mint_b,
        token_b_wanted_amount: token_b_wanted_amount,
        bump,
    };
    ledger.open_vault(&x, &mint_a, token_a_offered_amount, &maker);
    ledger.open_offer(&x, offer, &maker);
    Ok(offer)
}

/// Makes an offer: derives the addresses of its accounts, locks
/// `token_a_offered_amount` units of the first asset, which is more than
/// nothing, in a new vault and publishes the terms at the offer's address.
///
/// The offer comes back as it was stored. A rejected call leaves the ledger
/// untouched.
pub fn make_offer(
    ledger: &mut Ledger,
    accounts: &MakeOfferInstructionAccounts,
    id: u64,
    token_a_offered_amount: u64,
    token_b_wanted_amount: u64,
) -> (result: Result<Offer, EscrowError>)
    requires
        old(ledger).wf(),
        token_a_offered_amount > 0,
    ensures
        final(ledger).wf(),
        make_offer_result(
            old(ledger)@,
            *accounts,
            id,
            token_a_offered_amount,
            token_b_wanted_amount,
        ) == match result {
            Ok(offer) => Ok((final(ledger)@, offer)),
            Err(e) => Err(e),
        },
        result is Err ==> *final(ledger) == *old(ledger),
{
    let derived = make_offer_addresses(accounts, id);
    make_offer_with(ledger, accounts, &derived, id, token_a_offered_amount, token_b_wanted_amount)
}

/// What the derivation gives for the accounts of taking an offer: the address
/// and tag of the offer, and the addresses of the vault, of the taker's two
/// holdings and of the holding in which the maker is paid. Each is `None`
/// where the derivation finds no address.
#[derive(Clone, Copy, Debug)]
pub struct TakeOfferAddresses {
    pub offer: Option<(Address, u8)>,
    pub vault: Option<Address>,
    pub taker_token_account_a: Option<Address>,
    pub taker_token_account_b: Option<Address>,
    pub maker_token_account_b: Option<Address>,
}

/// The derived addresses for the accounts of taking the offer `o`: the
/// offer's from the stored maker and identifier, the vault's from the address
/// given for the offer and the asset it gives, the holdings' from their
/// owners and assets.
pub open spec fn take_offer_addresses_of(
    accounts: TakeOfferInstructionAccounts,
    o: Offer,
) -> TakeOfferAddresses {
    TakeOfferAddresses {
        offer: offer_address_of(o.maker, o.id),
        vault: holding_address_of(accounts.offer, o.token_mint_a),
        taker_token_account_a: holding_address_of(accounts.taker, o.token_mint_a),
        taker_token_account_b: holding_address_of(accounts.taker, o.token_mint_b),
        maker_token_account_b: holding_address_of(o.maker, o.token_mint_b),
    }
}

/// The accounts supplied for taking the offer `o` are the right ones: the
/// maker is the one stored, the vault and the three holdings stand at their
/// derived addresses, and the taker is not the offer itself.
pub open spec fn take_offer_accounts_derived(
    accounts: TakeOfferInstructionAccounts,
    o: Offer,
    derived: TakeOfferAddresses,
) -> bool {
    &&& accounts.maker == o.maker
    &&& accounts.taker != accounts.offer
    &&& derived.vault == Some(accounts.vault)
    &&& derived.taker_token_account_a == Some(accounts.taker_token_account_a)
    &&& derived.taker_token_account_b == Some(accounts.taker_token_account_b)
    &&& derived.maker_token_account_b == Some(accounts.maker_token_account_b)
}

/// The derivation behind taking the offer `o` holds: the offer's address is
/// the one that its stored maker, identifier and tag derive, which gives the
/// authority over its vault, and the accounts supplied are the right ones.
pub open spec fn take_offer_derived(
    accounts: TakeOfferInstructionAccounts,
    o: Offer,
    derived: TakeOfferAddresses,
) -> bool {
    &&& derived.offer == Some((accounts.offer, o.bump))
    &&& take_offer_accounts_derived(accounts, o, derived)
}

/// The ledger after the taker has paid the maker what the offer wants.
pub open spec fn take_offer_paid(s: LedgerState, taker: Address, o: Offer) -> LedgerState {
    s.debit(taker, o.token_mint_b, o.token_b_wanted_amount).credit(
        o.maker,
        o.token_mint_b,
        o.token_b_wanted_amount,
    )
}

/// The ledger after an offer was taken: the maker is paid first, then the
/// vault is released to the taker, then the vault and the offer are closed,
/// each returning its storage cost to the maker.
pub open spec fn take_offer_effect(
    s: LedgerState,
    taker: Address,
    x: Address,
    o: Offer,
) -> LedgerState {
    take_offer_paid(s, taker, o).release(x, o.token_mint_a, taker).close_vault(
        x,
        o.token_mint_a,
        o.maker,
    ).close_offer(x, o.maker)
}

/// What taking an offer comes to, given the derived addresses: the new
/// ledger, or the reason for which it is rejected. The reasons are tried in
/// this order: no offer at the address given; an asset given that is not the
/// one stored; a supplied address that is not the derived one; a taker who
/// cannot spend the quantity wanted.
pub open spec fn take_offer_outcome(
    s: LedgerState,
    accounts: TakeOfferInstructionAccounts,
    derived: TakeOfferAddresses,
) -> Result<LedgerState, EscrowError> {
    if !s.offers.contains_key(accounts.offer) {
        Err(EscrowError::NotFound)
    } else {
        let o = s.offers[accounts.offer].offer;
        if accounts.token_mint_a != o.token_mint_a || accounts.token_mint_b != o.token_mint_b {
            Err(EscrowError::InvalidAsset)
        } else if !take_offer_derived(accounts, o, derived) {
            Err(EscrowError::InvalidDerivation)
        } else if s.spendable(accounts.taker, o.token_mint_b) < o.token_b_wanted_amount {
            Err(EscrowError::InsufficientFunds)
        } else {
            Ok(take_offer_effect(s, accounts.taker, accounts.offer, o))
        }
    }
}

/// What taking an offer comes to, the addresses being derived from the
/// accounts and the stored offer.
pub open spec fn take_offer_result(
    s: LedgerState,
    accounts: TakeOfferInstructionAccounts,
) -> Result<LedgerState, EscrowError> {
    take_offer_outcome(
        s,
        accounts,
        take_offer_addresses_of(accounts, s.offers[accounts.offer].offer),
    )
}

/// Derives the addresses for the accounts of taking the offer `o`.
pub fn take_offer_addresses(accounts: &TakeOfferInstructionAccounts, o: &Offer) -> (derived:
    TakeOfferAddresses)
    ensures
        derived == take_offer_addresses_of(*accounts, *o),
{
    TakeOfferAddresses {
        offer: offer_address(&o.maker, o.id),
        vault: holding_address(&accounts.offer, &o.token_mint_a),
        taker_token_account_a: holding_address(&accounts.taker, &o.token_mint_a),
        taker_token_account_b: holding_address(&accounts.taker, &o.token_mint_b),
        maker_token_account_b: holding_address(&o.maker, &o.token_mint_b),
    }
}

/// Checks the accounts supplied for taking the offer `o` against the stored
/// maker and the derived addresses.
fn check_take_offer_accounts(
    accounts: &TakeOfferInstructionAccounts,
    o: &Offer,
    derived: &TakeOfferAddresses,
) -> (ok: bool)
    ensures
        ok == take_offer_accounts_derived(*accounts, *o, *derived),
{
    accounts.maker == o.maker && !(accounts.taker == accounts.offer) && is_address(
        derived.vault,
        &accounts.vault,
    ) && is_address(derived.taker_token_account_a, &accounts.taker_token_account_a) && is_address(
        derived.taker_token_account_b,
        &accounts.taker_token_account_b,
    ) && is_address(derived.maker_token_account_b, &accounts.maker_token_account_b)
}

/// Takes the offer at `accounts.offer`, given the derived addresses of its
/// accounts: pays the maker the quantity wanted, releases the vault to the
/// taker, and closes the vault and the offer, returning their storage cost to
/// the maker.
///
/// A rejected call leaves the ledger untouched.
pub fn take_offer_with(
    ledger: &mut Ledger,
    accounts: &TakeOfferInstructionAccounts,
    derived: &TakeOfferAddresses,
) -> (result: Result<(), EscrowError>)
    requires
        old(ledger).wf(),
    ensures
        final(ledger).wf(),
        take_offer_outcome(old(ledger)@, *accounts, *derived) == match result {
            Ok(_) => Ok(final(ledger)@),
            Err(e) => Err(e),
        },
        result is Err ==> *final(ledger) == *old(ledger),
{
    let x = accounts.offer;
    let taker = accounts.taker;
    let record = match ledger.offer(&x) {
        Some(record) => record,
        None => { return Err(EscrowError::NotFound); },
    };
    let o = record.offer;
    if !(accounts.token_mint_a == o.token_mint_a) || !(accounts.token_mint_b == o.token_mint_b) {
        return Err(EscrowError::InvalidAsset);
    }
    let authority = match VaultAuthority::reconstruct(&x, &o, &derived.offer) {
        Some(authority) => authority,
        None => { return Err(EscrowError::InvalidDerivation); },
    };
    if !check_take_offer_accounts(accounts, &o, derived) {
        return Err(EscrowError::InvalidDerivation);
    }
    if ledger.spendable(&taker, &o.token_mint_b) < o.token_b_wanted_amount {
        return Err(EscrowError::InsufficientFunds);
    }
    ledger.debit(&taker, &o.token_mint_b, o.token_b_wanted_amount);
    proof {
        ledger.lemma_held_covers(o.maker, o.token_mint_b);
    }
    ledger.credit(&o.maker, &o.token_mint_b, o.token_b_wanted_amount);
    ledger.release_vault(&authority, &taker);
    ledger.close_vault(authority, &o.maker);
    ledger.close_offer(&x, &o.maker);
    Ok(())
}

/// Takes the offer at `accounts.offer`: derives the addresses of its
/// accounts from the stored offer, pays the maker the quantity wanted,
/// releases the vault to the taker, and closes the vault and the offer,
/// returning their storage cost to the maker.
///
/// A rejected call leaves the ledger untouched.
pub fn take_offer(ledger: &mut Ledger, accounts: &TakeOfferInstructionAccounts) -> (result: Result<
    (),
    EscrowError,
>)
    requires
        old(ledger).wf(),
    ensures
        final(ledger).wf(),
        take_offer_result(old(ledger)@, *accounts) == match result {
            Ok(_) => Ok(final(ledger)@),
            Err(e) => Err(e),
        },
        result is Err ==> *final(ledger) == *old(ledger),
{
    let record = match ledger.offer(&accounts.offer) {
        Some(record) => record,
        None => { return Err(EscrowError::NotFound); },
    };
    let derived = take_offer_addresses(accounts, &record.offer);
    take_offer_with(ledger, accounts, &derived)
}

} // verus!
