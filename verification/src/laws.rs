//! What holds of the exchange whatever the ledger and whoever the parties.

use crate::address::Address;
use crate::escrow::{
    derived_bump, make_offer_outcome, make_offer_result, take_offer_outcome, EscrowError,
    MakeOfferAddresses, MakeOfferInstructionAccounts, TakeOfferAddresses,
    TakeOfferInstructionAccounts,
};
use crate::ledger::{new_vault, Ledger, LedgerState, Offer, OfferRecord};
use vstd::prelude::*;

verus! {

/// The units of `asset` that the maker, the taker and the vault of the offer
/// at `x` hold together, each holding counted once.
pub open spec fn held_across(
    s: LedgerState,
    maker: Address,
    taker: Address,
    x: Address,
    asset: Address,
) -> nat {
    s.amount(maker, asset) + (if taker != maker {
        s.amount(taker, asset)
    } else {
        0
    }) + (if x != maker && x != taker {
        s.amount(x, asset)
    } else {
        0
    })
}

/// What a make does to the balances: the new vault holds exactly the
/// quantity offered, the maker's holding has that much less, the maker has
/// paid the storage of two records, and the offer stands as it was returned.
pub proof fn lemma_make_moves_the_quantity_offered(
    s: LedgerState,
    accounts: MakeOfferInstructionAccounts,
    derived: MakeOfferAddresses,
    id: u64,
    amount_a: u64,
    wanted_b: u64,
    after: LedgerState,
    offer: Offer,
)
    requires
        s.sound(),
        make_offer_outcome(s, accounts, derived, id, amount_a, wanted_b) == Ok::<
            (LedgerState, Offer),
            EscrowError,
        >((after, offer)),
    ensures
        offer == (Offer {
            id,
            maker: accounts.maker,
            token_mint_a: accounts.token_mint_a,
            token_mint_b: accounts.token_mint_b,
            token_b_wanted_amount: wanted_b,
            bump: derived_bump(derived.offer),
        }),
        after.holdings[(accounts.offer, accounts.token_mint_a)] == new_vault(
            accounts.offer,
            accounts.token_mint_a,
            amount_a,
            s.storage_cost,
        ),
        after.offers[accounts.offer] == (OfferRecord {
            address: accounts.offer,
            offer,
            reserve: s.storage_cost,
        }),
        after.amount(accounts.maker, accounts.token_mint_a) + amount_a == s.amount(
            accounts.maker,
            accounts.token_mint_a,
        ),
        after.balance(accounts.maker) + 2 * s.storage_cost == s.balance(accounts.maker),
{
}

/// What a take does to the balances, where maker and taker are two parties
/// and the offer gives one asset for another: the taker has what the vault
/// held and has paid what the offer wanted, the maker has received it with
/// the storage cost of both records, and the vault and the offer are gone.
pub proof fn lemma_take_swaps(
    before: Ledger,
    accounts: TakeOfferInstructionAccounts,
    derived: TakeOfferAddresses,
    after: LedgerState,
)
    requires
        before.wf(),
        take_offer_outcome(before@, accounts, derived) == Ok::<LedgerState, EscrowError>(after),
        accounts.taker != accounts.maker,
        accounts.maker != accounts.offer,
        accounts.token_mint_a != accounts.token_mint_b,
    ensures
        ({
            let s = before@;
            let x = accounts.offer;
            let a = accounts.token_mint_a;
            let b = accounts.token_mint_b;
            let wanted = s.offers[x].offer.token_b_wanted_amount;
            &&& after.amount(accounts.taker, a) == s.amount(accounts.taker, a) + s.amount(x, a)
            &&& after.amount(accounts.taker, b) + wanted == s.amount(accounts.taker, b)
            &&& after.amount(accounts.maker, b) == s.amount(accounts.maker, b) + wanted
            &&& after.amount(accounts.maker, a) == s.amount(accounts.maker, a)
            &&& after.balance(accounts.maker) == s.balance(accounts.maker) + s.reserve(x, a)
                + s.offer_reserve(x)
            &&& !after.holdings.contains_key((x, a))
            &&& !after.offers.contains_key(x)
        }),
{
    before.lemma_holdings_within_supply(accounts.taker, accounts.maker, accounts.token_mint_b);
    before.lemma_holdings_within_supply(accounts.taker, accounts.offer, accounts.token_mint_a);
    before.lemma_native_within_supply(accounts.maker, accounts.offer, accounts.token_mint_a);
}

/// Making an offer neither creates nor destroys a unit: of every asset, the
/// maker, the new vault and any third party hold together what they held
/// before, and the asset's supply is what it was.
pub proof fn lemma_make_conserves(
    before: Ledger,
    accounts: MakeOfferInstructionAccounts,
    derived: MakeOfferAddresses,
    id: u64,
    amount_a: u64,
    wanted_b: u64,
    after: LedgerState,
    offer: Offer,
    third: Address,
    asset: Address,
)
    requires
        before.wf(),
        make_offer_outcome(before@, accounts, derived, id, amount_a, wanted_b) == Ok::<
            (LedgerState, Offer),
            EscrowError,
        >((after, offer)),
    ensures
        held_across(after, accounts.maker, third, accounts.offer, asset) == held_across(
            before@,
            accounts.maker,
            third,
            accounts.offer,
            asset,
        ),
        after.assets == before@.assets,
{
}

/// Taking an offer neither creates nor destroys a unit: of every asset, the
/// maker, the taker and the vault hold together what they held before, and
/// the asset's supply is what it was.
pub proof fn lemma_take_conserves(
    before: Ledger,
    accounts: TakeOfferInstructionAccounts,
    derived: TakeOfferAddresses,
    after: LedgerState,
    asset: Address,
)
    requires
        before.wf(),
        take_offer_outcome(before@, accounts, derived) == Ok::<LedgerState, EscrowError>(after),
    ensures
        held_across(after, accounts.maker, accounts.taker, accounts.offer, asset) == held_across(
            before@,
            accounts.maker,
            accounts.taker,
            accounts.offer,
            asset,
        ),
        after.assets == before@.assets,
{
    if accounts.taker != accounts.maker {
        before.lemma_holdings_within_supply(accounts.taker, accounts.maker, asset);
    }
    before.lemma_holdings_within_supply(accounts.taker, accounts.offer, asset);
}

/// Conservation: over a make and the take that fulfils it, the maker, the
/// taker and the vault hold together, of every asset, what they held before
/// the offer was made.
pub proof fn lemma_cycle_conserves(
    before: Ledger,
    making: MakeOfferInstructionAccounts,
    making_derived: MakeOfferAddresses,
    id: u64,
    amount_a: u64,
    wanted_b: u64,
    offer: Offer,
    between: Ledger,
    taking: TakeOfferInstructionAccounts,
    taking_derived: TakeOfferAddresses,
    after: LedgerState,
    asset: Address,
)
    requires
        before.wf(),
        between.wf(),
        make_offer_outcome(before@, making, making_derived, id, amount_a, wanted_b) == Ok::<
            (LedgerState, Offer),
            EscrowError,
        >((between@, offer)),
        taking.offer == making.offer,
        take_offer_outcome(between@, taking, taking_derived) == Ok::<LedgerState, EscrowError>(
            after,
        ),
    ensures
        held_across(after, making.maker, taking.taker, making.offer, asset) == held_across(
            before@,
            making.maker,
            taking.taker,
            making.offer,
            asset,
        ),
{
    lemma_make_conserves(
        before,
        making,
        making_derived,
        id,
        amount_a,
        wanted_b,
        between@,
        offer,
        taking.taker,
        asset,
    );
    lemma_take_conserves(between, taking, taking_derived, after, asset);
}

/// Storage is lent, not spent: over a make and the take that fulfils it, the
/// maker's native balance comes back to what it was before the offer was
/// made, and no other wallet changes.
pub proof fn lemma_cycle_returns_storage(
    before: Ledger,
    making: MakeOfferInstructionAccounts,
    making_derived: MakeOfferAddresses,
    id: u64,
    amount_a: u64,
    wanted_b: u64,
    offer: Offer,
    between: Ledger,
    taking: TakeOfferInstructionAccounts,
    taking_derived: TakeOfferAddresses,
    after: LedgerState,
    party: Address,
)
    requires
        before.wf(),
        between.wf(),
        make_offer_outcome(before@, making, making_derived, id, amount_a, wanted_b) == Ok::<
            (LedgerState, Offer),
            EscrowError,
        >((between@, offer)),
        taking.offer == making.offer,
        take_offer_outcome(between@, taking, taking_derived) == Ok::<LedgerState, EscrowError>(
            after,
        ),
    ensures
        after.balance(party) == before@.balance(party),
        after.native_supply == before@.native_supply,
{
}

/// Offers and vaults exist in pairs: on a well-formed ledger there is an
/// offer at an address exactly when a funded vault stands under it.
pub proof fn lemma_existence_pairing(ledger: Ledger, x: Address)
    requires
        ledger.wf(),
    ensures
        ledger@.offers.contains_key(x) <==> ledger@.has_funded_vault(x),
{
}

/// An address holds an offer from a successful make on: the make finds
/// none there, leaves the offer it returns, and touches no other offer.
pub proof fn lemma_make_opens(
    s: LedgerState,
    accounts: MakeOfferInstructionAccounts,
    derived: MakeOfferAddresses,
    id: u64,
    amount_a: u64,
    wanted_b: u64,
    after: LedgerState,
    offer: Offer,
)
    requires
        make_offer_outcome(s, accounts, derived, id, amount_a, wanted_b) == Ok::<
            (LedgerState, Offer),
            EscrowError,
        >((after, offer)),
    ensures
        !s.offers.contains_key(accounts.offer),
        after.offers.contains_key(accounts.offer),
        after.offers[accounts.offer].offer == offer,
        after.offers.remove(accounts.offer) == s.offers,
{
}

/// An address holds its offer until a successful take: the take finds the
/// offer there, leaves none, and touches no other offer.
pub proof fn lemma_take_closes(
    s: LedgerState,
    accounts: TakeOfferInstructionAccounts,
    derived: TakeOfferAddresses,
    after: LedgerState,
)
    requires
        take_offer_outcome(s, accounts, derived) == Ok::<LedgerState, EscrowError>(after),
    ensures
        s.offers.contains_key(accounts.offer),
        !after.offers.contains_key(accounts.offer),
        after.offers == s.offers.remove(accounts.offer),
{
}

/// An offer is taken at most once: after a successful take, every further
/// take of the same offer is rejected, because the offer is no longer found.
pub proof fn lemma_taken_at_most_once(
    s: LedgerState,
    first: TakeOfferInstructionAccounts,
    first_derived: TakeOfferAddresses,
    after: LedgerState,
    second: TakeOfferInstructionAccounts,
    second_derived: TakeOfferAddresses,
)
    requires
        take_offer_outcome(s, first, first_derived) == Ok::<LedgerState, EscrowError>(after),
        second.offer == first.offer,
    ensures
        take_offer_outcome(after, second, second_derived) == Err::<LedgerState, EscrowError>(
            EscrowError::NotFound,
        ),
{
}

/// An offer is made at most once under one identifier: after a successful
/// make, every further make by the same maker under the same identifier is
/// rejected. The reason is that the offer already exists, unless the
/// addresses supplied are not the derived ones.
pub proof fn lemma_made_at_most_once(
    s: LedgerState,
    first: MakeOfferInstructionAccounts,
    id: u64,
    first_amount_a: u64,
    first_wanted_b: u64,
    after: LedgerState,
    offer: Offer,
    second: MakeOfferInstructionAccounts,
    second_amount_a: u64,
    second_wanted_b: u64,
)
    requires
        make_offer_result(s, first, id, first_amount_a, first_wanted_b) == Ok::<
            (LedgerState, Offer),
            EscrowError,
        >((after, offer)),
        second.maker == first.maker,
    ensures
        make_offer_result(after, second, id, second_amount_a, second_wanted_b) == Err::<
            (LedgerState, Offer),
            EscrowError,
        >(EscrowError::AlreadyExists) || make_offer_result(
            after,
            second,
            id,
            second_amount_a,
            second_wanted_b,
        ) == Err::<(LedgerState, Offer), EscrowError>(EscrowError::InvalidDerivation),
        second == first ==> make_offer_result(after, second, id, second_amount_a, second_wanted_b)
            == Err::<(LedgerState, Offer), EscrowError>(EscrowError::AlreadyExists),
{
}

} // verus!
