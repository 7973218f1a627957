//! The shared ledger: registered assets, native wallets, asset holdings and
//! offer records, with the bookkeeping that keeps every unit accounted for.

use crate::address::Address;
use crate::table::{
    distinct, keyed, lemma_keyed_push, lemma_keyed_remove, lemma_keyed_update, lemma_total_covers,
    lemma_total_covers_two, lemma_total_push, lemma_total_remove, lemma_total_update,
    lemma_total_zero, position, total,
};
use vstd::prelude::*;

verus! {

/// A registered asset and the number of its units in existence.
#[derive(Clone, Copy, Debug, PartialEq, Eq)]
pub struct Asset {
    pub mint: Address,
    pub supply: u64,
}

/// The native balance of a party, from which storage costs are paid.
#[derive(Clone, Copy, Debug, PartialEq, Eq)]
pub struct Wallet {
    pub owner: Address,
    pub balance: u64,
}

/// A holding account: the units of one asset kept for one owner.
///
/// A custodial holding is a vault: its owner is the address of an offer, and
/// only the exchange itself moves its contents. `reserve` is the storage cost
/// that was set aside when the holding was created.
#[derive(Clone, Copy, Debug, PartialEq, Eq)]
pub struct Holding {
    pub owner: Address,
    pub asset: Address,
    pub amount: u64,
    pub custodial: bool,
    pub reserve: u64,
}

/// The terms of a swap, as persisted on the ledger.
#[derive(Clone, Copy, Debug, Default, PartialEq, Eq)]
pub struct Offer {
    pub id: u64,
    pub maker: Address,
    pub token_mint_a: Address,
    pub token_mint_b: Address,
    pub token_b_wanted_amount: u64,
    pub bump: u8,
}

/// An offer at its address, with the storage cost set aside for it.
#[derive(Clone, Copy, Debug, PartialEq, Eq)]
pub struct OfferRecord {
    pub address: Address,
    pub offer: Offer,
    pub reserve: u64,
}

/// The ledger as contracts see it: every table as a finite map.
#[verifier::ext_equal]
pub struct LedgerState {
    /// What the creation of one record costs its payer.
    pub storage_cost: u64,
    /// All native units in existence.
    pub native_supply: u64,
    /// The registered assets, by identity.
    pub assets: Map<Address, Asset>,
    /// The native wallets, by owner.
    pub wallets: Map<Address, Wallet>,
    /// The holdings, by owner and asset.
    pub holdings: Map<(Address, Address), Holding>,
    /// The offers, by address.
    pub offers: Map<Address, OfferRecord>,
}

impl LedgerState {
    /// The units of `asset` in the holding of `owner`; none where there is no
    /// such holding.
    pub open spec fn amount(self, owner: Address, asset: Address) -> nat {
        if self.holdings.contains_key((owner, asset)) {
            self.holdings[(owner, asset)].amount as nat
        } else {
            0
        }
    }

    /// The units of `asset` that `owner` can spend: those of a holding that is
    /// not custodial.
    pub open spec fn spendable(self, owner: Address, asset: Address) -> nat {
        if self.holdings.contains_key((owner, asset)) && !self.holdings[(owner, asset)].custodial {
            self.holdings[(owner, asset)].amount as nat
        } else {
            0
        }
    }

    /// The storage cost set aside in the holding of `owner` for `asset`.
    pub open spec fn reserve(self, owner: Address, asset: Address) -> nat {
        if self.holdings.contains_key((owner, asset)) {
            self.holdings[(owner, asset)].reserve as nat
        } else {
            0
        }
    }

    /// The native balance of `owner`; nothing where there is no wallet.
    pub open spec fn balance(self, owner: Address) -> nat {
        if self.wallets.contains_key(owner) {
            self.wallets[owner].balance as nat
        } else {
            0
        }
    }

    /// The storage cost set aside for the offer at `address`.
    pub open spec fn offer_reserve(self, address: Address) -> nat {
        if self.offers.contains_key(address) {
            self.offers[address].reserve as nat
        } else {
            0
        }
    }

    /// The state with `h` as the holding of its owner and asset.
    pub open spec fn with_holding(self, h: Holding) -> LedgerState {
        LedgerState { holdings: self.holdings.insert((h.owner, h.asset), h), ..self }
    }

    /// The state without a holding of `owner` for `asset`.
    pub open spec fn without_holding(self, owner: Address, asset: Address) -> LedgerState {
        LedgerState { holdings: self.holdings.remove((owner, asset)), ..self }
    }

    /// The state with `w` as the wallet of its owner.
    pub open spec fn with_wallet(self, w: Wallet) -> LedgerState {
        LedgerState { wallets: self.wallets.insert(w.owner, w), ..self }
    }

    /// The state with `record` at its address.
    pub open spec fn with_offer(self, record: OfferRecord) -> LedgerState {
        LedgerState { offers: self.offers.insert(record.address, record), ..self }
    }

    /// The state without an offer at `address`.
    pub open spec fn without_offer(self, address: Address) -> LedgerState {
        LedgerState { offers: self.offers.remove(address), ..self }
    }

    /// The state with `asset` under its identity.
    pub open spec fn with_asset(self, asset: Asset) -> LedgerState {
        LedgerState { assets: self.assets.insert(asset.mint, asset), ..self }
    }

    /// The state with `amount` more units of `asset` in the holding of `owner`,
    /// which is opened for the purpose where there is none.
    pub open spec fn credit(self, owner: Address, asset: Address, amount: u64) -> LedgerState {
        if self.holdings.contains_key((owner, asset)) {
            let h = self.holdings[(owner, asset)];
            self.with_holding(Holding { amount: (h.amount + amount) as u64, ..h })
        } else {
            self.with_holding(Holding { owner, asset, amount, custodial: false, reserve: 0 })
        }
    }

    /// The state with `amount` fewer units of `asset` in the holding of
    /// `owner`.
    pub open spec fn debit(self, owner: Address, asset: Address, amount: u64) -> LedgerState {
        if self.holdings.contains_key((owner, asset)) {
            let h = self.holdings[(owner, asset)];
            self.with_holding(Holding { amount: (h.amount - amount) as u64, ..h })
        } else {
            self
        }
    }

    /// The state with `amount` more native units in the wallet of `owner`,
    /// which is opened for the purpose where there is none.
    pub open spec fn pay(self, owner: Address, amount: u64) -> LedgerState {
        self.with_wallet(Wallet { owner, balance: (self.balance(owner) + amount) as u64 })
    }

    /// The state with `amount` fewer native units in the wallet of `owner`.
    pub open spec fn charge(self, owner: Address, amount: u64) -> LedgerState {
        if self.wallets.contains_key(owner) {
            self.with_wallet(Wallet { owner, balance: (self.balance(owner) - amount) as u64 })
        } else {
            self
        }
    }

    /// The state after `payer` has opened the vault of the offer at `x`: the
    /// payer has paid the storage cost, and `amount` units of `asset` have
    /// moved from the payer's holding into the new vault.
    pub open spec fn open_vault(self, x: Address, asset: Address, amount: u64, payer: Address) -> LedgerState {
        self.charge(payer, self.storage_cost).debit(payer, asset, amount).with_holding(
            new_vault(x, asset, amount, self.storage_cost),
        )
    }

    /// The state after `payer` has opened the offer at `x`: the payer has
    /// paid the storage cost, and the offer stands at its address.
    pub open spec fn open_offer(self, x: Address, offer: Offer, payer: Address) -> LedgerState {
        self.charge(payer, self.storage_cost).with_offer(
            OfferRecord { address: x, offer, reserve: self.storage_cost },
        )
    }

    /// The state after the vault of the offer at `x` has been emptied into
    /// the holding of `to`.
    pub open spec fn release(self, x: Address, asset: Address, to: Address) -> LedgerState {
        let held = self.amount(x, asset) as u64;
        self.debit(x, asset, held).credit(to, asset, held)
    }

    /// The state after the vault of the offer at `x` has been closed and its
    /// storage cost returned to `refund_to`.
    pub open spec fn close_vault(self, x: Address, asset: Address, refund_to: Address) -> LedgerState {
        self.without_holding(x, asset).pay(refund_to, self.reserve(x, asset) as u64)
    }

    /// The state after the offer at `x` has been closed and its storage cost
    /// returned to `refund_to`.
    pub open spec fn close_offer(self, x: Address, refund_to: Address) -> LedgerState {
        self.without_offer(x).pay(refund_to, self.offer_reserve(x) as u64)
    }

    /// Whether `amount` new units of `asset` can be issued to `owner`: the
    /// asset is registered, its supply stays within 64 bits, and the holding
    /// that receives them is no vault.
    pub open spec fn issuable(self, owner: Address, asset: Address, amount: u64) -> bool {
        &&& self.assets.contains_key(asset)
        &&& self.assets[asset].supply + amount <= u64::MAX
        &&& !(self.holdings.contains_key((owner, asset)) && self.holdings[(owner, asset)].custodial)
    }

    /// The state of a ledger on which nothing has happened yet.
    pub open spec fn empty(storage_cost: u64) -> LedgerState {
        LedgerState {
            storage_cost,
            native_supply: 0,
            assets: Map::empty(),
            wallets: Map::empty(),
            holdings: Map::empty(),
            offers: Map::empty(),
        }
    }

    /// Every record stands under its own key, and every asset that a holding
    /// or an offer names is registered.
    pub open spec fn sound(self) -> bool {
        &&& forall|a: Address| #[trigger] self.assets.contains_key(a) ==> self.assets[a].mint == a
        &&& forall|p: Address| #[trigger] self.wallets.contains_key(p) ==> self.wallets[p].owner == p
        &&& forall|k: (Address, Address)| #[trigger]
            self.holdings.contains_key(k) ==> {
                &&& self.holdings[k].owner == k.0
                &&& self.holdings[k].asset == k.1
                &&& self.assets.contains_key(k.1)
            }
        &&& forall|x: Address| #[trigger]
            self.offers.contains_key(x) ==> {
                &&& self.offers[x].address == x
                &&& self.assets.contains_key(self.offers[x].offer.token_mint_a)
                &&& self.assets.contains_key(self.offers[x].offer.token_mint_b)
            }
    }

    /// The vault of the offer at `x` exists and holds something.
    pub open spec fn has_funded_vault(self, x: Address) -> bool {
        exists|asset: Address|
            {
                &&& #[trigger] self.holdings.contains_key((x, asset))
                &&& self.holdings[(x, asset)].custodial
                &&& self.holdings[(x, asset)].amount > 0
            }
    }

    /// Offers and vaults come in pairs: every offer has a funded vault for
    /// the asset it gives, and every vault is funded and belongs to an offer
    /// that gives its asset.
    pub open spec fn paired(self) -> bool {
        &&& forall|x: Address| #[trigger]
            self.offers.contains_key(x) ==> {
                let k = (x, self.offers[x].offer.token_mint_a);
                &&& self.holdings.contains_key(k)
                &&& self.holdings[k].custodial
                &&& self.holdings[k].amount > 0
            }
        &&& forall|k: (Address, Address)|
            #[trigger] self.holdings.contains_key(k) && self.holdings[k].custodial ==> {
                &&& self.holdings[k].amount > 0
                &&& self.offers.contains_key(k.0)
                &&& self.offers[k.0].offer.token_mint_a == k.1
            }
    }
}

/// The vault that an offer at `x` opens for `amount` units of `asset`.
pub open spec fn new_vault(x: Address, asset: Address, amount: u64, reserve: u64) -> Holding {
    Holding { owner: x, asset, amount, custodial: true, reserve }
}

/// The key of an asset: its identity.
pub open spec fn asset_key() -> spec_fn(Asset) -> Address {
    |a: Asset| a.mint
}

/// The key of a wallet: its owner.
pub open spec fn wallet_key() -> spec_fn(Wallet) -> Address {
    |w: Wallet| w.owner
}

/// The key of a holding: its owner and its asset.
pub open spec fn holding_key() -> spec_fn(Holding) -> (Address, Address) {
    |h: Holding| (h.owner, h.asset)
}

/// The key of an offer record: its address.
pub open spec fn offer_key() -> spec_fn(OfferRecord) -> Address {
    |o: OfferRecord| o.address
}

/// What a holding counts towards the units of `asset`.
pub open spec fn amount_in(asset: Address) -> spec_fn(Holding) -> nat {
    |h: Holding| if h.asset == asset { h.amount as nat } else { 0 }
}

/// The native units in a wallet.
pub open spec fn wallet_weight() -> spec_fn(Wallet) -> nat {
    |w: Wallet| w.balance as nat
}

/// The native units set aside in a holding.
pub open spec fn holding_weight() -> spec_fn(Holding) -> nat {
    |h: Holding| h.reserve as nat
}

/// The native units set aside in an offer record.
pub open spec fn offer_weight() -> spec_fn(OfferRecord) -> nat {
    |o: OfferRecord| o.reserve as nat
}

/// The authority to move what the vault of one offer holds.
///
/// No record stores it and no party owns it. It is made anew, for the length
/// of one operation, from an offer whose address is the one that its stored
/// maker, identifier and tag derive.
pub struct VaultAuthority {
    offer: Address,
    asset: Address,
}

impl VaultAuthority {
    /// The address of the offer whose vault this authority moves.
    pub closed spec fn offer(&self) -> Address {
        self.offer
    }

    /// The asset that the vault holds.
    pub closed spec fn asset(&self) -> Address {
        self.asset
    }

    /// The authority over the vault of `offer`, which stands at `address`,
    /// where `derived` is what the stored maker and identifier derive: there
    /// is one exactly when that is the address, with the stored tag.
    pub(crate) fn reconstruct(address: &Address, offer: &Offer, derived: &Option<(Address, u8)>) -> (authority:
        Option<VaultAuthority>)
        ensures
            authority is Some <==> *derived == Some((*address, offer.bump)),
            match authority {
                Some(a) => a.offer() == *address && a.asset() == offer.token_mint_a,
                None => true,
            },
    {
        match derived {
            Some((x, tag)) => {
                if *x == *address && *tag == offer.bump {
                    Some(VaultAuthority { offer: *address, asset: offer.token_mint_a })
                } else {
                    None
                }
            },
            None => None,
        }
    }
}

/// The ledger: a table each of assets, wallets, holdings and offers, none of
/// which holds two records under one key.
#[derive(Clone, Debug, PartialEq, Eq)]
pub struct Ledger {
    storage_cost: u64,
    native_supply: u64,
    assets: Vec<Asset>,
    wallets: Vec<Wallet>,
    holdings: Vec<Holding>,
    offers: Vec<OfferRecord>,
}

impl View for Ledger {
    type V = LedgerState;

    closed spec fn view(&self) -> LedgerState {
        LedgerState {
            storage_cost: self.storage_cost,
            native_supply: self.native_supply,
            assets: keyed(self.assets@, asset_key()),
            wallets: keyed(self.wallets@, wallet_key()),
            holdings: keyed(self.holdings@, holding_key()),
            offers: keyed(self.offers@, offer_key()),
        }
    }
}

impl Ledger {
    /// No table holds two records under one key.
    pub closed spec fn shaped(&self) -> bool {
        &&& distinct(self.assets@, asset_key())
        &&& distinct(self.wallets@, wallet_key())
        &&& distinct(self.holdings@, holding_key())
        &&& distinct(self.offers@, offer_key())
    }

    /// The sum of the units of `asset` over all holdings.
    pub closed spec fn held(&self, asset: Address) -> nat {
        total(self.holdings@, amount_in(asset))
    }

    /// The sum of all native units: those in wallets and those set aside in
    /// holdings and offer records.
    pub closed spec fn native_total(&self) -> nat {
        total(self.wallets@, wallet_weight()) + total(self.holdings@, holding_weight()) + total(
            self.offers@,
            offer_weight(),
        )
    }

    /// The ledger is well formed: its tables are maps, its records are sound
    /// and paired, the holdings of each registered asset add up to its supply,
    /// and the native units add up to the native supply.
    pub open spec fn wf(&self) -> bool {
        &&& self.shaped()
        &&& self@.sound()
        &&& self@.paired()
        &&& forall|a: Address|
            self@.assets.contains_key(a) ==> #[trigger] self.held(a) == self@.assets[a].supply
        &&& self.native_total() == self@.native_supply
    }

    /// A ledger on which nothing has happened yet, with the cost of storing
    /// one record.
    pub fn new(storage_cost: u64) -> (ledger: Ledger)
        ensures
            ledger.wf(),
            ledger@ == LedgerState::empty(storage_cost),
    {
        let ledger = Ledger {
            storage_cost,
            native_supply: 0,
            assets: Vec::new(),
            wallets: Vec::new(),
            holdings: Vec::new(),
            offers: Vec::new(),
        };
        ledger
    }

    /// Registers `mint` as an asset of which no unit exists yet. Returns
    /// whether it did: an asset is registered once.
    pub fn register_asset(&mut self, mint: Address) -> (registered: bool)
        requires
            old(self).wf(),
        ensures
            final(self).wf(),
            registered == !old(self)@.assets.contains_key(mint),
            registered ==> final(self)@ == old(self)@.with_asset(Asset { mint, supply: 0 }),
            !registered ==> *final(self) == *old(self),
    {
        if self.asset(&mint).is_some() {
            return false;
        }
        proof {
            assert forall|i: int| 0 <= i < self.holdings@.len() implies amount_in(mint)(
                #[trigger] self.holdings@[i],
            ) == 0 by {
                let h = self.holdings@[i];
                assert(self@.holdings.contains_key((h.owner, h.asset)));
            }
            lemma_total_zero(self.holdings@, amount_in(mint));
        }
        self.put_asset(Asset { mint, supply: 0 });
        true
    }

    /// Gives `owner` `amount` new native units. Returns whether it did: the
    /// native supply stays within 64 bits.
    pub fn fund(&mut self, owner: Address, amount: u64) -> (funded: bool)
        requires
            old(self).wf(),
        ensures
            final(self).wf(),
            funded == (old(self)@.native_supply + amount <= u64::MAX),
            funded ==> final(self)@ == (LedgerState {
                native_supply: (old(self)@.native_supply + amount) as u64,
                ..old(self)@.pay(owner, amount)
            }),
            !funded ==> *final(self) == *old(self),
    {
        if amount > u64::MAX - self.native_supply {
            return false;
        }
        proof {
            self.lemma_native_covers(owner);
        }
        self.native_supply = self.native_supply + amount;
        self.pay(&owner, amount);
        assert(forall|a: Address| #[trigger] self.held(a) == old(self).held(a));
        assert(final(self)@ =~= (LedgerState {
            native_supply: (old(self)@.native_supply + amount) as u64,
            ..old(self)@.pay(owner, amount)
        }));
        true
    }

    /// Issues `amount` new units of `asset` to `owner`, whose holding is
    /// opened where there is none. Returns whether it did.
    pub fn issue(&mut self, owner: Address, asset: Address, amount: u64) -> (issued: bool)
        requires
            old(self).wf(),
        ensures
            final(self).wf(),
            issued == old(self)@.issuable(owner, asset, amount),
            issued ==> final(self)@ == old(self)@.with_asset(
                Asset { mint: asset, supply: (old(self)@.assets[asset].supply + amount) as u64 },
            ).credit(owner, asset, amount),
            !issued ==> *final(self) == *old(self),
    {
        let supply = match self.asset(&asset) {
            Some(a) => a.supply,
            None => { return false; },
        };
        if amount > u64::MAX - supply {
            return false;
        }
        if let Some(h) = self.holding(&owner, &asset) {
            if h.custodial {
                return false;
            }
        }
        proof {
            self.lemma_held_covers(owner, asset);
        }
        self.put_asset(Asset { mint: asset, supply: supply + amount });
        self.credit(&owner, &asset, amount);
        true
    }

    fn find_holding(&self, owner: &Address, asset: &Address) -> (found: Option<usize>)
        ensures
            match found {
                Some(i) => i < self.holdings@.len() && self.holdings@[i as int].owner == *owner
                    && self.holdings@[i as int].asset == *asset,
                None => forall|i: int|
                    0 <= i < self.holdings@.len() ==> holding_key()(#[trigger] self.holdings@[i])
                        != (*owner, *asset),
            },
    {
        let mut i: usize = 0;
        while i < self.holdings.len()
            invariant
                i <= self.holdings@.len(),
                forall|j: int|
                    0 <= j < i ==> holding_key()(#[trigger] self.holdings@[j]) != (*owner, *asset),
            decreases self.holdings@.len() - i,
        {
            if self.holdings[i].owner == *owner && self.holdings[i].asset == *asset {
                return Some(i);
            }
            i += 1;
        }
        None
    }

    /// Stores `h` as the holding of its owner and asset, in place of the one
    /// that was there, if any.
    pub(crate) fn put_holding(&mut self, h: Holding)
        requires
            old(self).shaped(),
        ensures
            final(self).shaped(),
            final(self)@ == old(self)@.with_holding(h),
            final(self).held(h.asset) + old(self)@.amount(h.owner, h.asset) == old(self).held(
                h.asset,
            ) + h.amount,
            forall|a: Address| a != h.asset ==> #[trigger] final(self).held(a) == old(self).held(a),
            final(self).native_total() + old(self)@.reserve(h.owner, h.asset) == old(
                self,
            ).native_total() + h.reserve,
    {
        let ghost before = self.holdings@;
        match self.find_holding(&h.owner, &h.asset) {
            Some(i) => {
                proof {
                    lemma_keyed_update(before, holding_key(), i as int, h);
                    lemma_total_update(before, holding_weight(), i as int, h);
                    assert forall|a: Address|
                        total(before.update(i as int, h), #[trigger] amount_in(a)) + amount_in(a)(
                            before[i as int],
                        ) == total(before, amount_in(a)) + amount_in(a)(h) by {
                        lemma_total_update(before, amount_in(a), i as int, h);
                    }
                }
                self.holdings[i] = h;
            },
            None => {
                proof {
                    lemma_keyed_push(before, holding_key(), h);
                    lemma_total_push(before, holding_weight(), h);
                    assert forall|a: Address|
                        total(before.push(h), #[trigger] amount_in(a)) == total(before, amount_in(a))
                            + amount_in(a)(h) by {
                        lemma_total_push(before, amount_in(a), h);
                    }
                }
                self.holdings.push(h);
            },
        }
    }

    /// Removes the holding of `owner` for `asset`, if there is one.
    pub(crate) fn drop_holding(&mut self, owner: &Address, asset: &Address)
        requires
            old(self).shaped(),
        ensures
            final(self).shaped(),
            final(self)@ == old(self)@.without_holding(*owner, *asset),
            final(self).held(*asset) + old(self)@.amount(*owner, *asset) == old(self).held(*asset),
            forall|a: Address| a != *asset ==> #[trigger] final(self).held(a) == old(self).held(a),
            final(self).native_total() + old(self)@.reserve(*owner, *asset) == old(
                self,
            ).native_total(),
    {
        let ghost before = self.holdings@;
        match self.find_holding(owner, asset) {
            Some(i) => {
                proof {
                    lemma_keyed_remove(before, holding_key(), i as int);
                    lemma_total_remove(before, holding_weight(), i as int);
                    assert forall|a: Address|
                        total(before.remove(i as int), #[trigger] amount_in(a)) + amount_in(a)(
                            before[i as int],
                        ) == total(before, amount_in(a)) by {
                        lemma_total_remove(before, amount_in(a), i as int);
                    }
                }
                self.holdings.remove(i);
            },
            None => {},
        }
    }

    fn find_wallet(&self, owner: &Address) -> (found: Option<usize>)
        ensures
            match found {
                Some(i) => i < self.wallets@.len() && self.wallets@[i as int].owner == *owner,
                None => forall|i: int|
                    0 <= i < self.wallets@.len() ==> wallet_key()(#[trigger] self.wallets@[i])
                        != *owner,
            },
    {
        let mut i: usize = 0;
        while i < self.wallets.len()
            invariant
                i <= self.wallets@.len(),
                forall|j: int| 0 <= j < i ==> wallet_key()(#[trigger] self.wallets@[j]) != *owner,
            decreases self.wallets@.len() - i,
        {
            if self.wallets[i].owner == *owner {
                return Some(i);
            }
            i += 1;
        }
        None
    }

    /// Stores `w` as the wallet of its owner, in place of the one that was
    /// there, if any.
    pub(crate) fn put_wallet(&mut self, w: Wallet)
        requires
            old(self).shaped(),
        ensures
            final(self).shaped(),
            final(self)@ == old(self)@.with_wallet(w),
            forall|a: Address| #[trigger] final(self).held(a) == old(self).held(a),
            final(self).native_total() + old(self)@.balance(w.owner) == old(self).native_total()
                + w.balance,
    {
        let ghost before = self.wallets@;
        match self.find_wallet(&w.owner) {
            Some(i) => {
                proof {
                    lemma_keyed_update(before, wallet_key(), i as int, w);
                    lemma_total_update(before, wallet_weight(), i as int, w);
                }
                self.wallets[i] = w;
            },
            None => {
                proof {
                    lemma_keyed_push(before, wallet_key(), w);
                    lemma_total_push(before, wallet_weight(), w);
                }
                self.wallets.push(w);
            },
        }
    }

    fn find_offer(&self, address: &Address) -> (found: Option<usize>)
        ensures
            match found {
                Some(i) => i < self.offers@.len() && self.offers@[i as int].address == *address,
                None => forall|i: int|
                    0 <= i < self.offers@.len() ==> offer_key()(#[trigger] self.offers@[i])
                        != *address,
            },
    {
        let mut i: usize = 0;
        while i < self.offers.len()
            invariant
                i <= self.offers@.len(),
                forall|j: int| 0 <= j < i ==> offer_key()(#[trigger] self.offers@[j]) != *address,
            decreases self.offers@.len() - i,
        {
            if self.offers[i].address == *address {
                return Some(i);
            }
            i += 1;
        }
        None
    }

    /// Stores `record` at its address, in place of the one that was there, if
    /// any.
    pub(crate) fn put_offer(&mut self, record: OfferRecord)
        requires
            old(self).shaped(),
        ensures
            final(self).shaped(),
            final(self)@ == old(self)@.with_offer(record),
            forall|a: Address| #[trigger] final(self).held(a) == old(self).held(a),
            final(self).native_total() + old(self)@.offer_reserve(record.address) == old(
                self,
            ).native_total() + record.reserve,
    {
        let ghost before = self.offers@;
        match self.find_offer(&record.address) {
            Some(i) => {
                proof {
                    lemma_keyed_update(before, offer_key(), i as int, record);
                    lemma_total_update(before, offer_weight(), i as int, record);
                }
                self.offers[i] = record;
            },
            None => {
                proof {
                    lemma_keyed_push(before, offer_key(), record);
                    lemma_total_push(before, offer_weight(), record);
                }
                self.offers.push(record);
            },
        }
    }

    /// Removes the offer at `address`, if there is one.
    pub(crate) fn drop_offer(&mut self, address: &Address)
        requires
            old(self).shaped(),
        ensures
            final(self).shaped(),
            final(self)@ == old(self)@.without_offer(*address),
            forall|a: Address| #[trigger] final(self).held(a) == old(self).held(a),
            final(self).native_total() + old(self)@.offer_reserve(*address) == old(
                self,
            ).native_total(),
    {
        let ghost before = self.offers@;
        match self.find_offer(address) {
            Some(i) => {
                proof {
                    lemma_keyed_remove(before, offer_key(), i as int);
                    lemma_total_remove(before, offer_weight(), i as int);
                }
                self.offers.remove(i);
            },
            None => {},
        }
    }

    fn find_asset(&self, mint: &Address) -> (found: Option<usize>)
        ensures
            match found {
                Some(i) => i < self.assets@.len() && self.assets@[i as int].mint == *mint,
                None => forall|i: int|
                    0 <= i < self.assets@.len() ==> asset_key()(#[trigger] self.assets@[i]) != *mint,
            },
    {
        let mut i: usize = 0;
        while i < self.assets.len()
            invariant
                i <= self.assets@.len(),
                forall|j: int| 0 <= j < i ==> asset_key()(#[trigger] self.assets@[j]) != *mint,
            decreases self.assets@.len() - i,
        {
            if self.assets[i].mint == *mint {
                return Some(i);
            }
            i += 1;
        }
        None
    }

    /// Stores `asset` under its identity, in place of the one that was there,
    /// if any.
    pub(crate) fn put_asset(&mut self, asset: Asset)
        requires
            old(self).shaped(),
        ensures
            final(self).shaped(),
            final(self)@ == old(self)@.with_asset(asset),
            forall|a: Address| #[trigger] final(self).held(a) == old(self).held(a),
            final(self).native_total() == old(self).native_total(),
    {
        let ghost before = self.assets@;
        match self.find_asset(&asset.mint) {
            Some(i) => {
                proof {
                    lemma_keyed_update(before, asset_key(), i as int, asset);
                }
                self.assets[i] = asset;
            },
            None => {
                proof {
                    lemma_keyed_push(before, asset_key(), asset);
                }
                self.assets.push(asset);
            },
        }
    }

    /// Adds `amount` units of `asset` to the holding of `owner`, opening it
    /// where there is none.
    pub(crate) fn credit(&mut self, owner: &Address, asset: &Address, amount: u64)
        requires
            old(self).shaped(),
            old(self)@.amount(*owner, *asset) + amount <= u64::MAX,
        ensures
            final(self).shaped(),
            final(self)@ == old(self)@.credit(*owner, *asset, amount),
            final(self).held(*asset) == old(self).held(*asset) + amount,
            forall|a: Address| a != *asset ==> #[trigger] final(self).held(a) == old(self).held(a),
            final(self).native_total() == old(self).native_total(),
    {
        match self.holding(owner, asset) {
            Some(h) => {
                self.put_holding(Holding { amount: h.amount + amount, ..h });
            },
            None => {
                self.put_holding(
                    Holding { owner: *owner, asset: *asset, amount, custodial: false, reserve: 0 },
                );
            },
        }
    }

    /// Takes `amount` units of `asset` out of the holding of `owner`, who
    /// can spend them.
    pub(crate) fn debit(&mut self, owner: &Address, asset: &Address, amount: u64)
        requires
            old(self).shaped(),
            amount <= old(self)@.spendable(*owner, *asset),
        ensures
            final(self).shaped(),
            final(self)@ == old(self)@.debit(*owner, *asset, amount),
            final(self).held(*asset) + amount == old(self).held(*asset),
            forall|a: Address| a != *asset ==> #[trigger] final(self).held(a) == old(self).held(a),
            final(self).native_total() == old(self).native_total(),
    {
        match self.holding(owner, asset) {
            Some(h) => {
                self.put_holding(Holding { amount: h.amount - amount, ..h });
            },
            None => {},
        }
    }

    /// Opens the vault of the offer at `x`: `payer` pays the storage cost and
    /// locks `amount` units of `asset` in it.
    pub(crate) fn open_vault(&mut self, x: &Address, asset: &Address, amount: u64, payer: &Address)
        requires
            old(self).shaped(),
            amount <= old(self)@.spendable(*payer, *asset),
            old(self)@.storage_cost <= old(self)@.balance(*payer),
            !old(self)@.holdings.contains_key((*x, *asset)),
        ensures
            final(self).shaped(),
            final(self)@ == old(self)@.open_vault(*x, *asset, amount, *payer),
            forall|a: Address| #[trigger] final(self).held(a) == old(self).held(a),
            final(self).native_total() == old(self).native_total(),
    {
        let cost = self.storage_cost;
        self.charge(payer, cost);
        self.debit(payer, asset, amount);
        self.put_holding(
            Holding { owner: *x, asset: *asset, amount, custodial: true, reserve: cost },
        );
    }

    /// Opens the offer at `x`: `payer` pays the storage cost, and the offer
    /// stands at its address.
    pub(crate) fn open_offer(&mut self, x: &Address, offer: Offer, payer: &Address)
        requires
            old(self).shaped(),
            old(self)@.storage_cost <= old(self)@.balance(*payer),
            !old(self)@.offers.contains_key(*x),
        ensures
            final(self).shaped(),
            final(self)@ == old(self)@.open_offer(*x, offer, *payer),
            forall|a: Address| #[trigger] final(self).held(a) == old(self).held(a),
            final(self).native_total() == old(self).native_total(),
    {
        let cost = self.storage_cost;
        self.charge(payer, cost);
        self.put_offer(OfferRecord { address: *x, offer, reserve: cost });
    }

    /// Empties the vault that `authority` stands for into the holding of
    /// `to`, which is opened where there is none.
    pub(crate) fn release_vault(&mut self, authority: &VaultAuthority, to: &Address)
        requires
            old(self).shaped(),
            old(self).held(authority.asset()) <= u64::MAX,
            *to != authority.offer(),
        ensures
            final(self).shaped(),
            final(self)@ == old(self)@.release(authority.offer(), authority.asset(), *to),
            old(self)@.amount(*to, authority.asset()) + old(self)@.amount(
                authority.offer(),
                authority.asset(),
            ) <= old(self).held(authority.asset()),
            forall|a: Address| #[trigger] final(self).held(a) == old(self).held(a),
            final(self).native_total() == old(self).native_total(),
    {
        let x = authority.offer;
        let asset = authority.asset;
        proof {
            self.lemma_held_covers_two(x, *to, asset);
        }
        let held = match self.holding(&x, &asset) {
            Some(vault) => {
                self.put_holding(Holding { amount: 0, ..vault });
                vault.amount
            },
            None => 0,
        };
        self.credit(to, &asset, held);
    }

    /// Closes the vault that `authority` stands for, which has been emptied,
    /// and returns its storage cost to `refund_to`. The authority ends here.
    pub(crate) fn close_vault(&mut self, authority: VaultAuthority, refund_to: &Address)
        requires
            old(self).shaped(),
            old(self)@.amount(authority.offer(), authority.asset()) == 0,
            old(self).native_total() <= u64::MAX,
        ensures
            final(self).shaped(),
            final(self)@ == old(self)@.close_vault(authority.offer(), authority.asset(), *refund_to),
            forall|a: Address| #[trigger] final(self).held(a) == old(self).held(a),
            final(self).native_total() == old(self).native_total(),
    {
        let reserve = match self.holding(&authority.offer, &authority.asset) {
            Some(vault) => vault.reserve,
            None => 0,
        };
        self.drop_holding(&authority.offer, &authority.asset);
        proof {
            self.lemma_native_covers(*refund_to);
        }
        self.pay(refund_to, reserve);
    }

    /// Closes the offer at `address` and returns its storage cost to
    /// `refund_to`.
    pub(crate) fn close_offer(&mut self, address: &Address, refund_to: &Address)
        requires
            old(self).shaped(),
            old(self).native_total() <= u64::MAX,
        ensures
            final(self).shaped(),
            final(self)@ == old(self)@.close_offer(*address, *refund_to),
            forall|a: Address| #[trigger] final(self).held(a) == old(self).held(a),
            final(self).native_total() == old(self).native_total(),
    {
        let reserve = match self.offer(address) {
            Some(record) => record.reserve,
            None => 0,
        };
        self.drop_offer(address);
        proof {
            self.lemma_native_covers(*refund_to);
        }
        self.pay(refund_to, reserve);
    }

    /// Adds `amount` native units to the wallet of `owner`, opening it where
    /// there is none.
    pub(crate) fn pay(&mut self, owner: &Address, amount: u64)
        requires
            old(self).shaped(),
            old(self)@.balance(*owner) + amount <= u64::MAX,
        ensures
            final(self).shaped(),
            final(self)@ == old(self)@.pay(*owner, amount),
            forall|a: Address| #[trigger] final(self).held(a) == old(self).held(a),
            final(self).native_total() == old(self).native_total() + amount,
    {
        let balance = match self.wallet(owner) {
            Some(w) => w.balance,
            None => 0,
        };
        self.put_wallet(Wallet { owner: *owner, balance: balance + amount });
    }

    /// Takes `amount` native units out of the wallet of `owner`.
    pub(crate) fn charge(&mut self, owner: &Address, amount: u64)
        requires
            old(self).shaped(),
            amount <= old(self)@.balance(*owner),
        ensures
            final(self).shaped(),
            final(self)@ == old(self)@.charge(*owner, amount),
            forall|a: Address| #[trigger] final(self).held(a) == old(self).held(a),
            final(self).native_total() + amount == old(self).native_total(),
    {
        match self.wallet(owner) {
            Some(w) => {
                self.put_wallet(Wallet { owner: *owner, balance: w.balance - amount });
            },
            None => {},
        }
    }

    /// One holding never has more units than all holdings of its asset
    /// together.
    pub(crate) proof fn lemma_held_covers(&self, owner: Address, asset: Address)
        requires
            self.shaped(),
        ensures
            self@.amount(owner, asset) <= self.held(asset),
    {
        let k = (owner, asset);
        if self@.holdings.contains_key(k) {
            let i = position(self.holdings@, holding_key(), k);
            lemma_total_covers(self.holdings@, amount_in(asset), i);
        }
    }

    /// Two holdings of one asset never have more units together than all
    /// holdings of the asset.
    pub(crate) proof fn lemma_held_covers_two(&self, first: Address, second: Address, asset: Address)
        requires
            self.shaped(),
            first != second,
        ensures
            self@.amount(first, asset) + self@.amount(second, asset) <= self.held(asset),
    {
        let k1 = (first, asset);
        let k2 = (second, asset);
        if self@.holdings.contains_key(k1) && self@.holdings.contains_key(k2) {
            let i = position(self.holdings@, holding_key(), k1);
            let j = position(self.holdings@, holding_key(), k2);
            lemma_total_covers_two(self.holdings@, amount_in(asset), i, j);
        } else {
            self.lemma_held_covers(first, asset);
            self.lemma_held_covers(second, asset);
        }
    }

    /// Two holdings of one asset never have more units together than the
    /// asset's supply, and so never more than 64 bits hold.
    pub proof fn lemma_holdings_within_supply(&self, first: Address, second: Address, asset: Address)
        requires
            self.wf(),
            first != second,
        ensures
            self@.amount(first, asset) + self@.amount(second, asset) <= u64::MAX,
            self@.assets.contains_key(asset) ==> self@.amount(first, asset) + self@.amount(
                second,
                asset,
            ) <= self@.assets[asset].supply,
    {
        self.lemma_held_covers_two(first, second, asset);
    }

    /// A wallet, the storage cost set aside in a holding and the one set
    /// aside in the offer of its owner never come to more native units than
    /// the native supply.
    pub proof fn lemma_native_within_supply(&self, owner: Address, x: Address, asset: Address)
        requires
            self.wf(),
        ensures
            self@.balance(owner) + self@.reserve(x, asset) + self@.offer_reserve(x)
                <= self@.native_supply,
    {
        if self@.wallets.contains_key(owner) {
            let i = position(self.wallets@, wallet_key(), owner);
            lemma_total_covers(self.wallets@, wallet_weight(), i);
        }
        if self@.holdings.contains_key((x, asset)) {
            let i = position(self.holdings@, holding_key(), (x, asset));
            lemma_total_covers(self.holdings@, holding_weight(), i);
        }
        if self@.offers.contains_key(x) {
            let i = position(self.offers@, offer_key(), x);
            lemma_total_covers(self.offers@, offer_weight(), i);
        }
    }

    /// One wallet never has more native units than there are in all.
    pub(crate) proof fn lemma_native_covers(&self, owner: Address)
        requires
            self.shaped(),
        ensures
            self@.balance(owner) <= self.native_total(),
    {
        if self@.wallets.contains_key(owner) {
            let i = position(self.wallets@, wallet_key(), owner);
            lemma_total_covers(self.wallets@, wallet_weight(), i);
        }
    }

    /// The holding of `owner` for `asset`, if there is one.
    pub fn holding(&self, owner: &Address, asset: &Address) -> (found: Option<Holding>)
        requires
            self.shaped(),
        ensures
            found == if self@.holdings.contains_key((*owner, *asset)) {
                Some(self@.holdings[(*owner, *asset)])
            } else {
                None
            },
    {
        match self.find_holding(owner, asset) {
            Some(i) => Some(self.holdings[i]),
            None => None,
        }
    }

    /// The wallet of `owner`, if there is one.
    pub fn wallet(&self, owner: &Address) -> (found: Option<Wallet>)
        requires
            self.shaped(),
        ensures
            found == if self@.wallets.contains_key(*owner) {
                Some(self@.wallets[*owner])
            } else {
                None
            },
    {
        match self.find_wallet(owner) {
            Some(i) => Some(self.wallets[i]),
            None => None,
        }
    }

    /// The offer at `address`, if there is one.
    pub fn offer(&self, address: &Address) -> (found: Option<OfferRecord>)
        requires
            self.shaped(),
        ensures
            found == if self@.offers.contains_key(*address) {
                Some(self@.offers[*address])
            } else {
                None
            },
    {
        match self.find_offer(address) {
            Some(i) => Some(self.offers[i]),
            None => None,
        }
    }

    /// The registered asset `mint`, if there is one.
    pub fn asset(&self, mint: &Address) -> (found: Option<Asset>)
        requires
            self.shaped(),
        ensures
            found == if self@.assets.contains_key(*mint) {
                Some(self@.assets[*mint])
            } else {
                None
            },
    {
        match self.find_asset(mint) {
            Some(i) => Some(self.assets[i]),
            None => None,
        }
    }

    /// The units of `asset` in the holding of `owner`; none where there is
    /// no such holding.
    pub fn amount(&self, owner: &Address, asset: &Address) -> (units: u64)
        requires
            self.shaped(),
        ensures
            units == self@.amount(*owner, *asset),
    {
        match self.holding(owner, asset) {
            Some(h) => h.amount,
            None => 0,
        }
    }

    /// The units of `asset` that `owner` can spend.
    pub fn spendable(&self, owner: &Address, asset: &Address) -> (units: u64)
        requires
            self.shaped(),
        ensures
            units == self@.spendable(*owner, *asset),
    {
        match self.holding(owner, asset) {
            Some(h) => if h.custodial {
                0
            } else {
                h.amount
            },
            None => 0,
        }
    }

    /// The native balance of `owner`; nothing where there is no wallet.
    pub fn balance(&self, owner: &Address) -> (units: u64)
        requires
            self.shaped(),
        ensures
            units == self@.balance(*owner),
    {
        match self.wallet(owner) {
            Some(w) => w.balance,
            None => 0,
        }
    }

    /// What the creation of one record costs its payer.
    pub fn storage_cost(&self) -> (cost: u64)
        ensures
            cost == self@.storage_cost,
    {
        self.storage_cost
    }
}

} // verus!
