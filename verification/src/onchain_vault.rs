//! A vault of native units that its authority can lock: the rules by which
//! a deposit and a withdrawal are accepted.

use crate::address::Address;
use vstd::prelude::*;

verus! {

/// Why a deposit or a withdrawal was rejected.
#[derive(Clone, Copy, Debug, PartialEq, Eq, Structural)]
pub enum VaultError {
    /// The vault is locked.
    VaultLocked,
    /// The amount is zero, or more than the paying account holds.
    InsufficientBalance,
}

/// An account that signs for an operation, with its native balance.
#[derive(Clone, Copy, Debug)]
pub struct Signer {
    pub key: Address,
    pub lamports: u64,
}

/// A vault: its address, the authority it belongs to, whether it is locked,
/// and its native balance.
#[derive(Clone, Copy, Debug)]
pub struct Vault {
    pub key: Address,
    pub vault_authority: Address,
    pub locked: bool,
    pub lamports: u64,
}

/// The accounts of a deposit.
#[derive(Clone, Copy, Debug)]
pub struct Deposit {
    pub user: Signer,
    pub vault: Vault,
}

/// The accounts of a withdrawal.
#[derive(Clone, Copy, Debug)]
pub struct Withdraw {
    pub vault_authority: Signer,
    pub vault: Vault,
}

/// The record of an accepted deposit: `amount` is to move from `user` to
/// `vault`.
#[derive(Clone, Copy, Debug, PartialEq, Eq)]
pub struct DepositEvent {
    pub vault: Address,
    pub user: Address,
    pub amount: u64,
}

/// The record of an accepted withdrawal: `amount` has moved from `vault` to
/// `vault_authority`.
#[derive(Clone, Copy, Debug, PartialEq, Eq)]
pub struct WithdrawEvent {
    pub vault: Address,
    pub vault_authority: Address,
    pub amount: u64,
}

/// What moving `amount` out of an account that holds `available` comes to,
/// where `locked` says whether the vault involved is locked: nothing where it
/// is accepted, else the reason. The amount is looked at first, then the
/// lock, then the balance.
pub open spec fn transfer_refused(amount: u64, locked: bool, available: u64) -> Option<VaultError> {
    if amount == 0 {
        Some(VaultError::InsufficientBalance)
    } else if locked {
        Some(VaultError::VaultLocked)
    } else if available < amount {
        Some(VaultError::InsufficientBalance)
    } else {
        None
    }
}

/// Decides whether `amount` may move out of an account that holds
/// `available`, where `locked` says whether the vault involved is locked.
pub fn refusal(amount: u64, locked: bool, available: u64) -> (refused: Option<VaultError>)
    ensures
        refused == transfer_refused(amount, locked, available),
{
    if amount == 0 {
        Some(VaultError::InsufficientBalance)
    } else if locked {
        Some(VaultError::VaultLocked)
    } else if available < amount {
        Some(VaultError::InsufficientBalance)
    } else {
        None
    }
}

/// Decides on a deposit of `amount` from the user into the vault. An
/// accepted deposit comes back as the event that records it: the transfer it
/// names is for the caller to carry out.
pub fn _deposit(ctx: &Deposit, amount: u64) -> (result: Result<DepositEvent, VaultError>)
    ensures
        match transfer_refused(amount, ctx.vault.locked, ctx.user.lamports) {
            Some(e) => result == Err::<DepositEvent, VaultError>(e),
            None => result == Ok::<DepositEvent, VaultError>(
                DepositEvent { vault: ctx.vault.key, user: ctx.user.key, amount },
            ),
        },
{
    match refusal(amount, ctx.vault.locked, ctx.user.lamports) {
        Some(e) => Err(e),
        None => Ok(DepositEvent { vault: ctx.vault.key, user: ctx.user.key, amount }),
    }
}

/// Withdraws `amount` from the vault to its authority and returns the event
/// that records it. A rejected withdrawal leaves both balances as they were.
/// An accepted one must leave the authority's balance within 64 bits.
pub fn _withdraw(ctx: &mut Withdraw, amount: u64) -> (result: Result<WithdrawEvent, VaultError>)
    requires
        transfer_refused(amount, old(ctx).vault.locked, old(ctx).vault.lamports) is None
            ==> old(ctx).vault_authority.lamports + amount <= u64::MAX,
    ensures
        match transfer_refused(amount, old(ctx).vault.locked, old(ctx).vault.lamports) {
            Some(e) => result == Err::<WithdrawEvent, VaultError>(e) && *final(ctx) == *old(ctx),
            None => {
                &&& result == Ok::<WithdrawEvent, VaultError>(
                    WithdrawEvent {
                        vault: old(ctx).vault.key,
                        vault_authority: old(ctx).vault_authority.key,
                        amount,
                    },
                )
                &&& *final(ctx) == (Withdraw {
                    vault_authority: Signer {
                        lamports: (old(ctx).vault_authority.lamports + amount) as u64,
                        ..old(ctx).vault_authority
                    },
                    vault: Vault {
                        lamports: (old(ctx).vault.lamports - amount) as u64,
                        ..old(ctx).vault
                    },
                })
            },
        },
{
    if let Some(e) = refusal(amount, ctx.vault.locked, ctx.vault.lamports) {
        return Err(e);
    }
    ctx.vault.lamports = ctx.vault.lamports - amount;
    ctx.vault_authority.lamports = ctx.vault_authority.lamports + amount;
    Ok(
        WithdrawEvent {
            vault: ctx.vault.key,
            vault_authority: ctx.vault_authority.key,
            amount,
        },
    )
}

} // verus!
