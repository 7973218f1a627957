use coffee_exchange::address::Address;
use coffee_exchange::onchain_vault::{
    Deposit, DepositEvent, Signer, Vault, VaultError, Withdraw, WithdrawEvent, _deposit, _withdraw,
};

fn key(n: u8) -> Address {
    Address::new([n; 32])
}

fn vault(locked: bool, lamports: u64) -> Vault {
    Vault { key: key(9), vault_authority: key(1), locked, lamports }
}

fn deposit(user: u64, locked: bool) -> Deposit {
    Deposit { user: Signer { key: key(2), lamports: user }, vault: vault(locked, 10) }
}

fn withdraw(authority: u64, locked: bool, held: u64) -> Withdraw {
    Withdraw { vault_authority: Signer { key: key(1), lamports: authority }, vault: vault(locked, held) }
}

#[test]
fn deposit_is_accepted_up_to_the_balance() {
    let ctx = deposit(100, false);
    assert_eq!(_deposit(&ctx, 100), Ok(DepositEvent { vault: key(9), user: key(2), amount: 100 }));
    assert_eq!(_deposit(&ctx, 1), Ok(DepositEvent { vault: key(9), user: key(2), amount: 1 }));
    assert_eq!(_deposit(&ctx, 101), Err(VaultError::InsufficientBalance));
}

#[test]
fn deposit_of_nothing_is_rejected() {
    assert_eq!(_deposit(&deposit(100, false), 0), Err(VaultError::InsufficientBalance));
    assert_eq!(_deposit(&deposit(100, true), 0), Err(VaultError::InsufficientBalance));
}

#[test]
fn deposit_into_a_locked_vault_is_rejected() {
    assert_eq!(_deposit(&deposit(100, true), 5), Err(VaultError::VaultLocked));
    assert_eq!(_deposit(&deposit(1, true), 5), Err(VaultError::VaultLocked));
}

#[test]
fn withdraw_moves_the_amount_to_the_authority() {
    let mut ctx = withdraw(7, false, 50);
    assert_eq!(
        _withdraw(&mut ctx, 20),
        Ok(WithdrawEvent { vault: key(9), vault_authority: key(1), amount: 20 })
    );
    assert_eq!(ctx.vault.lamports, 30);
    assert_eq!(ctx.vault_authority.lamports, 27);
    assert!(_withdraw(&mut ctx, 30).is_ok());
    assert_eq!(ctx.vault.lamports, 0);
    assert_eq!(ctx.vault_authority.lamports, 57);
    assert!(!ctx.vault.locked);
    assert_eq!(ctx.vault.key, key(9));
}

#[test]
fn withdraw_of_nothing_or_too_much_is_rejected() {
    let mut ctx = withdraw(7, false, 50);
    assert_eq!(_withdraw(&mut ctx, 0), Err(VaultError::InsufficientBalance));
    assert_eq!(_withdraw(&mut ctx, 51), Err(VaultError::InsufficientBalance));
    assert_eq!((ctx.vault.lamports, ctx.vault_authority.lamports), (50, 7));
}

#[test]
fn withdraw_from_a_locked_vault_is_rejected() {
    let mut ctx = withdraw(7, true, 50);
    assert_eq!(_withdraw(&mut ctx, 5), Err(VaultError::VaultLocked));
    assert_eq!(_withdraw(&mut ctx, 500), Err(VaultError::VaultLocked));
    assert_eq!(_withdraw(&mut ctx, 0), Err(VaultError::InsufficientBalance));
    assert_eq!((ctx.vault.lamports, ctx.vault_authority.lamports), (50, 7));
}

#[test]
fn withdraw_at_the_limit_of_64_bits() {
    let mut ctx = withdraw(u64::MAX - 50, false, 50);
    assert!(_withdraw(&mut ctx, 50).is_ok());
    assert_eq!(ctx.vault_authority.lamports, u64::MAX);
    assert_eq!(_withdraw(&mut ctx, 1), Err(VaultError::InsufficientBalance));
    assert_eq!(ctx.vault_authority.lamports, u64::MAX);
}
