use escrow_pool::address::{derive_address, Address};
use escrow_pool::error::ErrorCode;
use escrow_pool::pool::{ConfigAccount, Initialize, PoolConfig};

fn program() -> Address {
    Address { bytes: [5u8; 32] }
}

fn authority() -> Address {
    Address { bytes: [11u8; 32] }
}

fn accounts(seed: u64) -> Initialize {
    let (config, _) = derive_address(&program(), &b"config".to_vec(), &vec![seed.to_le_bytes().to_vec()]).unwrap();
    let (mint_lp, _) = derive_address(&program(), &b"lp".to_vec(), &vec![config.bytes.to_vec()]).unwrap();
    Initialize {
        initializer: Address { bytes: [12u8; 32] },
        mint_x: Address { bytes: [21u8; 32] },
        mint_y: Address { bytes: [22u8; 32] },
        mint_lp,
        config: ConfigAccount { key: config, data: None },
    }
}

fn created(fee: u16, auth: Option<Address>) -> (Initialize, PoolConfig) {
    let mut ctx = accounts(77);
    ctx.init(&program(), 77, fee, auth).unwrap();
    let c = ctx.config.data.unwrap();
    (ctx, c)
}

#[test]
fn init_records_configuration() {
    let (ctx, c) = created(30, Some(authority()));
    assert_eq!(c.seed, 77);
    assert_eq!(c.fee, 30);
    assert!(!c.locked);
    assert_eq!(c.authority, Some(authority()));
    assert_eq!(c.mint_x, ctx.mint_x);
    assert_eq!(c.mint_y, ctx.mint_y);
    assert!(c.verify_config(&program(), &ctx.config.key));
    assert!(c.verify_lp_mint(&program(), &ctx.config.key, &ctx.mint_lp));
    assert!(!c.verify_lp_mint(&program(), &ctx.config.key, &ctx.mint_x));
}

#[test]
fn init_with_equal_mints_is_refused() {
    let mut ctx = accounts(1);
    ctx.mint_y = ctx.mint_x;
    assert_eq!(ctx.init(&program(), 1, 30, None), Err(ErrorCode::InvalidParameter));
    assert!(ctx.config.data.is_none());
}

#[test]
fn init_with_fee_above_maximum_is_refused() {
    let mut ctx = accounts(1);
    assert_eq!(ctx.init(&program(), 1, 10_001, None), Err(ErrorCode::InvalidParameter));
    let mut ctx = accounts(1);
    assert_eq!(ctx.init(&program(), 1, 10_000, None), Ok(()));
}

#[test]
fn init_with_other_seed_is_refused() {
    let mut ctx = accounts(1);
    assert_eq!(ctx.init(&program(), 2, 30, None), Err(ErrorCode::AddressMismatch));
}

#[test]
fn init_with_wrong_lp_mint_is_refused() {
    let mut ctx = accounts(1);
    ctx.mint_lp = Address { bytes: [0u8; 32] };
    assert_eq!(ctx.init(&program(), 1, 30, None), Err(ErrorCode::AddressMismatch));
}

#[test]
fn second_init_is_refused() {
    let mut ctx = accounts(3);
    ctx.init(&program(), 3, 30, None).unwrap();
    assert_eq!(ctx.init(&program(), 3, 40, None), Err(ErrorCode::AlreadyInitialized));
    assert_eq!(ctx.config.data.unwrap().fee, 30);
}

#[test]
fn set_locked_by_non_authority_is_refused() {
    let (_, mut c) = created(30, Some(authority()));
    let stranger = Address { bytes: [99u8; 32] };
    assert_eq!(c.set_locked(&stranger, true), Err(ErrorCode::Unauthorized));
    assert!(!c.locked);
}

#[test]
fn set_locked_by_authority_toggles_lock() {
    let (_, mut c) = created(30, Some(authority()));
    assert_eq!(c.set_locked(&authority(), true), Ok(()));
    assert!(c.locked);
    assert_eq!(c.check_unlocked(), Err(ErrorCode::PoolLocked));
    assert_eq!(c.set_locked(&authority(), false), Ok(()));
    assert_eq!(c.check_unlocked(), Ok(()));
}

#[test]
fn set_locked_without_authority_is_refused() {
    let (_, mut c) = created(30, None);
    assert_eq!(c.set_locked(&authority(), true), Err(ErrorCode::Unauthorized));
    assert!(!c.locked);
}

#[test]
fn quote_swap_uses_fee_and_lock() {
    let (_, mut c) = created(30, Some(authority()));
    assert_eq!(c.quote_swap(1000, 1000, 100), Ok(90));
    c.set_locked(&authority(), true).unwrap();
    assert_eq!(c.quote_swap(1000, 1000, 100), Err(ErrorCode::PoolLocked));
}

#[test]
fn liquidity_quotes_are_refused_while_locked() {
    let (_, mut c) = created(30, Some(authority()));
    assert_eq!(c.quote_add_liquidity(0, 0, 0, 1000, 1000), Ok((1000, 1000)));
    assert_eq!(c.quote_remove_liquidity(1000, 500, 300, 100), Ok((333, 166)));
    c.set_locked(&authority(), true).unwrap();
    assert_eq!(c.quote_add_liquidity(0, 0, 0, 1000, 1000), Err(ErrorCode::PoolLocked));
    assert_eq!(c.quote_remove_liquidity(1000, 500, 300, 100), Err(ErrorCode::PoolLocked));
}
