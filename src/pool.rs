//! The configuration record that anchors a two-asset pool: its derived
//! address, the derived LP mint, the fee, the optional authority and the lock.
use vstd::prelude::*;
use vstd::bytes::{spec_u64_to_le_bytes, u64_to_le_bytes};
use crate::address::{derive_address, labelled, pda_create, pda_search, seeds_view, verify_address, Address};
use crate::curve::{deposit_outcome, price_swap, quote_deposit, quote_withdraw, swap_outcome, withdraw_outcome};
use crate::error::ErrorCode;

verus! {

/// The largest fee: one hundred percent, in basis points.
pub const MAX_FEE_BPS: u16 = 10000;

/// A pool's configuration.
#[derive(Debug, Clone, Copy)]
pub struct PoolConfig {
    /// The value, chosen by the creator, that the pool's address is derived from.
    pub seed: u64,
    /// The only principal that may lock or unlock the pool, if any.
    pub authority: Option<Address>,
    pub mint_x: Address,
    pub mint_y: Address,
    /// The swap fee in basis points.
    pub fee: u16,
    /// While set, swaps and liquidity changes are refused.
    pub locked: bool,
    pub config_bump: u8,
    pub lp_bump: u8,
}

/// The account at a pool's configuration address: its record, once created.
#[derive(Debug, Clone, Copy)]
pub struct ConfigAccount {
    pub key: Address,
    pub data: Option<PoolConfig>,
}

/// The bytes of the label "config".
pub open spec fn config_label() -> Seq<u8> {
    seq![99u8, 111u8, 110u8, 102u8, 105u8, 103u8]
}

/// The bytes of the label "lp".
pub open spec fn lp_label() -> Seq<u8> {
    seq![108u8, 112u8]
}

/// The seeds of a pool's configuration address.
pub open spec fn config_seeds(seed: u64) -> Seq<Seq<u8>> {
    labelled(config_label(), seq![spec_u64_to_le_bytes(seed)])
}

/// The seeds of the LP mint address of the pool configured at `config`.
pub open spec fn lp_seeds(config: Seq<u8>) -> Seq<Seq<u8>> {
    labelled(lp_label(), seq![config])
}

fn config_label_bytes() -> (r: Vec<u8>)
    ensures
        r@ == config_label(),
{
    let v: Vec<u8> = vec![99u8, 111u8, 110u8, 102u8, 105u8, 103u8];
    assert(v@ =~= config_label());
    v
}

fn lp_label_bytes() -> (r: Vec<u8>)
    ensures
        r@ == lp_label(),
{
    let v: Vec<u8> = vec![108u8, 112u8];
    assert(v@ =~= lp_label());
    v
}

fn seed_seeds(seed: u64) -> (r: Vec<Vec<u8>>)
    ensures
        seeds_view(r@) == seq![spec_u64_to_le_bytes(seed)],
{
    let mut v: Vec<Vec<u8>> = Vec::new();
    v.push(u64_to_le_bytes(seed));
    assert(seeds_view(v@) =~= seq![spec_u64_to_le_bytes(seed)]);
    v
}

fn key_seeds(a: &Address) -> (r: Vec<Vec<u8>>)
    ensures
        seeds_view(r@) == seq![a@],
{
    let mut v: Vec<Vec<u8>> = Vec::new();
    v.push(a.to_vec());
    assert(seeds_view(v@) =~= seq![a@]);
    v
}

impl PoolConfig {
    /// The record's invariant: two distinct assets and a fee of at most one
    /// hundred percent.
    pub open spec fn wf(self) -> bool {
        self.mint_x@ != self.mint_y@ && self.fee <= 10000
    }

    /// Locks or unlocks the pool. Only the recorded authority may; a pool
    /// without one can never change its lock.
    pub fn set_locked(&mut self, caller: &Address, locked: bool) -> (r: Result<(), ErrorCode>)
        ensures
            match old(self).authority {
                Some(a) if a@ == caller@ => r is Ok && *final(self) == (PoolConfig { locked, ..*old(self) }),
                _ => r == Err::<(), ErrorCode>(ErrorCode::Unauthorized) && *final(self) == *old(self),
            },
    {
        match &self.authority {
            Some(a) => {
                if a.same(caller) {
                    self.locked = locked;
                    Ok(())
                } else {
                    Err(ErrorCode::Unauthorized)
                }
            },
            None => Err(ErrorCode::Unauthorized),
        }
    }

    /// Refuses with `PoolLocked` while the pool is locked.
    pub fn check_unlocked(&self) -> (r: Result<(), ErrorCode>)
        ensures
            r == (if self.locked {
                Err::<(), ErrorCode>(ErrorCode::PoolLocked)
            } else {
                Ok::<(), ErrorCode>(())
            }),
    {
        if self.locked {
            Err(ErrorCode::PoolLocked)
        } else {
            Ok(())
        }
    }

    /// Prices a swap at this pool's fee; refused while the pool is locked.
    pub fn quote_swap(&self, reserve_in: u64, reserve_out: u64, amount_in: u64) -> (r: Result<u64, ErrorCode>)
        ensures
            r == (if self.locked {
                Err::<u64, ErrorCode>(ErrorCode::PoolLocked)
            } else {
                swap_outcome(reserve_in, reserve_out, amount_in, self.fee)
            }),
    {
        if self.locked {
            return Err(ErrorCode::PoolLocked);
        }
        price_swap(reserve_in, reserve_out, amount_in, self.fee)
    }

    /// Quotes adding liquidity (see `curve::quote_deposit`); refused while
    /// the pool is locked.
    pub fn quote_add_liquidity(&self, reserve_x: u64, reserve_y: u64, lp_supply: u64, amount_x: u64, amount_y: u64) -> (r: Result<(u64, u64), ErrorCode>)
        ensures
            self.locked ==> r == Err::<(u64, u64), ErrorCode>(ErrorCode::PoolLocked),
            !self.locked ==> match r {
                Ok((y, lp)) => deposit_outcome(reserve_x, reserve_y, lp_supply, amount_x, amount_y)
                    == Ok::<(int, int), ErrorCode>((y as int, lp as int)),
                Err(e) => deposit_outcome(reserve_x, reserve_y, lp_supply, amount_x, amount_y)
                    == Err::<(int, int), ErrorCode>(e),
            },
    {
        if self.locked {
            return Err(ErrorCode::PoolLocked);
        }
        quote_deposit(reserve_x, reserve_y, lp_supply, amount_x, amount_y)
    }

    /// Quotes removing liquidity (see `curve::quote_withdraw`); refused while
    /// the pool is locked.
    pub fn quote_remove_liquidity(&self, reserve_x: u64, reserve_y: u64, lp_supply: u64, lp_amount: u64) -> (r: Result<(u64, u64), ErrorCode>)
        ensures
            r == (if self.locked {
                Err::<(u64, u64), ErrorCode>(ErrorCode::PoolLocked)
            } else {
                withdraw_outcome(reserve_x, reserve_y, lp_supply, lp_amount)
            }),
    {
        if self.locked {
            return Err(ErrorCode::PoolLocked);
        }
        quote_withdraw(reserve_x, reserve_y, lp_supply, lp_amount)
    }

    /// Whether the stored seed and bump re-derive `config`.
    pub fn verify_config(&self, program_id: &Address, config: &Address) -> (r: bool)
        ensures
            r == (pda_create(config_seeds(self.seed).push(seq![self.config_bump]), program_id@) == Some(config@)),
    {
        verify_address(program_id, &config_label_bytes(), &seed_seeds(self.seed), self.config_bump, config)
    }

    /// Whether the stored bump re-derives `mint_lp` from `config`.
    pub fn verify_lp_mint(&self, program_id: &Address, config: &Address, mint_lp: &Address) -> (r: bool)
        ensures
            r == (pda_create(lp_seeds(config@).push(seq![self.lp_bump]), program_id@) == Some(mint_lp@)),
    {
        verify_address(program_id, &lp_label_bytes(), &key_seeds(config), self.lp_bump, mint_lp)
    }
}

/// The accounts of the instruction that creates a pool's configuration.
#[derive(Debug, Clone, Copy)]
pub struct Initialize {
    pub initializer: Address,
    pub mint_x: Address,
    pub mint_y: Address,
    pub mint_lp: Address,
    pub config: ConfigAccount,
}

impl Initialize {
    /// The record that creating the pool writes, or why it is refused.
    pub open spec fn outcome(self, program_id: Address, seed: u64, fee: u16, authority: Option<Address>) -> Result<PoolConfig, ErrorCode> {
        if self.mint_x@ == self.mint_y@ || fee > 10000 {
            Err(ErrorCode::InvalidParameter)
        } else {
            match pda_search(config_seeds(seed), program_id@) {
                None => Err(ErrorCode::InvalidParameter),
                Some((ca, cb)) => if ca != self.config.key@ {
                    Err(ErrorCode::AddressMismatch)
                } else {
                    match pda_search(lp_seeds(ca), program_id@) {
                        None => Err(ErrorCode::InvalidParameter),
                        Some((la, lb)) => if la != self.mint_lp@ {
                            Err(ErrorCode::AddressMismatch)
                        } else if self.config.data is Some {
                            Err(ErrorCode::AlreadyInitialized)
                        } else {
                            Ok(PoolConfig {
                                seed,
                                authority,
                                mint_x: self.mint_x,
                                mint_y: self.mint_y,
                                fee,
                                locked: false,
                                config_bump: cb,
                                lp_bump: lb,
                            })
                        },
                    }
                },
            }
        }
    }

    /// Creates the pool's configuration: checks the mints and the fee, checks
    /// the supplied configuration and LP mint addresses against their
    /// derivations, and records the pool unlocked with both bumps.
    pub fn init(&mut self, program_id: &Address, seed: u64, fee: u16, authority: Option<Address>) -> (r: Result<(), ErrorCode>)
        ensures
            match r {
                Ok(()) => old(self).outcome(*program_id, seed, fee, authority) is Ok
                    && *final(self) == (Initialize {
                        config: ConfigAccount {
                            key: old(self).config.key,
                            data: Some(old(self).outcome(*program_id, seed, fee, authority)->Ok_0),
                        },
                        ..*old(self)
                    }),
                Err(e) => old(self).outcome(*program_id, seed, fee, authority) == Err::<PoolConfig, ErrorCode>(e)
                    && *final(self) == *old(self),
            },
            r is Ok ==> (final(self).config.data matches Some(c) && c.wf()
                && pda_create(config_seeds(seed).push(seq![c.config_bump]), program_id@) == Some(final(self).config.key@)
                && pda_create(lp_seeds(final(self).config.key@).push(seq![c.lp_bump]), program_id@) == Some(final(self).mint_lp@)),
    {
        if self.mint_x.same(&self.mint_y) || fee > MAX_FEE_BPS {
            return Err(ErrorCode::InvalidParameter);
        }
        let (ca, cb) = match derive_address(program_id, &config_label_bytes(), &seed_seeds(seed)) {
            Ok(p) => p,
            Err(e) => return Err(e),
        };
        if !ca.same(&self.config.key) {
            return Err(ErrorCode::AddressMismatch);
        }
        let (la, lb) = match derive_address(program_id, &lp_label_bytes(), &key_seeds(&ca)) {
            Ok(p) => p,
            Err(e) => return Err(e),
        };
        if !la.same(&self.mint_lp) {
            return Err(ErrorCode::AddressMismatch);
        }
        if self.config.data.is_some() {
            return Err(ErrorCode::AlreadyInitialized);
        }
        self.config.data = Some(PoolConfig {
            seed,
            authority,
            mint_x: self.mint_x,
            mint_y: self.mint_y,
            fee,
            locked: false,
            config_bump: cb,
            lp_bump: lb,
        });
        Ok(())
    }
}

} // verus!
