//! Per-principal escrow vaults: a `VaultState` record derived from the
//! principal and a custody account derived from the record, created together,
//! funded to the existence floor, and closed together.
use vstd::prelude::*;
use crate::address::{derive_address, labelled, pda_create, pda_search, seeds_view, verify_address, Address};
use crate::error::ErrorCode;

verus! {

/// A system account: its address and its balance in lamports.
#[derive(Debug, Clone, Copy)]
pub struct Wallet {
    pub key: Address,
    pub lamports: u64,
}

/// The record kept for each principal's vault: the bumps of its two derived
/// addresses.
#[derive(Debug, Clone, Copy, PartialEq, Eq, Structural)]
pub struct VaultState {
    pub vault_bump: u8,
    pub state_bump: u8,
}

/// The account at a `VaultState` address: its balance and, once created, the
/// record.
#[derive(Debug, Clone, Copy)]
pub struct StateAccount {
    pub key: Address,
    pub lamports: u64,
    pub data: Option<VaultState>,
}

/// The bytes of the label "state".
pub open spec fn state_label() -> Seq<u8> {
    seq![115u8, 116u8, 97u8, 116u8, 101u8]
}

/// The bytes of the label "vault".
pub open spec fn vault_label() -> Seq<u8> {
    seq![118u8, 97u8, 117u8, 108u8, 116u8]
}

/// The seeds of a principal's `VaultState` address.
pub open spec fn state_seeds(user: Seq<u8>) -> Seq<Seq<u8>> {
    labelled(state_label(), seq![user])
}

/// The seeds of the custody address paired with a `VaultState` address.
pub open spec fn vault_seeds(state: Seq<u8>) -> Seq<Seq<u8>> {
    labelled(vault_label(), seq![state])
}

fn state_label_bytes() -> (r: Vec<u8>)
    ensures
        r@ == state_label(),
{
    let v: Vec<u8> = vec![115u8, 116u8, 97u8, 116u8, 101u8];
    assert(v@ =~= state_label());
    v
}

fn vault_label_bytes() -> (r: Vec<u8>)
    ensures
        r@ == vault_label(),
{
    let v: Vec<u8> = vec![118u8, 97u8, 117u8, 108u8, 116u8];
    assert(v@ =~= vault_label());
    v
}

fn one_seed(a: &Address) -> (r: Vec<Vec<u8>>)
    ensures
        seeds_view(r@) == seq![a@],
{
    let mut v: Vec<Vec<u8>> = Vec::new();
    v.push(a.to_vec());
    assert(seeds_view(v@) =~= seq![a@]);
    v
}

/// The principal's `VaultState` address and its bump.
pub fn derive_state_address(program_id: &Address, user: &Address) -> (r: Result<(Address, u8), ErrorCode>)
    ensures
        match r {
            Ok((a, b)) => pda_search(state_seeds(user@), program_id@) == Some((a@, b))
                && pda_create(state_seeds(user@).push(seq![b]), program_id@) == Some(a@),
            Err(e) => e == ErrorCode::InvalidParameter && pda_search(state_seeds(user@), program_id@) is None,
        },
{
    derive_address(program_id, &state_label_bytes(), &one_seed(user))
}

/// The custody address paired with a `VaultState` address, and its bump.
pub fn derive_vault_address(program_id: &Address, state: &Address) -> (r: Result<(Address, u8), ErrorCode>)
    ensures
        match r {
            Ok((a, b)) => pda_search(vault_seeds(state@), program_id@) == Some((a@, b))
                && pda_create(vault_seeds(state@).push(seq![b]), program_id@) == Some(a@),
            Err(e) => e == ErrorCode::InvalidParameter && pda_search(vault_seeds(state@), program_id@) is None,
        },
{
    derive_address(program_id, &vault_label_bytes(), &one_seed(state))
}

/// Whether the stored bumps re-derive the supplied `VaultState` and custody
/// addresses from the principal.
pub open spec fn bumps_match(program_id: Address, user: Address, state: Address, vault: Address, d: VaultState) -> bool {
    pda_create(state_seeds(user@).push(seq![d.state_bump]), program_id@) == Some(state@)
        && pda_create(vault_seeds(state@).push(seq![d.vault_bump]), program_id@) == Some(vault@)
}

/// The check that every operation on an existing vault makes of the supplied
/// accounts.
pub open spec fn accounts_outcome(program_id: Address, user: Address, state: StateAccount, vault: Address) -> Result<VaultState, ErrorCode> {
    match state.data {
        None => Err(ErrorCode::NotFound),
        Some(d) => if bumps_match(program_id, user, state.key, vault, d) {
            Ok(d)
        } else {
            Err(ErrorCode::AddressMismatch)
        },
    }
}

/// Re-derives the supplied addresses from the principal and the stored bumps.
pub fn check_accounts(program_id: &Address, user: &Address, state: &StateAccount, vault: &Address) -> (r: Result<VaultState, ErrorCode>)
    ensures
        r == accounts_outcome(*program_id, *user, *state, *vault),
{
    match state.data {
        None => Err(ErrorCode::NotFound),
        Some(d) => {
            let ok_state = verify_address(program_id, &state_label_bytes(), &one_seed(user), d.state_bump, &state.key);
            if !ok_state {
                return Err(ErrorCode::AddressMismatch);
            }
            let ok_vault = verify_address(program_id, &vault_label_bytes(), &one_seed(&state.key), d.vault_bump, vault);
            if !ok_vault {
                return Err(ErrorCode::AddressMismatch);
            }
            Ok(d)
        },
    }
}

/// The lamports in all three accounts fit in a `u64`, as every balance on the
/// ledger does.
pub open spec fn total_fits(user: Wallet, state: StateAccount, vault: Wallet) -> bool {
    user.lamports + state.lamports + vault.lamports <= u64::MAX
}

/// The accounts of the instruction that creates a principal's vault.
#[derive(Debug, Clone, Copy)]
pub struct Initialize {
    pub user: Wallet,
    pub vault_state: StateAccount,
    pub vault: Wallet,
}

impl Initialize {
    pub open spec fn wf(self) -> bool {
        total_fits(self.user, self.vault_state, self.vault)
    }

    /// What creating the vault leaves, or why it is refused. The principal
    /// pays `state_rent` into the new record and `rent_exempt`, the custody
    /// account's existence floor, into the custody account.
    pub open spec fn outcome(self, program_id: Address, rent_exempt: u64, state_rent: u64) -> Result<Initialize, ErrorCode> {
        match pda_search(state_seeds(self.user.key@), program_id@) {
            None => Err(ErrorCode::InvalidParameter),
            Some((sa, sb)) => if sa != self.vault_state.key@ {
                Err(ErrorCode::AddressMismatch)
            } else {
                match pda_search(vault_seeds(sa), program_id@) {
                    None => Err(ErrorCode::InvalidParameter),
                    Some((va, vb)) => if va != self.vault.key@ {
                        Err(ErrorCode::AddressMismatch)
                    } else if self.vault_state.data is Some {
                        Err(ErrorCode::AlreadyInitialized)
                    } else if self.user.lamports < rent_exempt + state_rent {
                        Err(ErrorCode::InsufficientFunds)
                    } else {
                        Ok(Initialize {
                            user: Wallet {
                                key: self.user.key,
                                lamports: (self.user.lamports - rent_exempt - state_rent) as u64,
                            },
                            vault_state: StateAccount {
                                key: self.vault_state.key,
                                lamports: (self.vault_state.lamports + state_rent) as u64,
                                data: Some(VaultState { vault_bump: vb, state_bump: sb }),
                            },
                            vault: Wallet {
                                key: self.vault.key,
                                lamports: (self.vault.lamports + rent_exempt) as u64,
                            },
                        })
                    }
                }
            }
        }
    }

    /// Creates the principal's vault: checks the supplied addresses against
    /// their derivations, creates the record with both bumps, and funds the
    /// custody account to its existence floor.
    pub fn initialize(&mut self, program_id: &Address, rent_exempt: u64, state_rent: u64) -> (r: Result<(), ErrorCode>)
        requires
            old(self).wf(),
        ensures
            final(self).wf(),
            match r {
                Ok(()) => old(self).outcome(*program_id, rent_exempt, state_rent) == Ok::<Initialize, ErrorCode>(*final(self)),
                Err(e) => old(self).outcome(*program_id, rent_exempt, state_rent) == Err::<Initialize, ErrorCode>(e)
                    && *final(self) == *old(self),
            },
            r is Ok ==> (final(self).vault_state.data matches Some(d)
                && bumps_match(*program_id, final(self).user.key, final(self).vault_state.key, final(self).vault.key, d)),
    {
        let (sa, sb) = match derive_state_address(program_id, &self.user.key) {
            Ok(p) => p,
            Err(e) => return Err(e),
        };
        if !sa.same(&self.vault_state.key) {
            return Err(ErrorCode::AddressMismatch);
        }
        let (va, vb) = match derive_vault_address(program_id, &sa) {
            Ok(p) => p,
            Err(e) => return Err(e),
        };
        if !va.same(&self.vault.key) {
            return Err(ErrorCode::AddressMismatch);
        }
        if self.vault_state.data.is_some() {
            return Err(ErrorCode::AlreadyInitialized);
        }
        if self.user.lamports < rent_exempt || self.user.lamports - rent_exempt < state_rent {
            return Err(ErrorCode::InsufficientFunds);
        }
        self.user.lamports = self.user.lamports - rent_exempt - state_rent;
        self.vault_state.lamports = self.vault_state.lamports + state_rent;
        self.vault_state.data = Some(VaultState { vault_bump: vb, state_bump: sb });
        self.vault.lamports = self.vault.lamports + rent_exempt;
        Ok(())
    }
}

/// Creates the principal's vault (see `Initialize::initialize`).
pub fn initialize(ctx: &mut Initialize, program_id: &Address, rent_exempt: u64, state_rent: u64) -> (r: Result<(), ErrorCode>)
    requires
        old(ctx).wf(),
    ensures
        final(ctx).wf(),
        match r {
            Ok(()) => old(ctx).outcome(*program_id, rent_exempt, state_rent) == Ok::<Initialize, ErrorCode>(*final(ctx)),
            Err(e) => old(ctx).outcome(*program_id, rent_exempt, state_rent) == Err::<Initialize, ErrorCode>(e)
                && *final(ctx) == *old(ctx),
        },
{
    ctx.initialize(program_id, rent_exempt, state_rent)
}

/// The accounts of the instruction that moves funds from the principal into
/// the custody account.
#[derive(Debug, Clone, Copy)]
pub struct Deposit {
    pub user: Wallet,
    pub vault: Wallet,
    pub vault_state: StateAccount,
}

impl Deposit {
    pub open spec fn wf(self) -> bool {
        total_fits(self.user, self.vault_state, self.vault)
    }

    /// What depositing `amount` leaves, or why it is refused.
    pub open spec fn outcome(self, program_id: Address, amount: u64) -> Result<Deposit, ErrorCode> {
        match accounts_outcome(program_id, self.user.key, self.vault_state, self.vault.key) {
            Err(e) => Err(e),
            Ok(_) => if amount == 0 {
                Err(ErrorCode::InvalidParameter)
            } else if amount > self.user.lamports {
                Err(ErrorCode::InsufficientFunds)
            } else {
                Ok(Deposit {
                    user: Wallet { key: self.user.key, lamports: (self.user.lamports - amount) as u64 },
                    vault: Wallet { key: self.vault.key, lamports: (self.vault.lamports + amount) as u64 },
                    vault_state: self.vault_state,
                })
            },
        }
    }

    /// Moves `amount` from the principal to the custody account, after
    /// re-deriving both addresses from the stored bumps.
    pub fn deposit(&mut self, program_id: &Address, amount: u64) -> (r: Result<(), ErrorCode>)
        requires
            old(self).wf(),
        ensures
            final(self).wf(),
            match r {
                Ok(()) => old(self).outcome(*program_id, amount) == Ok::<Deposit, ErrorCode>(*final(self)),
                Err(e) => old(self).outcome(*program_id, amount) == Err::<Deposit, ErrorCode>(e)
                    && *final(self) == *old(self),
            },
    {
        match check_accounts(program_id, &self.user.key, &self.vault_state, &self.vault.key) {
            Err(e) => return Err(e),
            Ok(_) => {},
        }
        if amount == 0 {
            return Err(ErrorCode::InvalidParameter);
        }
        if amount > self.user.lamports {
            return Err(ErrorCode::InsufficientFunds);
        }
        self.user.lamports = self.user.lamports - amount;
        self.vault.lamports = self.vault.lamports + amount;
        Ok(())
    }
}

/// The accounts of the instruction that moves funds from the custody account
/// back to the principal.
#[derive(Debug, Clone, Copy)]
pub struct Withdraw {
    pub user: Wallet,
    pub vault: Wallet,
    pub vault_state: StateAccount,
}

impl Withdraw {
    pub open spec fn wf(self) -> bool {
        total_fits(self.user, self.vault_state, self.vault)
    }

    /// What withdrawing `amount` leaves, or why it is refused. The custody
    /// account keeps at least its existence floor `rent_exempt`.
    pub open spec fn outcome(self, program_id: Address, amount: u64, rent_exempt: u64) -> Result<Withdraw, ErrorCode> {
        match accounts_outcome(program_id, self.user.key, self.vault_state, self.vault.key) {
            Err(e) => Err(e),
            Ok(_) => if amount == 0 {
                Err(ErrorCode::InvalidParameter)
            } else if self.vault.lamports < amount + rent_exempt {
                Err(ErrorCode::InsufficientFunds)
            } else {
                Ok(Withdraw {
                    user: Wallet { key: self.user.key, lamports: (self.user.lamports + amount) as u64 },
                    vault: Wallet { key: self.vault.key, lamports: (self.vault.lamports - amount) as u64 },
                    vault_state: self.vault_state,
                })
            },
        }
    }

    /// Moves `amount` from the custody account to the principal, signed by
    /// the custody account's derivation; refuses to take the custody account
    /// below its existence floor.
    pub fn withdraw(&mut self, program_id: &Address, amount: u64, rent_exempt: u64) -> (r: Result<(), ErrorCode>)
        requires
            old(self).wf(),
        ensures
            final(self).wf(),
            match r {
                Ok(()) => old(self).outcome(*program_id, amount, rent_exempt) == Ok::<Withdraw, ErrorCode>(*final(self)),
                Err(e) => old(self).outcome(*program_id, amount, rent_exempt) == Err::<Withdraw, ErrorCode>(e)
                    && *final(self) == *old(self),
            },
            r is Ok ==> final(self).vault.lamports >= rent_exempt,
            accounts_outcome(*program_id, old(self).user.key, old(self).vault_state, old(self).vault.key) is Ok
                && amount > 0 && old(self).vault.lamports < amount + rent_exempt
                ==> r == Err::<(), ErrorCode>(ErrorCode::InsufficientFunds),
    {
        match check_accounts(program_id, &self.user.key, &self.vault_state, &self.vault.key) {
            Err(e) => return Err(e),
            Ok(_) => {},
        }
        if amount == 0 {
            return Err(ErrorCode::InvalidParameter);
        }
        if self.vault.lamports < rent_exempt || self.vault.lamports - rent_exempt < amount {
            return Err(ErrorCode::InsufficientFunds);
        }
        self.vault.lamports = self.vault.lamports - amount;
        self.user.lamports = self.user.lamports + amount;
        Ok(())
    }
}

/// The accounts of the instruction that drains the custody account to the
/// principal and destroys it with the `VaultState` record.
#[derive(Debug, Clone, Copy)]
pub struct Close {
    pub signer: Wallet,
    pub vault_state: StateAccount,
    pub vault: Wallet,
}

impl Close {
    pub open spec fn wf(self) -> bool {
        total_fits(self.signer, self.vault_state, self.vault)
    }

    /// What closing leaves, or why it is refused: the whole custody balance
    /// and the record's own rent go to the principal.
    pub open spec fn outcome(self, program_id: Address) -> Result<Close, ErrorCode> {
        match accounts_outcome(program_id, self.signer.key, self.vault_state, self.vault.key) {
            Err(e) => Err(e),
            Ok(_) => Ok(Close {
                signer: Wallet {
                    key: self.signer.key,
                    lamports: (self.signer.lamports + self.vault.lamports + self.vault_state.lamports) as u64,
                },
                vault_state: StateAccount { key: self.vault_state.key, lamports: 0, data: None },
                vault: Wallet { key: self.vault.key, lamports: 0 },
            }),
        }
    }

    /// Sends the whole custody balance and the record's rent to the principal
    /// and removes the record.
    pub fn close(&mut self, program_id: &Address) -> (r: Result<(), ErrorCode>)
        requires
            old(self).wf(),
        ensures
            final(self).wf(),
            match r {
                Ok(()) => old(self).outcome(*program_id) == Ok::<Close, ErrorCode>(*final(self)),
                Err(e) => old(self).outcome(*program_id) == Err::<Close, ErrorCode>(e)
                    && *final(self) == *old(self),
            },
    {
        match check_accounts(program_id, &self.signer.key, &self.vault_state, &self.vault.key) {
            Err(e) => return Err(e),
            Ok(_) => {},
        }
        let drained = self.vault.lamports;
        self.vault.lamports = 0;
        self.signer.lamports = self.signer.lamports + drained;
        let refund = self.vault_state.lamports;
        self.vault_state.lamports = 0;
        self.vault_state.data = None;
        self.signer.lamports = self.signer.lamports + refund;
        Ok(())
    }
}

/// Creating a vault and closing it straight away gives the principal back
/// everything it paid, plus whatever the two accounts held before, and leaves
/// no record behind. The record's bumps are those that re-derive its accounts,
/// as creation establishes.
pub proof fn lemma_initialize_then_close(program_id: Address, rent_exempt: u64, state_rent: u64, i: Initialize)
    requires
        i.wf(),
        i.outcome(program_id, rent_exempt, state_rent) is Ok,
        ({
            let n = i.outcome(program_id, rent_exempt, state_rent)->Ok_0;
            n.vault_state.data matches Some(d) && bumps_match(program_id, n.user.key, n.vault_state.key, n.vault.key, d)
        }),
    ensures
        ({
            let n = i.outcome(program_id, rent_exempt, state_rent)->Ok_0;
            let c = Close { signer: n.user, vault_state: n.vault_state, vault: n.vault };
            &&& c.wf()
            &&& c.outcome(program_id) is Ok
            &&& c.outcome(program_id)->Ok_0.signer.lamports == i.user.lamports + i.vault_state.lamports + i.vault.lamports
            &&& c.outcome(program_id)->Ok_0.vault_state.data is None
        }),
{
}

/// Depositing `amount` and then withdrawing it restores the custody balance
/// and the principal's balance exactly, for an active vault at or above its
/// existence floor.
pub proof fn lemma_deposit_then_withdraw(program_id: Address, d: Deposit, amount: u64, rent_exempt: u64)
    requires
        d.wf(),
        0 < amount <= d.user.lamports,
        d.vault_state.data matches Some(s) && bumps_match(program_id, d.user.key, d.vault_state.key, d.vault.key, s),
        d.vault.lamports >= rent_exempt,
    ensures
        d.outcome(program_id, amount) is Ok,
        ({
            let n = d.outcome(program_id, amount)->Ok_0;
            let w = Withdraw { user: n.user, vault: n.vault, vault_state: n.vault_state };
            &&& w.wf()
            &&& w.outcome(program_id, amount, rent_exempt) is Ok
            &&& w.outcome(program_id, amount, rent_exempt)->Ok_0.vault.lamports == d.vault.lamports
            &&& w.outcome(program_id, amount, rent_exempt)->Ok_0.user.lamports == d.user.lamports
        }),
{
}

/// A withdrawal that would take the custody account below its existence
/// floor is refused with `InsufficientFunds` and leaves the balances as they
/// were.
pub proof fn lemma_withdraw_keeps_floor(program_id: Address, w: Withdraw, amount: u64, rent_exempt: u64)
    requires
        w.wf(),
        accounts_outcome(program_id, w.user.key, w.vault_state, w.vault.key) is Ok,
        amount > 0,
        w.vault.lamports < amount + rent_exempt,
    ensures
        w.outcome(program_id, amount, rent_exempt) == Err::<Withdraw, ErrorCode>(ErrorCode::InsufficientFunds),
{
}

} // verus!
