use vstd::prelude::*;

verus! {

/// The ways an operation on a vault or a pool can be refused. A refused
/// operation changes nothing.
#[derive(Debug, Clone, Copy, PartialEq, Eq, Structural)]
pub enum ErrorCode {
    /// A supplied account is not the one its derivation names.
    AddressMismatch,
    /// The record to be created exists already.
    AlreadyInitialized,
    /// The record to operate on does not exist.
    NotFound,
    /// The amount exceeds what may be spent or withdrawn.
    InsufficientFunds,
    /// The caller is not the recorded authority.
    Unauthorized,
    /// Trading on the pool is disabled.
    PoolLocked,
    /// An argument is out of range: a zero amount, equal mints, a fee above
    /// one hundred percent, or seeds that cannot be derived from.
    InvalidParameter,
}

} // verus!
