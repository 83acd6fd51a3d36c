use vstd::prelude::*;

verus! {

/// Every way an operation of the library can fail.
#[derive(Clone, Copy, Debug, PartialEq, Eq, Structural)]
pub enum LendingError {
    /// No nonce in the search space gave an address off the signing curve.
    AddressDerivationExhausted,
    /// The buffer holds a record of another kind, or a field outside its range.
    SchemaMismatch,
    /// The buffer is empty or all zero: it was never initialised.
    UninitializedAccount,
    /// The buffer is shorter than the layout of the kind it claims.
    TruncatedBuffer,
    /// The account presented is not at the address derived for the record.
    AddressMismatch,
    /// The caller does not own the record.
    OwnershipMismatch,
    /// The stored record is of the other entity type.
    InvalidEntityType,
    /// An account already exists at the target address.
    AddressAlreadyInUse,
    /// The funding account cannot pay the deposit.
    InsufficientFunds,
    /// A write does not match the size of the buffer.
    SizeMismatch,
    /// A balance would exceed what a `u64` holds.
    ArithmeticOverflow,
    /// Kept for the policy layer: the credit score is below its threshold.
    CreditScoreTooLow,
    /// Kept for the policy layer: the attestation has expired.
    AttestationExpired,
    /// Kept for the policy layer: the amount exceeds the loan limit.
    LoanAmountExceedsLimit,
}

} // verus!
