use vstd::prelude::*;

use crate::key::Key;

verus! {

/// Whether an attestation speaks for a person or for an automated agent.
#[derive(Clone, Copy, Debug, PartialEq, Eq, Structural)]
pub enum EntityType {
    Human,
    Agent,
}

/// Where a loan stands. The library itself only ever writes `Requested`.
#[derive(Clone, Copy, Debug, PartialEq, Eq, Structural)]
pub enum LoanStatus {
    Requested,
    Approved,
    Rejected,
    Funded,
    Repaid,
}

/// An identity attestation: a credit score with its validity window.
#[derive(Clone, Copy, Debug, PartialEq, Eq)]
pub struct Attestation {
    pub entity_type: EntityType,
    pub owner: Key,
    pub credit_score: u16,
    pub created_at: i64,
    pub expires_at: i64,
    /// Framework tag of an agent; 0 for a human.
    pub framework_type: u8,
    /// Nonce of the attestation's derived address.
    pub bump: u8,
}

/// A loan request, with a snapshot of the borrower's attestation.
#[derive(Clone, Copy, Debug, PartialEq, Eq)]
pub struct LoanAccount {
    pub borrower: Key,
    pub amount: u64,
    pub credit_score: u16,
    pub status: LoanStatus,
    pub entity_type: EntityType,
    /// Nonce of the loan's derived address.
    pub bump: u8,
    pub loan_id: u64,
}

/// An attestation with its owner as a byte sequence.
pub struct AttestationView {
    pub entity_type: EntityType,
    pub owner: Seq<u8>,
    pub credit_score: u16,
    pub created_at: i64,
    pub expires_at: i64,
    pub framework_type: u8,
    pub bump: u8,
}

/// A loan with its borrower as a byte sequence.
pub struct LoanView {
    pub borrower: Seq<u8>,
    pub amount: u64,
    pub credit_score: u16,
    pub status: LoanStatus,
    pub entity_type: EntityType,
    pub bump: u8,
    pub loan_id: u64,
}

impl View for Attestation {
    type V = AttestationView;

    open spec fn view(&self) -> AttestationView {
        AttestationView {
            entity_type: self.entity_type,
            owner: self.owner.bytes@,
            credit_score: self.credit_score,
            created_at: self.created_at,
            expires_at: self.expires_at,
            framework_type: self.framework_type,
            bump: self.bump,
        }
    }
}

impl View for LoanAccount {
    type V = LoanView;

    open spec fn view(&self) -> LoanView {
        LoanView {
            borrower: self.borrower.bytes@,
            amount: self.amount,
            credit_score: self.credit_score,
            status: self.status,
            entity_type: self.entity_type,
            bump: self.bump,
            loan_id: self.loan_id,
        }
    }
}

/// What a buffer holds, as the codec classifies it.
#[derive(Clone, Copy, Debug, PartialEq, Eq)]
pub enum Record {
    Attestation(Attestation),
    Loan(LoanAccount),
    Uninitialized,
}

} // verus!
