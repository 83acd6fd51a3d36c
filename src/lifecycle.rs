use vstd::prelude::*;

use crate::codec::{
    attestation_bytes, attestation_from_bytes, decode_attestation, encode_attestation, encode_loan,
    le_bytes, loan_bytes, push_le, ATTESTATION_SIZE, LOAN_SIZE,
};
use crate::derive::{derivation, derive_address};
use crate::error::LendingError;
use crate::key::Key;
use crate::ledger::{allocate_spec, reclaim_spec, write_spec, Ledger, LedgerMap};
use crate::record::{
    Attestation, AttestationView, EntityType, LoanAccount, LoanStatus, LoanView,
};

verus! {

/// Validity window of a human attestation: 90 days, in seconds.
pub const HUMAN_LIFETIME: i64 = 90 * 86400;

/// Validity window of an agent attestation: 30 days, in seconds.
pub const AGENT_LIFETIME: i64 = 30 * 86400;

/// The accounts of a human attestation's creation: the owner, who signs and
/// pays, and the address presented for the new attestation.
#[derive(Clone, Copy, Debug, PartialEq, Eq)]
pub struct CreateHumanAttestation {
    pub owner: Key,
    pub attestation: Key,
}

/// The accounts of an agent attestation's creation.
#[derive(Clone, Copy, Debug, PartialEq, Eq)]
pub struct CreateAgentAttestation {
    pub owner: Key,
    pub attestation: Key,
}

/// The accounts of an attestation's renewal: the signing owner and the
/// address of the stored attestation.
#[derive(Clone, Copy, Debug, PartialEq, Eq)]
pub struct UpdateAttestation {
    pub owner: Key,
    pub attestation: Key,
}

/// The accounts of an attestation's closing: the signing owner, who gets the
/// deposit back, and the address of the stored attestation.
#[derive(Clone, Copy, Debug, PartialEq, Eq)]
pub struct CloseAttestation {
    pub owner: Key,
    pub attestation: Key,
}

/// The accounts of a loan request: the signing borrower, who pays, the address
/// presented for the new loan, and the borrower's attestation.
#[derive(Clone, Copy, Debug, PartialEq, Eq)]
pub struct RequestLoan {
    pub borrower: Key,
    pub loan_account: Key,
    pub attestation: Key,
}

/// Seed of a human attestation's address: "attestation_human".
pub open spec fn human_seed() -> Seq<u8> {
    seq![97u8, 116u8, 116u8, 101u8, 115u8, 116u8, 97u8, 116u8, 105u8, 111u8, 110u8, 95u8, 104u8, 117u8, 109u8, 97u8, 110u8]
}

/// Seed of an agent attestation's address: "attestation_agent".
pub open spec fn agent_seed() -> Seq<u8> {
    seq![97u8, 116u8, 116u8, 101u8, 115u8, 116u8, 97u8, 116u8, 105u8, 111u8, 110u8, 95u8, 97u8, 103u8, 101u8, 110u8, 116u8]
}

/// Seed of a loan's address: "loan".
pub open spec fn loan_seed() -> Seq<u8> {
    seq![108u8, 111u8, 97u8, 110u8]
}

pub open spec fn attestation_seed(kind: EntityType) -> Seq<u8> {
    match kind {
        EntityType::Human => human_seed(),
        EntityType::Agent => agent_seed(),
    }
}

pub open spec fn lifetime(kind: EntityType) -> int {
    match kind {
        EntityType::Human => HUMAN_LIFETIME as int,
        EntityType::Agent => AGENT_LIFETIME as int,
    }
}

/// The record that creating an attestation of `kind` writes.
pub open spec fn new_attestation(
    kind: EntityType,
    owner: Seq<u8>,
    credit_score: u16,
    now: i64,
    framework_type: u8,
    bump: u8,
) -> AttestationView {
    AttestationView {
        entity_type: kind,
        owner,
        credit_score,
        created_at: now,
        expires_at: (now + lifetime(kind)) as i64,
        framework_type: match kind {
            EntityType::Human => 0,
            EntityType::Agent => framework_type,
        },
        bump,
    }
}

/// Creating an attestation of `kind` for `owner` at the address `presented`.
pub open spec fn create_attestation_spec(
    m: LedgerMap,
    program: Seq<u8>,
    kind: EntityType,
    owner: Seq<u8>,
    presented: Seq<u8>,
    deposit: u64,
    now: i64,
    credit_score: u16,
    framework_type: u8,
) -> (Result<AttestationView, LendingError>, LedgerMap) {
    match derivation(attestation_seed(kind), seq![owner], program) {
        Err(e) => (Err(e), m),
        Ok((address, bump)) => if presented != address {
            (Err(LendingError::AddressMismatch), m)
        } else {
            let (allocated, m1) = allocate_spec(m, presented, ATTESTATION_SIZE as nat, owner, deposit);
            match allocated {
                Err(e) => (Err(e), m),
                Ok(()) => {
                    let a = new_attestation(kind, owner, credit_score, now, framework_type, bump);
                    (Ok(a), write_spec(m1, presented, attestation_bytes(a)).1)
                },
            }
        },
    }
}

/// Renewing the attestation of `kind` stored at `presented`.
pub open spec fn update_attestation_spec(
    m: LedgerMap,
    program: Seq<u8>,
    kind: EntityType,
    owner: Seq<u8>,
    presented: Seq<u8>,
    now: i64,
    credit_score: u16,
    framework_type: u8,
) -> (Result<AttestationView, LendingError>, LedgerMap) {
    if !m.contains_key(presented) {
        (Err(LendingError::UninitializedAccount), m)
    } else {
        match attestation_from_bytes(m[presented].data) {
            Err(e) => (Err(e), m),
            Ok(a) => if a.owner != owner {
                (Err(LendingError::OwnershipMismatch), m)
            } else if a.entity_type != kind {
                (Err(LendingError::InvalidEntityType), m)
            } else {
                match derivation(attestation_seed(kind), seq![owner], program) {
                    Err(e) => (Err(e), m),
                    Ok((address, _bump)) => if presented != address {
                        (Err(LendingError::AddressMismatch), m)
                    } else {
                        let renewed = AttestationView {
                            credit_score,
                            created_at: now,
                            expires_at: (now + lifetime(kind)) as i64,
                            framework_type: match kind {
                                EntityType::Human => a.framework_type,
                                EntityType::Agent => framework_type,
                            },
                            ..a
                        };
                        let (written, m1) = write_spec(m, presented, attestation_bytes(renewed));
                        match written {
                            Err(e) => (Err(e), m),
                            Ok(()) => (Ok(renewed), m1),
                        }
                    },
                }
            },
        }
    }
}

/// Closing the attestation stored at `presented` and refunding its deposit.
pub open spec fn close_attestation_spec(m: LedgerMap, program: Seq<u8>, owner: Seq<u8>, presented: Seq<u8>) -> (Result<(), LendingError>, LedgerMap) {
    if !m.contains_key(presented) {
        (Err(LendingError::UninitializedAccount), m)
    } else {
        match attestation_from_bytes(m[presented].data) {
            Err(e) => (Err(e), m),
            Ok(a) => if a.owner != owner {
                (Err(LendingError::OwnershipMismatch), m)
            } else {
                match derivation(attestation_seed(a.entity_type), seq![owner], program) {
                    Err(e) => (Err(e), m),
                    Ok((address, _bump)) => if presented != address {
                        (Err(LendingError::AddressMismatch), m)
                    } else {
                        reclaim_spec(m, presented, owner)
                    },
                }
            },
        }
    }
}

/// Requesting a loan at `loan_address` against the attestation at
/// `attestation_address`.
pub open spec fn request_loan_spec(
    m: LedgerMap,
    program: Seq<u8>,
    borrower: Seq<u8>,
    loan_address: Seq<u8>,
    attestation_address: Seq<u8>,
    deposit: u64,
    amount: u64,
    loan_id: u64,
) -> (Result<LoanView, LendingError>, LedgerMap) {
    if !m.contains_key(attestation_address) {
        (Err(LendingError::UninitializedAccount), m)
    } else {
        match attestation_from_bytes(m[attestation_address].data) {
            Err(e) => (Err(e), m),
            Ok(a) => if a.owner != borrower {
                (Err(LendingError::OwnershipMismatch), m)
            } else {
                match derivation(loan_seed(), seq![borrower, le_bytes(loan_id as nat, 8)], program) {
                    Err(e) => (Err(e), m),
                    Ok((address, bump)) => if loan_address != address {
                        (Err(LendingError::AddressMismatch), m)
                    } else {
                        let (allocated, m1) = allocate_spec(m, loan_address, LOAN_SIZE as nat, borrower, deposit);
                        match allocated {
                            Err(e) => (Err(e), m),
                            Ok(()) => {
                                let l = LoanView {
                                    borrower,
                                    amount,
                                    credit_score: a.credit_score,
                                    status: LoanStatus::Requested,
                                    entity_type: a.entity_type,
                                    bump,
                                    loan_id,
                                };
                                (Ok(l), write_spec(m1, loan_address, loan_bytes(l)).1)
                            },
                        }
                    },
                }
            },
        }
    }
}

fn seed_of(kind: EntityType) -> (r: Vec<u8>)
    ensures
        r@ == attestation_seed(kind),
{
    let r = match kind {
        EntityType::Human => vec![97u8, 116u8, 116u8, 101u8, 115u8, 116u8, 97u8, 116u8, 105u8, 111u8, 110u8, 95u8, 104u8, 117u8, 109u8, 97u8, 110u8],
        EntityType::Agent => vec![97u8, 116u8, 116u8, 101u8, 115u8, 116u8, 97u8, 116u8, 105u8, 111u8, 110u8, 95u8, 97u8, 103u8, 101u8, 110u8, 116u8],
    };
    assert(r@ =~= attestation_seed(kind));
    r
}

fn loan_seed_bytes() -> (r: Vec<u8>)
    ensures
        r@ == loan_seed(),
{
    let r = vec![108u8, 111u8, 97u8, 110u8];
    assert(r@ =~= loan_seed());
    r
}

fn create_attestation(
    ledger: &mut Ledger,
    program_id: &Key,
    kind: EntityType,
    owner: &Key,
    attestation: &Key,
    deposit: u64,
    now: i64,
    credit_score: u16,
    framework_type: u8,
) -> (r: Result<Attestation, LendingError>)
    requires
        old(ledger).wf(),
        now + lifetime(kind) <= i64::MAX,
    ensures
        final(ledger).wf(),
        final(ledger)@ == create_attestation_spec(old(ledger)@, program_id.bytes@, kind, owner.bytes@, attestation.bytes@, deposit, now, credit_score, framework_type).1,
        match r {
            Ok(a) => create_attestation_spec(old(ledger)@, program_id.bytes@, kind, owner.bytes@, attestation.bytes@, deposit, now, credit_score, framework_type).0 == Ok::<AttestationView, LendingError>(a@),
            Err(e) => create_attestation_spec(old(ledger)@, program_id.bytes@, kind, owner.bytes@, attestation.bytes@, deposit, now, credit_score, framework_type).0 == Err::<AttestationView, LendingError>(e),
        },
{
    let seed = seed_of(kind);
    let components: Vec<Vec<u8>> = vec![owner.to_vec()];
    assert(crate::derive::byte_strings(components@) =~= seq![owner.bytes@]);
    let (address, bump) = derive_address(&seed, &components, program_id)?;
    if !attestation.same_as(&address) {
        return Err(LendingError::AddressMismatch);
    }
    ledger.allocate(attestation, ATTESTATION_SIZE, owner, deposit)?;
    let a = match kind {
        EntityType::Human => Attestation {
            entity_type: EntityType::Human,
            owner: *owner,
            credit_score,
            created_at: now,
            expires_at: now + HUMAN_LIFETIME,
            framework_type: 0,
            bump,
        },
        EntityType::Agent => Attestation {
            entity_type: EntityType::Agent,
            owner: *owner,
            credit_score,
            created_at: now,
            expires_at: now + AGENT_LIFETIME,
            framework_type,
            bump,
        },
    };
    assert(a@ == new_attestation(kind, owner.bytes@, credit_score, now, framework_type, bump));
    let written = ledger.write(attestation, encode_attestation(&a));
    assert(written is Ok);
    Ok(a)
}

/// Creates the human attestation of `accounts.owner` at `accounts.attestation`,
/// which must be the address derived from "attestation_human" and the owner's
/// key. The owner pays `deposit` for the new account. The attestation runs from `now` for 90 days.
/// The income and employment status are accepted and not stored.
pub fn create_human_attestation(
    ledger: &mut Ledger,
    program_id: &Key,
    accounts: &CreateHumanAttestation,
    deposit: u64,
    now: i64,
    credit_score: u16,
    _verified_income: u64,
    _employment_status: String,
) -> (r: Result<Attestation, LendingError>)
    requires
        old(ledger).wf(),
        now <= i64::MAX - HUMAN_LIFETIME,
    ensures
        final(ledger).wf(),
        final(ledger)@ == create_attestation_spec(old(ledger)@, program_id.bytes@, EntityType::Human, accounts.owner.bytes@, accounts.attestation.bytes@, deposit, now, credit_score, 0u8).1,
        match r {
            Ok(a) => create_attestation_spec(old(ledger)@, program_id.bytes@, EntityType::Human, accounts.owner.bytes@, accounts.attestation.bytes@, deposit, now, credit_score, 0u8).0 == Ok::<AttestationView, LendingError>(a@),
            Err(e) => create_attestation_spec(old(ledger)@, program_id.bytes@, EntityType::Human, accounts.owner.bytes@, accounts.attestation.bytes@, deposit, now, credit_score, 0u8).0 == Err::<AttestationView, LendingError>(e),
        },
        r matches Ok(a) ==> a.created_at == now && a.expires_at == a.created_at + HUMAN_LIFETIME,
{
    let owner = &accounts.owner;
    let attestation = &accounts.attestation;
    create_attestation(ledger, program_id, EntityType::Human, owner, attestation, deposit, now, credit_score, 0u8)
}

/// Creates the agent attestation of `accounts.owner` at `accounts.attestation`,
/// which must be the address derived from "attestation_agent" and the owner's
/// key. The owner pays `deposit` for the new account. The attestation runs from `now` for 30 days.
/// The revenue, success rate and operational days are accepted and not stored.
pub fn create_agent_attestation(
    ledger: &mut Ledger,
    program_id: &Key,
    accounts: &CreateAgentAttestation,
    deposit: u64,
    now: i64,
    credit_score: u16,
    _total_revenue: u64,
    _success_rate: u8,
    _operational_days: u16,
    framework_type: u8,
) -> (r: Result<Attestation, LendingError>)
    requires
        old(ledger).wf(),
        now <= i64::MAX - AGENT_LIFETIME,
    ensures
        final(ledger).wf(),
        final(ledger)@ == create_attestation_spec(old(ledger)@, program_id.bytes@, EntityType::Agent, accounts.owner.bytes@, accounts.attestation.bytes@, deposit, now, credit_score, framework_type).1,
        match r {
            Ok(a) => create_attestation_spec(old(ledger)@, program_id.bytes@, EntityType::Agent, accounts.owner.bytes@, accounts.attestation.bytes@, deposit, now, credit_score, framework_type).0 == Ok::<AttestationView, LendingError>(a@),
            Err(e) => create_attestation_spec(old(ledger)@, program_id.bytes@, EntityType::Agent, accounts.owner.bytes@, accounts.attestation.bytes@, deposit, now, credit_score, framework_type).0 == Err::<AttestationView, LendingError>(e),
        },
        r matches Ok(a) ==> a.created_at == now && a.expires_at == a.created_at + AGENT_LIFETIME,
{
    let owner = &accounts.owner;
    let attestation = &accounts.attestation;
    create_attestation(ledger, program_id, EntityType::Agent, owner, attestation, deposit, now, credit_score, framework_type)
}

fn update_attestation(
    ledger: &mut Ledger,
    program_id: &Key,
    kind: EntityType,
    owner: &Key,
    attestation: &Key,
    now: i64,
    credit_score: u16,
    framework_type: u8,
) -> (r: Result<Attestation, LendingError>)
    requires
        old(ledger).wf(),
        now + lifetime(kind) <= i64::MAX,
    ensures
        final(ledger).wf(),
        final(ledger)@ == update_attestation_spec(old(ledger)@, program_id.bytes@, kind, owner.bytes@, attestation.bytes@, now, credit_score, framework_type).1,
        match r {
            Ok(a) => update_attestation_spec(old(ledger)@, program_id.bytes@, kind, owner.bytes@, attestation.bytes@, now, credit_score, framework_type).0 == Ok::<AttestationView, LendingError>(a@),
            Err(e) => update_attestation_spec(old(ledger)@, program_id.bytes@, kind, owner.bytes@, attestation.bytes@, now, credit_score, framework_type).0 == Err::<AttestationView, LendingError>(e),
        },
{
    let stored = match ledger.read(attestation) {
        None => {
            return Err(LendingError::UninitializedAccount);
        },
        Some(data) => decode_attestation(data)?,
    };
    if !stored.owner.same_as(owner) {
        return Err(LendingError::OwnershipMismatch);
    }
    if stored.entity_type != kind {
        return Err(LendingError::InvalidEntityType);
    }
    let seed = seed_of(kind);
    let components: Vec<Vec<u8>> = vec![owner.to_vec()];
    assert(crate::derive::byte_strings(components@) =~= seq![owner.bytes@]);
    let (address, _bump) = derive_address(&seed, &components, program_id)?;
    if !attestation.same_as(&address) {
        return Err(LendingError::AddressMismatch);
    }
    let renewed = match kind {
        EntityType::Human => Attestation {
            credit_score,
            created_at: now,
            expires_at: now + HUMAN_LIFETIME,
            ..stored
        },
        EntityType::Agent => Attestation {
            credit_score,
            created_at: now,
            expires_at: now + AGENT_LIFETIME,
            framework_type,
            ..stored
        },
    };
    ledger.write(attestation, encode_attestation(&renewed))?;
    Ok(renewed)
}

/// Renews the human attestation stored at `accounts.attestation`: a new credit
/// score, and a 90-day window starting at `now`. The checks come in this order:
/// the account holds an attestation, `accounts.owner` owns it, it is a human attestation,
/// and it lives at the address derived for `owner`. On failure nothing changes.
pub fn update_human_attestation(
    ledger: &mut Ledger,
    program_id: &Key,
    accounts: &UpdateAttestation,
    now: i64,
    credit_score: u16,
    _verified_income: u64,
    _employment_status: String,
) -> (r: Result<Attestation, LendingError>)
    requires
        old(ledger).wf(),
        now <= i64::MAX - HUMAN_LIFETIME,
    ensures
        final(ledger).wf(),
        final(ledger)@ == update_attestation_spec(old(ledger)@, program_id.bytes@, EntityType::Human, accounts.owner.bytes@, accounts.attestation.bytes@, now, credit_score, 0u8).1,
        match r {
            Ok(a) => update_attestation_spec(old(ledger)@, program_id.bytes@, EntityType::Human, accounts.owner.bytes@, accounts.attestation.bytes@, now, credit_score, 0u8).0 == Ok::<AttestationView, LendingError>(a@),
            Err(e) => update_attestation_spec(old(ledger)@, program_id.bytes@, EntityType::Human, accounts.owner.bytes@, accounts.attestation.bytes@, now, credit_score, 0u8).0 == Err::<AttestationView, LendingError>(e),
        },
        r is Err ==> final(ledger)@ == old(ledger)@,
        r matches Ok(a) ==> a.created_at == now && a.expires_at == a.created_at + HUMAN_LIFETIME,
{
    let owner = &accounts.owner;
    let attestation = &accounts.attestation;
    update_attestation(ledger, program_id, EntityType::Human, owner, attestation, now, credit_score, 0u8)
}

/// Renews the agent attestation stored at `accounts.attestation`: a new credit score and
/// framework tag, and a 30-day window starting at `now`. The checks are those
/// of `update_human_attestation`, for an agent. On failure nothing changes.
pub fn update_agent_attestation(
    ledger: &mut Ledger,
    program_id: &Key,
    accounts: &UpdateAttestation,
    now: i64,
    credit_score: u16,
    _total_revenue: u64,
    _success_rate: u8,
    _operational_days: u16,
    framework_type: u8,
) -> (r: Result<Attestation, LendingError>)
    requires
        old(ledger).wf(),
        now <= i64::MAX - AGENT_LIFETIME,
    ensures
        final(ledger).wf(),
        final(ledger)@ == update_attestation_spec(old(ledger)@, program_id.bytes@, EntityType::Agent, accounts.owner.bytes@, accounts.attestation.bytes@, now, credit_score, framework_type).1,
        match r {
            Ok(a) => update_attestation_spec(old(ledger)@, program_id.bytes@, EntityType::Agent, accounts.owner.bytes@, accounts.attestation.bytes@, now, credit_score, framework_type).0 == Ok::<AttestationView, LendingError>(a@),
            Err(e) => update_attestation_spec(old(ledger)@, program_id.bytes@, EntityType::Agent, accounts.owner.bytes@, accounts.attestation.bytes@, now, credit_score, framework_type).0 == Err::<AttestationView, LendingError>(e),
        },
        r is Err ==> final(ledger)@ == old(ledger)@,
        r matches Ok(a) ==> a.created_at == now && a.expires_at == a.created_at + AGENT_LIFETIME,
{
    let owner = &accounts.owner;
    let attestation = &accounts.attestation;
    update_attestation(ledger, program_id, EntityType::Agent, owner, attestation, now, credit_score, framework_type)
}

/// Closes the attestation stored at `accounts.attestation`: its account is erased
/// and its deposit paid back to `accounts.owner`. The address is derived again with the seed of
/// the stored record's own entity type, and must match.
pub fn close_attestation(ledger: &mut Ledger, program_id: &Key, accounts: &CloseAttestation) -> (r: Result<(), LendingError>)
    requires
        old(ledger).wf(),
    ensures
        final(ledger).wf(),
        (r, final(ledger)@) == close_attestation_spec(old(ledger)@, program_id.bytes@, accounts.owner.bytes@, accounts.attestation.bytes@),
{
    let owner = &accounts.owner;
    let attestation = &accounts.attestation;
    let stored = match ledger.read(attestation) {
        None => {
            return Err(LendingError::UninitializedAccount);
        },
        Some(data) => decode_attestation(data)?,
    };
    if !stored.owner.same_as(owner) {
        return Err(LendingError::OwnershipMismatch);
    }
    let seed = seed_of(stored.entity_type);
    let components: Vec<Vec<u8>> = vec![owner.to_vec()];
    assert(crate::derive::byte_strings(components@) =~= seq![accounts.owner.bytes@]);
    let (address, _bump) = derive_address(&seed, &components, program_id)?;
    if !attestation.same_as(&address) {
        return Err(LendingError::AddressMismatch);
    }
    ledger.reclaim(attestation, owner)
}

/// Requests a loan of `amount` under `loan_id` at `accounts.loan_account`, which
/// must be the address derived from "loan", the borrower's key and the id's eight
/// little-endian bytes. The attestation at `accounts.attestation` must be owned
/// by the borrower; its credit score and entity type are copied into the loan, which
/// starts as `Requested`. The borrower pays `deposit` for the new account.
pub fn request_loan(
    ledger: &mut Ledger,
    program_id: &Key,
    accounts: &RequestLoan,
    deposit: u64,
    amount: u64,
    loan_id: u64,
) -> (r: Result<LoanAccount, LendingError>)
    requires
        old(ledger).wf(),
    ensures
        final(ledger).wf(),
        final(ledger)@ == request_loan_spec(old(ledger)@, program_id.bytes@, accounts.borrower.bytes@, accounts.loan_account.bytes@, accounts.attestation.bytes@, deposit, amount, loan_id).1,
        match r {
            Ok(l) => request_loan_spec(old(ledger)@, program_id.bytes@, accounts.borrower.bytes@, accounts.loan_account.bytes@, accounts.attestation.bytes@, deposit, amount, loan_id).0 == Ok::<LoanView, LendingError>(l@),
            Err(e) => request_loan_spec(old(ledger)@, program_id.bytes@, accounts.borrower.bytes@, accounts.loan_account.bytes@, accounts.attestation.bytes@, deposit, amount, loan_id).0 == Err::<LoanView, LendingError>(e),
        },
{
    let borrower = &accounts.borrower;
    let loan_account = &accounts.loan_account;
    let attestation = &accounts.attestation;
    let source = match ledger.read(attestation) {
        None => {
            return Err(LendingError::UninitializedAccount);
        },
        Some(data) => decode_attestation(data)?,
    };
    if !source.owner.same_as(borrower) {
        return Err(LendingError::OwnershipMismatch);
    }
    let seed = loan_seed_bytes();
    let mut id_bytes: Vec<u8> = Vec::new();
    push_le(&mut id_bytes, loan_id, 8);
    assert(id_bytes@ =~= le_bytes(loan_id as nat, 8));
    let components: Vec<Vec<u8>> = vec![borrower.to_vec(), id_bytes];
    assert(crate::derive::byte_strings(components@) =~= seq![accounts.borrower.bytes@, le_bytes(loan_id as nat, 8)]);
    let (address, bump) = derive_address(&seed, &components, program_id)?;
    if !loan_account.same_as(&address) {
        return Err(LendingError::AddressMismatch);
    }
    ledger.allocate(loan_account, LOAN_SIZE, borrower, deposit)?;
    let l = LoanAccount {
        borrower: *borrower,
        amount,
        credit_score: source.credit_score,
        status: LoanStatus::Requested,
        entity_type: source.entity_type,
        bump,
        loan_id,
    };
    let written = ledger.write(loan_account, encode_loan(&l));
    assert(written is Ok);
    Ok(l)
}

} // verus!
