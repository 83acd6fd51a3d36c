use vstd::prelude::*;

use crate::codec::{
    attestation_bytes, attestation_discriminator, attestation_from_bytes, attestation_round_trip,
    loan_bytes, loan_discriminator, loan_from_bytes, loan_round_trip,
};
use crate::error::LendingError;
use crate::ledger::LedgerMap;
use crate::lifecycle::{create_attestation_spec, request_loan_spec, update_attestation_spec};
use crate::record::{AttestationView, EntityType, LoanView};

verus! {

/// Once an attestation of some entity type has been created for an owner, a
/// second creation of the same type for the same owner, at the same address,
/// fails with `AddressAlreadyInUse`.
pub proof fn second_creation_fails(
    m: LedgerMap,
    program: Seq<u8>,
    kind: EntityType,
    owner: Seq<u8>,
    presented: Seq<u8>,
    deposit: u64,
    now: i64,
    credit_score: u16,
    framework_type: u8,
    deposit2: u64,
    now2: i64,
    credit_score2: u16,
    framework_type2: u8,
)
    requires
        create_attestation_spec(m, program, kind, owner, presented, deposit, now, credit_score, framework_type).0 is Ok,
    ensures
        ({
            let m1 = create_attestation_spec(m, program, kind, owner, presented, deposit, now, credit_score, framework_type).1;
            create_attestation_spec(m1, program, kind, owner, presented, deposit2, now2, credit_score2, framework_type2)
                == (Err::<AttestationView, LendingError>(LendingError::AddressAlreadyInUse), m1)
        }),
{
}

/// Renewing an attestation on behalf of anyone but its owner fails with
/// `OwnershipMismatch` and changes nothing.
pub proof fn update_by_other_than_owner_fails(
    m: LedgerMap,
    program: Seq<u8>,
    kind: EntityType,
    caller: Seq<u8>,
    presented: Seq<u8>,
    now: i64,
    credit_score: u16,
    framework_type: u8,
)
    requires
        m.contains_key(presented),
        attestation_from_bytes(m[presented].data) is Ok,
        attestation_from_bytes(m[presented].data)->Ok_0.owner != caller,
    ensures
        update_attestation_spec(m, program, kind, caller, presented, now, credit_score, framework_type)
            == (Err::<AttestationView, LendingError>(LendingError::OwnershipMismatch), m),
{
}

/// Renewing, as an agent's, the attestation that was created as a human's fails
/// with `InvalidEntityType` and leaves the stored bytes as they were.
pub proof fn agent_update_of_human_attestation_fails(
    m: LedgerMap,
    program: Seq<u8>,
    owner: Seq<u8>,
    presented: Seq<u8>,
    deposit: u64,
    now: i64,
    credit_score: u16,
    now2: i64,
    credit_score2: u16,
    framework_type2: u8,
)
    requires
        owner.len() == 32,
        create_attestation_spec(m, program, EntityType::Human, owner, presented, deposit, now, credit_score, 0).0 is Ok,
    ensures
        ({
            let m1 = create_attestation_spec(m, program, EntityType::Human, owner, presented, deposit, now, credit_score, 0).1;
            update_attestation_spec(m1, program, EntityType::Agent, owner, presented, now2, credit_score2, framework_type2)
                == (Err::<AttestationView, LendingError>(LendingError::InvalidEntityType), m1)
        }),
{
    let a = create_attestation_spec(m, program, EntityType::Human, owner, presented, deposit, now, credit_score, 0).0->Ok_0;
    attestation_round_trip(a);
    let m1 = create_attestation_spec(m, program, EntityType::Human, owner, presented, deposit, now, credit_score, 0).1;
    assert(m1.contains_key(presented));
    assert(m1[presented].data == attestation_bytes(a));
}

/// A loan keeps the credit score it was requested with: renewing any
/// attestation afterwards leaves the loan's bytes, and so the loan, as they were.
pub proof fn loan_keeps_its_snapshot(
    m: LedgerMap,
    program: Seq<u8>,
    borrower: Seq<u8>,
    loan_address: Seq<u8>,
    attestation_address: Seq<u8>,
    deposit: u64,
    amount: u64,
    loan_id: u64,
    kind: EntityType,
    owner: Seq<u8>,
    presented: Seq<u8>,
    now: i64,
    credit_score: u16,
    framework_type: u8,
)
    requires
        borrower.len() == 32,
        request_loan_spec(m, program, borrower, loan_address, attestation_address, deposit, amount, loan_id).0 is Ok,
    ensures
        ({
            let (requested, m1) = request_loan_spec(m, program, borrower, loan_address, attestation_address, deposit, amount, loan_id);
            let m2 = update_attestation_spec(m1, program, kind, owner, presented, now, credit_score, framework_type).1;
            &&& m2.contains_key(loan_address)
            &&& m2[loan_address].data == m1[loan_address].data
            &&& loan_from_bytes(m2[loan_address].data) == Ok::<LoanView, LendingError>(requested->Ok_0)
        }),
{
    let (requested, m1) = request_loan_spec(m, program, borrower, loan_address, attestation_address, deposit, amount, loan_id);
    let l = requested->Ok_0;
    loan_round_trip(l);
    let s = loan_bytes(l);
    assert(m1[loan_address].data == s);
    assert(s.subrange(0, 8) =~= loan_discriminator());
    assert(s.subrange(0, 8)[0] != attestation_discriminator()[0]);
    assert(s[0] != 0);
    assert(attestation_from_bytes(s) == Err::<AttestationView, LendingError>(LendingError::SchemaMismatch));
}

} // verus!
