use anchor_lang::prelude::Pubkey;
use obsidianprotocol::codec::{decode_attestation, decode_loan, encode_attestation, encode_loan};
use obsidianprotocol::error::LendingError;
use obsidianprotocol::key::Key;
use obsidianprotocol::ledger::Ledger;
use obsidianprotocol::lifecycle::{
    CloseAttestation, CreateAgentAttestation, CreateHumanAttestation, RequestLoan, UpdateAttestation,
    close_attestation, create_agent_attestation, create_human_attestation, request_loan,
    update_agent_attestation, update_human_attestation, AGENT_LIFETIME, HUMAN_LIFETIME,
};
use obsidianprotocol::record::{EntityType, LoanStatus};

const DEPOSIT: u64 = 1_000_000;

fn program() -> Key {
    Key::new([7u8; 32])
}

fn owner() -> Key {
    Key::new([1u8; 32])
}

fn pda(seeds: &[&[u8]]) -> Key {
    let program_id = Pubkey::new_from_array(program().bytes);
    let (address, _) = Pubkey::find_program_address(seeds, &program_id);
    Key::new(address.to_bytes())
}

fn human_address(o: &Key) -> Key {
    pda(&[b"attestation_human", &o.bytes])
}

fn agent_address(o: &Key) -> Key {
    pda(&[b"attestation_agent", &o.bytes])
}

fn loan_address(o: &Key, loan_id: u64) -> Key {
    pda(&[b"loan", &o.bytes, &loan_id.to_le_bytes()])
}

fn funded_ledger(o: &Key) -> Ledger {
    let mut ledger = Ledger::new();
    ledger.credit(o, 100 * DEPOSIT).unwrap();
    ledger
}

fn stored(ledger: &Ledger, address: &Key) -> Vec<u8> {
    ledger.read(address).unwrap().clone()
}

#[test]
fn human_attestation_and_loan_scenario() {
    let o = owner();
    let mut ledger = funded_ledger(&o);
    let att = human_address(&o);
    let a = create_human_attestation(&mut ledger, &program(), &CreateHumanAttestation { owner: o, attestation: att }, DEPOSIT, 1000, 720, 50_000, "employed".to_string()).unwrap();
    assert_eq!(a.entity_type, EntityType::Human);
    assert_eq!(a.owner, o);
    assert_eq!(a.credit_score, 720);
    assert_eq!(a.created_at, 1000);
    assert_eq!(a.expires_at, 1000 + 7_776_000);
    assert_eq!(a.framework_type, 0);
    assert_eq!(decode_attestation(&stored(&ledger, &att)), Ok(a));
    assert_eq!(ledger.balance(&o), 99 * DEPOSIT);
    assert_eq!(ledger.balance(&att), DEPOSIT);

    let la = loan_address(&o, 1);
    let l = request_loan(&mut ledger, &program(), &RequestLoan { borrower: o, loan_account: la, attestation: att }, DEPOSIT, 5_000_000, 1).unwrap();
    assert_eq!(l.borrower, o);
    assert_eq!(l.amount, 5_000_000);
    assert_eq!(l.credit_score, 720);
    assert_eq!(l.status, LoanStatus::Requested);
    assert_eq!(l.entity_type, EntityType::Human);
    assert_eq!(l.loan_id, 1);
    assert_eq!(decode_loan(&stored(&ledger, &la)), Ok(l));

    let again = request_loan(&mut ledger, &program(), &RequestLoan { borrower: o, loan_account: la, attestation: att }, DEPOSIT, 7, 1);
    assert_eq!(again, Err(LendingError::AddressAlreadyInUse));
}

#[test]
fn second_human_attestation_is_refused() {
    let o = owner();
    let mut ledger = funded_ledger(&o);
    let att = human_address(&o);
    create_human_attestation(&mut ledger, &program(), &CreateHumanAttestation { owner: o, attestation: att }, DEPOSIT, 10, 600, 0, String::new()).unwrap();
    let before = stored(&ledger, &att);
    let second = create_human_attestation(&mut ledger, &program(), &CreateHumanAttestation { owner: o, attestation: att }, DEPOSIT, 20, 700, 0, String::new());
    assert_eq!(second, Err(LendingError::AddressAlreadyInUse));
    assert_eq!(stored(&ledger, &att), before);
}

#[test]
fn lifetimes_are_ninety_and_thirty_days() {
    let o = owner();
    let mut ledger = funded_ledger(&o);
    let h = create_human_attestation(&mut ledger, &program(), &CreateHumanAttestation { owner: o, attestation: human_address(&o) }, DEPOSIT, 5, 1, 0, String::new()).unwrap();
    assert_eq!(h.expires_at, 5 + 90 * 86400);
    let g = create_agent_attestation(&mut ledger, &program(), &CreateAgentAttestation { owner: o, attestation: agent_address(&o) }, DEPOSIT, 5, 1, 0, 0, 0, 2).unwrap();
    assert_eq!(g.expires_at, 5 + 30 * 86400);
    assert_eq!(g.framework_type, 2);
    assert_eq!(g.entity_type, EntityType::Agent);
    assert_eq!(HUMAN_LIFETIME, 7_776_000);
    assert_eq!(AGENT_LIFETIME, 2_592_000);
}

#[test]
fn update_by_another_key_is_refused() {
    let o = owner();
    let mut ledger = funded_ledger(&o);
    let att = human_address(&o);
    create_human_attestation(&mut ledger, &program(), &CreateHumanAttestation { owner: o, attestation: att }, DEPOSIT, 10, 600, 0, String::new()).unwrap();
    let before = stored(&ledger, &att);
    let intruder = Key::new([9u8; 32]);
    let r = update_human_attestation(&mut ledger, &program(), &UpdateAttestation { owner: intruder, attestation: att }, 50, 999, 0, String::new());
    assert_eq!(r, Err(LendingError::OwnershipMismatch));
    assert_eq!(stored(&ledger, &att), before);
}

#[test]
fn agent_update_of_human_record_is_refused() {
    let o = owner();
    let mut ledger = funded_ledger(&o);
    let att = human_address(&o);
    create_human_attestation(&mut ledger, &program(), &CreateHumanAttestation { owner: o, attestation: att }, DEPOSIT, 10, 600, 0, String::new()).unwrap();
    let before = stored(&ledger, &att);
    let r = update_agent_attestation(&mut ledger, &program(), &UpdateAttestation { owner: o, attestation: att }, 50, 999, 0, 0, 0, 3);
    assert_eq!(r, Err(LendingError::InvalidEntityType));
    assert_eq!(stored(&ledger, &att), before);
}

#[test]
fn updates_renew_the_window() {
    let o = owner();
    let mut ledger = funded_ledger(&o);
    let att = human_address(&o);
    create_human_attestation(&mut ledger, &program(), &CreateHumanAttestation { owner: o, attestation: att }, DEPOSIT, 10, 600, 0, String::new()).unwrap();
    let u = update_human_attestation(&mut ledger, &program(), &UpdateAttestation { owner: o, attestation: att }, 500, 650, 0, String::new()).unwrap();
    assert_eq!(u.credit_score, 650);
    assert_eq!(u.created_at, 500);
    assert_eq!(u.expires_at, 500 + 7_776_000);
    assert_eq!(decode_attestation(&stored(&ledger, &att)), Ok(u));

    let ag = agent_address(&o);
    create_agent_attestation(&mut ledger, &program(), &CreateAgentAttestation { owner: o, attestation: ag }, DEPOSIT, 10, 300, 0, 0, 0, 1).unwrap();
    let v = update_agent_attestation(&mut ledger, &program(), &UpdateAttestation { owner: o, attestation: ag }, 900, 310, 0, 0, 0, 3).unwrap();
    assert_eq!(v.framework_type, 3);
    assert_eq!(v.expires_at, 900 + 2_592_000);
    let wrong = update_human_attestation(&mut ledger, &program(), &UpdateAttestation { owner: o, attestation: ag }, 900, 1, 0, String::new());
    assert_eq!(wrong, Err(LendingError::InvalidEntityType));
}

#[test]
fn loan_keeps_score_after_update() {
    let o = owner();
    let mut ledger = funded_ledger(&o);
    let att = human_address(&o);
    create_human_attestation(&mut ledger, &program(), &CreateHumanAttestation { owner: o, attestation: att }, DEPOSIT, 10, 600, 0, String::new()).unwrap();
    let la = loan_address(&o, 42);
    let l = request_loan(&mut ledger, &program(), &RequestLoan { borrower: o, loan_account: la, attestation: att }, DEPOSIT, 1_000, 42).unwrap();
    let before = stored(&ledger, &la);
    update_human_attestation(&mut ledger, &program(), &UpdateAttestation { owner: o, attestation: att }, 20, 800, 0, String::new()).unwrap();
    assert_eq!(stored(&ledger, &la), before);
    assert_eq!(decode_loan(&stored(&ledger, &la)).unwrap().credit_score, 600);
    assert_eq!(l.credit_score, 600);
}

#[test]
fn wrong_address_is_refused() {
    let o = owner();
    let mut ledger = funded_ledger(&o);
    let r = create_human_attestation(&mut ledger, &program(), &CreateHumanAttestation { owner: o, attestation: agent_address(&o) }, DEPOSIT, 10, 600, 0, String::new());
    assert_eq!(r, Err(LendingError::AddressMismatch));
    assert!(!ledger.contains(&agent_address(&o)));
    let att = human_address(&o);
    create_human_attestation(&mut ledger, &program(), &CreateHumanAttestation { owner: o, attestation: att }, DEPOSIT, 10, 600, 0, String::new()).unwrap();
    let r = request_loan(&mut ledger, &program(), &RequestLoan { borrower: o, loan_account: loan_address(&o, 2), attestation: att }, DEPOSIT, 5, 3);
    assert_eq!(r, Err(LendingError::AddressMismatch));
}

#[test]
fn loan_by_other_than_attestation_owner_is_refused() {
    let o = owner();
    let mut ledger = funded_ledger(&o);
    let att = human_address(&o);
    create_human_attestation(&mut ledger, &program(), &CreateHumanAttestation { owner: o, attestation: att }, DEPOSIT, 10, 600, 0, String::new()).unwrap();
    let other = Key::new([3u8; 32]);
    ledger.credit(&other, DEPOSIT).unwrap();
    let r = request_loan(&mut ledger, &program(), &RequestLoan { borrower: other, loan_account: loan_address(&other, 1), attestation: att }, DEPOSIT, 5, 1);
    assert_eq!(r, Err(LendingError::OwnershipMismatch));
}

#[test]
fn unfunded_owner_cannot_create() {
    let o = owner();
    let mut ledger = Ledger::new();
    let att = human_address(&o);
    let r = create_human_attestation(&mut ledger, &program(), &CreateHumanAttestation { owner: o, attestation: att }, DEPOSIT, 10, 600, 0, String::new());
    assert_eq!(r, Err(LendingError::InsufficientFunds));
    ledger.credit(&o, DEPOSIT - 1).unwrap();
    let r = create_human_attestation(&mut ledger, &program(), &CreateHumanAttestation { owner: o, attestation: att }, DEPOSIT, 10, 600, 0, String::new());
    assert_eq!(r, Err(LendingError::InsufficientFunds));
    assert!(!ledger.contains(&att));
}

#[test]
fn close_refunds_the_owner() {
    let o = owner();
    let mut ledger = funded_ledger(&o);
    let att = agent_address(&o);
    create_agent_attestation(&mut ledger, &program(), &CreateAgentAttestation { owner: o, attestation: att }, DEPOSIT, 10, 300, 0, 0, 0, 1).unwrap();
    assert_eq!(ledger.balance(&o), 99 * DEPOSIT);
    let intruder = Key::new([9u8; 32]);
    assert_eq!(close_attestation(&mut ledger, &program(), &CloseAttestation { owner: intruder, attestation: att }), Err(LendingError::OwnershipMismatch));
    assert_eq!(close_attestation(&mut ledger, &program(), &CloseAttestation { owner: o, attestation: att }), Ok(()));
    assert!(!ledger.contains(&att));
    assert_eq!(ledger.balance(&o), 100 * DEPOSIT);
    assert_eq!(close_attestation(&mut ledger, &program(), &CloseAttestation { owner: o, attestation: att }), Err(LendingError::UninitializedAccount));
    let again = create_agent_attestation(&mut ledger, &program(), &CreateAgentAttestation { owner: o, attestation: att }, DEPOSIT, 20, 300, 0, 0, 0, 1);
    assert!(again.is_ok());
}

#[test]
fn close_checks_the_address_of_the_stored_kind() {
    let o = owner();
    let mut ledger = funded_ledger(&o);
    let att = human_address(&o);
    let a = create_human_attestation(&mut ledger, &program(), &CreateHumanAttestation { owner: o, attestation: att }, DEPOSIT, 10, 600, 0, String::new()).unwrap();
    let elsewhere = Key::new([5u8; 32]);
    ledger.allocate(&elsewhere, 61, &o, 10).unwrap();
    ledger.write(&elsewhere, encode_attestation(&a)).unwrap();
    assert_eq!(close_attestation(&mut ledger, &program(), &CloseAttestation { owner: o, attestation: elsewhere }), Err(LendingError::AddressMismatch));
    assert!(ledger.contains(&elsewhere));
}

#[test]
fn loan_against_a_loan_record_is_a_schema_mismatch() {
    let o = owner();
    let mut ledger = funded_ledger(&o);
    let att = human_address(&o);
    create_human_attestation(&mut ledger, &program(), &CreateHumanAttestation { owner: o, attestation: att }, DEPOSIT, 10, 600, 0, String::new()).unwrap();
    let la = loan_address(&o, 1);
    let l = request_loan(&mut ledger, &program(), &RequestLoan { borrower: o, loan_account: la, attestation: att }, DEPOSIT, 5, 1).unwrap();
    let r = request_loan(&mut ledger, &program(), &RequestLoan { borrower: o, loan_account: loan_address(&o, 2), attestation: la }, DEPOSIT, 5, 2);
    assert_eq!(r, Err(LendingError::SchemaMismatch));
    assert_eq!(encode_loan(&l), stored(&ledger, &la));
}
