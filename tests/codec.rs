use anchor_lang::prelude::Pubkey;
use anchor_lang::solana_program::hash::hash;
use obsidianprotocol::codec::{
    decode_attestation, decode_loan, decode_record, encode_attestation, encode_loan, ATTESTATION_SIZE,
    LOAN_SIZE,
};
use obsidianprotocol::derive::derive_address;
use obsidianprotocol::error::LendingError;
use obsidianprotocol::key::Key;
use obsidianprotocol::ledger::Ledger;
use obsidianprotocol::record::{Attestation, EntityType, LoanAccount, LoanStatus, Record};

fn sample_attestation() -> Attestation {
    Attestation {
        entity_type: EntityType::Agent,
        owner: Key::new([0xAB; 32]),
        credit_score: 720,
        created_at: -5,
        expires_at: i64::MAX,
        framework_type: 3,
        bump: 254,
    }
}

fn sample_loan() -> LoanAccount {
    LoanAccount {
        borrower: Key::new([0x11; 32]),
        amount: u64::MAX,
        credit_score: 65535,
        status: LoanStatus::Funded,
        entity_type: EntityType::Human,
        bump: 1,
        loan_id: 0x0102030405060708,
    }
}

#[test]
fn prefixes_follow_the_account_framework() {
    let a = encode_attestation(&sample_attestation());
    assert_eq!(&a[..8], &hash(b"account:Attestation").to_bytes()[..8]);
    let l = encode_loan(&sample_loan());
    assert_eq!(&l[..8], &hash(b"account:LoanAccount").to_bytes()[..8]);
}

#[test]
fn attestation_layout_is_exact() {
    let b = encode_attestation(&sample_attestation());
    assert_eq!(b.len(), ATTESTATION_SIZE);
    assert_eq!(b.len(), 61);
    assert_eq!(b[8], 1);
    assert_eq!(&b[9..41], &[0xAB; 32]);
    assert_eq!(&b[41..43], &[208, 2]);
    assert_eq!(&b[43..51], &(-5i64).to_le_bytes());
    assert_eq!(&b[51..59], &i64::MAX.to_le_bytes());
    assert_eq!(b[59], 3);
    assert_eq!(b[60], 254);
}

#[test]
fn loan_layout_is_exact() {
    let b = encode_loan(&sample_loan());
    assert_eq!(b.len(), LOAN_SIZE);
    assert_eq!(&b[8..40], &[0x11; 32]);
    assert_eq!(&b[40..48], &[0xFF; 8]);
    assert_eq!(&b[48..50], &[0xFF, 0xFF]);
    assert_eq!(b[50], 3);
    assert_eq!(b[51], 0);
    assert_eq!(b[52], 1);
    assert_eq!(&b[53..61], &[8, 7, 6, 5, 4, 3, 2, 1]);
}

#[test]
fn records_round_trip() {
    let a = sample_attestation();
    assert_eq!(decode_attestation(&encode_attestation(&a)), Ok(a));
    let h = Attestation { entity_type: EntityType::Human, created_at: i64::MIN, ..a };
    assert_eq!(decode_attestation(&encode_attestation(&h)), Ok(h));
    let l = sample_loan();
    assert_eq!(decode_loan(&encode_loan(&l)), Ok(l));
    for status in [LoanStatus::Requested, LoanStatus::Approved, LoanStatus::Rejected, LoanStatus::Repaid] {
        let m = LoanAccount { status, entity_type: EntityType::Agent, ..l };
        assert_eq!(decode_loan(&encode_loan(&m)), Ok(m));
    }
}

#[test]
fn decode_errors() {
    assert_eq!(decode_attestation(&Vec::new()), Err(LendingError::UninitializedAccount));
    assert_eq!(decode_attestation(&vec![0u8; 61]), Err(LendingError::UninitializedAccount));
    assert_eq!(decode_attestation(&vec![1u8, 2, 3]), Err(LendingError::TruncatedBuffer));
    let a = encode_attestation(&sample_attestation());
    assert_eq!(decode_attestation(&a[..60].to_vec()), Err(LendingError::TruncatedBuffer));
    assert_eq!(decode_loan(&a), Err(LendingError::SchemaMismatch));
    let mut bad = a.clone();
    bad[8] = 2;
    assert_eq!(decode_attestation(&bad), Err(LendingError::SchemaMismatch));
    let mut longer = a.clone();
    longer.push(9);
    assert_eq!(decode_attestation(&longer), Ok(sample_attestation()));
    let mut bad_status = encode_loan(&sample_loan());
    bad_status[50] = 5;
    assert_eq!(decode_loan(&bad_status), Err(LendingError::SchemaMismatch));
}

#[test]
fn records_are_classified_by_prefix() {
    assert_eq!(decode_record(&vec![0u8; 61]), Ok(Record::Uninitialized));
    assert_eq!(decode_record(&Vec::new()), Ok(Record::Uninitialized));
    assert_eq!(decode_record(&vec![4u8; 5]), Err(LendingError::TruncatedBuffer));
    assert_eq!(decode_record(&vec![4u8; 61]), Err(LendingError::SchemaMismatch));
    let a = sample_attestation();
    assert_eq!(decode_record(&encode_attestation(&a)), Ok(Record::Attestation(a)));
    let l = sample_loan();
    assert_eq!(decode_record(&encode_loan(&l)), Ok(Record::Loan(l)));
    assert_eq!(decode_record(&encode_loan(&l)[..20].to_vec()), Err(LendingError::TruncatedBuffer));
}

#[test]
fn derivation_is_repeatable_and_matches_the_ledger() {
    let program = Key::new([7u8; 32]);
    let owner = vec![1u8; 32];
    let seed = b"attestation_human".to_vec();
    let first = derive_address(&seed, &vec![owner.clone()], &program).unwrap();
    let second = derive_address(&seed, &vec![owner.clone()], &program).unwrap();
    assert_eq!(first, second);
    let (expected, bump) = Pubkey::find_program_address(&[b"attestation_human", &owner], &Pubkey::new_from_array([7u8; 32]));
    assert_eq!(first, (Key::new(expected.to_bytes()), bump));
    let other = derive_address(&b"attestation_agent".to_vec(), &vec![owner], &program).unwrap();
    assert_ne!(first.0, other.0);
}

#[test]
fn overlong_component_exhausts_derivation() {
    let program = Key::new([7u8; 32]);
    let r = derive_address(&b"loan".to_vec(), &vec![vec![0u8; 33]], &program);
    assert_eq!(r, Err(LendingError::AddressDerivationExhausted));
}

#[test]
fn ledger_accessor_errors() {
    let mut ledger = Ledger::new();
    let funder = Key::new([1u8; 32]);
    let target = Key::new([2u8; 32]);
    assert_eq!(ledger.write(&target, vec![1, 2]), Err(LendingError::UninitializedAccount));
    ledger.credit(&funder, 100).unwrap();
    assert_eq!(ledger.credit(&funder, u64::MAX), Err(LendingError::ArithmeticOverflow));
    assert_eq!(ledger.allocate(&target, 4, &funder, 101), Err(LendingError::InsufficientFunds));
    assert_eq!(ledger.allocate(&target, 4, &funder, 60), Ok(()));
    assert_eq!(ledger.read(&target), Some(&vec![0u8; 4]));
    assert_eq!(ledger.balance(&funder), 40);
    assert_eq!(ledger.allocate(&target, 4, &funder, 1), Err(LendingError::AddressAlreadyInUse));
    assert_eq!(ledger.write(&target, vec![1, 2]), Err(LendingError::SizeMismatch));
    assert_eq!(ledger.write(&target, vec![1, 2, 3, 4]), Ok(()));
    assert_eq!(ledger.read(&target), Some(&vec![1u8, 2, 3, 4]));
    assert_eq!(ledger.reclaim(&target, &funder), Ok(()));
    assert_eq!(ledger.balance(&funder), 100);
    assert_eq!(ledger.read(&target), None);
    assert_eq!(ledger.reclaim(&target, &funder), Err(LendingError::UninitializedAccount));
}

#[test]
fn loaded_accounts_are_visible() {
    let mut ledger = Ledger::new();
    let a = Key::new([4u8; 32]);
    assert_eq!(ledger.load(&a, 5, vec![9, 9]), Ok(()));
    assert_eq!(ledger.balance(&a), 5);
    assert_eq!(ledger.read(&a), Some(&vec![9u8, 9]));
    assert_eq!(ledger.load(&a, 1, Vec::new()), Err(LendingError::AddressAlreadyInUse));
    assert_eq!(ledger.balance(&a), 5);
}
