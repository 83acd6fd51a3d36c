use vstd::prelude::*;

use crate::error::LendingError;
use crate::key::Key;
use crate::record::{Attestation, AttestationView, EntityType, LoanAccount, LoanStatus, LoanView, Record};

verus! {

/// Size of an encoded attestation: the 8-byte kind prefix and 53 bytes of fields.
pub const ATTESTATION_SIZE: usize = 61;

/// Size of an encoded loan: the 8-byte kind prefix and 53 bytes of fields.
pub const LOAN_SIZE: usize = 61;

/// Kind prefix of an attestation: the first eight bytes of the SHA-256 digest of
/// "account:Attestation", as the ledger's account framework writes it.
pub open spec fn attestation_discriminator() -> Seq<u8> {
    seq![152u8, 125u8, 183u8, 86u8, 36u8, 146u8, 121u8, 73u8]
}

/// Kind prefix of a loan: the first eight bytes of the SHA-256 digest of
/// "account:LoanAccount".
pub open spec fn loan_discriminator() -> Seq<u8> {
    seq![223u8, 49u8, 62u8, 167u8, 247u8, 182u8, 239u8, 60u8]
}

/// 256 to the power `w`.
pub open spec fn pow256(w: nat) -> nat
    decreases w,
{
    if w == 0 {
        1
    } else {
        256 * pow256((w - 1) as nat)
    }
}

/// The `width` low bytes of `n`, least significant first.
pub open spec fn le_bytes(n: nat, width: nat) -> Seq<u8>
    decreases width,
{
    if width == 0 {
        Seq::<u8>::empty()
    } else {
        seq![(n % 256) as u8] + le_bytes(n / 256, (width - 1) as nat)
    }
}

/// The number whose little-endian bytes are `s`.
pub open spec fn le_value(s: Seq<u8>) -> nat
    decreases s.len(),
{
    if s.len() == 0 {
        0
    } else {
        s[0] as nat + 256 * le_value(s.drop_first())
    }
}

/// The two's complement bits of a signed 64-bit value, as a natural number.
pub open spec fn i64_bits(v: i64) -> nat {
    if v >= 0 {
        v as nat
    } else {
        (v + 0x1_0000_0000_0000_0000) as nat
    }
}

/// The signed 64-bit value whose two's complement bits are `n`.
pub open spec fn i64_of_bits(n: nat) -> i64 {
    if n < 0x8000_0000_0000_0000 {
        n as i64
    } else {
        (n - 0x1_0000_0000_0000_0000) as i64
    }
}

pub open spec fn entity_tag(e: EntityType) -> u8 {
    match e {
        EntityType::Human => 0,
        EntityType::Agent => 1,
    }
}

pub open spec fn entity_of_tag(t: u8) -> EntityType {
    if t == 0 {
        EntityType::Human
    } else {
        EntityType::Agent
    }
}

pub open spec fn status_tag(s: LoanStatus) -> u8 {
    match s {
        LoanStatus::Requested => 0,
        LoanStatus::Approved => 1,
        LoanStatus::Rejected => 2,
        LoanStatus::Funded => 3,
        LoanStatus::Repaid => 4,
    }
}

pub open spec fn status_of_tag(t: u8) -> LoanStatus {
    if t == 0 {
        LoanStatus::Requested
    } else if t == 1 {
        LoanStatus::Approved
    } else if t == 2 {
        LoanStatus::Rejected
    } else if t == 3 {
        LoanStatus::Funded
    } else {
        LoanStatus::Repaid
    }
}

/// The encoded bytes of an attestation.
pub open spec fn attestation_bytes(a: AttestationView) -> Seq<u8> {
    attestation_discriminator() + seq![entity_tag(a.entity_type)] + a.owner + le_bytes(
        a.credit_score as nat,
        2,
    ) + le_bytes(i64_bits(a.created_at), 8) + le_bytes(i64_bits(a.expires_at), 8) + seq![
        a.framework_type,
        a.bump,
    ]
}

/// The encoded bytes of a loan.
pub open spec fn loan_bytes(l: LoanView) -> Seq<u8> {
    loan_discriminator() + l.borrower + le_bytes(l.amount as nat, 8) + le_bytes(
        l.credit_score as nat,
        2,
    ) + seq![status_tag(l.status), entity_tag(l.entity_type), l.bump] + le_bytes(
        l.loan_id as nat,
        8,
    )
}

/// Whether every byte of `s` is zero (an empty buffer included).
pub open spec fn all_zero(s: Seq<u8>) -> bool {
    forall|i: int| 0 <= i < s.len() ==> s[i] == 0
}

/// The field `width` bytes wide at `off`, as a number.
pub open spec fn field(s: Seq<u8>, off: int, width: int) -> nat {
    le_value(s.subrange(off, off + width))
}

/// The checks that come before the fields of a buffer claimed to be of the
/// kind with prefix `disc` and size `size`.
pub open spec fn header_error(s: Seq<u8>, disc: Seq<u8>, size: nat) -> Option<LendingError> {
    if all_zero(s) {
        Some(LendingError::UninitializedAccount)
    } else if s.len() < 8 {
        Some(LendingError::TruncatedBuffer)
    } else if s.subrange(0, 8) != disc {
        Some(LendingError::SchemaMismatch)
    } else if s.len() < size {
        Some(LendingError::TruncatedBuffer)
    } else {
        None
    }
}

/// What decoding a buffer as an attestation gives.
pub open spec fn attestation_from_bytes(s: Seq<u8>) -> Result<AttestationView, LendingError> {
    match header_error(s, attestation_discriminator(), 61) {
        Some(e) => Err(e),
        None => if s[8] > 1 {
            Err(LendingError::SchemaMismatch)
        } else {
            Ok(
                AttestationView {
                    entity_type: entity_of_tag(s[8]),
                    owner: s.subrange(9, 41),
                    credit_score: field(s, 41, 2) as u16,
                    created_at: i64_of_bits(field(s, 43, 8)),
                    expires_at: i64_of_bits(field(s, 51, 8)),
                    framework_type: s[59],
                    bump: s[60],
                },
            )
        },
    }
}

/// What decoding a buffer as a loan gives.
pub open spec fn loan_from_bytes(s: Seq<u8>) -> Result<LoanView, LendingError> {
    match header_error(s, loan_discriminator(), 61) {
        Some(e) => Err(e),
        None => if s[50] > 4 || s[51] > 1 {
            Err(LendingError::SchemaMismatch)
        } else {
            Ok(
                LoanView {
                    borrower: s.subrange(8, 40),
                    amount: field(s, 40, 8) as u64,
                    credit_score: field(s, 48, 2) as u16,
                    status: status_of_tag(s[50]),
                    entity_type: entity_of_tag(s[51]),
                    bump: s[52],
                    loan_id: field(s, 53, 8) as u64,
                },
            )
        },
    }
}

proof fn lemma_le_bytes_len(n: nat, width: nat)
    ensures
        le_bytes(n, width).len() == width,
    decreases width,
{
    if width > 0 {
        lemma_le_bytes_len(n / 256, (width - 1) as nat);
    }
}

proof fn lemma_le_round_trip(n: nat, width: nat)
    requires
        n < pow256(width),
    ensures
        le_value(le_bytes(n, width)) == n,
        le_bytes(n, width).len() == width,
    decreases width,
{
    lemma_le_bytes_len(n, width);
    if width > 0 {
        let w1 = (width - 1) as nat;
        assert(n / 256 < pow256(w1)) by (nonlinear_arith)
            requires
                n < 256 * pow256(w1),
        ;
        lemma_le_round_trip(n / 256, w1);
        let s = le_bytes(n, width);
        assert(s.drop_first() =~= le_bytes(n / 256, w1));
        assert(n == n % 256 + 256 * (n / 256)) by (nonlinear_arith);
    }
}

proof fn lemma_le_value_bound(s: Seq<u8>)
    ensures
        le_value(s) < pow256(s.len()),
    decreases s.len(),
{
    if s.len() > 0 {
        lemma_le_value_bound(s.drop_first());
        let rest = le_value(s.drop_first());
        let p = pow256((s.len() - 1) as nat);
        assert(s[0] as nat + 256 * rest < 256 * p) by (nonlinear_arith)
            requires
                rest < p,
                s[0] < 256,
        ;
    }
}

proof fn lemma_pow256_facts()
    ensures
        pow256(1) == 0x100,
        pow256(2) == 0x1_0000,
        pow256(8) == 0x1_0000_0000_0000_0000,
{
    reveal_with_fuel(pow256, 9);
}

proof fn lemma_pow256_mono(a: nat, b: nat)
    requires
        a <= b,
    ensures
        pow256(a) <= pow256(b),
    decreases b,
{
    if a < b {
        lemma_pow256_mono(a, (b - 1) as nat);
    }
}

proof fn lemma_i64_bits_round_trip(v: i64)
    ensures
        i64_bits(v) < 0x1_0000_0000_0000_0000,
        i64_of_bits(i64_bits(v)) == v,
{
}

/// Appends the `width` low bytes of `v`, least significant first.
pub(crate) fn push_le(out: &mut Vec<u8>, v: u64, width: usize)
    ensures
        final(out)@ == old(out)@ + le_bytes(v as nat, width as nat),
{
    let mut x: u64 = v;
    let mut i: usize = 0;
    while i < width
        invariant
            0 <= i <= width,
            out@ + le_bytes(x as nat, (width - i) as nat) == old(out)@ + le_bytes(
                v as nat,
                width as nat,
            ),
        decreases width - i,
    {
        let ghost before = out@;
        let ghost rest = le_bytes((x / 256) as nat, (width - i - 1) as nat);
        assert(le_bytes(x as nat, (width - i) as nat) == seq![(x % 256) as u8] + rest);
        out.push((x % 256) as u8);
        assert(out@ + rest =~= before + (seq![(x % 256) as u8] + rest));
        x = x / 256;
        i = i + 1;
    }
    assert(le_bytes(x as nat, 0) =~= Seq::<u8>::empty());
    assert(out@ =~= out@ + le_bytes(x as nat, 0));
}

/// Reads the `width`-byte little-endian number at `off`.
fn read_le(b: &Vec<u8>, off: usize, width: usize) -> (r: u64)
    requires
        width <= 8,
        off + width <= b@.len(),
    ensures
        r as nat == field(b@, off as int, width as int),
{
    let _len = b.len();
    let mut acc: u64 = 0;
    let mut j: usize = width;
    proof {
        lemma_pow256_facts();
    }
    while j > 0
        invariant
            0 <= j <= width <= 8,
            off + width <= b@.len() <= usize::MAX,
            pow256(8) == 0x1_0000_0000_0000_0000,
            acc as nat == le_value(b@.subrange(off + j, off + width)),
            acc < pow256((width - j) as nat),
        decreases j,
    {
        let ghost k = (width - j) as nat;
        proof {
            lemma_pow256_mono(k + 1, 8);
        }
        let byte = b[off + j - 1];
        assert(acc * 256 + byte < pow256(k + 1)) by (nonlinear_arith)
            requires
                acc < pow256(k),
                byte < 256,
                pow256(k + 1) == 256 * pow256(k),
        ;
        let ghost s = b@.subrange(off + j - 1, off + width);
        assert(s.drop_first() =~= b@.subrange(off + j, off + width));
        acc = acc * 256 + byte as u64;
        j = j - 1;
    }
    acc
}

/// Appends the eight bytes of `prefix`.
fn push_prefix(out: &mut Vec<u8>, prefix: [u8; 8])
    ensures
        final(out)@ == old(out)@ + prefix@,
{
    let mut i: usize = 0;
    while i < 8
        invariant
            0 <= i <= 8,
            out@ == old(out)@ + prefix@.subrange(0, i as int),
        decreases 8 - i,
    {
        out.push(prefix[i]);
        assert(prefix@.subrange(0, i + 1) =~= prefix@.subrange(0, i as int).push(prefix@[i as int]));
        i = i + 1;
    }
    assert(prefix@.subrange(0, 8) =~= prefix@);
}

fn attestation_prefix() -> (r: [u8; 8])
    ensures
        r@ == attestation_discriminator(),
{
    let r: [u8; 8] = [152, 125, 183, 86, 36, 146, 121, 73];
    assert(r@ =~= attestation_discriminator());
    r
}

fn loan_prefix() -> (r: [u8; 8])
    ensures
        r@ == loan_discriminator(),
{
    let r: [u8; 8] = [223, 49, 62, 167, 247, 182, 239, 60];
    assert(r@ =~= loan_discriminator());
    r
}

fn push_key(out: &mut Vec<u8>, k: &Key)
    ensures
        final(out)@ == old(out)@ + k.bytes@,
{
    let mut i: usize = 0;
    while i < 32
        invariant
            0 <= i <= 32,
            k.bytes@.len() == 32,
            out@ == old(out)@ + k.bytes@.subrange(0, i as int),
        decreases 32 - i,
    {
        out.push(k.bytes[i]);
        assert(k.bytes@.subrange(0, i + 1) =~= k.bytes@.subrange(0, i as int).push(k.bytes@[i as int]));
        i = i + 1;
    }
    assert(k.bytes@.subrange(0, 32) =~= k.bytes@);
}

fn key_at(b: &Vec<u8>, off: usize) -> (r: Key)
    requires
        off + 32 <= b@.len(),
    ensures
        r.bytes@ == b@.subrange(off as int, off + 32),
{
    let _len = b.len();
    let mut bytes: [u8; 32] = [0u8; 32];
    let mut i: usize = 0;
    while i < 32
        invariant
            0 <= i <= 32,
            off + 32 <= b@.len() <= usize::MAX,
            bytes@.len() == 32,
            forall|j: int| 0 <= j < i ==> bytes@[j] == b@[off + j],
        decreases 32 - i,
    {
        bytes[i] = b[off + i];
        i = i + 1;
    }
    assert(bytes@ =~= b@.subrange(off as int, off + 32));
    Key { bytes }
}

fn entity_to_tag(e: EntityType) -> (r: u8)
    ensures
        r == entity_tag(e),
{
    match e {
        EntityType::Human => 0,
        EntityType::Agent => 1,
    }
}

fn tag_to_entity(t: u8) -> (r: EntityType)
    ensures
        r == entity_of_tag(t),
{
    if t == 0 {
        EntityType::Human
    } else {
        EntityType::Agent
    }
}

fn status_to_tag(s: LoanStatus) -> (r: u8)
    ensures
        r == status_tag(s),
{
    match s {
        LoanStatus::Requested => 0,
        LoanStatus::Approved => 1,
        LoanStatus::Rejected => 2,
        LoanStatus::Funded => 3,
        LoanStatus::Repaid => 4,
    }
}

fn tag_to_status(t: u8) -> (r: LoanStatus)
    ensures
        r == status_of_tag(t),
{
    if t == 0 {
        LoanStatus::Requested
    } else if t == 1 {
        LoanStatus::Approved
    } else if t == 2 {
        LoanStatus::Rejected
    } else if t == 3 {
        LoanStatus::Funded
    } else {
        LoanStatus::Repaid
    }
}

fn bits_of_i64(v: i64) -> (r: u64)
    ensures
        r as nat == i64_bits(v),
{
    if v >= 0 {
        v as u64
    } else {
        u64::MAX - ((-(v + 1)) as u64)
    }
}

fn i64_from_bits(n: u64) -> (r: i64)
    ensures
        r == i64_of_bits(n as nat),
{
    if n < 0x8000_0000_0000_0000 {
        n as i64
    } else {
        -((u64::MAX - n) as i64) - 1
    }
}

fn check_header(b: &Vec<u8>, prefix: [u8; 8], size: usize) -> (r: Option<LendingError>)
    ensures
        r == header_error(b@, prefix@, size as nat),
{
    let mut zero = true;
    let mut i: usize = 0;
    while i < b.len()
        invariant
            0 <= i <= b@.len(),
            zero == (forall|j: int| 0 <= j < i ==> b@[j] == 0),
        decreases b@.len() - i,
    {
        if b[i] != 0 {
            zero = false;
        }
        i = i + 1;
    }
    if zero {
        return Some(LendingError::UninitializedAccount);
    }
    assert(!all_zero(b@));
    if b.len() < 8 {
        return Some(LendingError::TruncatedBuffer);
    }
    let mut k: usize = 0;
    while k < 8
        invariant
            0 <= k <= 8,
            8 <= b@.len(),
            prefix@.len() == 8,
            !all_zero(b@),
            forall|j: int| 0 <= j < k ==> b@[j] == prefix@[j],
        decreases 8 - k,
    {
        if b[k] != prefix[k] {
            assert(b@.subrange(0, 8)[k as int] != prefix@[k as int]);
            return Some(LendingError::SchemaMismatch);
        }
        k = k + 1;
    }
    assert(b@.subrange(0, 8) =~= prefix@);
    if b.len() < size {
        return Some(LendingError::TruncatedBuffer);
    }
    None
}

/// Encodes an attestation: its kind prefix, then each field at its fixed width.
pub fn encode_attestation(a: &Attestation) -> (r: Vec<u8>)
    ensures
        r@ == attestation_bytes(a@),
        r@.len() == ATTESTATION_SIZE,
{
    let mut out: Vec<u8> = Vec::new();
    push_prefix(&mut out, attestation_prefix());
    out.push(entity_to_tag(a.entity_type));
    push_key(&mut out, &a.owner);
    push_le(&mut out, a.credit_score as u64, 2);
    push_le(&mut out, bits_of_i64(a.created_at), 8);
    push_le(&mut out, bits_of_i64(a.expires_at), 8);
    out.push(a.framework_type);
    out.push(a.bump);
    proof {
        lemma_le_bytes_len(a.credit_score as nat, 2);
        lemma_le_bytes_len(i64_bits(a.created_at), 8);
        lemma_le_bytes_len(i64_bits(a.expires_at), 8);
    }
    assert(out@ =~= attestation_bytes(a@));
    out
}

/// Encodes a loan: its kind prefix, then each field at its fixed width.
pub fn encode_loan(l: &LoanAccount) -> (r: Vec<u8>)
    ensures
        r@ == loan_bytes(l@),
        r@.len() == LOAN_SIZE,
{
    let mut out: Vec<u8> = Vec::new();
    push_prefix(&mut out, loan_prefix());
    push_key(&mut out, &l.borrower);
    push_le(&mut out, l.amount, 8);
    push_le(&mut out, l.credit_score as u64, 2);
    out.push(status_to_tag(l.status));
    out.push(entity_to_tag(l.entity_type));
    out.push(l.bump);
    push_le(&mut out, l.loan_id, 8);
    proof {
        lemma_le_bytes_len(l.amount as nat, 8);
        lemma_le_bytes_len(l.credit_score as nat, 2);
        lemma_le_bytes_len(l.loan_id as nat, 8);
    }
    assert(out@ =~= loan_bytes(l@));
    out
}

/// Decodes a buffer that should hold an attestation.
pub fn decode_attestation(b: &Vec<u8>) -> (r: Result<Attestation, LendingError>)
    ensures
        match r {
            Ok(a) => attestation_from_bytes(b@) == Ok::<AttestationView, LendingError>(a@),
            Err(e) => attestation_from_bytes(b@) == Err::<AttestationView, LendingError>(e),
        },
{
    match check_header(b, attestation_prefix(), ATTESTATION_SIZE) {
        Some(e) => {
            return Err(e);
        },
        None => {},
    }
    if b[8] > 1 {
        return Err(LendingError::SchemaMismatch);
    }
    proof {
        lemma_pow256_facts();
        lemma_le_value_bound(b@.subrange(41, 43));
        lemma_le_value_bound(b@.subrange(43, 51));
        lemma_le_value_bound(b@.subrange(51, 59));
    }
    let a = Attestation {
        entity_type: tag_to_entity(b[8]),
        owner: key_at(b, 9),
        credit_score: read_le(b, 41, 2) as u16,
        created_at: i64_from_bits(read_le(b, 43, 8)),
        expires_at: i64_from_bits(read_le(b, 51, 8)),
        framework_type: b[59],
        bump: b[60],
    };
    Ok(a)
}

/// Decodes a buffer that should hold a loan.
pub fn decode_loan(b: &Vec<u8>) -> (r: Result<LoanAccount, LendingError>)
    ensures
        match r {
            Ok(l) => loan_from_bytes(b@) == Ok::<LoanView, LendingError>(l@),
            Err(e) => loan_from_bytes(b@) == Err::<LoanView, LendingError>(e),
        },
{
    match check_header(b, loan_prefix(), LOAN_SIZE) {
        Some(e) => {
            return Err(e);
        },
        None => {},
    }
    if b[50] > 4 || b[51] > 1 {
        return Err(LendingError::SchemaMismatch);
    }
    proof {
        lemma_pow256_facts();
        lemma_le_value_bound(b@.subrange(40, 48));
        lemma_le_value_bound(b@.subrange(48, 50));
        lemma_le_value_bound(b@.subrange(53, 61));
    }
    let l = LoanAccount {
        borrower: key_at(b, 8),
        amount: read_le(b, 40, 8),
        credit_score: read_le(b, 48, 2) as u16,
        status: tag_to_status(b[50]),
        entity_type: tag_to_entity(b[51]),
        bump: b[52],
        loan_id: read_le(b, 53, 8),
    };
    Ok(l)
}

/// Decoding the encoding of an attestation gives the attestation back.
pub proof fn attestation_round_trip(a: AttestationView)
    requires
        a.owner.len() == 32,
    ensures
        attestation_from_bytes(attestation_bytes(a)) == Ok::<AttestationView, LendingError>(a),
        attestation_bytes(a).len() == ATTESTATION_SIZE,
{
    let s = attestation_bytes(a);
    lemma_pow256_facts();
    lemma_le_round_trip(a.credit_score as nat, 2);
    lemma_le_round_trip(i64_bits(a.created_at), 8);
    lemma_le_round_trip(i64_bits(a.expires_at), 8);
    lemma_i64_bits_round_trip(a.created_at);
    lemma_i64_bits_round_trip(a.expires_at);
    assert(s.len() == 61);
    assert(s[0] == 152);
    assert(!all_zero(s));
    assert(s.subrange(0, 8) =~= attestation_discriminator());
    assert(s.subrange(9, 41) =~= a.owner);
    assert(s.subrange(41, 43) =~= le_bytes(a.credit_score as nat, 2));
    assert(s.subrange(43, 51) =~= le_bytes(i64_bits(a.created_at), 8));
    assert(s.subrange(51, 59) =~= le_bytes(i64_bits(a.expires_at), 8));
    let d = attestation_from_bytes(s).unwrap();
    assert(d.entity_type == a.entity_type);
    assert(d =~= a);
}

/// Decoding the encoding of a loan gives the loan back.
pub proof fn loan_round_trip(l: LoanView)
    requires
        l.borrower.len() == 32,
    ensures
        loan_from_bytes(loan_bytes(l)) == Ok::<LoanView, LendingError>(l),
        loan_bytes(l).len() == LOAN_SIZE,
{
    let s = loan_bytes(l);
    lemma_pow256_facts();
    lemma_le_round_trip(l.amount as nat, 8);
    lemma_le_round_trip(l.credit_score as nat, 2);
    lemma_le_round_trip(l.loan_id as nat, 8);
    assert(s.len() == 61);
    assert(s[0] == 223);
    assert(!all_zero(s));
    assert(s.subrange(0, 8) =~= loan_discriminator());
    assert(s.subrange(8, 40) =~= l.borrower);
    assert(s.subrange(40, 48) =~= le_bytes(l.amount as nat, 8));
    assert(s.subrange(48, 50) =~= le_bytes(l.credit_score as nat, 2));
    assert(s.subrange(53, 61) =~= le_bytes(l.loan_id as nat, 8));
    let d = loan_from_bytes(s).unwrap();
    assert(d.status == l.status);
    assert(d.entity_type == l.entity_type);
    assert(d =~= l);
}

fn is_all_zero(b: &Vec<u8>) -> (r: bool)
    ensures
        r == all_zero(b@),
{
    let mut i: usize = 0;
    while i < b.len()
        invariant
            0 <= i <= b@.len(),
            forall|j: int| 0 <= j < i ==> b@[j] == 0,
        decreases b@.len() - i,
    {
        if b[i] != 0 {
            return false;
        }
        i = i + 1;
    }
    true
}

fn has_prefix(b: &Vec<u8>, prefix: [u8; 8]) -> (r: bool)
    requires
        b@.len() >= 8,
    ensures
        r == (b@.subrange(0, 8) == prefix@),
{
    let mut k: usize = 0;
    while k < 8
        invariant
            0 <= k <= 8,
            8 <= b@.len(),
            prefix@.len() == 8,
            forall|j: int| 0 <= j < k ==> b@[j] == prefix@[j],
        decreases 8 - k,
    {
        if b[k] != prefix[k] {
            assert(b@.subrange(0, 8)[k as int] != prefix@[k as int]);
            return false;
        }
        k = k + 1;
    }
    assert(b@.subrange(0, 8) =~= prefix@);
    true
}

/// Classifies a buffer by its kind prefix and decodes it: an all-zero buffer is
/// uninitialised, one with the prefix of an attestation or of a loan decodes as
/// that kind, and any other prefix is a schema mismatch.
pub fn decode_record(b: &Vec<u8>) -> (r: Result<Record, LendingError>)
    ensures
        all_zero(b@) ==> r == Ok::<Record, LendingError>(Record::Uninitialized),
        !all_zero(b@) && b@.len() < 8 ==> r == Err::<Record, LendingError>(LendingError::TruncatedBuffer),
        !all_zero(b@) && b@.len() >= 8 && b@.subrange(0, 8) == attestation_discriminator() ==> match r {
            Ok(Record::Attestation(a)) => attestation_from_bytes(b@) == Ok::<AttestationView, LendingError>(a@),
            Err(e) => attestation_from_bytes(b@) == Err::<AttestationView, LendingError>(e),
            _ => false,
        },
        !all_zero(b@) && b@.len() >= 8 && b@.subrange(0, 8) == loan_discriminator() ==> match r {
            Ok(Record::Loan(l)) => loan_from_bytes(b@) == Ok::<LoanView, LendingError>(l@),
            Err(e) => loan_from_bytes(b@) == Err::<LoanView, LendingError>(e),
            _ => false,
        },
        !all_zero(b@) && b@.len() >= 8 && b@.subrange(0, 8) != attestation_discriminator()
            && b@.subrange(0, 8) != loan_discriminator() ==> r == Err::<Record, LendingError>(LendingError::SchemaMismatch),
{
    if is_all_zero(b) {
        return Ok(Record::Uninitialized);
    }
    if b.len() < 8 {
        return Err(LendingError::TruncatedBuffer);
    }
    if has_prefix(b, attestation_prefix()) {
        match decode_attestation(b) {
            Ok(a) => Ok(Record::Attestation(a)),
            Err(e) => Err(e),
        }
    } else if has_prefix(b, loan_prefix()) {
        match decode_loan(b) {
            Ok(l) => Ok(Record::Loan(l)),
            Err(e) => Err(e),
        }
    } else {
        Err(LendingError::SchemaMismatch)
    }
}

} // verus!
