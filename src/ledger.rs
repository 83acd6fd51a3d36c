use vstd::prelude::*;

use crate::error::LendingError;
use crate::key::Key;

verus! {

/// One account of the ledger: its address, its balance and its data buffer.
pub struct StoredAccount {
    pub address: Key,
    pub lamports: u64,
    pub data: Vec<u8>,
}

/// What the ledger holds at one address.
pub struct AccountState {
    pub lamports: u64,
    pub data: Seq<u8>,
}

/// The ledger as a map from address to account.
pub type LedgerMap = Map<Seq<u8>, AccountState>;

pub open spec fn state_of(a: StoredAccount) -> AccountState {
    AccountState { lamports: a.lamports, data: a.data@ }
}

/// No two accounts share an address.
pub open spec fn unique_addresses(s: Seq<StoredAccount>) -> bool {
    forall|i: int, j: int|
        0 <= i < s.len() && 0 <= j < s.len() && i != j ==> s[i].address.bytes@ != s[j].address.bytes@
}

pub open spec fn holds_address(s: Seq<StoredAccount>, k: Seq<u8>) -> bool {
    exists|i: int| 0 <= i < s.len() && s[i].address.bytes@ == k
}

/// The map that a sequence of accounts with distinct addresses stands for.
pub open spec fn map_of(s: Seq<StoredAccount>) -> LedgerMap {
    Map::new(
        |k: Seq<u8>| holds_address(s, k),
        |k: Seq<u8>|
            state_of(s[choose|i: int| 0 <= i < s.len() && s[i].address.bytes@ == k]),
    )
}

/// The system account that a bare balance lives in.
pub open spec fn wallet(lamports: u64) -> AccountState {
    AccountState { lamports, data: Seq::<u8>::empty() }
}

/// A zero-filled buffer of `size` bytes.
pub open spec fn zeros(size: nat) -> Seq<u8> {
    Seq::new(size, |i: int| 0u8)
}

/// Adding `lamports` to the balance at `to`; an absent account is created as a
/// wallet.
pub open spec fn credit_spec(m: LedgerMap, to: Seq<u8>, lamports: u64) -> (Result<(), LendingError>, LedgerMap) {
    if !m.contains_key(to) {
        (Ok(()), m.insert(to, wallet(lamports)))
    } else if m[to].lamports + lamports > u64::MAX {
        (Err(LendingError::ArithmeticOverflow), m)
    } else {
        (
            Ok(()),
            m.insert(
                to,
                AccountState { lamports: (m[to].lamports + lamports) as u64, data: m[to].data },
            ),
        )
    }
}

/// Creating a zero-filled buffer of `size` bytes at `address`, paid for by a
/// deposit taken from `funder`.
pub open spec fn allocate_spec(
    m: LedgerMap,
    address: Seq<u8>,
    size: nat,
    funder: Seq<u8>,
    deposit: u64,
) -> (Result<(), LendingError>, LedgerMap) {
    if m.contains_key(address) {
        (Err(LendingError::AddressAlreadyInUse), m)
    } else if !m.contains_key(funder) || m[funder].lamports < deposit {
        (Err(LendingError::InsufficientFunds), m)
    } else {
        (
            Ok(()),
            m.insert(
                funder,
                AccountState { lamports: (m[funder].lamports - deposit) as u64, data: m[funder].data },
            ).insert(address, AccountState { lamports: deposit, data: zeros(size) }),
        )
    }
}

/// Replacing the whole buffer at `address`.
pub open spec fn write_spec(m: LedgerMap, address: Seq<u8>, bytes: Seq<u8>) -> (Result<(), LendingError>, LedgerMap) {
    if !m.contains_key(address) {
        (Err(LendingError::UninitializedAccount), m)
    } else if m[address].data.len() != bytes.len() {
        (Err(LendingError::SizeMismatch), m)
    } else {
        (Ok(()), m.insert(address, AccountState { lamports: m[address].lamports, data: bytes }))
    }
}

/// Erasing the account at `address` and paying its balance to `refund_to`.
pub open spec fn reclaim_spec(m: LedgerMap, address: Seq<u8>, refund_to: Seq<u8>) -> (Result<(), LendingError>, LedgerMap) {
    if !m.contains_key(address) {
        (Err(LendingError::UninitializedAccount), m)
    } else {
        let (r, m2) = credit_spec(m.remove(address), refund_to, m[address].lamports);
        match r {
            Ok(()) => (Ok(()), m2),
            Err(e) => (Err(e), m),
        }
    }
}

proof fn lemma_lookup(s: Seq<StoredAccount>, i: int)
    requires
        unique_addresses(s),
        0 <= i < s.len(),
    ensures
        map_of(s).contains_key(s[i].address.bytes@),
        map_of(s)[s[i].address.bytes@] == state_of(s[i]),
{
    let k = s[i].address.bytes@;
    assert(holds_address(s, k));
    let j = choose|j: int| 0 <= j < s.len() && s[j].address.bytes@ == k;
    assert(j == i);
}

proof fn lemma_push(s: Seq<StoredAccount>, e: StoredAccount)
    requires
        unique_addresses(s),
        !map_of(s).contains_key(e.address.bytes@),
    ensures
        unique_addresses(s.push(e)),
        map_of(s.push(e)) == map_of(s).insert(e.address.bytes@, state_of(e)),
{
    let t = s.push(e);
    let k = e.address.bytes@;
    assert forall|i: int| 0 <= i < s.len() implies s[i].address.bytes@ != k by {
        if s[i].address.bytes@ == k {
            assert(holds_address(s, k));
        }
    }
    assert(unique_addresses(t));
    let m1 = map_of(t);
    let m2 = map_of(s).insert(k, state_of(e));
    assert forall|a: Seq<u8>| m1.contains_key(a) <==> m2.contains_key(a) by {
        if holds_address(t, a) && a != k {
            let i = choose|i: int| 0 <= i < t.len() && t[i].address.bytes@ == a;
            assert(t[i] == s[i]);
            assert(holds_address(s, a));
        }
        if holds_address(s, a) {
            let i = choose|i: int| 0 <= i < s.len() && s[i].address.bytes@ == a;
            assert(t[i] == s[i]);
        }
        if a == k {
            assert(t[s.len() as int] == e);
        }
    }
    assert forall|a: Seq<u8>| m1.contains_key(a) implies m1[a] == m2[a] by {
        if a == k {
            assert(t[s.len() as int] == e);
            lemma_lookup(t, s.len() as int);
        } else {
            let i = choose|i: int| 0 <= i < t.len() && t[i].address.bytes@ == a;
            lemma_lookup(t, i);
            assert(t[i] == s[i]);
            lemma_lookup(s, i);
        }
    }
    assert(m1 =~= m2);
}

proof fn lemma_remove(s: Seq<StoredAccount>, i: int)
    requires
        unique_addresses(s),
        0 <= i < s.len(),
    ensures
        unique_addresses(s.remove(i)),
        map_of(s.remove(i)) == map_of(s).remove(s[i].address.bytes@),
{
    let t = s.remove(i);
    let k = s[i].address.bytes@;
    assert(forall|j: int| 0 <= j < t.len() ==> t[j] == s[if j < i { j } else { j + 1 }]);
    assert(unique_addresses(t));
    let m1 = map_of(t);
    let m2 = map_of(s).remove(k);
    assert forall|a: Seq<u8>| m1.contains_key(a) <==> m2.contains_key(a) by {
        if holds_address(t, a) {
            let j = choose|j: int| 0 <= j < t.len() && t[j].address.bytes@ == a;
            let j2 = if j < i { j } else { j + 1 };
            assert(s[j2].address.bytes@ == a);
            assert(holds_address(s, a));
        }
        if holds_address(s, a) && a != k {
            let j = choose|j: int| 0 <= j < s.len() && s[j].address.bytes@ == a;
            let j2 = if j < i { j } else { j - 1 };
            assert(t[j2].address.bytes@ == a);
        }
    }
    assert forall|a: Seq<u8>| m1.contains_key(a) implies m1[a] == m2[a] by {
        let j = choose|j: int| 0 <= j < t.len() && t[j].address.bytes@ == a;
        let j2 = if j < i { j } else { j + 1 };
        lemma_lookup(t, j);
        lemma_lookup(s, j2);
    }
    assert(m1 =~= m2);
}

/// An in-memory ledger of accounts, each at a distinct address.
pub struct Ledger {
    accounts: Vec<StoredAccount>,
}

impl View for Ledger {
    type V = LedgerMap;

    closed spec fn view(&self) -> LedgerMap {
        map_of(self.accounts@)
    }
}

impl Ledger {
    pub closed spec fn wf(&self) -> bool {
        unique_addresses(self.accounts@)
    }

    /// An empty ledger.
    pub fn new() -> (r: Ledger)
        ensures
            r.wf(),
            r@ == Map::<Seq<u8>, AccountState>::empty(),
    {
        let r = Ledger { accounts: Vec::new() };
        assert(r@ =~= Map::<Seq<u8>, AccountState>::empty());
        r
    }

    fn find(&self, address: &Key) -> (r: Option<usize>)
        requires
            self.wf(),
        ensures
            match r {
                Some(i) => i < self.accounts@.len() && self.accounts@[i as int].address.bytes@
                    == address.bytes@,
                None => !self@.contains_key(address.bytes@),
            },
    {
        let mut i: usize = 0;
        while i < self.accounts.len()
            invariant
                0 <= i <= self.accounts@.len(),
                forall|j: int| 0 <= j < i ==> self.accounts@[j].address.bytes@ != address.bytes@,
            decreases self.accounts@.len() - i,
        {
            if self.accounts[i].address.same_as(address) {
                return Some(i);
            }
            i = i + 1;
        }
        None
    }

    /// Whether an account exists at `address`.
    pub fn contains(&self, address: &Key) -> (r: bool)
        requires
            self.wf(),
        ensures
            r == self@.contains_key(address.bytes@),
    {
        match self.find(address) {
            Some(i) => {
                proof {
                    lemma_lookup(self.accounts@, i as int);
                }
                true
            },
            None => false,
        }
    }

    /// The balance at `address`, 0 where there is no account.
    pub fn balance(&self, address: &Key) -> (r: u64)
        requires
            self.wf(),
        ensures
            r == (if self@.contains_key(address.bytes@) {
                self@[address.bytes@].lamports
            } else {
                0
            }),
    {
        match self.find(address) {
            Some(i) => {
                proof {
                    lemma_lookup(self.accounts@, i as int);
                }
                self.accounts[i].lamports
            },
            None => 0,
        }
    }

    /// The data buffer at `address`, if there is an account there.
    pub fn read(&self, address: &Key) -> (r: Option<&Vec<u8>>)
        requires
            self.wf(),
        ensures
            match r {
                Some(d) => self@.contains_key(address.bytes@) && d@ == self@[address.bytes@].data,
                None => !self@.contains_key(address.bytes@),
            },
    {
        match self.find(address) {
            Some(i) => {
                proof {
                    lemma_lookup(self.accounts@, i as int);
                }
                Some(&self.accounts[i].data)
            },
            None => None,
        }
    }

    /// Places an existing account, with its balance and data, at `address`.
    /// Fails with `AddressAlreadyInUse`, changing nothing, where one is there.
    pub fn load(&mut self, address: &Key, lamports: u64, data: Vec<u8>) -> (r: Result<(), LendingError>)
        requires
            old(self).wf(),
        ensures
            final(self).wf(),
            old(self)@.contains_key(address.bytes@) ==> r == Err::<(), LendingError>(LendingError::AddressAlreadyInUse)
                && final(self)@ == old(self)@,
            !old(self)@.contains_key(address.bytes@) ==> r is Ok && final(self)@ == old(self)@.insert(
                address.bytes@,
                AccountState { lamports, data: data@ },
            ),
    {
        if self.contains(address) {
            return Err(LendingError::AddressAlreadyInUse);
        }
        let e = StoredAccount { address: *address, lamports, data };
        proof {
            lemma_push(self.accounts@, e);
        }
        self.accounts.push(e);
        Ok(())
    }

    /// Adds `lamports` to the balance at `to`, creating a wallet there if needed.
    pub fn credit(&mut self, to: &Key, lamports: u64) -> (r: Result<(), LendingError>)
        requires
            old(self).wf(),
        ensures
            final(self).wf(),
            (r, final(self)@) == credit_spec(old(self)@, to.bytes@, lamports),
    {
        match self.find(to) {
            None => {
                let e = StoredAccount { address: *to, lamports, data: Vec::new() };
                proof {
                    lemma_push(self.accounts@, e);
                    assert(state_of(e) =~= wallet(lamports));
                }
                self.accounts.push(e);
                Ok(())
            },
            Some(i) => {
                proof {
                    lemma_lookup(self.accounts@, i as int);
                }
                if self.accounts[i].lamports > u64::MAX - lamports {
                    return Err(LendingError::ArithmeticOverflow);
                }
                proof {
                    lemma_remove(self.accounts@, i as int);
                }
                let mut e = self.accounts.remove(i);
                e.lamports = e.lamports + lamports;
                proof {
                    lemma_push(self.accounts@, e);
                }
                self.accounts.push(e);
                assert(self@ =~= credit_spec(old(self)@, to.bytes@, lamports).1);
                Ok(())
            },
        }
    }

    /// Creates a zero-filled buffer of `size` bytes at `address`, moving
    /// `deposit` from `funder` onto it. Fails, changing nothing, where the
    /// address is taken or the funder cannot pay.
    pub fn allocate(&mut self, address: &Key, size: usize, funder: &Key, deposit: u64) -> (r: Result<(), LendingError>)
        requires
            old(self).wf(),
        ensures
            final(self).wf(),
            (r, final(self)@) == allocate_spec(old(self)@, address.bytes@, size as nat, funder.bytes@, deposit),
    {
        if self.contains(address) {
            return Err(LendingError::AddressAlreadyInUse);
        }
        let i = match self.find(funder) {
            None => {
                return Err(LendingError::InsufficientFunds);
            },
            Some(i) => i,
        };
        proof {
            lemma_lookup(self.accounts@, i as int);
        }
        if self.accounts[i].lamports < deposit {
            return Err(LendingError::InsufficientFunds);
        }
        proof {
            lemma_remove(self.accounts@, i as int);
        }
        let mut payer = self.accounts.remove(i);
        payer.lamports = payer.lamports - deposit;
        proof {
            lemma_push(self.accounts@, payer);
        }
        self.accounts.push(payer);
        let mut data: Vec<u8> = Vec::new();
        let mut n: usize = 0;
        while n < size
            invariant
                0 <= n <= size,
                data@ == zeros(n as nat),
            decreases size - n,
        {
            data.push(0u8);
            assert(data@ =~= zeros((n + 1) as nat));
            n = n + 1;
        }
        let e = StoredAccount { address: *address, lamports: deposit, data };
        proof {
            lemma_push(self.accounts@, e);
        }
        self.accounts.push(e);
        assert(self@ =~= allocate_spec(old(self)@, address.bytes@, size as nat, funder.bytes@, deposit).1);
        Ok(())
    }

    /// Replaces the buffer at `address` by `bytes`, which must have its size.
    pub fn write(&mut self, address: &Key, bytes: Vec<u8>) -> (r: Result<(), LendingError>)
        requires
            old(self).wf(),
        ensures
            final(self).wf(),
            (r, final(self)@) == write_spec(old(self)@, address.bytes@, bytes@),
    {
        let i = match self.find(address) {
            None => {
                return Err(LendingError::UninitializedAccount);
            },
            Some(i) => i,
        };
        proof {
            lemma_lookup(self.accounts@, i as int);
        }
        if self.accounts[i].data.len() != bytes.len() {
            return Err(LendingError::SizeMismatch);
        }
        proof {
            lemma_remove(self.accounts@, i as int);
        }
        let mut e = self.accounts.remove(i);
        e.data = bytes;
        proof {
            lemma_push(self.accounts@, e);
        }
        self.accounts.push(e);
        assert(self@ =~= write_spec(old(self)@, address.bytes@, bytes@).1);
        Ok(())
    }

    /// Erases the account at `address` and pays its balance to `refund_to`.
    pub fn reclaim(&mut self, address: &Key, refund_to: &Key) -> (r: Result<(), LendingError>)
        requires
            old(self).wf(),
        ensures
            final(self).wf(),
            (r, final(self)@) == reclaim_spec(old(self)@, address.bytes@, refund_to.bytes@),
    {
        let i = match self.find(address) {
            None => {
                return Err(LendingError::UninitializedAccount);
            },
            Some(i) => i,
        };
        proof {
            lemma_lookup(self.accounts@, i as int);
        }
        let amount = self.accounts[i].lamports;
        if !address.same_as(refund_to) {
            match self.find(refund_to) {
                Some(j) => {
                    proof {
                        lemma_lookup(self.accounts@, j as int);
                    }
                    if self.accounts[j].lamports > u64::MAX - amount {
                        return Err(LendingError::ArithmeticOverflow);
                    }
                },
                None => {},
            }
        }
        proof {
            lemma_remove(self.accounts@, i as int);
        }
        let _erased = self.accounts.remove(i);
        let r = self.credit(refund_to, amount);
        assert(r is Ok);
        r
    }
}

} // verus!
