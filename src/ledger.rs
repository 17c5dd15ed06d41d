use crate::address::{create_program_address, on_curve, pda_digest, seed_list, seeds_within_limits, Address};
use crate::error::ProvisionError;
use vstd::prelude::*;

verus! {

/// One account held by the ledger.
#[derive(Debug)]
pub struct AccountRecord {
    pub address: Address,
    pub lamports: u64,
    pub owner: Address,
    pub data: Vec<u8>,
}

/// An account as plain values.
pub struct AccountView {
    pub address: Seq<u8>,
    pub lamports: u64,
    pub owner: Seq<u8>,
    pub data: Seq<u8>,
}

impl View for AccountRecord {
    type V = AccountView;

    open spec fn view(&self) -> AccountView {
        AccountView {
            address: self.address@,
            lamports: self.lamports,
            owner: self.owner@,
            data: self.data@,
        }
    }
}

/// A request to the ledger to create a program-owned account, authorised by
/// the seeds that regenerate its address.
#[derive(Debug)]
pub struct CreateRequest {
    pub funder: Address,
    pub target: Address,
    pub lamports: u64,
    pub space: usize,
    pub owner: Address,
    pub signer_seeds: Vec<Vec<u8>>,
}

/// A creation request as plain values.
pub struct RequestView {
    pub funder: Seq<u8>,
    pub target: Seq<u8>,
    pub lamports: u64,
    pub space: nat,
    pub owner: Seq<u8>,
    pub signer_seeds: Seq<Seq<u8>>,
}

impl View for CreateRequest {
    type V = RequestView;

    open spec fn view(&self) -> RequestView {
        RequestView {
            funder: self.funder@,
            target: self.target@,
            lamports: self.lamports,
            space: self.space as nat,
            owner: self.owner@,
            signer_seeds: seed_list(self.signer_seeds@),
        }
    }
}

/// An in-memory model of the account set, for the proofs and tests of the
/// pipeline. How it carries out a creation request (refusal order: authority,
/// then a taken address, then funds) is this library's model of the ledger
/// service, not checked against that service.
pub struct Ledger {
    pub accounts: Vec<AccountRecord>,
}

impl View for Ledger {
    type V = Seq<AccountView>;

    open spec fn view(&self) -> Seq<AccountView> {
        self.accounts@.map_values(|a: AccountRecord| a@)
    }
}

/// No two accounts share an address.
pub open spec fn unique_addresses(s: Seq<AccountView>) -> bool {
    forall|i: int, j: int|
        0 <= i < s.len() && 0 <= j < s.len() && i != j ==> #[trigger] s[i].address != #[trigger] s[j].address
}

/// Whether an account lives at `a`.
pub open spec fn has_account(s: Seq<AccountView>, a: Seq<u8>) -> bool {
    exists|i: int| 0 <= i < s.len() && #[trigger] s[i].address == a
}

/// The position of the account at `a`.
pub open spec fn index_of(s: Seq<AccountView>, a: Seq<u8>) -> int {
    choose|i: int| 0 <= i < s.len() && #[trigger] s[i].address == a
}

/// Whether an account at `a` holds at least `lamports`.
pub open spec fn can_fund(s: Seq<AccountView>, a: Seq<u8>, lamports: u64) -> bool {
    has_account(s, a) && s[index_of(s, a)].lamports >= lamports
}

/// Whether the signer seeds regenerate the target under the calling program.
pub open spec fn authorized(caller: Seq<u8>, q: RequestView) -> bool {
    &&& seeds_within_limits(q.signer_seeds)
    &&& !on_curve(pda_digest(q.signer_seeds, caller))
    &&& pda_digest(q.signer_seeds, caller) == q.target
}

/// `n` zero bytes.
pub open spec fn zeros(n: nat) -> Seq<u8> {
    Seq::new(n, |i: int| 0u8)
}

/// The account that a request creates.
pub open spec fn new_account(q: RequestView) -> AccountView {
    AccountView { address: q.target, lamports: q.lamports, owner: q.owner, data: zeros(q.space) }
}

/// The ledger after a creation request from `caller`, or the error that
/// refuses it: authority first, then a taken address, then the funds.
pub open spec fn created(s: Seq<AccountView>, caller: Seq<u8>, q: RequestView) -> Result<
    Seq<AccountView>,
    ProvisionError,
> {
    if !authorized(caller, q) {
        Err(ProvisionError::AuthorityMismatch)
    } else if has_account(s, q.target) {
        Err(ProvisionError::AccountAlreadyExists)
    } else if !can_fund(s, q.funder, q.lamports) {
        Err(ProvisionError::InsufficientFunds)
    } else {
        let f = index_of(s, q.funder);
        let debited = AccountView { lamports: (s[f].lamports - q.lamports) as u64, ..s[f] };
        Ok(s.update(f, debited).push(new_account(q)))
    }
}

impl Ledger {
    /// Well-formed: no two accounts share an address.
    pub open spec fn wf(&self) -> bool {
        unique_addresses(self@)
    }

    /// An empty ledger.
    pub fn new() -> (r: Ledger)
        ensures
            r.wf(),
            r@ == Seq::<AccountView>::empty(),
    {
        let r = Ledger { accounts: Vec::new() };
        assert(r@ =~= Seq::<AccountView>::empty());
        r
    }

    /// Position of the account at `address`, if there is one.
    pub fn find(&self, address: &Address) -> (r: Option<usize>)
        ensures
            r is Some <==> has_account(self@, address@),
            r is Some ==> r->Some_0 < self@.len() && self@[r->Some_0 as int].address == address@,
    {
        let mut i: usize = 0;
        while i < self.accounts.len()
            invariant
                i <= self.accounts.len(),
                forall|k: int| 0 <= k < i ==> #[trigger] self@[k].address != address@,
            decreases self.accounts.len() - i,
        {
            if self.accounts[i].address.equals(address) {
                assert(self@[i as int].address == address@);
                return Some(i);
            }
            i = i + 1;
        }
        None
    }

    /// Opens an account held by a key, with a starting balance and no data.
    /// Fails, changing nothing, when `address` is taken.
    pub fn open_account(&mut self, address: &Address, lamports: u64, owner: &Address) -> (r: bool)
        requires
            old(self).wf(),
        ensures
            final(self).wf(),
            r == !has_account(old(self)@, address@),
            r ==> final(self)@ == old(self)@.push(
                (AccountView { address: address@, lamports, owner: owner@, data: Seq::empty() }),
            ),
            !r ==> final(self)@ == old(self)@,
    {
        if self.find(address).is_some() {
            return false;
        }
        let ghost s = self@;
        self.accounts.push(AccountRecord { address: *address, lamports, owner: *owner, data: Vec::new() });
        assert(self@ =~= s.push(self@.last()));
        true
    }

    /// Balance of the account at `address`, if there is one.
    pub fn balance(&self, address: &Address) -> (r: Option<u64>)
        requires
            self.wf(),
        ensures
            r is Some <==> has_account(self@, address@),
            r is Some ==> r->Some_0 == self@[index_of(self@, address@)].lamports,
    {
        match self.find(address) {
            Some(i) => Some(self.accounts[i].lamports),
            None => None,
        }
    }

    /// Owner of the account at `address`, if there is one.
    pub fn owner_of(&self, address: &Address) -> (r: Option<Address>)
        requires
            self.wf(),
        ensures
            r is Some <==> has_account(self@, address@),
            r is Some ==> r->Some_0@ == self@[index_of(self@, address@)].owner,
    {
        match self.find(address) {
            Some(i) => Some(self.accounts[i].owner),
            None => None,
        }
    }

    /// A copy of the storage of the account at `address`, if there is one.
    pub fn data_of(&self, address: &Address) -> (r: Option<Vec<u8>>)
        requires
            self.wf(),
        ensures
            r is Some <==> has_account(self@, address@),
            r is Some ==> r->Some_0@ == self@[index_of(self@, address@)].data,
    {
        match self.find(address) {
            Some(i) => Some(copy_bytes(&self.accounts[i].data)),
            None => None,
        }
    }
}

impl Ledger {
    /// Carries out a creation request from the program `caller`: moves
    /// `lamports` from the funder to a new account at the target, owned by
    /// `owner`, with `space` zero bytes of storage. Refused, changing nothing,
    /// when the signer seeds do not regenerate the target under `caller`,
    /// when the target is taken, or when the funder cannot pay.
    pub fn create_account(&mut self, caller: &Address, req: &CreateRequest) -> (r: Result<(), ProvisionError>)
        requires
            old(self).wf(),
        ensures
            final(self).wf(),
            match created(old(self)@, caller@, req@) {
                Ok(s) => r is Ok && final(self)@ == s,
                Err(e) => r == Err::<(), ProvisionError>(e) && final(self)@ == old(self)@,
            },
    {
        match create_program_address(&req.signer_seeds, caller) {
            Ok(a) => {
                if !a.equals(&req.target) {
                    return Err(ProvisionError::AuthorityMismatch);
                }
            },
            Err(_) => {
                return Err(ProvisionError::AuthorityMismatch);
            },
        }
        if self.find(&req.target).is_some() {
            return Err(ProvisionError::AccountAlreadyExists);
        }
        let f = match self.find(&req.funder) {
            Some(f) => f,
            None => {
                return Err(ProvisionError::InsufficientFunds);
            },
        };
        proof {
            assert(self@[f as int].address == req.funder@);
            assert(index_of(self@, req.funder@) == f as int);
        }
        if self.accounts[f].lamports < req.lamports {
            return Err(ProvisionError::InsufficientFunds);
        }
        let ghost s = self@;
        let debited = AccountRecord {
            address: self.accounts[f].address,
            lamports: self.accounts[f].lamports - req.lamports,
            owner: self.accounts[f].owner,
            data: copy_bytes(&self.accounts[f].data),
        };
        self.accounts.set(f, debited);
        let created = AccountRecord {
            address: req.target,
            lamports: req.lamports,
            owner: req.owner,
            data: zero_bytes(req.space),
        };
        self.accounts.push(created);
        assert(self@ =~= s.update(f as int, self@[f as int]).push(new_account(req@)));
        Ok(())
    }
}

impl Ledger {
    /// A copy of the whole ledger.
    pub fn snapshot(&self) -> (r: Ledger)
        ensures
            r@ == self@,
    {
        let mut accounts: Vec<AccountRecord> = Vec::new();
        let mut i: usize = 0;
        while i < self.accounts.len()
            invariant
                i <= self.accounts.len(),
                accounts@.len() == i,
                forall|k: int| 0 <= k < i ==> #[trigger] accounts@[k]@ == self.accounts@[k]@,
            decreases self.accounts.len() - i,
        {
            let a = &self.accounts[i];
            accounts.push(
                AccountRecord {
                    address: a.address,
                    lamports: a.lamports,
                    owner: a.owner,
                    data: copy_bytes(&a.data),
                },
            );
            i = i + 1;
        }
        let r = Ledger { accounts };
        assert(r@ =~= self@);
        r
    }
}

/// `n` zero bytes.
pub fn zero_bytes(n: usize) -> (r: Vec<u8>)
    ensures
        r@ == zeros(n as nat),
{
    let mut r: Vec<u8> = Vec::new();
    let mut i: usize = 0;
    while i < n
        invariant
            i <= n,
            r@ == zeros(i as nat),
        decreases n - i,
    {
        r.push(0u8);
        i = i + 1;
        assert(r@ =~= zeros(i as nat));
    }
    r
}

/// A copy of a byte string.
pub fn copy_bytes(b: &Vec<u8>) -> (r: Vec<u8>)
    ensures
        r@ == b@,
{
    let mut r: Vec<u8> = Vec::new();
    let mut i: usize = 0;
    while i < b.len()
        invariant
            i <= b.len(),
            r@ == b@.subrange(0, i as int),
        decreases b.len() - i,
    {
        r.push(b[i]);
        i = i + 1;
    }
    assert(r@ =~= b@);
    r
}

} // verus!
