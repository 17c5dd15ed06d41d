use crate::address::{
    derivation, derive_outcome, find_program_address, seed_list, seeds_with_bump, with_bump,
    Address,
};
use crate::error::ProvisionError;
use crate::ledger::{created, has_account, index_of, AccountView, CreateRequest, Ledger, RequestView};
use crate::payload::{decode_payload, encode_payload, lemma_payload_round_trip, write_payload, OnChainData, PAYLOAD_SIZE};
use vstd::prelude::*;

verus! {

/// The domain literal that ends every seed set: the bytes of `"user"`.
pub open spec fn user_domain() -> Seq<u8> {
    seq![0x75u8, 0x73u8, 0x65u8, 0x72u8]
}

/// The seed set of a requester: its identifier, then the domain literal.
pub open spec fn user_seed_set(user: Seq<u8>) -> Seq<Seq<u8>> {
    seq![user, user_domain()]
}

/// The byte strings of a list of addresses.
pub open spec fn address_list(accounts: Seq<Address>) -> Seq<Seq<u8>> {
    accounts.map_values(|a: Address| a@)
}

/// The payload a new account starts with.
pub open spec fn initial_payload() -> OnChainData {
    OnChainData { count: 0 }
}

/// The seed set of the requester `user`.
pub fn user_seeds(user: &Address) -> (r: Vec<Vec<u8>>)
    ensures
        seed_list(r@) == user_seed_set(user@),
{
    let mut domain: Vec<u8> = Vec::new();
    domain.push(0x75u8);
    domain.push(0x73u8);
    domain.push(0x65u8);
    domain.push(0x72u8);
    assert(domain@ =~= user_domain());
    let mut r: Vec<Vec<u8>> = Vec::new();
    r.push(user.to_vec());
    r.push(domain);
    assert(seed_list(r@) =~= user_seed_set(user@));
    r
}

/// Derives the address and bump of the requester `user` under `program_id`.
pub fn derive_user_address(program_id: &Address, user: &Address) -> (r: Result<(Address, u8), ProvisionError>)
    ensures
        derive_outcome(user_seed_set(user@), program_id@, r),
{
    let seeds = user_seeds(user);
    find_program_address(&seeds, program_id)
}

/// The creation request that the references `accounts` (target, funder,
/// ledger service) call for, or the first check that stops it: too few
/// references, no bump, a target that is not the derived address, no fee
/// parameters.
pub open spec fn planned(program_id: Seq<u8>, accounts: Seq<Seq<u8>>, rent_minimum: Option<u64>) -> Result<
    RequestView,
    ProvisionError,
> {
    if accounts.len() < 3 {
        Err(ProvisionError::NotEnoughAccountKeys)
    } else {
        let target = accounts[0];
        let funder = accounts[1];
        match derivation(user_seed_set(funder), program_id) {
            None => Err(ProvisionError::BumpSeedExhausted),
            Some((pda, bump)) => if pda != target {
                Err(ProvisionError::AddressMismatch)
            } else {
                match rent_minimum {
                    None => Err(ProvisionError::SysvarUnavailable),
                    Some(lamports) => Ok(
                        RequestView {
                            funder,
                            target,
                            lamports,
                            space: PAYLOAD_SIZE as nat,
                            owner: program_id,
                            signer_seeds: with_bump(user_seed_set(funder), bump),
                        },
                    ),
                }
            },
        }
    }
}

/// Checks the references of a provisioning request and builds the creation
/// request for it. `rent_minimum` is the rent-exempt balance for
/// `PAYLOAD_SIZE` bytes, or `None` when the fee parameters are unreadable.
pub fn plan_creation(program_id: &Address, accounts: &Vec<Address>, rent_minimum: Option<u64>) -> (r: Result<CreateRequest, ProvisionError>)
    ensures
        match planned(program_id@, address_list(accounts@), rent_minimum) {
            Ok(q) => r is Ok && r->Ok_0@ == q,
            Err(e) => r == Err::<CreateRequest, ProvisionError>(e),
        },
{
    if accounts.len() < 3 {
        return Err(ProvisionError::NotEnoughAccountKeys);
    }
    let target = accounts[0];
    let funder = accounts[1];
    assert(address_list(accounts@)[0] == target@);
    assert(address_list(accounts@)[1] == funder@);
    let seeds = user_seeds(&funder);
    let (pda, bump) = match find_program_address(&seeds, program_id) {
        Ok(found) => found,
        Err(e) => {
            return Err(e);
        },
    };
    if !pda.equals(&target) {
        return Err(ProvisionError::AddressMismatch);
    }
    let lamports = match rent_minimum {
        Some(lamports) => lamports,
        None => {
            return Err(ProvisionError::SysvarUnavailable);
        },
    };
    let signer_seeds = seeds_with_bump(&seeds, bump);
    Ok(CreateRequest { funder, target, lamports, space: PAYLOAD_SIZE, owner: *program_id, signer_seeds })
}

/// An account after the initial payload is written at the front of its
/// storage.
pub open spec fn initialized(a: AccountView) -> AccountView {
    AccountView {
        data: encode_payload(initial_payload()) + a.data.subrange(PAYLOAD_SIZE as int, a.data.len() as int),
        ..a
    }
}

/// The ledger after creating the account of `q` and writing its payload, or
/// the error that stops either step.
pub open spec fn completed(s: Seq<AccountView>, caller: Seq<u8>, q: RequestView) -> Result<
    Seq<AccountView>,
    ProvisionError,
> {
    match created(s, caller, q) {
        Err(e) => Err(e),
        Ok(s1) => if q.space < PAYLOAD_SIZE {
            Err(ProvisionError::SerializationFailure)
        } else {
            Ok(s1.update(s1.len() - 1, initialized(s1.last())))
        },
    }
}

/// The ledger after the whole provisioning pipeline, or the error that
/// stops it.
pub open spec fn processed(
    s: Seq<AccountView>,
    program_id: Seq<u8>,
    accounts: Seq<Seq<u8>>,
    rent_minimum: Option<u64>,
) -> Result<Seq<AccountView>, ProvisionError> {
    match planned(program_id, accounts, rent_minimum) {
        Err(e) => Err(e),
        Ok(q) => completed(s, program_id, q),
    }
}

/// The ledger that the pipeline leaves: the new one on success, the old one
/// unchanged on any error.
pub open spec fn ledger_after(
    s: Seq<AccountView>,
    program_id: Seq<u8>,
    accounts: Seq<Seq<u8>>,
    rent_minimum: Option<u64>,
) -> Seq<AccountView> {
    match processed(s, program_id, accounts, rent_minimum) {
        Ok(s1) => s1,
        Err(_) => s,
    }
}

/// Carries out a creation request on behalf of `program_id` and writes the
/// initial payload into the new account, as one unit: on any error the
/// ledger is left as it was.
pub fn complete_provisioning(ledger: &mut Ledger, program_id: &Address, req: &CreateRequest) -> (r: Result<(), ProvisionError>)
    requires
        old(ledger).wf(),
    ensures
        final(ledger).wf(),
        match completed(old(ledger)@, program_id@, req@) {
            Ok(s) => r is Ok && final(ledger)@ == s,
            Err(e) => r == Err::<(), ProvisionError>(e) && final(ledger)@ == old(ledger)@,
        },
{
    let saved = ledger.snapshot();
    match ledger.create_account(program_id, req) {
        Ok(()) => {},
        Err(e) => {
            return Err(e);
        },
    }
    let ghost s1 = ledger@;
    let mut account = ledger.accounts.pop().unwrap();
    let written = write_payload(&mut account.data, &OnChainData { count: 0 });
    ledger.accounts.push(account);
    match written {
        Ok(()) => {
            assert(ledger@ =~= s1.update(s1.len() - 1, initialized(s1.last())));
            Ok(())
        },
        Err(e) => {
            *ledger = saved;
            Err(e)
        },
    }
}

/// The provisioning operation: checks the references `accounts` (target,
/// funder, ledger service) against the derived address, then creates and
/// initialises the account in `ledger`. All or nothing: on any error the
/// ledger is unchanged.
pub fn process_instruction(
    ledger: &mut Ledger,
    program_id: &Address,
    accounts: &Vec<Address>,
    rent_minimum: Option<u64>,
) -> (r: Result<(), ProvisionError>)
    requires
        old(ledger).wf(),
    ensures
        final(ledger).wf(),
        r is Ok <==> processed(old(ledger)@, program_id@, address_list(accounts@), rent_minimum) is Ok,
        r is Err ==> r->Err_0 == processed(old(ledger)@, program_id@, address_list(accounts@), rent_minimum)->Err_0,
        final(ledger)@ == ledger_after(old(ledger)@, program_id@, address_list(accounts@), rent_minimum),
{
    let req = match plan_creation(program_id, accounts, rent_minimum) {
        Ok(req) => req,
        Err(e) => {
            return Err(e);
        },
    };
    complete_provisioning(ledger, program_id, &req)
}

/// The address gate comes first: when the supplied target is not the
/// derived address, the pipeline fails with `AddressMismatch` and the ledger
/// is left as it was, so no funds move and no account appears.
pub proof fn lemma_mismatch_changes_nothing(
    s: Seq<AccountView>,
    program_id: Seq<u8>,
    accounts: Seq<Seq<u8>>,
    rent_minimum: Option<u64>,
)
    requires
        accounts.len() >= 3,
        derivation(user_seed_set(accounts[1]), program_id) is Some,
        derivation(user_seed_set(accounts[1]), program_id)->Some_0.0 != accounts[0],
    ensures
        processed(s, program_id, accounts, rent_minimum) == Err::<Seq<AccountView>, ProvisionError>(
            ProvisionError::AddressMismatch,
        ),
        ledger_after(s, program_id, accounts, rent_minimum) == s,
{
}

/// Provisioning is refused the second time: when a run succeeds, a second
/// run with the same references fails with `AccountAlreadyExists` and leaves
/// the ledger as the first run left it.
pub proof fn lemma_second_provisioning_refused(
    s: Seq<AccountView>,
    program_id: Seq<u8>,
    accounts: Seq<Seq<u8>>,
    rent_minimum: Option<u64>,
)
    requires
        processed(s, program_id, accounts, rent_minimum) is Ok,
    ensures
        processed(ledger_after(s, program_id, accounts, rent_minimum), program_id, accounts, rent_minimum)
            == Err::<Seq<AccountView>, ProvisionError>(ProvisionError::AccountAlreadyExists),
        ledger_after(ledger_after(s, program_id, accounts, rent_minimum), program_id, accounts, rent_minimum)
            == ledger_after(s, program_id, accounts, rent_minimum),
{
    let q = planned(program_id, accounts, rent_minimum)->Ok_0;
    let s1 = created(s, program_id, q)->Ok_0;
    let s2 = ledger_after(s, program_id, accounts, rent_minimum);
    assert(s2 == s1.update(s1.len() - 1, initialized(s1.last())));
    assert(s2[s2.len() - 1].address == q.target);
    assert(has_account(s2, q.target));
}

/// A successful run adds exactly one account, at the target: owned by the
/// program, holding the rent-exempt minimum, and with storage that decodes
/// to the initial payload, count zero. The funder pays that minimum.
pub proof fn lemma_provisioned_account(
    s: Seq<AccountView>,
    program_id: Seq<u8>,
    accounts: Seq<Seq<u8>>,
    rent_minimum: Option<u64>,
)
    requires
        processed(s, program_id, accounts, rent_minimum) is Ok,
    ensures
        ({
            let s2 = ledger_after(s, program_id, accounts, rent_minimum);
            let f = index_of(s, accounts[1]);
            &&& s2.len() == s.len() + 1
            &&& !has_account(s, accounts[0])
            &&& s2.last().address == accounts[0]
            &&& s2.last().owner == program_id
            &&& s2.last().lamports == rent_minimum->Some_0
            &&& decode_payload(s2.last().data) == Some(initial_payload())
            &&& 0 <= f < s.len()
            &&& s2[f].address == accounts[1]
            &&& s2[f].lamports == s[f].lamports - rent_minimum->Some_0
        }),
{
    let q = planned(program_id, accounts, rent_minimum)->Ok_0;
    let s1 = created(s, program_id, q)->Ok_0;
    let s2 = ledger_after(s, program_id, accounts, rent_minimum);
    assert(s2 == s1.update(s1.len() - 1, initialized(s1.last())));
    assert(s2.last().data =~= encode_payload(initial_payload()));
    lemma_payload_round_trip(initial_payload());
}

} // verus!
