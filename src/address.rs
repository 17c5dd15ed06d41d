use crate::error::ProvisionError;
use solana_program::pubkey::{Pubkey, PubkeyError};
use vstd::prelude::*;

verus! {

/// Width in bytes of an account address.
pub const ADDRESS_LEN: usize = 32;

/// Largest number of seeds, bump included, that a derivation takes.
pub const MAX_SEEDS: usize = 16;

/// Largest length in bytes of one seed.
pub const MAX_SEED_LEN: usize = 32;

/// A fixed-width account address (also a program identifier).
#[derive(Clone, Copy, Debug, PartialEq, Eq)]
pub struct Address {
    pub bytes: [u8; 32],
}

impl View for Address {
    type V = Seq<u8>;

    open spec fn view(&self) -> Seq<u8> {
        self.bytes@
    }
}

/// Why a single derivation attempt produced no address.
#[derive(Clone, Copy, Debug, PartialEq, Eq, Structural)]
pub enum SeedError {
    /// Too many seeds, or one seed too long.
    MaxSeedLengthExceeded,
    /// The digest lies on the signing curve.
    InvalidSeeds,
    /// The owner ends in the derivation marker.
    IllegalOwner,
}

/// The digest that address derivation computes from a seed list (bump
/// included) and a program identifier.
pub uninterp spec fn pda_digest(seeds: Seq<Seq<u8>>, program_id: Seq<u8>) -> Seq<u8>;

/// Whether the bytes are the encoding of a point on the signing curve.
pub uninterp spec fn on_curve(bytes: Seq<u8>) -> bool;

/// A seed list is accepted by derivation when it has at most `MAX_SEEDS`
/// seeds, none longer than `MAX_SEED_LEN`.
pub open spec fn seeds_within_limits(seeds: Seq<Seq<u8>>) -> bool {
    &&& seeds.len() <= MAX_SEEDS
    &&& forall|i: int| 0 <= i < seeds.len() ==> #[trigger] seeds[i].len() <= MAX_SEED_LEN
}

/// Relies on `Pubkey::create_program_address`: it refuses seed lists over the
/// limits, and otherwise hashes the seeds with the program identifier and
/// returns the digest exactly when `bytes_are_curve_point` rejects it.
#[verifier::external_body]
pub(crate) fn create_program_address(seeds: &Vec<Vec<u8>>, program_id: &Address) -> (r: Result<Address, SeedError>)
    ensures
        !seeds_within_limits(seed_list(seeds@)) ==> (r is Err && r->Err_0 == SeedError::MaxSeedLengthExceeded),
        seeds_within_limits(seed_list(seeds@)) ==> (r is Ok <==> !on_curve(pda_digest(seed_list(seeds@), program_id@))),
        seeds_within_limits(seed_list(seeds@)) && r is Err ==> r->Err_0 == SeedError::InvalidSeeds,
        r is Ok ==> r->Ok_0@ == pda_digest(seed_list(seeds@), program_id@),
{
    let refs: Vec<&[u8]> = seeds.iter().map(|s| s.as_slice()).collect();
    match Pubkey::create_program_address(&refs, &Pubkey::new_from_array(program_id.bytes)) {
        Ok(key) => Ok(Address { bytes: key.to_bytes() }),
        Err(PubkeyError::MaxSeedLengthExceeded) => Err(SeedError::MaxSeedLengthExceeded),
        Err(PubkeyError::InvalidSeeds) => Err(SeedError::InvalidSeeds),
        Err(PubkeyError::IllegalOwner) => Err(SeedError::IllegalOwner),
    }
}

impl Address {
    /// Byte-wise equality of two addresses.
    pub fn equals(&self, other: &Address) -> (r: bool)
        ensures
            r == (self@ == other@),
    {
        let mut i: usize = 0;
        while i < ADDRESS_LEN
            invariant
                i <= ADDRESS_LEN,
                self@.len() == ADDRESS_LEN,
                other@.len() == ADDRESS_LEN,
                forall|j: int| 0 <= j < i ==> self@[j] == other@[j],
            decreases ADDRESS_LEN - i,
        {
            if self.bytes[i] != other.bytes[i] {
                return false;
            }
            i = i + 1;
        }
        assert(self@ =~= other@);
        true
    }

    /// The address as an owned byte string.
    pub fn to_vec(&self) -> (r: Vec<u8>)
        ensures
            r@ == self@,
    {
        let mut r: Vec<u8> = Vec::new();
        let mut i: usize = 0;
        while i < ADDRESS_LEN
            invariant
                i <= ADDRESS_LEN,
                self@.len() == ADDRESS_LEN,
                r@ == self@.subrange(0, i as int),
            decreases ADDRESS_LEN - i,
        {
            r.push(self.bytes[i]);
            i = i + 1;
        }
        assert(r@ =~= self@);
        r
    }
}

/// The byte strings held by a list of seeds.
pub open spec fn seed_list(seeds: Seq<Vec<u8>>) -> Seq<Seq<u8>> {
    seeds.map_values(|s: Vec<u8>| s@)
}

/// The seed list followed by the one-byte bump seed.
pub open spec fn with_bump(seeds: Seq<Seq<u8>>, bump: u8) -> Seq<Seq<u8>> {
    seeds.push(seq![bump])
}

/// A bump is valid when the seeds with it are accepted and their digest lies
/// off the signing curve.
pub open spec fn is_valid_bump(seeds: Seq<Seq<u8>>, program_id: Seq<u8>, bump: u8) -> bool {
    &&& seeds_within_limits(with_bump(seeds, bump))
    &&& !on_curve(pda_digest(with_bump(seeds, bump), program_id))
}

/// The highest valid bump below `bound`, if there is one.
pub open spec fn highest_valid_bump(seeds: Seq<Seq<u8>>, program_id: Seq<u8>, bound: nat) -> Option<
    u8,
>
    decreases bound,
{
    if bound == 0 {
        None
    } else if is_valid_bump(seeds, program_id, (bound - 1) as u8) {
        Some((bound - 1) as u8)
    } else {
        highest_valid_bump(seeds, program_id, (bound - 1) as nat)
    }
}

/// The canonical derived address and bump of a seed list: the highest valid
/// bump in `0..=255` and the digest it gives.
pub open spec fn derivation(seeds: Seq<Seq<u8>>, program_id: Seq<u8>) -> Option<(Seq<u8>, u8)> {
    match highest_valid_bump(seeds, program_id, 256) {
        Some(b) => Some((pda_digest(with_bump(seeds, b), program_id), b)),
        None => None,
    }
}

/// What a derivation call may return: the canonical pair, or
/// `BumpSeedExhausted` exactly when there is none.
pub open spec fn derive_outcome(
    seeds: Seq<Seq<u8>>,
    program_id: Seq<u8>,
    r: Result<(Address, u8), ProvisionError>,
) -> bool {
    match r {
        Ok((a, b)) => derivation(seeds, program_id) == Some((a@, b)),
        Err(e) => e == ProvisionError::BumpSeedExhausted && derivation(seeds, program_id) is None,
    }
}

/// A copy of `seeds` with the bump seed appended.
pub(crate) fn seeds_with_bump(seeds: &Vec<Vec<u8>>, bump: u8) -> (r: Vec<Vec<u8>>)
    ensures
        seed_list(r@) == with_bump(seed_list(seeds@), bump),
{
    let mut r: Vec<Vec<u8>> = Vec::new();
    let mut i: usize = 0;
    while i < seeds.len()
        invariant
            i <= seeds.len(),
            r@.len() == i,
            forall|k: int| 0 <= k < i ==> #[trigger] r@[k]@ == seeds@[k]@,
        decreases seeds.len() - i,
    {
        let seed = &seeds[i];
        let mut s: Vec<u8> = Vec::new();
        let mut j: usize = 0;
        while j < seed.len()
            invariant
                i < seeds.len(),
                seed == seeds[i as int],
                j <= seed.len(),
                s@ == seed@.subrange(0, j as int),
            decreases seed.len() - j,
        {
            s.push(seed[j]);
            j = j + 1;
        }
        assert(s@ =~= seed@);
        r.push(s);
        i = i + 1;
    }
    let mut b: Vec<u8> = Vec::new();
    b.push(bump);
    assert(b@ =~= seq![bump]);
    r.push(b);
    assert(seed_list(r@) =~= with_bump(seed_list(seeds@), bump));
    r
}

/// Derives the canonical address of `seeds` under `program_id`: tries bumps
/// from 255 down to 0 and returns the first whose digest is off the curve.
/// Bump 0 is tried too, where Solana's own `Pubkey::try_find_program_address`
/// stops at 1; the two agree whenever some bump from 255 down to 1 is valid.
pub fn find_program_address(seeds: &Vec<Vec<u8>>, program_id: &Address) -> (r: Result<
    (Address, u8),
    ProvisionError,
>)
    ensures
        derive_outcome(seed_list(seeds@), program_id@, r),
{
    let mut bound: u16 = 256;
    while bound > 0
        invariant
            bound <= 256,
            highest_valid_bump(seed_list(seeds@), program_id@, 256) == highest_valid_bump(
                seed_list(seeds@),
                program_id@,
                bound as nat,
            ),
        decreases bound,
    {
        let bump = (bound - 1) as u8;
        let candidate = seeds_with_bump(seeds, bump);
        match create_program_address(&candidate, program_id) {
            Ok(address) => {
                return Ok((address, bump));
            },
            Err(_) => {},
        }
        bound = bound - 1;
    }
    Err(ProvisionError::BumpSeedExhausted)
}

/// The address and bump of a derivation result, viewed as byte strings.
pub open spec fn derived_view(r: Result<(Address, u8), ProvisionError>) -> Result<(Seq<u8>, u8), ProvisionError> {
    match r {
        Ok((a, b)) => Ok((a@, b)),
        Err(e) => Err(e),
    }
}

proof fn lemma_highest_valid_bump(seeds: Seq<Seq<u8>>, program_id: Seq<u8>, bound: nat)
    requires
        bound <= 256,
    ensures
        match highest_valid_bump(seeds, program_id, bound) {
            Some(b) => {
                &&& b < bound
                &&& is_valid_bump(seeds, program_id, b)
                &&& forall|c: u8| b < c < bound ==> !is_valid_bump(seeds, program_id, c)
            },
            None => forall|c: u8| c < bound ==> !is_valid_bump(seeds, program_id, c),
        },
    decreases bound,
{
    if bound > 0 {
        lemma_highest_valid_bump(seeds, program_id, (bound - 1) as nat);
    }
}

/// Derivation is deterministic: any two results of deriving the same seed
/// list under the same program identifier are the same outcome, with the
/// same address and bump.
pub proof fn lemma_derivation_deterministic(
    seeds: Seq<Seq<u8>>,
    program_id: Seq<u8>,
    r1: Result<(Address, u8), ProvisionError>,
    r2: Result<(Address, u8), ProvisionError>,
)
    requires
        derive_outcome(seeds, program_id, r1),
        derive_outcome(seeds, program_id, r2),
    ensures
        derived_view(r1) == derived_view(r2),
{
}

/// The derived bump is the canonical one: it is valid and no higher bump is;
/// when there is no derivation, no bump in `0..=255` is valid.
pub proof fn lemma_derivation_canonical(seeds: Seq<Seq<u8>>, program_id: Seq<u8>)
    ensures
        match derivation(seeds, program_id) {
            Some((a, b)) => {
                &&& is_valid_bump(seeds, program_id, b)
                &&& a == pda_digest(with_bump(seeds, b), program_id)
                &&& forall|c: u8| c > b ==> !is_valid_bump(seeds, program_id, c)
            },
            None => forall|c: u8| !is_valid_bump(seeds, program_id, c),
        },
{
    lemma_highest_valid_bump(seeds, program_id, 256);
}

/// A derived address is never a point of the signing curve.
pub proof fn lemma_derived_address_off_curve(seeds: Seq<Seq<u8>>, program_id: Seq<u8>)
    ensures
        derivation(seeds, program_id) is Some ==> !on_curve(derivation(seeds, program_id)->Some_0.0),
{
    lemma_highest_valid_bump(seeds, program_id, 256);
}

} // verus!
