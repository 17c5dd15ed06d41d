use crate::error::ProvisionError;
use vstd::prelude::*;

verus! {

/// Width in bytes of the encoded payload, and the storage an account
/// reserves for it.
pub const PAYLOAD_SIZE: usize = 4;

/// The typed state that a provisioned account stores.
#[derive(Clone, Copy, Debug, PartialEq, Eq, Structural)]
pub struct OnChainData {
    pub count: u32,
}

/// The four little-endian bytes of `v`.
pub open spec fn le_bytes(v: u32) -> Seq<u8> {
    seq![
        (v & 0xff) as u8,
        ((v >> 8u32) & 0xff) as u8,
        ((v >> 16u32) & 0xff) as u8,
        ((v >> 24u32) & 0xff) as u8,
    ]
}

/// The `u32` whose little-endian bytes are the first four of `b`.
pub open spec fn from_le_bytes(b: Seq<u8>) -> u32
    recommends
        b.len() >= 4,
{
    (b[0] as u32) | ((b[1] as u32) << 8u32) | ((b[2] as u32) << 16u32) | ((b[3] as u32) << 24u32)
}

/// The stored form of a payload: its count as a fixed-width little-endian
/// integer, and nothing else.
pub open spec fn encode_payload(p: OnChainData) -> Seq<u8> {
    le_bytes(p.count)
}

/// The payload that a storage region holds, if it holds exactly one.
pub open spec fn decode_payload(b: Seq<u8>) -> Option<OnChainData> {
    if b.len() == PAYLOAD_SIZE {
        Some(OnChainData { count: from_le_bytes(b) })
    } else {
        None
    }
}

/// Relies on `BorshSerialize::serialize` for `u32`, which hands the four
/// little-endian bytes to `write_all`: on a byte slice that overwrites its
/// front, and fails when fewer than four bytes are there.
#[verifier::external_body]
fn serialize_u32(value: u32, data: &mut Vec<u8>) -> (ok: bool)
    ensures
        final(data)@.len() == old(data)@.len(),
        ok == (old(data)@.len() >= 4),
        ok ==> final(data)@ == le_bytes(value) + old(data)@.subrange(4, old(data)@.len() as int),
{
    let mut writer: &mut [u8] = data.as_mut_slice();
    borsh::BorshSerialize::serialize(&value, &mut writer).is_ok()
}

/// Relies on `borsh::from_slice` for `u32`: it reads four little-endian
/// bytes and fails unless they are the whole input.
#[verifier::external_body]
fn deserialize_u32(data: &[u8]) -> (r: Option<u32>)
    ensures
        r is Some <==> data@.len() == 4,
        r is Some ==> r->Some_0 == from_le_bytes(data@),
{
    borsh::from_slice::<u32>(data).ok()
}

/// Writes `payload` at the front of `data`. Fails with
/// `SerializationFailure` when `data` is shorter than the encoded payload.
pub fn write_payload(data: &mut Vec<u8>, payload: &OnChainData) -> (r: Result<(), ProvisionError>)
    ensures
        final(data)@.len() == old(data)@.len(),
        r is Ok <==> old(data)@.len() >= PAYLOAD_SIZE,
        r is Err ==> r->Err_0 == ProvisionError::SerializationFailure,
        r is Ok ==> final(data)@ == encode_payload(*payload) + old(data)@.subrange(
            PAYLOAD_SIZE as int,
            old(data)@.len() as int,
        ),
{
    if serialize_u32(payload.count, data) {
        Ok(())
    } else {
        Err(ProvisionError::SerializationFailure)
    }
}

/// Reads the payload back from a storage region that holds exactly one.
pub fn read_payload(data: &Vec<u8>) -> (r: Option<OnChainData>)
    ensures
        r == decode_payload(data@),
{
    match deserialize_u32(data.as_slice()) {
        Some(count) => Some(OnChainData { count }),
        None => None,
    }
}

/// Decoding the stored form of a payload gives the payload back.
pub proof fn lemma_payload_round_trip(p: OnChainData)
    ensures
        decode_payload(encode_payload(p)) == Some(p),
{
    let v = p.count;
    assert(((v & 0xff) as u8 as u32) | ((((v >> 8u32) & 0xff) as u8 as u32) << 8u32) | ((((v
        >> 16u32) & 0xff) as u8 as u32) << 16u32) | ((((v >> 24u32) & 0xff) as u8 as u32) << 24u32)
        == v) by (bit_vector);
}

} // verus!
