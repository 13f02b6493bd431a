//! Gravity's instructions on the wire: `tag | bft:u8 | round:u64 | consuls`.
use vstd::prelude::*;
use crate::codec::{
    all_keys_sized, flatten, keys_at, keys_view, le_bytes, le_value, lemma_flatten_keys_at,
    lemma_flatten_len, lemma_keys_at_flatten, lemma_u64_bytes_round_trip, lemma_u64_round_trip,
    read_keys, read_u64_le, write_keys, write_u64_le, PUBKEY_LEN,
};
use crate::error::GravityError;

verus! {

pub const BFT_ALLOC: usize = 1;

pub const LAST_ROUND_ALLOC: usize = 8;

/// Field widths of instruction `instruction`, whose key list holds
/// `oracles_bft` keys.
pub fn allocation_by_instruction_index(instruction: usize, oracles_bft: u8) -> (r: Result<Vec<usize>, GravityError>)
    ensures
        instruction <= 1 ==> (r matches Ok(v) && v@ == seq![BFT_ALLOC, LAST_ROUND_ALLOC, (PUBKEY_LEN * oracles_bft as usize) as usize]),
        instruction > 1 ==> r == Err::<Vec<usize>, GravityError>(GravityError::InvalidInstructionIndex),
{
    if instruction <= 1 {
        let v = vec![BFT_ALLOC, LAST_ROUND_ALLOC, PUBKEY_LEN * oracles_bft as usize];
        assert(v@ =~= seq![BFT_ALLOC, LAST_ROUND_ALLOC, (PUBKEY_LEN * oracles_bft as usize) as usize]);
        Ok(v)
    } else {
        Err(GravityError::InvalidInstructionIndex)
    }
}

pub enum GravityContractInstruction {
    InitContract { new_consuls: Vec<Vec<u8>>, current_round: u64, bft: u8 },
    UpdateConsuls { new_consuls: Vec<Vec<u8>>, current_round: u64, bft: u8 },
}

/// The fields of a Gravity instruction: tag, bft, round, consuls.
pub type GravityFields = (u8, u8, u64, Seq<Seq<u8>>);

impl GravityContractInstruction {
    pub open spec fn fields(&self) -> GravityFields {
        match self {
            GravityContractInstruction::InitContract { new_consuls, current_round, bft } => (
                0u8,
                *bft,
                *current_round,
                keys_view(new_consuls@),
            ),
            GravityContractInstruction::UpdateConsuls { new_consuls, current_round, bft } => (
                1u8,
                *bft,
                *current_round,
                keys_view(new_consuls@),
            ),
        }
    }
}

/// The bytes carry a known tag and all the fields that their bft calls for.
pub open spec fn gravity_well_formed(b: Seq<u8>) -> bool {
    b.len() >= 10 && b[0] <= 1 && b.len() >= 10 + 32 * b[1]
}

pub open spec fn decode_gravity(b: Seq<u8>) -> GravityFields {
    (b[0], b[1], le_value(b.subrange(2, 10)) as u64, keys_at(b, 10, b[1] as nat))
}

pub open spec fn encode_gravity(f: GravityFields) -> Seq<u8> {
    seq![f.0, f.1] + le_bytes(f.2 as nat, 8) + flatten(f.3)
}

/// Fields that an encoding carries faithfully.
pub open spec fn gravity_fields_valid(f: GravityFields) -> bool {
    f.0 <= 1 && f.3.len() == f.1 && all_keys_sized(f.3)
}

impl GravityContractInstruction {
    /// Decodes an instruction; `InvalidInstruction` on an unknown tag or
    /// missing bytes.
    pub fn unpack(input: &[u8]) -> (r: Result<GravityContractInstruction, GravityError>)
        ensures
            !gravity_well_formed(input@) ==> r == Err::<GravityContractInstruction, GravityError>(
                GravityError::InvalidInstruction,
            ),
            gravity_well_formed(input@) ==> (r matches Ok(x) && x.fields() == decode_gravity(
                input@,
            )),
    {
        if input.len() < 10 || input[0] > 1 || input.len() < 10 + 32 * (input[1] as usize) {
            return Err(GravityError::InvalidInstruction);
        }
        let bft = input[1];
        let current_round = read_u64_le(input, 2);
        let new_consuls = read_keys(input, 10, bft as usize);
        if input[0] == 0 {
            Ok(GravityContractInstruction::InitContract { new_consuls, current_round, bft })
        } else {
            Ok(GravityContractInstruction::UpdateConsuls { new_consuls, current_round, bft })
        }
    }

    /// Encodes the instruction.
    pub fn pack(&self) -> (r: Vec<u8>)
        ensures
            r@ == encode_gravity(self.fields()),
    {
        let mut r: Vec<u8> = Vec::new();
        let (tag, new_consuls, current_round, bft) = match self {
            GravityContractInstruction::InitContract { new_consuls, current_round, bft } => (
                0u8,
                new_consuls,
                *current_round,
                *bft,
            ),
            GravityContractInstruction::UpdateConsuls { new_consuls, current_round, bft } => (
                1u8,
                new_consuls,
                *current_round,
                *bft,
            ),
        };
        r.push(tag);
        r.push(bft);
        write_u64_le(&mut r, current_round);
        write_keys(&mut r, new_consuls);
        assert(r@ =~= encode_gravity(self.fields()));
        r
    }
}

/// Decoding an encoded Gravity instruction gives its fields back.
pub proof fn lemma_gravity_decode_encode(f: GravityFields)
    requires
        gravity_fields_valid(f),
    ensures
        gravity_well_formed(encode_gravity(f)),
        decode_gravity(encode_gravity(f)) == f,
{
    let b = encode_gravity(f);
    lemma_u64_round_trip(f.2);
    lemma_flatten_len(f.3);
    let pre = seq![f.0, f.1] + le_bytes(f.2 as nat, 8);
    assert(b =~= pre + flatten(f.3) + Seq::<u8>::empty());
    lemma_keys_at_flatten(pre, f.3, Seq::<u8>::empty());
    assert(b.subrange(2, 10) =~= le_bytes(f.2 as nat, 8));
}

/// Encoding the fields of exactly sized instruction bytes gives the bytes back.
pub proof fn lemma_gravity_encode_decode(b: Seq<u8>)
    requires
        gravity_well_formed(b),
        b.len() == 10 + 32 * b[1],
    ensures
        encode_gravity(decode_gravity(b)) == b,
{
    lemma_u64_bytes_round_trip(b.subrange(2, 10));
    lemma_flatten_keys_at(b, 10, b[1] as nat);
    assert(encode_gravity(decode_gravity(b)) =~= b);
}

} // verus!
