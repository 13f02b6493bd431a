//! Nebula's instructions on the wire.
use vstd::prelude::*;
use crate::codec::{
    all_keys_sized, append_bytes, copy_range, flatten, keys_at, keys_view, le_bytes, le_value,
    lemma_flatten_keys_at, lemma_flatten_len, lemma_keys_at_flatten, lemma_u64_bytes_round_trip,
    lemma_u64_round_trip, read_keys, read_u64_le, write_keys, write_u64_le, PUBKEY_LEN,
};
use crate::error::{GravityError, NebulaError};
use crate::nebula::DataType;

verus! {

pub const BFT_ALLOC: usize = 1;

pub const DATA_TYPE_ALLOC_RANGE: usize = 1;

pub const PULSE_ID_ALLOC: usize = 8;

pub const SUB_ID_ALLOC: usize = 16;

pub const DATA_HASH_ALLOC: usize = 64;

/// Field widths of instruction `instruction`, whose key list holds
/// `oracles_bft` keys.
pub fn allocation_by_instruction_index(instruction: usize, oracles_bft: u8) -> (r: Result<Vec<usize>, NebulaError>)
    ensures
        instruction == 0 ==> (r matches Ok(v) && v@ == seq![BFT_ALLOC, DATA_TYPE_ALLOC_RANGE, PUBKEY_LEN, (PUBKEY_LEN * oracles_bft as usize) as usize]),
        instruction == 1 ==> (r matches Ok(v) && v@ == seq![BFT_ALLOC, (PUBKEY_LEN * oracles_bft as usize) as usize, PULSE_ID_ALLOC]),
        instruction == 2 ==> (r matches Ok(v) && v@ == seq![DATA_HASH_ALLOC]),
        instruction == 3 ==> (r matches Ok(v) && v@ == seq![DATA_HASH_ALLOC, DATA_TYPE_ALLOC_RANGE, PULSE_ID_ALLOC, SUB_ID_ALLOC]),
        instruction == 4 ==> (r matches Ok(v) && v@ == seq![PUBKEY_LEN, 1usize, 8usize, SUB_ID_ALLOC]),
        instruction == 5 ==> (r matches Ok(v) && v@ == seq![SUB_ID_ALLOC]),
        instruction > 5 ==> r == Err::<Vec<usize>, NebulaError>(NebulaError::InvalidInstructionIndex),
{
    let v = match instruction {
        0 => vec![BFT_ALLOC, DATA_TYPE_ALLOC_RANGE, PUBKEY_LEN, PUBKEY_LEN * oracles_bft as usize],
        1 => vec![BFT_ALLOC, PUBKEY_LEN * oracles_bft as usize, PULSE_ID_ALLOC],
        2 => vec![DATA_HASH_ALLOC],
        3 => vec![DATA_HASH_ALLOC, DATA_TYPE_ALLOC_RANGE, PULSE_ID_ALLOC, SUB_ID_ALLOC],
        4 => vec![PUBKEY_LEN, 1, 8, SUB_ID_ALLOC],
        5 => vec![SUB_ID_ALLOC],
        _ => {
            return Err(NebulaError::InvalidInstructionIndex);
        },
    };
    assert(instruction == 0 ==> v@ =~= seq![BFT_ALLOC, DATA_TYPE_ALLOC_RANGE, PUBKEY_LEN, (PUBKEY_LEN * oracles_bft as usize) as usize]);
    assert(instruction == 1 ==> v@ =~= seq![BFT_ALLOC, (PUBKEY_LEN * oracles_bft as usize) as usize, PULSE_ID_ALLOC]);
    assert(instruction == 2 ==> v@ =~= seq![DATA_HASH_ALLOC]);
    assert(instruction == 3 ==> v@ =~= seq![DATA_HASH_ALLOC, DATA_TYPE_ALLOC_RANGE, PULSE_ID_ALLOC, SUB_ID_ALLOC]);
    assert(instruction == 4 ==> v@ =~= seq![PUBKEY_LEN, 1usize, 8usize, SUB_ID_ALLOC]);
    assert(instruction == 5 ==> v@ =~= seq![SUB_ID_ALLOC]);
    Ok(v)
}

pub enum NebulaContractInstruction {
    InitContract {
        nebula_data_type: DataType,
        gravity_contract_program_id: Vec<u8>,
        initial_oracles: Vec<Vec<u8>>,
        oracles_bft: u8,
    },
    UpdateOracles { new_oracles: Vec<Vec<u8>>, new_round: u64, oracles_bft: u8 },
    SendHashValue { data_hash: Vec<u8> },
    SendValueToSubs {
        data_value: Vec<u8>,
        data_type: DataType,
        pulse_id: u64,
        subscription_id: Vec<u8>,
    },
    Subscribe { address: Vec<u8>, min_confirmations: u8, reward: u64, subscription_id: Vec<u8> },
}

/// The fields of a Nebula instruction, as mathematical values.
pub enum NebulaFields {
    Init { bft: u8, data_type: DataType, gravity: Seq<u8>, oracles: Seq<Seq<u8>> },
    UpdateOracles { bft: u8, oracles: Seq<Seq<u8>>, round: u64 },
    SendHash { hash: Seq<u8> },
    SendValue { value: Seq<u8>, data_type: DataType, pulse_id: u64, sub_id: Seq<u8> },
    Subscribe { address: Seq<u8>, min_confirmations: u8, reward: u64, sub_id: Seq<u8> },
}

pub open spec fn data_type_of(c: u8) -> DataType {
    if c == 0 {
        DataType::Int64
    } else if c == 1 {
        DataType::String
    } else {
        DataType::Bytes
    }
}

pub open spec fn data_type_code(d: DataType) -> u8 {
    match d {
        DataType::Int64 => 0,
        DataType::String => 1,
        DataType::Bytes => 2,
    }
}

impl NebulaContractInstruction {
    pub open spec fn fields(&self) -> NebulaFields {
        match self {
            NebulaContractInstruction::InitContract {
                nebula_data_type,
                gravity_contract_program_id,
                initial_oracles,
                oracles_bft,
            } => NebulaFields::Init {
                bft: *oracles_bft,
                data_type: *nebula_data_type,
                gravity: gravity_contract_program_id@,
                oracles: keys_view(initial_oracles@),
            },
            NebulaContractInstruction::UpdateOracles { new_oracles, new_round, oracles_bft } =>
                NebulaFields::UpdateOracles {
                bft: *oracles_bft,
                oracles: keys_view(new_oracles@),
                round: *new_round,
            },
            NebulaContractInstruction::SendHashValue { data_hash } => NebulaFields::SendHash {
                hash: data_hash@,
            },
            NebulaContractInstruction::SendValueToSubs {
                data_value,
                data_type,
                pulse_id,
                subscription_id,
            } => NebulaFields::SendValue {
                value: data_value@,
                data_type: *data_type,
                pulse_id: *pulse_id,
                sub_id: subscription_id@,
            },
            NebulaContractInstruction::Subscribe {
                address,
                min_confirmations,
                reward,
                subscription_id,
            } => NebulaFields::Subscribe {
                address: address@,
                min_confirmations: *min_confirmations,
                reward: *reward,
                sub_id: subscription_id@,
            },
        }
    }
}

/// Bytes that instruction `b` needs, by its tag (and bft).
pub open spec fn nebula_len(b: Seq<u8>) -> int {
    if b[0] == 0 {
        35 + 32 * b[1]
    } else if b[0] == 1 {
        10 + 32 * b[1]
    } else if b[0] == 2 {
        65
    } else if b[0] == 3 {
        90
    } else {
        58
    }
}

pub open spec fn nebula_well_formed(b: Seq<u8>) -> bool {
    &&& b.len() >= 2
    &&& b[0] <= 4
    &&& b.len() >= nebula_len(b)
    &&& b[0] == 0 ==> b[2] <= 2
    &&& b[0] == 3 ==> b[65] <= 2
}

pub open spec fn decode_nebula(b: Seq<u8>) -> NebulaFields {
    if b[0] == 0 {
        NebulaFields::Init {
            bft: b[1],
            data_type: data_type_of(b[2]),
            gravity: b.subrange(3, 35),
            oracles: keys_at(b, 35, b[1] as nat),
        }
    } else if b[0] == 1 {
        NebulaFields::UpdateOracles {
            bft: b[1],
            oracles: keys_at(b, 2, b[1] as nat),
            round: le_value(b.subrange(2 + 32 * b[1], 10 + 32 * b[1])) as u64,
        }
    } else if b[0] == 2 {
        NebulaFields::SendHash { hash: b.subrange(1, 65) }
    } else if b[0] == 3 {
        NebulaFields::SendValue {
            value: b.subrange(1, 65),
            data_type: data_type_of(b[65]),
            pulse_id: le_value(b.subrange(66, 74)) as u64,
            sub_id: b.subrange(74, 90),
        }
    } else {
        NebulaFields::Subscribe {
            address: b.subrange(1, 33),
            min_confirmations: b[33],
            reward: le_value(b.subrange(34, 42)) as u64,
            sub_id: b.subrange(42, 58),
        }
    }
}

pub open spec fn encode_nebula(f: NebulaFields) -> Seq<u8> {
    match f {
        NebulaFields::Init { bft, data_type, gravity, oracles } => seq![
            0u8,
            bft,
            data_type_code(data_type),
        ] + gravity + flatten(oracles),
        NebulaFields::UpdateOracles { bft, oracles, round } => seq![1u8, bft] + flatten(oracles)
            + le_bytes(round as nat, 8),
        NebulaFields::SendHash { hash } => seq![2u8] + hash,
        NebulaFields::SendValue { value, data_type, pulse_id, sub_id } => seq![3u8] + value + seq![
            data_type_code(data_type),
        ] + le_bytes(pulse_id as nat, 8) + sub_id,
        NebulaFields::Subscribe { address, min_confirmations, reward, sub_id } => seq![4u8]
            + address + seq![min_confirmations] + le_bytes(reward as nat, 8) + sub_id,
    }
}

/// Fields that an encoding carries faithfully: each blob has its width and
/// each key list its bft.
pub open spec fn nebula_fields_valid(f: NebulaFields) -> bool {
    match f {
        NebulaFields::Init { bft, data_type, gravity, oracles } => gravity.len() == 32
            && oracles.len() == bft && all_keys_sized(oracles),
        NebulaFields::UpdateOracles { bft, oracles, round } => oracles.len() == bft
            && all_keys_sized(oracles),
        NebulaFields::SendHash { hash } => hash.len() == 64,
        NebulaFields::SendValue { value, data_type, pulse_id, sub_id } => value.len() == 64
            && sub_id.len() == 16,
        NebulaFields::Subscribe { address, min_confirmations, reward, sub_id } => address.len()
            == 32 && sub_id.len() == 16,
    }
}

fn data_type_from_code(c: u8) -> (r: DataType)
    ensures
        r == data_type_of(c),
{
    if c == 0 {
        DataType::Int64
    } else if c == 1 {
        DataType::String
    } else {
        DataType::Bytes
    }
}

fn data_type_to_code(d: DataType) -> (r: u8)
    ensures
        r == data_type_code(d),
{
    match d {
        DataType::Int64 => 0,
        DataType::String => 1,
        DataType::Bytes => 2,
    }
}

impl NebulaContractInstruction {
    /// Decodes an instruction; `InvalidInstruction` on an unknown tag or data
    /// type, or missing bytes.
    pub fn unpack(input: &[u8]) -> (r: Result<NebulaContractInstruction, GravityError>)
        ensures
            !nebula_well_formed(input@) ==> r == Err::<NebulaContractInstruction, GravityError>(
                GravityError::InvalidInstruction,
            ),
            nebula_well_formed(input@) ==> (r matches Ok(x) && x.fields() == decode_nebula(
                input@,
            )),
    {
        if input.len() < 2 || input[0] > 4 {
            return Err(GravityError::InvalidInstruction);
        }
        let tag = input[0];
        let need: usize = if tag == 0 {
            35 + 32 * (input[1] as usize)
        } else if tag == 1 {
            10 + 32 * (input[1] as usize)
        } else if tag == 2 {
            65
        } else if tag == 3 {
            90
        } else {
            58
        };
        if input.len() < need {
            return Err(GravityError::InvalidInstruction);
        }
        if tag == 0 {
            if input[2] > 2 {
                return Err(GravityError::InvalidInstruction);
            }
            let bft = input[1];
            Ok(
                NebulaContractInstruction::InitContract {
                    nebula_data_type: data_type_from_code(input[2]),
                    gravity_contract_program_id: copy_range(input, 3, 35),
                    initial_oracles: read_keys(input, 35, bft as usize),
                    oracles_bft: bft,
                },
            )
        } else if tag == 1 {
            let bft = input[1];
            let at = 2 + 32 * (bft as usize);
            Ok(
                NebulaContractInstruction::UpdateOracles {
                    new_oracles: read_keys(input, 2, bft as usize),
                    new_round: read_u64_le(input, at),
                    oracles_bft: bft,
                },
            )
        } else if tag == 2 {
            Ok(NebulaContractInstruction::SendHashValue { data_hash: copy_range(input, 1, 65) })
        } else if tag == 3 {
            if input[65] > 2 {
                return Err(GravityError::InvalidInstruction);
            }
            Ok(
                NebulaContractInstruction::SendValueToSubs {
                    data_value: copy_range(input, 1, 65),
                    data_type: data_type_from_code(input[65]),
                    pulse_id: read_u64_le(input, 66),
                    subscription_id: copy_range(input, 74, 90),
                },
            )
        } else {
            Ok(
                NebulaContractInstruction::Subscribe {
                    address: copy_range(input, 1, 33),
                    min_confirmations: input[33],
                    reward: read_u64_le(input, 34),
                    subscription_id: copy_range(input, 42, 58),
                },
            )
        }
    }

    /// Encodes the instruction.
    pub fn pack(&self) -> (r: Vec<u8>)
        ensures
            r@ == encode_nebula(self.fields()),
    {
        let mut r: Vec<u8> = Vec::new();
        match self {
            NebulaContractInstruction::InitContract {
                nebula_data_type,
                gravity_contract_program_id,
                initial_oracles,
                oracles_bft,
            } => {
                r.push(0u8);
                r.push(*oracles_bft);
                r.push(data_type_to_code(*nebula_data_type));
                append_bytes(&mut r, gravity_contract_program_id.as_slice());
                write_keys(&mut r, initial_oracles);
            },
            NebulaContractInstruction::UpdateOracles { new_oracles, new_round, oracles_bft } => {
                r.push(1u8);
                r.push(*oracles_bft);
                write_keys(&mut r, new_oracles);
                write_u64_le(&mut r, *new_round);
            },
            NebulaContractInstruction::SendHashValue { data_hash } => {
                r.push(2u8);
                append_bytes(&mut r, data_hash.as_slice());
            },
            NebulaContractInstruction::SendValueToSubs {
                data_value,
                data_type,
                pulse_id,
                subscription_id,
            } => {
                r.push(3u8);
                append_bytes(&mut r, data_value.as_slice());
                r.push(data_type_to_code(*data_type));
                write_u64_le(&mut r, *pulse_id);
                append_bytes(&mut r, subscription_id.as_slice());
            },
            NebulaContractInstruction::Subscribe {
                address,
                min_confirmations,
                reward,
                subscription_id,
            } => {
                r.push(4u8);
                append_bytes(&mut r, address.as_slice());
                r.push(*min_confirmations);
                write_u64_le(&mut r, *reward);
                append_bytes(&mut r, subscription_id.as_slice());
            },
        }
        assert(r@ =~= encode_nebula(self.fields()));
        r
    }
}

/// Decoding an encoded Nebula instruction gives its fields back.
pub proof fn lemma_nebula_decode_encode(f: NebulaFields)
    requires
        nebula_fields_valid(f),
    ensures
        nebula_well_formed(encode_nebula(f)),
        encode_nebula(f).len() == nebula_len(encode_nebula(f)),
        decode_nebula(encode_nebula(f)) == f,
{
    let b = encode_nebula(f);
    match f {
        NebulaFields::Init { bft, data_type, gravity, oracles } => {
            lemma_flatten_len(oracles);
            let pre = seq![0u8, bft, data_type_code(data_type)] + gravity;
            assert(b =~= pre + flatten(oracles) + Seq::<u8>::empty());
            lemma_keys_at_flatten(pre, oracles, Seq::<u8>::empty());
            assert(b.subrange(3, 35) =~= gravity);
        },
        NebulaFields::UpdateOracles { bft, oracles, round } => {
            lemma_flatten_len(oracles);
            lemma_u64_round_trip(round);
            let pre = seq![1u8, bft];
            assert(b =~= pre + flatten(oracles) + le_bytes(round as nat, 8));
            lemma_keys_at_flatten(pre, oracles, le_bytes(round as nat, 8));
            assert(b.subrange(2 + 32 * bft, 10 + 32 * bft) =~= le_bytes(round as nat, 8));
        },
        NebulaFields::SendHash { hash } => {
            assert(b.subrange(1, 65) =~= hash);
        },
        NebulaFields::SendValue { value, data_type, pulse_id, sub_id } => {
            lemma_u64_round_trip(pulse_id);
            assert(b.subrange(1, 65) =~= value);
            assert(b.subrange(66, 74) =~= le_bytes(pulse_id as nat, 8));
            assert(b.subrange(74, 90) =~= sub_id);
        },
        NebulaFields::Subscribe { address, min_confirmations, reward, sub_id } => {
            lemma_u64_round_trip(reward);
            assert(b.subrange(1, 33) =~= address);
            assert(b.subrange(34, 42) =~= le_bytes(reward as nat, 8));
            assert(b.subrange(42, 58) =~= sub_id);
        },
    }
}

/// Encoding the fields of exactly sized instruction bytes gives the bytes back.
pub proof fn lemma_nebula_encode_decode(b: Seq<u8>)
    requires
        nebula_well_formed(b),
        b.len() == nebula_len(b),
    ensures
        encode_nebula(decode_nebula(b)) == b,
{
    if b[0] == 0 {
        lemma_flatten_keys_at(b, 35, b[1] as nat);
    } else if b[0] == 1 {
        lemma_flatten_keys_at(b, 2, b[1] as nat);
        lemma_u64_bytes_round_trip(b.subrange(2 + 32 * b[1], 10 + 32 * b[1]));
    } else if b[0] == 3 {
        lemma_u64_bytes_round_trip(b.subrange(66, 74));
    } else if b[0] == 4 {
        lemma_u64_bytes_round_trip(b.subrange(34, 42));
    }
    assert(encode_nebula(decode_nebula(b)) =~= b);
}

} // verus!
