//! The lock/unlock port's instructions on the wire.
use vstd::prelude::*;
use crate::codec::{
    all_keys_sized, append_bytes, copy_range, flatten, keys_at, keys_view, lemma_flatten_keys_at,
    lemma_flatten_len, lemma_keys_at_flatten, read_keys, write_keys, PUBKEY_LEN,
};
use crate::error::{GravityError, PortError};
use crate::port::PORT_OPERATION_LEN;

verus! {

pub const DEST_AMOUNT_ALLOC: usize = 8;

pub const FOREIGN_ADDRESS_ALLOC: usize = 32;

pub const REQUEST_ID_ALLOC: usize = 16;

/// Field widths of instruction `instruction`, whose oracle list holds
/// `oracles_bft` keys.
pub fn allocation_by_instruction_index(instruction: usize, oracles_bft: u8) -> (r: Result<Vec<usize>, PortError>)
    ensures
        instruction == 0 ==> (r matches Ok(v) && v@ == seq![PUBKEY_LEN, PUBKEY_LEN, PUBKEY_LEN, 1usize, (PUBKEY_LEN * oracles_bft as usize) as usize]),
        instruction == 1 ==> (r matches Ok(v) && v@ == seq![DEST_AMOUNT_ALLOC, FOREIGN_ADDRESS_ALLOC, REQUEST_ID_ALLOC]),
        (instruction == 2 || instruction == 3) ==> (r matches Ok(v) && v@ == seq![PORT_OPERATION_LEN]),
        instruction > 3 ==> r == Err::<Vec<usize>, PortError>(PortError::InvalidInstructionIndex),
{
    let v = match instruction {
        0 => vec![PUBKEY_LEN, PUBKEY_LEN, PUBKEY_LEN, 1, PUBKEY_LEN * oracles_bft as usize],
        1 => vec![DEST_AMOUNT_ALLOC, FOREIGN_ADDRESS_ALLOC, REQUEST_ID_ALLOC],
        2 => vec![PORT_OPERATION_LEN],
        3 => vec![PORT_OPERATION_LEN],
        _ => {
            return Err(PortError::InvalidInstructionIndex);
        },
    };
    assert(instruction == 0 ==> v@ =~= seq![PUBKEY_LEN, PUBKEY_LEN, PUBKEY_LEN, 1usize, (PUBKEY_LEN * oracles_bft as usize) as usize]);
    assert(instruction == 1 ==> v@ =~= seq![DEST_AMOUNT_ALLOC, FOREIGN_ADDRESS_ALLOC, REQUEST_ID_ALLOC]);
    assert((instruction == 2 || instruction == 3) ==> v@ =~= seq![PORT_OPERATION_LEN]);
    Ok(v)
}

/// Instructions of the lock/unlock port. The amount of a transfer request is
/// the eight little-endian bytes of a floating-point UI amount, as sent.
pub enum LUPortContractInstruction {
    InitContract {
        nebula_address: Vec<u8>,
        token_address: Vec<u8>,
        token_mint: Vec<u8>,
        oracles: Vec<Vec<u8>>,
    },
    CreateTransferUnwrapRequest { amount: Vec<u8>, receiver: Vec<u8>, request_id: Vec<u8> },
    AttachValue { byte_data: Vec<u8> },
    ConfirmDestinationChainRequest { byte_data: Vec<u8> },
}

/// The fields of a port instruction, as mathematical values.
pub enum LUPortFields {
    Init { nebula: Seq<u8>, token: Seq<u8>, mint: Seq<u8>, oracles: Seq<Seq<u8>> },
    Create { amount: Seq<u8>, receiver: Seq<u8>, request_id: Seq<u8> },
    Attach { data: Seq<u8> },
    Confirm { data: Seq<u8> },
}

impl LUPortContractInstruction {
    pub open spec fn fields(&self) -> LUPortFields {
        match self {
            LUPortContractInstruction::InitContract {
                nebula_address,
                token_address,
                token_mint,
                oracles,
            } => LUPortFields::Init {
                nebula: nebula_address@,
                token: token_address@,
                mint: token_mint@,
                oracles: keys_view(oracles@),
            },
            LUPortContractInstruction::CreateTransferUnwrapRequest {
                amount,
                receiver,
                request_id,
            } => LUPortFields::Create {
                amount: amount@,
                receiver: receiver@,
                request_id: request_id@,
            },
            LUPortContractInstruction::AttachValue { byte_data } => LUPortFields::Attach {
                data: byte_data@,
            },
            LUPortContractInstruction::ConfirmDestinationChainRequest { byte_data } =>
                LUPortFields::Confirm { data: byte_data@ },
        }
    }
}

/// Bytes that instruction `b` needs, by its tag (and bft).
pub open spec fn lu_len(b: Seq<u8>) -> int {
    if b[0] == 0 {
        98 + 32 * b[97]
    } else if b[0] == 1 {
        57
    } else {
        b.len() as int
    }
}

pub open spec fn lu_well_formed(b: Seq<u8>) -> bool {
    &&& b.len() >= 1
    &&& b[0] <= 3
    &&& b[0] == 0 ==> b.len() >= 98
    &&& b.len() >= lu_len(b)
}

pub open spec fn decode_lu(b: Seq<u8>) -> LUPortFields {
    if b[0] == 0 {
        LUPortFields::Init {
            nebula: b.subrange(1, 33),
            token: b.subrange(33, 65),
            mint: b.subrange(65, 97),
            oracles: keys_at(b, 98, b[97] as nat),
        }
    } else if b[0] == 1 {
        LUPortFields::Create {
            amount: b.subrange(1, 9),
            receiver: b.subrange(9, 41),
            request_id: b.subrange(41, 57),
        }
    } else if b[0] == 2 {
        LUPortFields::Attach { data: b.drop_first() }
    } else {
        LUPortFields::Confirm { data: b.drop_first() }
    }
}

pub open spec fn encode_lu(f: LUPortFields) -> Seq<u8> {
    match f {
        LUPortFields::Init { nebula, token, mint, oracles } => seq![0u8] + nebula + token + mint + seq![
            oracles.len() as u8,
        ] + flatten(oracles),
        LUPortFields::Create { amount, receiver, request_id } => seq![1u8] + amount + receiver
            + request_id,
        LUPortFields::Attach { data } => seq![2u8] + data,
        LUPortFields::Confirm { data } => seq![3u8] + data,
    }
}

/// Fields that an encoding carries faithfully.
pub open spec fn lu_fields_valid(f: LUPortFields) -> bool {
    match f {
        LUPortFields::Init { nebula, token, mint, oracles } => nebula.len() == 32 && token.len()
            == 32 && mint.len() == 32 && oracles.len() <= 255 && all_keys_sized(oracles),
        LUPortFields::Create { amount, receiver, request_id } => amount.len() == 8
            && receiver.len() == 32 && request_id.len() == 16,
        LUPortFields::Attach { data } => true,
        LUPortFields::Confirm { data } => true,
    }
}

impl LUPortContractInstruction {
    /// Decodes an instruction; `InvalidInstruction` on an unknown tag or
    /// missing bytes.
    pub fn unpack(input: &[u8]) -> (r: Result<LUPortContractInstruction, GravityError>)
        ensures
            !lu_well_formed(input@) ==> r == Err::<LUPortContractInstruction, GravityError>(
                GravityError::InvalidInstruction,
            ),
            lu_well_formed(input@) ==> (r matches Ok(x) && x.fields() == decode_lu(input@)),
    {
        if input.len() < 1 || input[0] > 3 {
            return Err(GravityError::InvalidInstruction);
        }
        let tag = input[0];
        if tag == 0 {
            if input.len() < 98 || input.len() < 98 + 32 * (input[97] as usize) {
                return Err(GravityError::InvalidInstruction);
            }
            Ok(
                LUPortContractInstruction::InitContract {
                    nebula_address: copy_range(input, 1, 33),
                    token_address: copy_range(input, 33, 65),
                    token_mint: copy_range(input, 65, 97),
                    oracles: read_keys(input, 98, input[97] as usize),
                },
            )
        } else if tag == 1 {
            if input.len() < 57 {
                return Err(GravityError::InvalidInstruction);
            }
            Ok(
                LUPortContractInstruction::CreateTransferUnwrapRequest {
                    amount: copy_range(input, 1, 9),
                    receiver: copy_range(input, 9, 41),
                    request_id: copy_range(input, 41, 57),
                },
            )
        } else if tag == 2 {
            let byte_data = copy_range(input, 1, input.len());
            assert(byte_data@ =~= input@.drop_first());
            Ok(LUPortContractInstruction::AttachValue { byte_data })
        } else {
            let byte_data = copy_range(input, 1, input.len());
            assert(byte_data@ =~= input@.drop_first());
            Ok(LUPortContractInstruction::ConfirmDestinationChainRequest { byte_data })
        }
    }

    /// Encodes the instruction.
    pub fn pack(&self) -> (r: Vec<u8>)
        requires
            self matches LUPortContractInstruction::InitContract { oracles, .. } ==> oracles@.len()
                <= 255,
        ensures
            r@ == encode_lu(self.fields()),
    {
        let mut r: Vec<u8> = Vec::new();
        match self {
            LUPortContractInstruction::InitContract {
                nebula_address,
                token_address,
                token_mint,
                oracles,
            } => {
                r.push(0u8);
                append_bytes(&mut r, nebula_address.as_slice());
                append_bytes(&mut r, token_address.as_slice());
                append_bytes(&mut r, token_mint.as_slice());
                r.push(oracles.len() as u8);
                write_keys(&mut r, oracles);
            },
            LUPortContractInstruction::CreateTransferUnwrapRequest {
                amount,
                receiver,
                request_id,
            } => {
                r.push(1u8);
                append_bytes(&mut r, amount.as_slice());
                append_bytes(&mut r, receiver.as_slice());
                append_bytes(&mut r, request_id.as_slice());
            },
            LUPortContractInstruction::AttachValue { byte_data } => {
                r.push(2u8);
                append_bytes(&mut r, byte_data.as_slice());
            },
            LUPortContractInstruction::ConfirmDestinationChainRequest { byte_data } => {
                r.push(3u8);
                append_bytes(&mut r, byte_data.as_slice());
            },
        }
        assert(r@ =~= encode_lu(self.fields()));
        r
    }
}

/// Decoding an encoded lock/unlock port instruction gives its fields back.
pub proof fn lemma_lu_decode_encode(f: LUPortFields)
    requires
        lu_fields_valid(f),
    ensures
        lu_well_formed(encode_lu(f)),
        encode_lu(f).len() == lu_len(encode_lu(f)),
        decode_lu(encode_lu(f)) == f,
{
    let b = encode_lu(f);
    match f {
        LUPortFields::Init { nebula, token, mint, oracles } => {
            lemma_flatten_len(oracles);
            let pre = seq![0u8] + nebula + token + mint + seq![oracles.len() as u8];
            assert(b =~= pre + flatten(oracles) + Seq::<u8>::empty());
            lemma_keys_at_flatten(pre, oracles, Seq::<u8>::empty());
            assert(b.subrange(1, 33) =~= nebula);
            assert(b.subrange(33, 65) =~= token);
            assert(b.subrange(65, 97) =~= mint);
            assert(b[97] == oracles.len() as u8);
        },
        LUPortFields::Create { amount, receiver, request_id } => {
            assert(b.subrange(1, 9) =~= amount);
            assert(b.subrange(9, 41) =~= receiver);
            assert(b.subrange(41, 57) =~= request_id);
        },
        LUPortFields::Attach { data } => {
            assert(b.drop_first() =~= data);
        },
        LUPortFields::Confirm { data } => {
            assert(b.drop_first() =~= data);
        },
    }
}

/// Encoding the fields of exactly sized instruction bytes gives the bytes back.
pub proof fn lemma_lu_encode_decode(b: Seq<u8>)
    requires
        lu_well_formed(b),
        b.len() == lu_len(b),
    ensures
        encode_lu(decode_lu(b)) == b,
{
    if b[0] == 0 {
        lemma_flatten_keys_at(b, 98, b[97] as nat);
    }
    assert(encode_lu(decode_lu(b)) =~= b);
}

} // verus!
