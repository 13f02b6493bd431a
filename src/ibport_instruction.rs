//! The burn/mint port's instructions on the wire.
use vstd::prelude::*;
use crate::codec::{
    all_keys_sized, append_bytes, copy_range, flatten, keys_at, keys_view, lemma_flatten_keys_at,
    lemma_flatten_len, lemma_keys_at_flatten, read_keys, write_keys, PUBKEY_LEN,
};
use crate::error::{GravityError, PortError};
use crate::port::PORT_OPERATION_LEN;

verus! {

pub const DEST_AMOUNT_ALLOC: usize = 8;

pub const FOREIGN_ADDRESS_ALLOC: usize = 32;

pub const REQUEST_ID_ALLOC: usize = 16;

/// Field widths of instruction `instruction`, whose oracle list holds
/// `oracles_bft` keys.
pub fn allocation_by_instruction_index(instruction: usize, oracles_bft: u8) -> (r: Result<Vec<usize>, PortError>)
    ensures
        instruction == 0 ==> (r matches Ok(v) && v@ == seq![PUBKEY_LEN, PUBKEY_LEN, 1usize, (PUBKEY_LEN * oracles_bft as usize) as usize]),
        instruction == 1 ==> (r matches Ok(v) && v@ == seq![DEST_AMOUNT_ALLOC, FOREIGN_ADDRESS_ALLOC, REQUEST_ID_ALLOC]),
        (instruction == 2 || instruction == 3) ==> (r matches Ok(v) && v@ == seq![PORT_OPERATION_LEN]),
        instruction == 4 ==> (r matches Ok(v) && v@ == seq![PUBKEY_LEN, PUBKEY_LEN]),
        instruction > 4 ==> r == Err::<Vec<usize>, PortError>(PortError::InvalidInstructionIndex),
{
    let v = match instruction {
        0 => vec![PUBKEY_LEN, PUBKEY_LEN, 1, PUBKEY_LEN * oracles_bft as usize],
        1 => vec![DEST_AMOUNT_ALLOC, FOREIGN_ADDRESS_ALLOC, REQUEST_ID_ALLOC],
        2 => vec![PORT_OPERATION_LEN],
        3 => vec![PORT_OPERATION_LEN],
        4 => vec![PUBKEY_LEN, PUBKEY_LEN],
        _ => {
            return Err(PortError::InvalidInstructionIndex);
        },
    };
    assert(instruction == 0 ==> v@ =~= seq![PUBKEY_LEN, PUBKEY_LEN, 1usize, (PUBKEY_LEN * oracles_bft as usize) as usize]);
    assert(instruction == 1 ==> v@ =~= seq![DEST_AMOUNT_ALLOC, FOREIGN_ADDRESS_ALLOC, REQUEST_ID_ALLOC]);
    assert((instruction == 2 || instruction == 3) ==> v@ =~= seq![PORT_OPERATION_LEN]);
    assert(instruction == 4 ==> v@ =~= seq![PUBKEY_LEN, PUBKEY_LEN]);
    Ok(v)
}

/// Instructions of the burn/mint port. The amount of a transfer request is
/// the eight little-endian bytes of a floating-point UI amount, as sent.
pub enum IBPortContractInstruction {
    InitContract { nebula_address: Vec<u8>, token_address: Vec<u8>, oracles: Vec<Vec<u8>> },
    CreateTransferUnwrapRequest { amount: Vec<u8>, receiver: Vec<u8>, request_id: Vec<u8> },
    AttachValue { byte_data: Vec<u8> },
    ConfirmDestinationChainRequest { byte_data: Vec<u8> },
    TransferTokenOwnership { new_authority: Vec<u8>, new_token: Vec<u8> },
}

/// The fields of a port instruction, as mathematical values.
pub enum IBPortFields {
    Init { nebula: Seq<u8>, token: Seq<u8>, oracles: Seq<Seq<u8>> },
    Create { amount: Seq<u8>, receiver: Seq<u8>, request_id: Seq<u8> },
    Attach { data: Seq<u8> },
    Confirm { data: Seq<u8> },
    TransferOwnership { new_authority: Seq<u8>, new_token: Seq<u8> },
}

impl IBPortContractInstruction {
    pub open spec fn fields(&self) -> IBPortFields {
        match self {
            IBPortContractInstruction::InitContract { nebula_address, token_address, oracles } =>
                IBPortFields::Init {
                nebula: nebula_address@,
                token: token_address@,
                oracles: keys_view(oracles@),
            },
            IBPortContractInstruction::CreateTransferUnwrapRequest {
                amount,
                receiver,
                request_id,
            } => IBPortFields::Create {
                amount: amount@,
                receiver: receiver@,
                request_id: request_id@,
            },
            IBPortContractInstruction::AttachValue { byte_data } => IBPortFields::Attach {
                data: byte_data@,
            },
            IBPortContractInstruction::ConfirmDestinationChainRequest { byte_data } =>
                IBPortFields::Confirm { data: byte_data@ },
            IBPortContractInstruction::TransferTokenOwnership { new_authority, new_token } =>
                IBPortFields::TransferOwnership {
                new_authority: new_authority@,
                new_token: new_token@,
            },
        }
    }
}

/// Bytes that instruction `b` needs, by its tag (and bft).
pub open spec fn ib_len(b: Seq<u8>) -> int {
    if b[0] == 0 {
        66 + 32 * b[65]
    } else if b[0] == 1 {
        57
    } else if b[0] == 4 {
        65
    } else {
        b.len() as int
    }
}

pub open spec fn ib_well_formed(b: Seq<u8>) -> bool {
    &&& b.len() >= 1
    &&& b[0] <= 4
    &&& b[0] == 0 ==> b.len() >= 66
    &&& b.len() >= ib_len(b)
}

pub open spec fn decode_ib(b: Seq<u8>) -> IBPortFields {
    if b[0] == 0 {
        IBPortFields::Init {
            nebula: b.subrange(1, 33),
            token: b.subrange(33, 65),
            oracles: keys_at(b, 66, b[65] as nat),
        }
    } else if b[0] == 1 {
        IBPortFields::Create {
            amount: b.subrange(1, 9),
            receiver: b.subrange(9, 41),
            request_id: b.subrange(41, 57),
        }
    } else if b[0] == 2 {
        IBPortFields::Attach { data: b.drop_first() }
    } else if b[0] == 3 {
        IBPortFields::Confirm { data: b.drop_first() }
    } else {
        IBPortFields::TransferOwnership { new_authority: b.subrange(1, 33), new_token: b.subrange(33, 65) }
    }
}

pub open spec fn encode_ib(f: IBPortFields) -> Seq<u8> {
    match f {
        IBPortFields::Init { nebula, token, oracles } => seq![0u8] + nebula + token + seq![
            oracles.len() as u8,
        ] + flatten(oracles),
        IBPortFields::Create { amount, receiver, request_id } => seq![1u8] + amount + receiver
            + request_id,
        IBPortFields::Attach { data } => seq![2u8] + data,
        IBPortFields::Confirm { data } => seq![3u8] + data,
        IBPortFields::TransferOwnership { new_authority, new_token } => seq![4u8] + new_authority
            + new_token,
    }
}

/// Fields that an encoding carries faithfully.
pub open spec fn ib_fields_valid(f: IBPortFields) -> bool {
    match f {
        IBPortFields::Init { nebula, token, oracles } => nebula.len() == 32 && token.len() == 32
            && oracles.len() <= 255 && all_keys_sized(oracles),
        IBPortFields::Create { amount, receiver, request_id } => amount.len() == 8
            && receiver.len() == 32 && request_id.len() == 16,
        IBPortFields::Attach { data } => true,
        IBPortFields::Confirm { data } => true,
        IBPortFields::TransferOwnership { new_authority, new_token } => new_authority.len() == 32
            && new_token.len() == 32,
    }
}

impl IBPortContractInstruction {
    /// Decodes an instruction; `InvalidInstruction` on an unknown tag or
    /// missing bytes.
    pub fn unpack(input: &[u8]) -> (r: Result<IBPortContractInstruction, GravityError>)
        ensures
            !ib_well_formed(input@) ==> r == Err::<IBPortContractInstruction, GravityError>(
                GravityError::InvalidInstruction,
            ),
            ib_well_formed(input@) ==> (r matches Ok(x) && x.fields() == decode_ib(input@)),
    {
        if input.len() < 1 || input[0] > 4 {
            return Err(GravityError::InvalidInstruction);
        }
        let tag = input[0];
        if tag == 0 {
            if input.len() < 66 || input.len() < 66 + 32 * (input[65] as usize) {
                return Err(GravityError::InvalidInstruction);
            }
            Ok(
                IBPortContractInstruction::InitContract {
                    nebula_address: copy_range(input, 1, 33),
                    token_address: copy_range(input, 33, 65),
                    oracles: read_keys(input, 66, input[65] as usize),
                },
            )
        } else if tag == 1 {
            if input.len() < 57 {
                return Err(GravityError::InvalidInstruction);
            }
            Ok(
                IBPortContractInstruction::CreateTransferUnwrapRequest {
                    amount: copy_range(input, 1, 9),
                    receiver: copy_range(input, 9, 41),
                    request_id: copy_range(input, 41, 57),
                },
            )
        } else if tag == 2 {
            let byte_data = copy_range(input, 1, input.len());
            assert(byte_data@ =~= input@.drop_first());
            Ok(IBPortContractInstruction::AttachValue { byte_data })
        } else if tag == 3 {
            let byte_data = copy_range(input, 1, input.len());
            assert(byte_data@ =~= input@.drop_first());
            Ok(IBPortContractInstruction::ConfirmDestinationChainRequest { byte_data })
        } else {
            if input.len() < 65 {
                return Err(GravityError::InvalidInstruction);
            }
            Ok(
                IBPortContractInstruction::TransferTokenOwnership {
                    new_authority: copy_range(input, 1, 33),
                    new_token: copy_range(input, 33, 65),
                },
            )
        }
    }

    /// Encodes the instruction.
    pub fn pack(&self) -> (r: Vec<u8>)
        requires
            self matches IBPortContractInstruction::InitContract { oracles, .. } ==> oracles@.len()
                <= 255,
        ensures
            r@ == encode_ib(self.fields()),
    {
        let mut r: Vec<u8> = Vec::new();
        match self {
            IBPortContractInstruction::InitContract { nebula_address, token_address, oracles } => {
                r.push(0u8);
                append_bytes(&mut r, nebula_address.as_slice());
                append_bytes(&mut r, token_address.as_slice());
                r.push(oracles.len() as u8);
                write_keys(&mut r, oracles);
            },
            IBPortContractInstruction::CreateTransferUnwrapRequest {
                amount,
                receiver,
                request_id,
            } => {
                r.push(1u8);
                append_bytes(&mut r, amount.as_slice());
                append_bytes(&mut r, receiver.as_slice());
                append_bytes(&mut r, request_id.as_slice());
            },
            IBPortContractInstruction::AttachValue { byte_data } => {
                r.push(2u8);
                append_bytes(&mut r, byte_data.as_slice());
            },
            IBPortContractInstruction::ConfirmDestinationChainRequest { byte_data } => {
                r.push(3u8);
                append_bytes(&mut r, byte_data.as_slice());
            },
            IBPortContractInstruction::TransferTokenOwnership { new_authority, new_token } => {
                r.push(4u8);
                append_bytes(&mut r, new_authority.as_slice());
                append_bytes(&mut r, new_token.as_slice());
            },
        }
        assert(r@ =~= encode_ib(self.fields()));
        r
    }
}

/// Decoding an encoded port instruction gives its fields back.
pub proof fn lemma_ib_decode_encode(f: IBPortFields)
    requires
        ib_fields_valid(f),
    ensures
        ib_well_formed(encode_ib(f)),
        encode_ib(f).len() == ib_len(encode_ib(f)),
        decode_ib(encode_ib(f)) == f,
{
    let b = encode_ib(f);
    match f {
        IBPortFields::Init { nebula, token, oracles } => {
            lemma_flatten_len(oracles);
            let pre = seq![0u8] + nebula + token + seq![oracles.len() as u8];
            assert(b =~= pre + flatten(oracles) + Seq::<u8>::empty());
            lemma_keys_at_flatten(pre, oracles, Seq::<u8>::empty());
            assert(b.subrange(1, 33) =~= nebula);
            assert(b.subrange(33, 65) =~= token);
            assert(b[65] == oracles.len() as u8);
        },
        IBPortFields::Create { amount, receiver, request_id } => {
            assert(b.subrange(1, 9) =~= amount);
            assert(b.subrange(9, 41) =~= receiver);
            assert(b.subrange(41, 57) =~= request_id);
        },
        IBPortFields::Attach { data } => {
            assert(b.drop_first() =~= data);
        },
        IBPortFields::Confirm { data } => {
            assert(b.drop_first() =~= data);
        },
        IBPortFields::TransferOwnership { new_authority, new_token } => {
            assert(b.subrange(1, 33) =~= new_authority);
            assert(b.subrange(33, 65) =~= new_token);
        },
    }
}

/// Encoding the fields of exactly sized instruction bytes gives the bytes back.
pub proof fn lemma_ib_encode_decode(b: Seq<u8>)
    requires
        ib_well_formed(b),
        b.len() == ib_len(b),
    ensures
        encode_ib(decode_ib(b)) == b,
{
    if b[0] == 0 {
        lemma_flatten_keys_at(b, 66, b[65] as nat);
    }
    assert(encode_ib(decode_ib(b)) =~= b);
}

} // verus!
