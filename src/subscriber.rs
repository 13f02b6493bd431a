//! The instruction that Nebula sends to a subscriber program.
use vstd::prelude::*;
use crate::codec::{clone_bytes, copy_range};
use crate::error::PortError;

verus! {

/// Tag of the `AttachValue` instruction.
pub const ATTACH_VALUE_INSTRUCTION_INDEX: u8 = 2;

pub enum SubscriberInstruction {
    AttachValue { byte_data: Vec<u8> },
}

/// `AttachValue` instruction data: the tag, then the payload.
pub fn attach_value_data(byte_data: &Vec<u8>) -> (r: Vec<u8>)
    ensures
        r@ == seq![ATTACH_VALUE_INSTRUCTION_INDEX] + byte_data@,
{
    let mut buf: Vec<u8> = Vec::new();
    buf.push(ATTACH_VALUE_INSTRUCTION_INDEX);
    crate::codec::append_bytes(&mut buf, byte_data.as_slice());
    buf
}

/// An account that an instruction names: its key, and whether it must sign
/// and may be written.
pub struct AccountRole {
    pub key: Vec<u8>,
    pub is_signer: bool,
    pub is_writable: bool,
}

pub open spec fn role_view(a: AccountRole) -> (Seq<u8>, bool, bool) {
    (a.key@, a.is_signer, a.is_writable)
}

pub open spec fn roles_view(rs: Seq<AccountRole>) -> Seq<(Seq<u8>, bool, bool)> {
    Seq::new(rs.len(), |i: int| role_view(rs[i]))
}

/// The accounts of an `AttachValue` call from Nebula to a subscriber, in
/// order: the oracle (signer, read-only), the subscriber's data (writable),
/// the token program (read-only), the mint (writable), the recipient
/// (writable), the derived authority (read-only), each extra signer
/// (signer, read-only), then each passed-through account as it came.
pub open spec fn attach_value_roles(
    oracle: Seq<u8>,
    subscriber_data: Seq<u8>,
    token_program: Seq<u8>,
    mint: Seq<u8>,
    recipient: Seq<u8>,
    pda: Seq<u8>,
    signers: Seq<Vec<u8>>,
    passthrough: Seq<AccountRole>,
) -> Seq<(Seq<u8>, bool, bool)> {
    seq![
        (oracle, true, false),
        (subscriber_data, false, true),
        (token_program, false, false),
        (mint, false, true),
        (recipient, false, true),
        (pda, false, false),
    ] + Seq::new(signers.len(), |i: int| (signers[i]@, true, false)) + roles_view(passthrough)
}

fn role(key: &[u8], is_signer: bool, is_writable: bool) -> (r: AccountRole)
    ensures
        role_view(r) == (key@, is_signer, is_writable),
{
    AccountRole { key: clone_bytes(key), is_signer, is_writable }
}

/// The account list of an `AttachValue` call (see `attach_value_roles`).
pub fn attach_value_accounts(
    oracle: &[u8],
    subscriber_data: &[u8],
    token_program: &[u8],
    mint: &[u8],
    recipient: &[u8],
    pda: &[u8],
    signers: &Vec<Vec<u8>>,
    passthrough: &Vec<AccountRole>,
) -> (r: Vec<AccountRole>)
    ensures
        roles_view(r@) == attach_value_roles(
            oracle@,
            subscriber_data@,
            token_program@,
            mint@,
            recipient@,
            pda@,
            signers@,
            passthrough@,
        ),
{
    let mut r: Vec<AccountRole> = Vec::new();
    r.push(role(oracle, true, false));
    r.push(role(subscriber_data, false, true));
    r.push(role(token_program, false, false));
    r.push(role(mint, false, true));
    r.push(role(recipient, false, true));
    r.push(role(pda, false, false));
    let ghost head = roles_view(r@);
    let mut i: usize = 0;
    while i < signers.len()
        invariant
            0 <= i <= signers@.len(),
            r@.len() == 6 + i,
            roles_view(r@) == head + Seq::new(i as nat, |k: int| (signers@[k]@, true, false)),
        decreases signers.len() - i,
    {
        let ghost before = roles_view(r@);
        r.push(role(signers[i].as_slice(), true, false));
        assert(roles_view(r@) =~= before.push((signers@[i as int]@, true, false)));
        assert(roles_view(r@) =~= head + Seq::new((i + 1) as nat, |k: int| (signers@[k]@, true, false)));
        i = i + 1;
    }
    let ghost mid = roles_view(r@);
    let mut j: usize = 0;
    while j < passthrough.len()
        invariant
            0 <= j <= passthrough@.len(),
            r@.len() == 6 + signers@.len() + j,
            roles_view(r@) == mid + roles_view(passthrough@.subrange(0, j as int)),
        decreases passthrough.len() - j,
    {
        let ghost before = roles_view(r@);
        let a = &passthrough[j];
        r.push(role(a.key.as_slice(), a.is_signer, a.is_writable));
        assert(roles_view(r@) =~= before.push(role_view(passthrough@[j as int])));
        assert(roles_view(r@) =~= mid + roles_view(passthrough@.subrange(0, j + 1)));
        j = j + 1;
    }
    assert(passthrough@.subrange(0, passthrough@.len() as int) =~= passthrough@);
    assert(roles_view(r@) =~= attach_value_roles(
        oracle@,
        subscriber_data@,
        token_program@,
        mint@,
        recipient@,
        pda@,
        signers@,
        passthrough@,
    ));
    r
}

impl SubscriberInstruction {
    /// Decodes instruction data: the tag must be `AttachValue`'s, and the
    /// rest is its payload.
    pub fn unpack(input: &[u8]) -> (r: Result<SubscriberInstruction, PortError>)
        ensures
            (input@.len() == 0 || input@[0] != ATTACH_VALUE_INSTRUCTION_INDEX) ==> r == Err::<
                SubscriberInstruction,
                PortError,
            >(PortError::InvalidInstructionIndex),
            (input@.len() > 0 && input@[0] == ATTACH_VALUE_INSTRUCTION_INDEX) ==> (r matches Ok(
                SubscriberInstruction::AttachValue { byte_data },
            ) && byte_data@ == input@.drop_first()),
    {
        if input.len() == 0 || input[0] != ATTACH_VALUE_INSTRUCTION_INDEX {
            return Err(PortError::InvalidInstructionIndex);
        }
        let byte_data = copy_range(input, 1, input.len());
        assert(byte_data@ =~= input@.drop_first());
        Ok(SubscriberInstruction::AttachValue { byte_data })
    }

    /// Encodes the instruction: the tag, then the payload.
    pub fn pack(&self) -> (r: Vec<u8>)
        ensures
            match self {
                SubscriberInstruction::AttachValue { byte_data } => r@ == seq![
                    ATTACH_VALUE_INSTRUCTION_INDEX,
                ] + byte_data@,
            },
    {
        match self {
            SubscriberInstruction::AttachValue { byte_data } => attach_value_data(byte_data),
        }
    }
}

} // verus!
