//! The lock/unlock port: inbound swaps release tokens from a vault,
//! outbound requests lock them there and wait in a bounded queue for
//! confirmation.
use vstd::prelude::*;
use crate::codec::{all_zero, clone_bytes, clone_keys, is_contract_empty, keys_view, bytes_eq};
use crate::error::{ContractError, PortError, ProgramError};
use crate::multisig::SignerInfo;
use crate::port::{
    attach_outcome, confirm_outcome, confirmed, is_member, port_operation_of, queue_view,
    unpack_port_operation, validate_data_provider, operation_matches,
    PortOperation, RequestRegistry, RequestStatus, UNLOCK_ACTION, PORT_OPERATION_LEN,
};
use crate::records::{has_key, lookup};

verus! {

/// Most outgoing requests that may wait for confirmation.
pub const LU_MAX_IDLE_REQUESTS_COUNT: usize = 100;

/// State of one lock/unlock port.
pub struct LUPortContract {
    pub nebula_address: Vec<u8>,
    pub token_address: Vec<u8>,
    pub token_mint: Vec<u8>,
    pub initializer_pubkey: Vec<u8>,
    pub oracles: Vec<Vec<u8>>,
    pub registry: RequestRegistry,
    pub is_state_initialized: bool,
}

/// The port's bindings and flags: everything but its request registry.
pub open spec fn same_settings(a: LUPortContract, b: LUPortContract) -> bool {
    &&& a.nebula_address == b.nebula_address
    &&& a.token_address == b.token_address
    &&& a.token_mint == b.token_mint
    &&& a.initializer_pubkey == b.initializer_pubkey
    &&& a.oracles == b.oracles
    &&& a.is_state_initialized == b.is_state_initialized
}

impl LUPortContract {
    pub open spec fn wf(&self) -> bool {
        self.registry.wf(LU_MAX_IDLE_REQUESTS_COUNT as nat)
    }

    /// Decodes a port operation payload.
    pub fn unpack_byte_array(byte_data: &Vec<u8>) -> (r: Result<PortOperation, PortError>)
        ensures
            byte_data@.len() < PORT_OPERATION_LEN ==> r == Err::<PortOperation, PortError>(
                PortError::ByteArrayUnpackFailed,
            ),
            byte_data@.len() >= PORT_OPERATION_LEN ==> (r matches Ok(op) && operation_matches(
                op,
                byte_data@,
            )),
    {
        unpack_port_operation(byte_data.as_slice())
    }

    /// Records an inbound unlock: the payload must decode, its action must be
    /// unlock, its swap id must have no status, and its receiver must be
    /// `input_pubkey`. The swap's status becomes `Success`; the decoded
    /// operation is handed back for the transfer out of the vault.
    pub fn attach_data(&mut self, byte_data: &Vec<u8>, input_pubkey: &[u8]) -> (r: Result<PortOperation, PortError>)
        requires
            old(self).wf(),
        ensures
            final(self).wf(),
            byte_data@.len() < PORT_OPERATION_LEN ==> r == Err::<PortOperation, PortError>(
                PortError::ByteArrayUnpackFailed,
            ),
            byte_data@.len() >= PORT_OPERATION_LEN ==> ({
                let (a, s, m, rc) = port_operation_of(byte_data@);
                match attach_outcome(old(self).registry.swap_status@, a, s, rc, UNLOCK_ACTION, input_pubkey@) {
                    Ok(_) => r matches Ok(op) && operation_matches(op, byte_data@)
                        && final(self).registry.swap_status@ == old(self).registry.swap_status@.push(
                        (s, RequestStatus::Success),
                    ),
                    Err(e) => r == Err::<PortOperation, PortError>(e),
                }
            }),
            r is Err ==> *final(self) == *old(self),
            final(self).registry.requests == old(self).registry.requests,
            final(self).registry.requests_queue == old(self).registry.requests_queue,
            same_settings(*final(self), *old(self)),
    {
        let op = match unpack_port_operation(byte_data.as_slice()) {
            Ok(op) => op,
            Err(e) => {
                return Err(e);
            },
        };
        match self.registry.attach(LU_MAX_IDLE_REQUESTS_COUNT, &op, UNLOCK_ACTION, input_pubkey) {
            Ok(()) => Ok(op),
            Err(e) => Err(e),
        }
    }

    /// Drops a confirmed outgoing request. `port_amount` is the payload's
    /// amount in base units.
    pub fn drop_processed_request(&mut self, byte_array: &Vec<u8>, port_amount: u64) -> (r: Result<(), PortError>)
        requires
            old(self).wf(),
        ensures
            final(self).wf(),
            byte_array@.len() < PORT_OPERATION_LEN ==> r == Err::<(), PortError>(
                PortError::ByteArrayUnpackFailed,
            ),
            byte_array@.len() >= PORT_OPERATION_LEN ==> ({
                let (a, s, m, rc) = port_operation_of(byte_array@);
                &&& r == confirm_outcome(
                    old(self).registry.swap_status@,
                    old(self).registry.requests@,
                    s,
                    rc,
                    port_amount,
                )
                &&& r is Ok ==> confirmed(old(self).registry, final(self).registry, s)
            }),
            r is Err ==> *final(self) == *old(self),
            same_settings(*final(self), *old(self)),
    {
        let op = match unpack_port_operation(byte_array.as_slice()) {
            Ok(op) => op,
            Err(e) => {
                return Err(e);
            },
        };
        self.registry.drop_processed(LU_MAX_IDLE_REQUESTS_COUNT, &op, port_amount)
    }

    /// Records an outgoing request of `amount` base units from
    /// `sender_data_account` to the foreign `receiver`.
    pub fn create_transfer_wrap_request(
        &mut self,
        record_id: &[u8],
        amount: u64,
        sender_data_account: &[u8],
        receiver: &[u8],
    ) -> (r: Result<(), PortError>)
        requires
            old(self).wf(),
        ensures
            final(self).wf(),
            old(self).registry.requests@.len() >= LU_MAX_IDLE_REQUESTS_COUNT ==> r == Err::<
                (),
                PortError,
            >(PortError::TransferRequestsCountLimit),
            old(self).registry.requests@.len() < LU_MAX_IDLE_REQUESTS_COUNT && has_key(
                old(self).registry.requests@,
                record_id@,
            ) ==> r == Err::<(), PortError>(PortError::RequestIDIsAlreadyBeingProcessed),
            r is Ok <==> (old(self).registry.requests@.len() < LU_MAX_IDLE_REQUESTS_COUNT
                && !has_key(old(self).registry.requests@, record_id@)),
            r is Err ==> *final(self) == *old(self),
            r is Ok ==> {
                &&& lookup(final(self).registry.requests@, record_id@) matches Some(q) && q.amount
                    == amount && q.origin_address@ == sender_data_account@
                    && q.destination_address@ == receiver@
                &&& lookup(final(self).registry.swap_status@, record_id@) == Some(
                    RequestStatus::New,
                )
                &&& queue_view(final(self).registry.requests_queue@) == queue_view(
                    old(self).registry.requests_queue@,
                ).push(record_id@)
                &&& final(self).registry.requests@ == old(self).registry.requests@.push(
                    (record_id@, lookup(final(self).registry.requests@, record_id@)->Some_0),
                )
                &&& forall|k: Seq<u8>|
                    k != record_id@ ==> #[trigger] lookup(final(self).registry.swap_status@, k)
                        == lookup(old(self).registry.swap_status@, k)
            },
            same_settings(*final(self), *old(self)),
    {
        self.registry.create_request(
            LU_MAX_IDLE_REQUESTS_COUNT,
            record_id,
            amount,
            sender_data_account,
            receiver,
        )
    }
}

pub struct LUPortProcessor;

impl LUPortProcessor {
    /// Creates the port state: the initializer must sign and the data
    /// account must be empty.
    pub fn process_init_contract(
        initializer: &SignerInfo,
        contract_data: &[u8],
        token_address: &[u8],
        token_mint: &[u8],
        nebula_address: &[u8],
        oracles: &Vec<Vec<u8>>,
    ) -> (r: Result<LUPortContract, ContractError>)
        ensures
            !initializer.is_signer ==> r == Err::<LUPortContract, ContractError>(
                ContractError::Program(ProgramError::MissingRequiredSignature),
            ),
            initializer.is_signer && !all_zero(contract_data@) ==> r == Err::<
                LUPortContract,
                ContractError,
            >(ContractError::Program(ProgramError::AccountAlreadyInitialized)),
            r is Ok <==> initializer.is_signer && all_zero(contract_data@),
            r matches Ok(c) ==> {
                &&& c.wf()
                &&& c.token_address@ == token_address@
                &&& c.token_mint@ == token_mint@
                &&& c.nebula_address@ == nebula_address@
                &&& c.initializer_pubkey@ == initializer.key@
                &&& keys_view(c.oracles@) == keys_view(oracles@)
                &&& c.registry.requests@.len() == 0
                &&& c.registry.swap_status@.len() == 0
                &&& c.is_state_initialized
            },
    {
        if !initializer.is_signer {
            return Err(ContractError::Program(ProgramError::MissingRequiredSignature));
        }
        if !is_contract_empty(contract_data) {
            return Err(ContractError::Program(ProgramError::AccountAlreadyInitialized));
        }
        Ok(
            LUPortContract {
                nebula_address: clone_bytes(nebula_address),
                token_address: clone_bytes(token_address),
                token_mint: clone_bytes(token_mint),
                initializer_pubkey: clone_bytes(initializer.key.as_slice()),
                oracles: clone_keys(oracles),
                registry: RequestRegistry::new(),
                is_state_initialized: true,
            },
        )
    }

    /// Checks and records an outgoing transfer of `amount` base units; the
    /// caller moves them into the vault once this succeeds. The supplied token program and
    /// mint must be the bound ones.
    pub fn process_create_transfer_unwrap_request(
        state: &mut LUPortContract,
        initializer: &SignerInfo,
        token_program: &[u8],
        mint: &[u8],
        token_holder: &[u8],
        request_id: &[u8],
        amount: u64,
        receiver: &[u8],
    ) -> (r: Result<(), ContractError>)
        requires
            old(state).wf(),
        ensures
            final(state).wf(),
            !initializer.is_signer ==> r == Err::<(), ContractError>(
                ContractError::Program(ProgramError::MissingRequiredSignature),
            ),
            initializer.is_signer && token_program@ != old(state).token_address@ ==> r == Err::<
                (),
                ContractError,
            >(ContractError::Port(PortError::InvalidInputToken)),
            initializer.is_signer && token_program@ == old(state).token_address@ && mint@ != old(
                state,
            ).token_mint@ ==> r == Err::<(), ContractError>(
                ContractError::Port(PortError::InvalidTokenMint),
            ),
            initializer.is_signer && token_program@ == old(state).token_address@ && mint@ == old(
                state,
            ).token_mint@ ==> {
                &&& old(state).registry.requests@.len() >= LU_MAX_IDLE_REQUESTS_COUNT ==> r
                    == Err::<(), ContractError>(
                    ContractError::Port(PortError::TransferRequestsCountLimit),
                )
                &&& old(state).registry.requests@.len() < LU_MAX_IDLE_REQUESTS_COUNT && has_key(
                    old(state).registry.requests@,
                    request_id@,
                ) ==> r == Err::<(), ContractError>(
                    ContractError::Port(PortError::RequestIDIsAlreadyBeingProcessed),
                )
                &&& r is Ok <==> (old(state).registry.requests@.len() < LU_MAX_IDLE_REQUESTS_COUNT
                    && !has_key(old(state).registry.requests@, request_id@))
            },
            r is Err ==> *final(state) == *old(state),
            r is Ok ==> {
                &&& lookup(final(state).registry.requests@, request_id@) matches Some(q)
                    && q.amount == amount && q.origin_address@ == token_holder@
                    && q.destination_address@ == receiver@
                &&& lookup(final(state).registry.swap_status@, request_id@) == Some(
                    RequestStatus::New,
                )
                &&& queue_view(final(state).registry.requests_queue@) == queue_view(
                    old(state).registry.requests_queue@,
                ).push(request_id@)
                &&& final(state).registry.requests@ == old(state).registry.requests@.push(
                    (request_id@, lookup(final(state).registry.requests@, request_id@)->Some_0),
                )
                &&& forall|k: Seq<u8>|
                    k != request_id@ ==> #[trigger] lookup(final(state).registry.swap_status@, k)
                        == lookup(old(state).registry.swap_status@, k)
                &&& same_settings(*final(state), *old(state))
            },
    {
        if !initializer.is_signer {
            return Err(ContractError::Program(ProgramError::MissingRequiredSignature));
        }
        if !bytes_eq(token_program, state.token_address.as_slice()) {
            return Err(ContractError::Port(PortError::InvalidInputToken));
        }
        if !bytes_eq(mint, state.token_mint.as_slice()) {
            return Err(ContractError::Port(PortError::InvalidTokenMint));
        }
        match state.create_transfer_wrap_request(request_id, amount, token_holder, receiver) {
            Ok(()) => Ok(()),
            Err(e) => Err(ContractError::Port(e)),
        }
    }

    /// An oracle's inbound unlock; `mint` must be the bound token mint. On
    /// success the caller transfers the decoded amount from the vault to
    /// `recipient`.
    pub fn process_attach_value(
        state: &mut LUPortContract,
        initializer: &SignerInfo,
        mint: &[u8],
        byte_data: &Vec<u8>,
        recipient: &[u8],
    ) -> (r: Result<PortOperation, ContractError>)
        requires
            old(state).wf(),
        ensures
            final(state).wf(),
            !initializer.is_signer ==> r == Err::<PortOperation, ContractError>(
                ContractError::Program(ProgramError::MissingRequiredSignature),
            ),
            initializer.is_signer && !is_member(old(state).oracles@, initializer.key@) ==> r
                == Err::<PortOperation, ContractError>(
                ContractError::Port(PortError::AccessDenied),
            ),
            initializer.is_signer && is_member(old(state).oracles@, initializer.key@) && mint@ != old(
                state,
            ).token_mint@ ==> r == Err::<PortOperation, ContractError>(
                ContractError::Port(PortError::InvalidTokenMint),
            ),
            initializer.is_signer && is_member(old(state).oracles@, initializer.key@) && mint@ == old(
                state,
            ).token_mint@ ==> {
                &&& byte_data@.len() < PORT_OPERATION_LEN ==> r == Err::<
                    PortOperation,
                    ContractError,
                >(ContractError::Port(PortError::ByteArrayUnpackFailed))
                &&& byte_data@.len() >= PORT_OPERATION_LEN ==> ({
                    let (a, s, m, rc) = port_operation_of(byte_data@);
                    match attach_outcome(
                        old(state).registry.swap_status@,
                        a,
                        s,
                        rc,
                        UNLOCK_ACTION,
                        recipient@,
                    ) {
                        Ok(_) => r matches Ok(op) && operation_matches(op, byte_data@)
                            && final(state).registry.swap_status@ == old(
                            state,
                        ).registry.swap_status@.push((s, RequestStatus::Success)),
                        Err(e) => r == Err::<PortOperation, ContractError>(ContractError::Port(e)),
                    }
                })
            },
            r is Err ==> *final(state) == *old(state),
            final(state).registry.requests == old(state).registry.requests,
            final(state).registry.requests_queue == old(state).registry.requests_queue,
            same_settings(*final(state), *old(state)),
    {
        if !initializer.is_signer {
            return Err(ContractError::Program(ProgramError::MissingRequiredSignature));
        }
        if let Err(e) = validate_data_provider(&state.oracles, initializer.key.as_slice()) {
            return Err(ContractError::Port(e));
        }
        if !bytes_eq(mint, state.token_mint.as_slice()) {
            return Err(ContractError::Port(PortError::InvalidTokenMint));
        }
        match state.attach_data(byte_data, recipient) {
            Ok(op) => Ok(op),
            Err(e) => Err(ContractError::Port(e)),
        }
    }

    /// An oracle's confirmation that an outgoing request was delivered.
    /// `port_amount` is the payload's amount in base units.
    pub fn process_confirm_destination_chain_request(
        state: &mut LUPortContract,
        initializer: &SignerInfo,
        byte_data: &Vec<u8>,
        port_amount: u64,
    ) -> (r: Result<(), ContractError>)
        requires
            old(state).wf(),
        ensures
            final(state).wf(),
            !initializer.is_signer ==> r == Err::<(), ContractError>(
                ContractError::Program(ProgramError::MissingRequiredSignature),
            ),
            initializer.is_signer && !is_member(old(state).oracles@, initializer.key@) ==> r
                == Err::<(), ContractError>(ContractError::Port(PortError::AccessDenied)),
            initializer.is_signer && is_member(old(state).oracles@, initializer.key@) ==> {
                &&& byte_data@.len() < PORT_OPERATION_LEN ==> r == Err::<(), ContractError>(
                    ContractError::Port(PortError::ByteArrayUnpackFailed),
                )
                &&& byte_data@.len() >= PORT_OPERATION_LEN ==> ({
                    let (a, s, m, rc) = port_operation_of(byte_data@);
                    match confirm_outcome(
                        old(state).registry.swap_status@,
                        old(state).registry.requests@,
                        s,
                        rc,
                        port_amount,
                    ) {
                        Ok(_) => r is Ok && confirmed(old(state).registry, final(state).registry, s),
                        Err(e) => r == Err::<(), ContractError>(ContractError::Port(e)),
                    }
                })
            },
            r is Err ==> *final(state) == *old(state),
            same_settings(*final(state), *old(state)),
    {
        if !initializer.is_signer {
            return Err(ContractError::Program(ProgramError::MissingRequiredSignature));
        }
        if let Err(e) = validate_data_provider(&state.oracles, initializer.key.as_slice()) {
            return Err(ContractError::Port(e));
        }
        match state.drop_processed_request(byte_data, port_amount) {
            Ok(()) => Ok(()),
            Err(e) => Err(ContractError::Port(e)),
        }
    }
}

} // verus!
