//! The Nebula oracle: subscriptions, and pulses whose hash is committed
//! first and whose value is released to one subscriber one step later.
use vstd::prelude::*;
use crate::codec::{
    all_keys_sized, all_zero, bytes_eq, clone_bytes, clone_keys, is_contract_empty, keys_at,
    keys_view,
};
use crate::error::{ContractError, GravityError, NebulaError, ProgramError};
use crate::multisig::{
    checked_positions, init_multisig_outcome, initialized_multisig, multisig_readable,
    owner_accepts, owner_error, AccountView, MiscProcessor, SignerInfo,
};
use crate::port::is_member;
use crate::records::{has_key, index_of, lemma_index_of, lemma_remove_keeps_others, lookup, RecordHandler};
use crate::subscriber::{attach_value_data, ATTACH_VALUE_INSTRUCTION_INDEX};

verus! {

/// Size of a Nebula data account.
pub const NEBULA_CONTRACT_LEN: usize = 1500;

/// Kind of value a Nebula publishes.
#[derive(Debug, Clone, Copy, PartialEq, Eq, Structural)]
pub enum DataType {
    Int64,
    String,
    Bytes,
}

impl DataType {
    /// The data type with wire code `i`.
    pub fn cast_from(i: u8) -> (r: DataType)
        requires
            i <= 2,
        ensures
            i == 0 ==> r == DataType::Int64,
            i == 1 ==> r == DataType::String,
            i == 2 ==> r == DataType::Bytes,
    {
        match i {
            0 => DataType::Int64,
            1 => DataType::String,
            _ => DataType::Bytes,
        }
    }
}

/// A registered receiver of released values.
pub struct Subscription {
    pub sender: Vec<u8>,
    pub contract_address: Vec<u8>,
    pub min_confirmations: u8,
    pub reward: u64,
}

/// A committed data hash.
pub struct Pulse {
    pub data_hash: Vec<u8>,
}

/// State of one Nebula deployment. Pulses map a data hash to its pulse id.
pub struct NebulaContract {
    pub oracles: Vec<Vec<u8>>,
    pub bft: u8,
    pub multisig_account: Vec<u8>,
    pub gravity_contract: Vec<u8>,
    pub data_type: DataType,
    pub last_round: u64,
    pub last_pulse_id: u64,
    pub subscriptions_map: RecordHandler<Subscription>,
    pub pulses_map: RecordHandler<u64>,
    pub is_state_initialized: bool,
    pub initializer_pubkey: Vec<u8>,
}

/// The SHA-256 digest of `data`.
pub uninterp spec fn sha256_of(data: Seq<u8>) -> Seq<u8>;

/// Relies on solana_program::hash::hash: the SHA-256 digest of the bytes,
/// 32 bytes long and a function of the bytes alone.
#[verifier::external_body]
fn sha256(data: &[u8]) -> (r: Vec<u8>)
    ensures
        r@ == sha256_of(data@),
        r@.len() == 32,
{
    solana_program::hash::hash(data).to_bytes().to_vec()
}

/// `key` is among the first `n` signers of the multisig account in `data`.
pub open spec fn oracle_signed(data: Seq<u8>, key: Seq<u8>) -> bool {
    keys_at(data, 3, checked_positions(data) as nat).contains(key)
}

/// What releasing a value whose hash is `data_hash` to subscription
/// `subscription_id` at `pulse_id` yields, given the accounts' check passed.
pub open spec fn release_outcome(
    last_pulse_id: u64,
    subscriptions: Seq<(Seq<u8>, Subscription)>,
    pulses: Seq<(Seq<u8>, u64)>,
    pulse_id: u64,
    subscription_id: Seq<u8>,
    pda: Seq<u8>,
    data_hash: Seq<u8>,
) -> Result<(), NebulaError> {
    if last_pulse_id == 0 || pulse_id != last_pulse_id - 1 {
        Err(NebulaError::PulseValidationOrderMismatch)
    } else if !has_key(subscriptions, subscription_id) {
        Err(NebulaError::InvalidSubscriptionID)
    } else if lookup(subscriptions, subscription_id)->Some_0.contract_address@ != pda {
        Err(NebulaError::InvalidSubscriptionProgramID)
    } else if !has_key(pulses, data_hash) {
        Err(NebulaError::PulseIDHasNotBeenPersisted)
    } else {
        Ok(())
    }
}

/// A copy of a subscription.
pub fn clone_subscription(s: &Subscription) -> (r: Subscription)
    ensures
        r.sender@ == s.sender@,
        r.contract_address@ == s.contract_address@,
        r.min_confirmations == s.min_confirmations,
        r.reward == s.reward,
{
    Subscription {
        sender: clone_bytes(s.sender.as_slice()),
        contract_address: clone_bytes(s.contract_address.as_slice()),
        min_confirmations: s.min_confirmations,
        reward: s.reward,
    }
}

/// The Nebula's bindings, oracle set and round: everything but its
/// subscriptions and pulses.
pub open spec fn same_settings(a: NebulaContract, b: NebulaContract) -> bool {
    &&& a.oracles == b.oracles
    &&& a.bft == b.bft
    &&& a.multisig_account == b.multisig_account
    &&& a.gravity_contract == b.gravity_contract
    &&& a.data_type == b.data_type
    &&& a.last_round == b.last_round
    &&& a.is_state_initialized == b.is_state_initialized
    &&& a.initializer_pubkey == b.initializer_pubkey
}

impl NebulaContract {
    pub open spec fn wf(&self) -> bool {
        &&& self.subscriptions_map.wf()
        &&& self.pulses_map.wf()
    }

    /// Commits `data_hash` as pulse `last_pulse_id + 1`, which becomes the
    /// last pulse id.
    pub fn add_pulse(&mut self, data_hash: Vec<u8>, last_pulse_id: u64) -> (r: Result<(), NebulaError>)
        requires
            old(self).wf(),
            last_pulse_id < u64::MAX,
        ensures
            final(self).wf(),
            r is Ok,
            final(self).last_pulse_id == last_pulse_id + 1,
            lookup(final(self).pulses_map@, data_hash@) == Some((last_pulse_id + 1) as u64),
            forall|h: Seq<u8>|
                h != data_hash@ ==> lookup(final(self).pulses_map@, h) == lookup(
                    old(self).pulses_map@,
                    h,
                ),
            final(self).subscriptions_map == old(self).subscriptions_map,
            same_settings(*final(self), *old(self)),
    {
        let new_pulse_id = last_pulse_id + 1;
        let ghost p0 = self.pulses_map@;
        let ghost key = data_hash@;
        self.pulses_map.insert(data_hash, new_pulse_id);
        self.last_pulse_id = new_pulse_id;
        proof {
            let p = self.pulses_map@;
            lemma_index_of(p0, key);
            lemma_index_of(p, key);
            if has_key(p0, key) {
                assert(p[index_of(p0, key)].0 == key);
            } else {
                assert(p[p.len() - 1].0 == key);
            }
            assert forall|h: Seq<u8>| h != key implies lookup(p, h) == lookup(p0, h) by {
                lemma_index_of(p0, h);
                lemma_index_of(p, h);
                if has_key(p0, h) {
                    assert(p[index_of(p0, h)].0 == h);
                }
                if has_key(p, h) {
                    assert(p0[index_of(p, h)].0 == h);
                }
            }
        }
        Ok(())
    }

    /// Unsubscribing is not offered.
    pub fn unsubscribe(&mut self, _subscription_id: &[u8]) -> (r: Result<(), NebulaError>)
        ensures
            r == Err::<(), NebulaError>(NebulaError::UnsubscribeIsNotAvailable),
            *final(self) == *old(self),
    {
        Err(NebulaError::UnsubscribeIsNotAvailable)
    }

    /// Registers a subscription under a fresh id.
    pub fn subscribe(
        &mut self,
        sender: &[u8],
        contract_address: &[u8],
        min_confirmations: u8,
        reward: u64,
        subscription_id: &[u8],
    ) -> (r: Result<(), NebulaError>)
        requires
            old(self).wf(),
        ensures
            final(self).wf(),
            has_key(old(self).subscriptions_map@, subscription_id@) ==> r == Err::<
                (),
                NebulaError,
            >(NebulaError::SubscribeFailed),
            r is Ok <==> !has_key(old(self).subscriptions_map@, subscription_id@),
            r is Err ==> *final(self) == *old(self),
            r is Ok ==> final(self).subscriptions_map@.len() == old(self).subscriptions_map@.len()
                + 1 && final(self).subscriptions_map@.last().0 == subscription_id@
                && final(self).subscriptions_map@.last().1.contract_address@ == contract_address@
                && final(self).subscriptions_map@.last().1.sender@ == sender@
                && final(self).subscriptions_map@.last().1.min_confirmations == min_confirmations
                && final(self).subscriptions_map@.last().1.reward == reward
                && final(self).subscriptions_map@.drop_last() == old(self).subscriptions_map@,
            final(self).pulses_map == old(self).pulses_map,
            final(self).last_pulse_id == old(self).last_pulse_id,
            same_settings(*final(self), *old(self)),
    {
        if self.subscriptions_map.contains_key(subscription_id) {
            return Err(NebulaError::SubscribeFailed);
        }
        let ghost s0 = self.subscriptions_map@;
        let subscription = Subscription {
            sender: clone_bytes(sender),
            contract_address: clone_bytes(contract_address),
            min_confirmations,
            reward,
        };
        self.subscriptions_map.insert(clone_bytes(subscription_id), subscription);
        assert(self.subscriptions_map@.drop_last() =~= s0);
        Ok(())
    }

    /// Ok iff `data_provider` is one of the keys.
    pub fn validate_data_provider(multisig_owner_keys: &Vec<Vec<u8>>, data_provider: &[u8]) -> (r: Result<(), NebulaError>)
        ensures
            r is Ok <==> is_member(multisig_owner_keys@, data_provider@),
            r is Err ==> r == Err::<(), NebulaError>(
                NebulaError::DataProviderForSendValueToSubsIsInvalid,
            ),
    {
        match crate::port::validate_data_provider(multisig_owner_keys, data_provider) {
            Ok(()) => Ok(()),
            Err(_) => Err(NebulaError::DataProviderForSendValueToSubsIsInvalid),
        }
    }

    /// Removes the pulse committed under `data_hash`.
    pub fn drop_pulse(&mut self, data_hash: &[u8]) -> (r: Result<(), NebulaError>)
        requires
            old(self).wf(),
        ensures
            final(self).wf(),
            r is Ok <==> has_key(old(self).pulses_map@, data_hash@),
            r is Err ==> r == Err::<(), NebulaError>(NebulaError::PulseIDHasNotBeenPersisted),
            r is Err ==> *final(self) == *old(self),
            r is Ok ==> final(self).pulses_map@ == old(self).pulses_map@.remove(
                index_of(old(self).pulses_map@, data_hash@),
            ),
            final(self).subscriptions_map == old(self).subscriptions_map,
            final(self).last_pulse_id == old(self).last_pulse_id,
            same_settings(*final(self), *old(self)),
    {
        match self.pulses_map.drop(data_hash) {
            Some(_) => Ok(()),
            None => Err(NebulaError::PulseIDHasNotBeenPersisted),
        }
    }

    /// Removes the pulse whose hash is the SHA-256 digest of `raw_data_value`.
    pub fn drop_processed_pulse(&mut self, raw_data_value: &Vec<u8>) -> (r: Result<(), NebulaError>)
        requires
            old(self).wf(),
        ensures
            final(self).wf(),
            r is Ok <==> has_key(old(self).pulses_map@, sha256_of(raw_data_value@)),
            r is Err ==> r == Err::<(), NebulaError>(NebulaError::PulseIDHasNotBeenPersisted),
            r is Err ==> *final(self) == *old(self),
            r is Ok ==> final(self).pulses_map@ == old(self).pulses_map@.remove(
                index_of(old(self).pulses_map@, sha256_of(raw_data_value@)),
            ),
            final(self).subscriptions_map == old(self).subscriptions_map,
            final(self).last_pulse_id == old(self).last_pulse_id,
            same_settings(*final(self), *old(self)),
    {
        let hashed = sha256(raw_data_value.as_slice());
        self.drop_pulse(hashed.as_slice())
    }

    /// The subscription that receives the value of `pulse_id`, which must be
    /// the pulse before the last one.
    pub fn send_value_to_subs(&self, pulse_id: u64, subscription_id: &[u8]) -> (r: Result<Subscription, NebulaError>)
        requires
            self.wf(),
        ensures
            (self.last_pulse_id == 0 || pulse_id != self.last_pulse_id - 1) ==> r == Err::<
                Subscription,
                NebulaError,
            >(NebulaError::PulseValidationOrderMismatch),
            (self.last_pulse_id > 0 && pulse_id == self.last_pulse_id - 1) ==> match lookup(
                self.subscriptions_map@,
                subscription_id@,
            ) {
                None => r == Err::<Subscription, NebulaError>(NebulaError::InvalidSubscriptionID),
                Some(s) => r matches Ok(t) && t.contract_address@ == s.contract_address@
                    && t.sender@ == s.sender@ && t.min_confirmations == s.min_confirmations
                    && t.reward == s.reward,
            },
    {
        if self.last_pulse_id == 0 || pulse_id != self.last_pulse_id - 1 {
            return Err(NebulaError::PulseValidationOrderMismatch);
        }
        match self.subscriptions_map.get(subscription_id) {
            Some(v) => Ok(clone_subscription(v)),
            None => Err(NebulaError::InvalidSubscriptionID),
        }
    }
}

pub struct NebulaProcessor;

impl NebulaProcessor {
    /// Creates the Nebula state: the initializer must sign, the data account
    /// must be empty, and the bound multisig account gets threshold `bft`
    /// over the initial oracles.
    pub fn process_init_contract(
        initializer: &SignerInfo,
        contract_data: &[u8],
        multisig_key: &[u8],
        multisig_data: &mut Vec<u8>,
        data_type: DataType,
        gravity_contract: &[u8],
        initial_oracles: &Vec<Vec<u8>>,
        oracles_bft: u8,
    ) -> (r: Result<NebulaContract, ContractError>)
        requires
            all_keys_sized(keys_view(initial_oracles@)),
        ensures
            !initializer.is_signer ==> r == Err::<NebulaContract, ContractError>(
                ContractError::Program(ProgramError::MissingRequiredSignature),
            ),
            initializer.is_signer && !all_zero(contract_data@) ==> r == Err::<
                NebulaContract,
                ContractError,
            >(ContractError::Program(ProgramError::AccountAlreadyInitialized)),
            initializer.is_signer && all_zero(contract_data@) ==> match init_multisig_outcome(
                old(multisig_data)@,
                initial_oracles@.len(),
                oracles_bft,
            ) {
                Ok(_) => r is Ok,
                Err(e) => r == Err::<NebulaContract, ContractError>(ContractError::Program(e)),
            },
            r is Err ==> *final(multisig_data) == *old(multisig_data),
            r matches Ok(c) ==> {
                &&& c.wf()
                &&& c.initializer_pubkey@ == initializer.key@
                &&& c.bft == oracles_bft
                &&& c.data_type == data_type
                &&& keys_view(c.oracles@) == keys_view(initial_oracles@)
                &&& c.gravity_contract@ == gravity_contract@
                &&& c.multisig_account@ == multisig_key@
                &&& c.last_round == 0
                &&& c.last_pulse_id == 0
                &&& c.subscriptions_map@.len() == 0
                &&& c.pulses_map@.len() == 0
                &&& c.is_state_initialized
                &&& final(multisig_data)@ == initialized_multisig(
                    old(multisig_data)@,
                    keys_view(initial_oracles@),
                    oracles_bft,
                )
            },
    {
        if !initializer.is_signer {
            return Err(ContractError::Program(ProgramError::MissingRequiredSignature));
        }
        if !is_contract_empty(contract_data) {
            return Err(ContractError::Program(ProgramError::AccountAlreadyInitialized));
        }
        if let Err(e) = MiscProcessor::process_init_multisig(multisig_data, initial_oracles, oracles_bft) {
            return Err(ContractError::Program(e));
        }
        Ok(
            NebulaContract {
                oracles: clone_keys(initial_oracles),
                bft: oracles_bft,
                multisig_account: clone_bytes(multisig_key),
                gravity_contract: clone_bytes(gravity_contract),
                data_type,
                last_round: 0,
                last_pulse_id: 0,
                subscriptions_map: RecordHandler::new(),
                pulses_map: RecordHandler::new(),
                is_state_initialized: true,
                initializer_pubkey: clone_bytes(initializer.key.as_slice()),
            },
        )
    }

    /// Replaces the oracle set, under the bound multisig account and with a
    /// round above the last one.
    pub fn process_update_oracles(
        state: &mut NebulaContract,
        initializer: &SignerInfo,
        program_id: &[u8],
        multisig: &AccountView,
        signers: &Vec<SignerInfo>,
        new_oracles: &Vec<Vec<u8>>,
        new_round: u64,
    ) -> (r: Result<(), ContractError>)
        ensures
            !initializer.is_signer ==> r == Err::<(), ContractError>(
                ContractError::Program(ProgramError::MissingRequiredSignature),
            ),
            initializer.is_signer && !old(state).is_state_initialized ==> r == Err::<
                (),
                ContractError,
            >(ContractError::Program(ProgramError::UninitializedAccount)),
            initializer.is_signer && old(state).is_state_initialized && !owner_accepts(
                program_id@,
                old(state).multisig_account@,
                *multisig,
                signers@,
            ) ==> r == Err::<(), ContractError>(
                ContractError::Program(owner_error(program_id@, old(state).multisig_account@, *multisig)),
            ),
            r is Ok <==> (initializer.is_signer && old(state).is_state_initialized && owner_accepts(
                program_id@,
                old(state).multisig_account@,
                *multisig,
                signers@,
            ) && new_round > old(state).last_round),
            initializer.is_signer && old(state).is_state_initialized && owner_accepts(
                program_id@,
                old(state).multisig_account@,
                *multisig,
                signers@,
            ) && new_round <= old(state).last_round ==> r == Err::<(), ContractError>(
                ContractError::Gravity(GravityError::InputRoundMismatch),
            ),
            r is Err ==> *final(state) == *old(state),
            r is Ok ==> {
                &&& final(state).last_round == new_round
                &&& final(state).last_round > old(state).last_round
                &&& keys_view(final(state).oracles@) == keys_view(new_oracles@)
                &&& final(state).pulses_map == old(state).pulses_map
                &&& final(state).subscriptions_map == old(state).subscriptions_map
                &&& final(state).last_pulse_id == old(state).last_pulse_id
                &&& final(state).multisig_account == old(state).multisig_account
                &&& final(state).bft == old(state).bft
                &&& final(state).gravity_contract == old(state).gravity_contract
                &&& final(state).data_type == old(state).data_type
                &&& final(state).initializer_pubkey == old(state).initializer_pubkey
                &&& final(state).is_state_initialized == old(state).is_state_initialized
            },
    {
        if !initializer.is_signer {
            return Err(ContractError::Program(ProgramError::MissingRequiredSignature));
        }
        if !state.is_state_initialized {
            return Err(ContractError::Program(ProgramError::UninitializedAccount));
        }
        if let Err(e) = MiscProcessor::validate_owner(
            program_id,
            state.multisig_account.as_slice(),
            multisig,
            signers,
        ) {
            return Err(ContractError::Program(e));
        }
        if new_round <= state.last_round {
            return Err(ContractError::Gravity(GravityError::InputRoundMismatch));
        }
        state.last_round = new_round;
        state.oracles = clone_keys(new_oracles);
        Ok(())
    }

    /// An oracle commits `data_hash` as the next pulse, under the bound
    /// multisig account (`multisig`, of program `program_id`).
    pub fn process_send_hash_value(
        state: &mut NebulaContract,
        initializer: &SignerInfo,
        program_id: &[u8],
        multisig: &AccountView,
        signers: &Vec<SignerInfo>,
        data_hash: &[u8],
    ) -> (r: Result<(), ContractError>)
        requires
            old(state).wf(),
            old(state).last_pulse_id < u64::MAX,
        ensures
            final(state).wf(),
            !initializer.is_signer ==> r == Err::<(), ContractError>(
                ContractError::Program(ProgramError::MissingRequiredSignature),
            ),
            initializer.is_signer && !old(state).is_state_initialized ==> r == Err::<
                (),
                ContractError,
            >(ContractError::Program(ProgramError::UninitializedAccount)),
            initializer.is_signer && old(state).is_state_initialized && !owner_accepts(
                program_id@,
                old(state).multisig_account@,
                *multisig,
                signers@,
            ) ==> r == Err::<(), ContractError>(
                ContractError::Program(owner_error(program_id@, old(state).multisig_account@, *multisig)),
            ),
            r is Ok <==> (initializer.is_signer && old(state).is_state_initialized && owner_accepts(
                program_id@,
                old(state).multisig_account@,
                *multisig,
                signers@,
            )),
            r is Err ==> *final(state) == *old(state),
            r is Ok ==> {
                &&& final(state).last_pulse_id == old(state).last_pulse_id + 1
                &&& lookup(final(state).pulses_map@, data_hash@) == Some(final(state).last_pulse_id)
                &&& forall|h: Seq<u8>|
                    h != data_hash@ ==> lookup(final(state).pulses_map@, h) == lookup(
                        old(state).pulses_map@,
                        h,
                    )
                &&& final(state).subscriptions_map == old(state).subscriptions_map
                &&& same_settings(*final(state), *old(state))
            },
    {
        if !initializer.is_signer {
            return Err(ContractError::Program(ProgramError::MissingRequiredSignature));
        }
        if !state.is_state_initialized {
            return Err(ContractError::Program(ProgramError::UninitializedAccount));
        }
        if let Err(e) = MiscProcessor::validate_owner(
            program_id,
            state.multisig_account.as_slice(),
            multisig,
            signers,
        ) {
            return Err(ContractError::Program(e));
        }
        let last = state.last_pulse_id;
        match state.add_pulse(clone_bytes(data_hash), last) {
            Ok(()) => Ok(()),
            Err(e) => Err(ContractError::Nebula(e)),
        }
    }

    /// Releases a value whose digest is `data_hash` to a subscriber: the
    /// caller must be one of the multisig's signers, the pulse must be the one
    /// before the last, the subscription must exist and name `pda`, and the
    /// hash must be committed. The committed pulse is removed, and the
    /// instruction data for the subscriber's `AttachValue` is handed back.
    pub fn release_value(
        state: &mut NebulaContract,
        initializer: &SignerInfo,
        multisig_data: &[u8],
        data_value: &Vec<u8>,
        data_hash: &[u8],
        pulse_id: u64,
        subscription_id: &[u8],
        pda: &[u8],
    ) -> (r: Result<Vec<u8>, ContractError>)
        requires
            old(state).wf(),
        ensures
            final(state).wf(),
            !initializer.is_signer ==> r == Err::<Vec<u8>, ContractError>(
                ContractError::Program(ProgramError::MissingRequiredSignature),
            ),
            initializer.is_signer && !multisig_readable(multisig_data@) ==> r == Err::<
                Vec<u8>,
                ContractError,
            >(ContractError::Program(ProgramError::InvalidAccountData)),
            initializer.is_signer && multisig_readable(multisig_data@) && multisig_data@[2] == 0 ==> r
                == Err::<Vec<u8>, ContractError>(
                ContractError::Program(ProgramError::UninitializedAccount),
            ),
            initializer.is_signer && multisig_readable(multisig_data@) && multisig_data@[2] == 1
                && !oracle_signed(multisig_data@, initializer.key@) ==> r == Err::<
                Vec<u8>,
                ContractError,
            >(ContractError::Nebula(NebulaError::DataProviderForSendValueToSubsIsInvalid)),
            initializer.is_signer && multisig_readable(multisig_data@) && multisig_data@[2] == 1
                && oracle_signed(multisig_data@, initializer.key@) ==> match release_outcome(
                old(state).last_pulse_id,
                old(state).subscriptions_map@,
                old(state).pulses_map@,
                pulse_id,
                subscription_id@,
                pda@,
                data_hash@,
            ) {
                Ok(_) => r matches Ok(d) && d@ == seq![ATTACH_VALUE_INSTRUCTION_INDEX] + data_value@
                    && final(state).pulses_map@ == old(state).pulses_map@.remove(
                    index_of(old(state).pulses_map@, data_hash@),
                ),
                Err(e) => r == Err::<Vec<u8>, ContractError>(ContractError::Nebula(e)),
            },
            r is Err ==> *final(state) == *old(state),
            final(state).subscriptions_map == old(state).subscriptions_map,
            final(state).last_pulse_id == old(state).last_pulse_id,
            same_settings(*final(state), *old(state)),
    {
        if !initializer.is_signer {
            return Err(ContractError::Program(ProgramError::MissingRequiredSignature));
        }
        let oracles = match MiscProcessor::multisig_signers(multisig_data) {
            Ok(ks) => ks,
            Err(e) => {
                return Err(ContractError::Program(e));
            },
        };
        proof {
            let key = initializer.key@;
            let ks = keys_at(multisig_data@, 3, checked_positions(multisig_data@) as nat);
            if is_member(oracles@, key) {
                let i = choose|i: int| 0 <= i < oracles@.len() && oracles@[i]@ == key;
                assert(keys_view(oracles@)[i] == oracles@[i]@);
                assert(ks[i] == key);
            }
            if ks.contains(key) {
                let i = choose|i: int| 0 <= i < ks.len() && ks[i] == key;
                assert(keys_view(oracles@)[i] == oracles@[i]@);
            }
        }
        if let Err(e) = NebulaContract::validate_data_provider(&oracles, initializer.key.as_slice()) {
            return Err(ContractError::Nebula(e));
        }
        let subscription = match state.send_value_to_subs(pulse_id, subscription_id) {
            Ok(s) => s,
            Err(e) => {
                return Err(ContractError::Nebula(e));
            },
        };
        if !bytes_eq(pda, subscription.contract_address.as_slice()) {
            return Err(ContractError::Nebula(NebulaError::InvalidSubscriptionProgramID));
        }
        if let Err(e) = state.drop_pulse(data_hash) {
            return Err(ContractError::Nebula(e));
        }
        Ok(attach_value_data(data_value))
    }

    /// Releases `data_value` to a subscriber, its pulse found by the SHA-256
    /// digest of the value; otherwise as `release_value`.
    pub fn process_send_value_to_subs(
        state: &mut NebulaContract,
        initializer: &SignerInfo,
        multisig_data: &[u8],
        data_value: &Vec<u8>,
        pulse_id: u64,
        subscription_id: &[u8],
        pda: &[u8],
    ) -> (r: Result<Vec<u8>, ContractError>)
        requires
            old(state).wf(),
        ensures
            final(state).wf(),
            !initializer.is_signer ==> r == Err::<Vec<u8>, ContractError>(
                ContractError::Program(ProgramError::MissingRequiredSignature),
            ),
            initializer.is_signer && !multisig_readable(multisig_data@) ==> r == Err::<
                Vec<u8>,
                ContractError,
            >(ContractError::Program(ProgramError::InvalidAccountData)),
            initializer.is_signer && multisig_readable(multisig_data@) && multisig_data@[2] == 0 ==> r
                == Err::<Vec<u8>, ContractError>(
                ContractError::Program(ProgramError::UninitializedAccount),
            ),
            initializer.is_signer && multisig_readable(multisig_data@) && multisig_data@[2] == 1
                && !oracle_signed(multisig_data@, initializer.key@) ==> r == Err::<
                Vec<u8>,
                ContractError,
            >(ContractError::Nebula(NebulaError::DataProviderForSendValueToSubsIsInvalid)),
            initializer.is_signer && multisig_readable(multisig_data@) && multisig_data@[2] == 1
                && oracle_signed(multisig_data@, initializer.key@) ==> match release_outcome(
                old(state).last_pulse_id,
                old(state).subscriptions_map@,
                old(state).pulses_map@,
                pulse_id,
                subscription_id@,
                pda@,
                sha256_of(data_value@),
            ) {
                Ok(_) => r matches Ok(d) && d@ == seq![ATTACH_VALUE_INSTRUCTION_INDEX] + data_value@
                    && final(state).pulses_map@ == old(state).pulses_map@.remove(
                    index_of(old(state).pulses_map@, sha256_of(data_value@)),
                ),
                Err(e) => r == Err::<Vec<u8>, ContractError>(ContractError::Nebula(e)),
            },
            r is Err ==> *final(state) == *old(state),
            final(state).subscriptions_map == old(state).subscriptions_map,
            final(state).last_pulse_id == old(state).last_pulse_id,
            same_settings(*final(state), *old(state)),
    {
        let hashed = sha256(data_value.as_slice());
        Self::release_value(
            state,
            initializer,
            multisig_data,
            data_value,
            hashed.as_slice(),
            pulse_id,
            subscription_id,
            pda,
        )
    }

    /// Registers the caller's subscription.
    pub fn process_subscription(
        state: &mut NebulaContract,
        initializer: &SignerInfo,
        subscriber_address: &[u8],
        min_confirmations: u8,
        reward: u64,
        subscription_id: &[u8],
    ) -> (r: Result<(), ContractError>)
        requires
            old(state).wf(),
        ensures
            final(state).wf(),
            !initializer.is_signer ==> r == Err::<(), ContractError>(
                ContractError::Program(ProgramError::MissingRequiredSignature),
            ),
            initializer.is_signer && has_key(old(state).subscriptions_map@, subscription_id@) ==> r
                == Err::<(), ContractError>(ContractError::Nebula(NebulaError::SubscribeFailed)),
            r is Ok <==> initializer.is_signer && !has_key(
                old(state).subscriptions_map@,
                subscription_id@,
            ),
            r is Err ==> *final(state) == *old(state),
            r is Ok ==> final(state).subscriptions_map@.last().0 == subscription_id@
                && final(state).subscriptions_map@.last().1.contract_address@ == subscriber_address@
                && final(state).subscriptions_map@.last().1.sender@ == initializer.key@
                && final(state).subscriptions_map@.drop_last() == old(state).subscriptions_map@,
            final(state).pulses_map == old(state).pulses_map,
            final(state).last_pulse_id == old(state).last_pulse_id,
            same_settings(*final(state), *old(state)),
    {
        if !initializer.is_signer {
            return Err(ContractError::Program(ProgramError::MissingRequiredSignature));
        }
        match state.subscribe(
            initializer.key.as_slice(),
            subscriber_address,
            min_confirmations,
            reward,
            subscription_id,
        ) {
            Ok(()) => Ok(()),
            Err(e) => Err(ContractError::Nebula(e)),
        }
    }
}

/// A released value cannot be released again: once a release of a value
/// with digest `data_hash` was accepted and its pulse removed, the same
/// release is refused because the pulse is no longer persisted.
pub proof fn lemma_pulse_released_once(
    before: NebulaContract,
    after: NebulaContract,
    pulse_id: u64,
    subscription_id: Seq<u8>,
    pda: Seq<u8>,
    data_hash: Seq<u8>,
)
    requires
        before.wf(),
        release_outcome(
            before.last_pulse_id,
            before.subscriptions_map@,
            before.pulses_map@,
            pulse_id,
            subscription_id,
            pda,
            data_hash,
        ) is Ok,
        after.pulses_map@ == before.pulses_map@.remove(index_of(before.pulses_map@, data_hash)),
        after.subscriptions_map == before.subscriptions_map,
        after.last_pulse_id == before.last_pulse_id,
    ensures
        release_outcome(
            after.last_pulse_id,
            after.subscriptions_map@,
            after.pulses_map@,
            pulse_id,
            subscription_id,
            pda,
            data_hash,
        ) == Err::<(), NebulaError>(NebulaError::PulseIDHasNotBeenPersisted),
{
    let other = data_hash.push(0u8);
    assert(other.len() != data_hash.len());
    lemma_remove_keeps_others(before.pulses_map@, data_hash, other);
}

/// An accepted release names the pulse committed just before the last one:
/// the last pulse id is `pulse_id + 1`, and the value's hash was committed.
pub proof fn lemma_release_follows_commit(
    state: NebulaContract,
    pulse_id: u64,
    subscription_id: Seq<u8>,
    pda: Seq<u8>,
    data_hash: Seq<u8>,
)
    requires
        release_outcome(
            state.last_pulse_id,
            state.subscriptions_map@,
            state.pulses_map@,
            pulse_id,
            subscription_id,
            pda,
            data_hash,
        ) is Ok,
    ensures
        state.last_pulse_id == pulse_id + 1,
        has_key(state.pulses_map@, data_hash),
{
}

} // verus!
