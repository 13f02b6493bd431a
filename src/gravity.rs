//! The Gravity authority: a consul set under a BFT threshold and a round
//! counter that only grows.
use vstd::prelude::*;
use crate::codec::{all_keys_sized, all_zero, clone_bytes, clone_keys, is_contract_empty, keys_view};
use crate::error::{ContractError, GravityError, ProgramError};
use crate::multisig::{
    init_multisig_outcome, initialized_multisig, owner_accepts, AccountView, MiscProcessor,
    SignerInfo,
};

verus! {

/// Size of a Gravity data account.
pub const GRAVITY_CONTRACT_LEN: usize = 299;

/// State of one Gravity deployment.
pub struct GravityContract {
    pub initializer_pubkey: Vec<u8>,
    pub bft: u8,
    pub consuls: Vec<Vec<u8>>,
    pub last_round: u64,
    pub multisig_account: Vec<u8>,
    pub is_state_initialized: bool,
}

pub struct GravityProcessor;

/// Refuses a non-empty account.
pub fn validate_contract_emptiness(target_contract: &[u8]) -> (r: Result<(), ProgramError>)
    ensures
        r is Ok <==> all_zero(target_contract@),
        r is Err ==> r == Err::<(), ProgramError>(ProgramError::AccountAlreadyInitialized),
{
    if !is_contract_empty(target_contract) {
        return Err(ProgramError::AccountAlreadyInitialized);
    }
    Ok(())
}

/// Refuses an empty account.
pub fn validate_contract_non_emptiness(target_contract: &[u8]) -> (r: Result<(), ProgramError>)
    ensures
        r is Ok <==> !all_zero(target_contract@),
        r is Err ==> r == Err::<(), ProgramError>(ProgramError::UninitializedAccount),
{
    if is_contract_empty(target_contract) {
        return Err(ProgramError::UninitializedAccount);
    }
    Ok(())
}

impl GravityProcessor {
    /// Creates the Gravity state: the initializer must sign, the data account
    /// must be empty, and the bound multisig account, given as its data, gets
    /// threshold `bft` over `new_consuls`.
    pub fn process_init_contract(
        initializer: &SignerInfo,
        contract_data: &[u8],
        multisig_key: &[u8],
        multisig_data: &mut Vec<u8>,
        new_consuls: &Vec<Vec<u8>>,
        current_round: u64,
        bft: u8,
    ) -> (r: Result<GravityContract, ContractError>)
        requires
            all_keys_sized(keys_view(new_consuls@)),
        ensures
            !initializer.is_signer ==> r == Err::<GravityContract, ContractError>(
                ContractError::Program(ProgramError::MissingRequiredSignature),
            ),
            initializer.is_signer && !all_zero(contract_data@) ==> r == Err::<
                GravityContract,
                ContractError,
            >(ContractError::Program(ProgramError::AccountAlreadyInitialized)),
            initializer.is_signer && all_zero(contract_data@) ==> match init_multisig_outcome(
                old(multisig_data)@,
                new_consuls@.len(),
                bft,
            ) {
                Ok(_) => r is Ok,
                Err(e) => r == Err::<GravityContract, ContractError>(ContractError::Program(e)),
            },
            r is Err ==> *final(multisig_data) == *old(multisig_data),
            r matches Ok(g) ==> {
                &&& g.initializer_pubkey@ == initializer.key@
                &&& g.bft == bft
                &&& keys_view(g.consuls@) == keys_view(new_consuls@)
                &&& g.last_round == current_round
                &&& g.multisig_account@ == multisig_key@
                &&& g.is_state_initialized
                &&& final(multisig_data)@ == initialized_multisig(
                    old(multisig_data)@,
                    keys_view(new_consuls@),
                    bft,
                )
            },
    {
        if !initializer.is_signer {
            return Err(ContractError::Program(ProgramError::MissingRequiredSignature));
        }
        if let Err(e) = validate_contract_emptiness(contract_data) {
            return Err(ContractError::Program(e));
        }
        if let Err(e) = MiscProcessor::process_init_multisig(multisig_data, new_consuls, bft) {
            return Err(ContractError::Program(e));
        }
        Ok(GravityContract {
            initializer_pubkey: clone_bytes(initializer.key.as_slice()),
            bft,
            consuls: clone_keys(new_consuls),
            last_round: current_round,
            multisig_account: clone_bytes(multisig_key),
            is_state_initialized: true,
        })
    }

    /// Replaces the consul set. The initializer must sign, the state must be
    /// initialized, the bound multisig account (`multisig`, of program
    /// `program_id`) must be satisfied by `signers`, and `current_round` must
    /// exceed the last round.
    pub fn process_update_consuls(
        state: &mut GravityContract,
        initializer: &SignerInfo,
        program_id: &[u8],
        multisig: &AccountView,
        signers: &Vec<SignerInfo>,
        new_consuls: &Vec<Vec<u8>>,
        current_round: u64,
    ) -> (r: Result<(), ContractError>)
        ensures
            !initializer.is_signer ==> r == Err::<(), ContractError>(
                ContractError::Program(ProgramError::MissingRequiredSignature),
            ),
            initializer.is_signer && !old(state).is_state_initialized ==> r == Err::<
                (),
                ContractError,
            >(ContractError::Program(ProgramError::UninitializedAccount)),
            initializer.is_signer && old(state).is_state_initialized && !owner_accepts(
                program_id@,
                old(state).multisig_account@,
                *multisig,
                signers@,
            ) ==> r == Err::<(), ContractError>(
                ContractError::Gravity(GravityError::InvalidBFTCount),
            ),
            initializer.is_signer && old(state).is_state_initialized && owner_accepts(
                program_id@,
                old(state).multisig_account@,
                *multisig,
                signers@,
            ) && current_round <= old(state).last_round ==> r == Err::<(), ContractError>(
                ContractError::Gravity(GravityError::InputRoundMismatch),
            ),
            r is Err ==> *final(state) == *old(state),
            r is Ok <==> (initializer.is_signer && old(state).is_state_initialized && owner_accepts(
                program_id@,
                old(state).multisig_account@,
                *multisig,
                signers@,
            ) && current_round > old(state).last_round),
            r is Ok ==> {
                &&& final(state).last_round == current_round
                &&& final(state).last_round > old(state).last_round
                &&& keys_view(final(state).consuls@) == keys_view(new_consuls@)
                &&& final(state).initializer_pubkey == old(state).initializer_pubkey
                &&& final(state).bft == old(state).bft
                &&& final(state).multisig_account == old(state).multisig_account
                &&& final(state).is_state_initialized
            },
    {
        if !initializer.is_signer {
            return Err(ContractError::Program(ProgramError::MissingRequiredSignature));
        }
        if !state.is_state_initialized {
            return Err(ContractError::Program(ProgramError::UninitializedAccount));
        }
        let v = MiscProcessor::validate_owner(
            program_id,
            state.multisig_account.as_slice(),
            multisig,
            signers,
        );
        if v.is_err() {
            return Err(ContractError::Gravity(GravityError::InvalidBFTCount));
        }
        if current_round <= state.last_round {
            return Err(ContractError::Gravity(GravityError::InputRoundMismatch));
        }
        state.last_round = current_round;
        state.consuls = clone_keys(new_consuls);
        Ok(())
    }
}

} // verus!
