use gravity_core::error::{ContractError, GravityError, NebulaError, PortError, ProgramError};
use gravity_core::fee::apply_fee_lamports;
use gravity_core::gravity::GravityProcessor;
use gravity_core::ibport::{IBPortContract, IBPortProcessor};
use gravity_core::luport::LUPortProcessor;
use gravity_core::multisig::{AccountView, MiscProcessor, SignerInfo, MULTISIG_LEN};
use gravity_core::nebula::{DataType, NebulaProcessor};
use gravity_core::pda::PDAResolver;
use gravity_core::codec::retrieve_oracles;
use gravity_core::error::ValidationError;
use gravity_core::port::{
    pack_port_operation, GenericRequest, PortOperation, PortOperationIdentifier, RequestRegistry, RequestStatus,
    MINT_ACTION, UNLOCK_ACTION,
};

fn key(b: u8) -> Vec<u8> {
    vec![b; 32]
}

fn signer(b: u8) -> SignerInfo {
    SignerInfo { key: key(b), is_signer: true }
}

fn empty_multisig() -> Vec<u8> {
    vec![0u8; MULTISIG_LEN]
}

const PROGRAM: u8 = 77;

/// The multisig account `key(200)`, owned by the program, holding `data`.
fn multisig_account(data: &[u8]) -> AccountView {
    AccountView { key: key(200), owner: key(PROGRAM), is_signer: false, data: data.to_vec() }
}

#[test]
fn gravity_init_and_update() {
    let (a, b, c, d) = (1u8, 2u8, 3u8, 4u8);
    let mut ms = empty_multisig();
    let mut g = GravityProcessor::process_init_contract(
        &signer(100),
        &[0u8; 299],
        &key(200),
        &mut ms,
        &vec![key(a), key(b), key(c)],
        0,
        3,
    )
    .unwrap();
    assert_eq!(g.bft, 3);
    assert_eq!(g.last_round, 0);
    assert_eq!(g.consuls, vec![key(a), key(b), key(c)]);
    assert_eq!(&ms[..3], &[3u8, 3, 1]);
    assert_eq!(&ms[3..35], &key(a)[..]);
    assert_eq!(&ms[67..99], &key(c)[..]);
    assert!(ms[99..].iter().all(|x| *x == 0));

    let all = vec![signer(a), signer(b), signer(c)];
    let r = GravityProcessor::process_update_consuls(
        &mut g,
        &signer(100),
        &key(PROGRAM),
        &multisig_account(&ms),
        &all,
        &vec![key(a), key(b), key(d)],
        1,
    );
    assert!(r.is_ok());
    assert_eq!(g.consuls, vec![key(a), key(b), key(d)]);
    assert_eq!(g.last_round, 1);

    let again = GravityProcessor::process_update_consuls(
        &mut g,
        &signer(100),
        &key(PROGRAM),
        &multisig_account(&ms),
        &all,
        &vec![key(a), key(b), key(d)],
        1,
    );
    assert_eq!(again, Err(ContractError::Gravity(GravityError::InputRoundMismatch)));

    let only_a = GravityProcessor::process_update_consuls(
        &mut g,
        &signer(100),
        &key(PROGRAM),
        &multisig_account(&ms),
        &vec![signer(a)],
        &vec![key(a)],
        2,
    );
    assert_eq!(only_a, Err(ContractError::Gravity(GravityError::InvalidBFTCount)));
    assert_eq!(g.last_round, 1);
}

#[test]
fn gravity_init_refuses_used_account() {
    let mut ms = empty_multisig();
    let mut data = [0u8; 299];
    data[5] = 1;
    let r = GravityProcessor::process_init_contract(&signer(1), &data, &key(2), &mut ms, &vec![key(3)], 0, 1);
    assert!(matches!(r, Err(ContractError::Program(ProgramError::AccountAlreadyInitialized))));
    let unsigned = SignerInfo { key: key(1), is_signer: false };
    let r = GravityProcessor::process_init_contract(&unsigned, &[0u8; 4], &key(2), &mut ms, &vec![key(3)], 0, 1);
    assert!(matches!(r, Err(ContractError::Program(ProgramError::MissingRequiredSignature))));
    assert_eq!(ms, empty_multisig());
}

fn initialized_multisig(m: u8, keys: &[Vec<u8>]) -> Vec<u8> {
    let mut ms = empty_multisig();
    MiscProcessor::process_init_multisig(&mut ms, &keys.to_vec(), m).unwrap();
    ms
}

#[test]
fn signer_positions_counted_once() {
    let ms = initialized_multisig(2, &[key(1), key(2), key(3)]);
    let owner = AccountView { key: key(9), owner: key(PROGRAM), is_signer: false, data: ms.clone() };
    // the same signer twice fills one position only
    let twice = vec![signer(1), signer(1)];
    assert_eq!(
        MiscProcessor::validate_owner(&key(PROGRAM), &key(9), &owner, &twice),
        Err(ProgramError::MissingRequiredSignature)
    );
    let not_signed = vec![signer(1), SignerInfo { key: key(2), is_signer: false }];
    assert_eq!(
        MiscProcessor::validate_owner(&key(PROGRAM), &key(9), &owner, &not_signed),
        Err(ProgramError::MissingRequiredSignature)
    );
    let two = vec![signer(3), signer(1)];
    assert_eq!(MiscProcessor::validate_owner(&key(PROGRAM), &key(9), &owner, &two), Ok(()));
    assert_eq!(
        MiscProcessor::validate_owner(&key(PROGRAM), &key(8), &owner, &two),
        Err(ProgramError::OwnerMismatch)
    );
    // an account that is not a multisig of this program must sign itself
    let plain = AccountView { key: key(9), owner: key(1), is_signer: true, data: ms.clone() };
    assert_eq!(MiscProcessor::validate_owner(&key(PROGRAM), &key(9), &plain, &vec![]), Ok(()));
    let unsigned = AccountView { key: key(9), owner: key(1), is_signer: false, data: ms.clone() };
    assert_eq!(
        MiscProcessor::validate_owner(&key(PROGRAM), &key(9), &unsigned, &two),
        Err(ProgramError::MissingRequiredSignature)
    );
    let fresh = AccountView { key: key(9), owner: key(PROGRAM), is_signer: true, data: empty_multisig() };
    assert_eq!(
        MiscProcessor::validate_owner(&key(PROGRAM), &key(9), &fresh, &two),
        Err(ProgramError::UninitializedAccount)
    );
}

#[test]
fn multisig_init_errors() {
    let mut ms = empty_multisig();
    assert_eq!(
        MiscProcessor::process_init_multisig(&mut ms, &vec![], 1),
        Err(ProgramError::InvalidNumberOfProvidedSigners)
    );
    assert_eq!(
        MiscProcessor::process_init_multisig(&mut ms, &vec![key(1)], 12),
        Err(ProgramError::InvalidNumberOfRequiredSigners)
    );
    assert_eq!(MiscProcessor::process_init_multisig(&mut ms, &vec![key(1)], 1), Ok(()));
    assert_eq!(
        MiscProcessor::process_init_multisig(&mut ms, &vec![key(1)], 1),
        Err(ProgramError::MultisigAlreadyInUse)
    );
    let mut short = vec![0u8; 10];
    assert_eq!(
        MiscProcessor::process_init_multisig(&mut short, &vec![key(1)], 1),
        Err(ProgramError::InvalidAccountData)
    );
    assert_eq!(MiscProcessor::multisig_signers(&ms).unwrap(), vec![key(1)]);
    assert_eq!(MiscProcessor::multisig_signers(&empty_multisig()), Err(ProgramError::UninitializedAccount));
}

#[test]
fn nebula_pulse_dispatch() {
    let oracle = 1u8;
    let mut ms = empty_multisig();
    let mut n = NebulaProcessor::process_init_contract(
        &signer(50),
        &[0u8; 64],
        &key(60),
        &mut ms,
        DataType::Bytes,
        &key(70),
        &vec![key(oracle)],
        1,
    )
    .unwrap();
    let pda = key(80);
    let sub = vec![9u8; 16];
    NebulaProcessor::process_subscription(&mut n, &signer(51), &pda, 1, 10, &sub).unwrap();
    assert_eq!(
        NebulaProcessor::process_subscription(&mut n, &signer(51), &pda, 1, 10, &sub),
        Err(ContractError::Nebula(NebulaError::SubscribeFailed))
    );

    let value = vec![42u8; 64];
    let h = solana_program::hash::hash(&value).to_bytes().to_vec();
    let owner = AccountView { key: key(60), owner: key(PROGRAM), is_signer: false, data: ms.clone() };
    assert_eq!(n.last_pulse_id, 0);
    NebulaProcessor::process_send_hash_value(&mut n, &signer(oracle), &key(PROGRAM), &owner, &vec![signer(oracle)], &h)
        .unwrap();
    assert_eq!(n.last_pulse_id, 1);
    assert_eq!(n.pulses_map.get(&h), Some(&1u64));

    let data = NebulaProcessor::process_send_value_to_subs(&mut n, &signer(oracle), &ms, &value, 0, &sub, &pda)
        .unwrap();
    assert_eq!(data[0], 2);
    assert_eq!(&data[1..], &value[..]);
    assert!(!n.pulses_map.contains_key(&h));

    assert_eq!(
        NebulaProcessor::process_send_value_to_subs(&mut n, &signer(oracle), &ms, &value, 0, &sub, &pda),
        Err(ContractError::Nebula(NebulaError::PulseIDHasNotBeenPersisted))
    );
    assert_eq!(
        NebulaProcessor::process_send_value_to_subs(&mut n, &signer(oracle), &ms, &value, 1, &sub, &pda),
        Err(ContractError::Nebula(NebulaError::PulseValidationOrderMismatch))
    );
    assert_eq!(
        NebulaProcessor::process_send_value_to_subs(&mut n, &signer(oracle), &ms, &value, 0, &vec![1u8; 16], &pda),
        Err(ContractError::Nebula(NebulaError::InvalidSubscriptionID))
    );
    assert_eq!(
        NebulaProcessor::process_send_value_to_subs(&mut n, &signer(oracle), &ms, &value, 0, &sub, &key(81)),
        Err(ContractError::Nebula(NebulaError::InvalidSubscriptionProgramID))
    );
    assert_eq!(
        NebulaProcessor::process_send_value_to_subs(&mut n, &signer(2), &ms, &value, 0, &sub, &pda),
        Err(ContractError::Nebula(NebulaError::DataProviderForSendValueToSubsIsInvalid))
    );
    assert!(n.unsubscribe(&sub).is_err());
}

#[test]
fn nebula_update_oracles_round() {
    let mut ms = empty_multisig();
    let mut n = NebulaProcessor::process_init_contract(
        &signer(50), &[0u8; 8], &key(60), &mut ms, DataType::Int64, &key(70), &vec![key(1), key(2)], 2,
    )
    .unwrap();
    let some = AccountView { key: key(60), owner: key(PROGRAM), is_signer: false, data: ms.clone() };
    let both = vec![signer(1), signer(2)];
    assert!(NebulaProcessor::process_update_oracles(&mut n, &signer(50), &key(PROGRAM), &some, &both, &vec![key(3)], 4).is_ok());
    assert_eq!(n.last_round, 4);
    assert_eq!(n.oracles, vec![key(3)]);
    assert_eq!(
        NebulaProcessor::process_update_oracles(&mut n, &signer(50), &key(PROGRAM), &some, &both, &vec![key(3)], 4),
        Err(ContractError::Gravity(GravityError::InputRoundMismatch))
    );
    assert_eq!(
        NebulaProcessor::process_update_oracles(&mut n, &signer(50), &key(PROGRAM), &some, &vec![signer(1)], &vec![key(3)], 5),
        Err(ContractError::Program(ProgramError::MissingRequiredSignature))
    );
}

fn ib_port(oracle: u8) -> IBPortContract {
    IBPortProcessor::process_init_contract(&signer(10), &[0u8; 32], &key(20), &key(21), &key(22), &vec![key(oracle)])
        .unwrap()
}

fn payload(action: u8, swap: u8, amount: &[u8], receiver: u8) -> Vec<u8> {
    pack_port_operation(&PortOperation {
        action,
        swap_id: vec![swap; 16],
        amount: amount.to_vec(),
        receiver: key(receiver),
    })
}

#[test]
fn ib_mint_happy_path_and_double_mint() {
    let oracle = 5u8;
    let mut port = ib_port(oracle);
    let amount = 1e8f64.to_le_bytes();
    let data = payload(MINT_ACTION, 7, &amount, 33);
    assert!(port.registry.swap_status.len() == 0);
    let op = IBPortProcessor::process_attach_value(&mut port, &signer(oracle), &key(21), &data, &key(33)).unwrap();
    assert_eq!(op.amount, amount.to_vec());
    assert_eq!(f64::from_le_bytes(op.amount.clone().try_into().unwrap()), 1e8);
    assert_eq!(port.registry.swap_status.get(&[7u8; 16]), Some(&RequestStatus::Success));

    assert_eq!(
        IBPortProcessor::process_attach_value(&mut port, &signer(oracle), &key(21), &data, &key(33)).err(),
        Some(ContractError::Port(PortError::InvalidRequestStatus))
    );
}

#[test]
fn ib_attach_refusals() {
    let oracle = 5u8;
    let mut port = ib_port(oracle);
    let amount = 1e8f64.to_le_bytes();
    let data = payload(MINT_ACTION, 7, &amount, 33);
    assert_eq!(
        IBPortProcessor::process_attach_value(&mut port, &signer(6), &key(21), &data, &key(33)).err(),
        Some(ContractError::Port(PortError::AccessDenied))
    );
    assert_eq!(
        IBPortProcessor::process_attach_value(&mut port, &signer(oracle), &key(21), &payload(UNLOCK_ACTION, 7, &amount, 33), &key(33)).err(),
        Some(ContractError::Port(PortError::InvalidDataOnAttach))
    );
    assert_eq!(
        IBPortProcessor::process_attach_value(&mut port, &signer(oracle), &key(21), &data, &key(34)).err(),
        Some(ContractError::Port(PortError::ErrorOnReceiverUnpack))
    );
    assert_eq!(
        IBPortProcessor::process_attach_value(&mut port, &signer(oracle), &key(21), &data[..56].to_vec(), &key(33)).err(),
        Some(ContractError::Port(PortError::ByteArrayUnpackFailed))
    );
    assert_eq!(
        IBPortProcessor::process_attach_value(&mut port, &signer(oracle), &key(99), &data, &key(33)).err(),
        Some(ContractError::Port(PortError::InvalidTokenMint))
    );
    assert_eq!(port.registry.swap_status.len(), 0);
    let mut empty_oracles = IBPortProcessor::process_init_contract(&signer(10), &[0u8; 4], &key(20), &key(21), &key(22), &vec![]).unwrap();
    assert_eq!(
        IBPortProcessor::process_attach_value(&mut empty_oracles, &signer(oracle), &key(21), &data, &key(33)).err(),
        Some(ContractError::Port(PortError::AccessDenied))
    );
}

#[test]
fn ib_create_and_confirm() {
    let oracle = 5u8;
    let mut port = ib_port(oracle);
    let request = [0x59u8; 16];
    let receiver = key(70);
    let holder = key(71);
    let base_units = 100_000_000u64;
    IBPortProcessor::process_create_transfer_unwrap_request(
        &mut port, &signer(10), &key(20), &key(21), &holder, &request, base_units, &receiver,
    )
    .unwrap();
    let req = port.registry.requests.get(&request).unwrap();
    assert_eq!(req.destination_address, receiver);
    assert_eq!(req.origin_address, holder);
    assert_eq!(req.amount, 100_000_000);
    assert_eq!(port.registry.requests_queue, vec![request.to_vec()]);
    assert_eq!(port.registry.swap_status.get(&request), Some(&RequestStatus::New));

    let confirm = payload(b'c', 0x59, &1.0f64.to_le_bytes(), 70);
    assert_eq!(
        IBPortProcessor::process_confirm_destination_chain_request(&mut port, &signer(oracle), &confirm, base_units),
        Err(ContractError::Port(PortError::RequestStatusMismatch))
    );
    assert_eq!(port.registry.requests.len(), 1);

    port.registry.set_status(1000, &request, RequestStatus::Success);
    assert_eq!(
        IBPortProcessor::process_confirm_destination_chain_request(&mut port, &signer(oracle), &confirm, base_units + 1),
        Err(ContractError::Port(PortError::RequestAmountMismatch))
    );
    let wrong_receiver = payload(b'c', 0x59, &1.0f64.to_le_bytes(), 71);
    assert_eq!(
        IBPortProcessor::process_confirm_destination_chain_request(&mut port, &signer(oracle), &wrong_receiver, base_units),
        Err(ContractError::Port(PortError::RequestReceiverMismatch))
    );
    assert_eq!(
        IBPortProcessor::process_confirm_destination_chain_request(&mut port, &signer(oracle), &confirm, base_units),
        Ok(())
    );
    assert_eq!(port.registry.requests.len(), 0);
    assert_eq!(port.registry.swap_status.len(), 0);
    assert!(port.registry.requests_queue.is_empty());

    assert_eq!(
        IBPortProcessor::process_confirm_destination_chain_request(&mut port, &signer(oracle), &confirm, base_units),
        Err(ContractError::Port(PortError::RequestIDForConfirmationIsInvalid))
    );
}

#[test]
fn ib_create_refusals() {
    let mut port = ib_port(5);
    let request = [1u8; 16];
    assert_eq!(
        IBPortProcessor::process_create_transfer_unwrap_request(&mut port, &signer(10), &key(99), &key(21), &key(1), &request, 5, &key(2)),
        Err(ContractError::Port(PortError::InvalidInputToken))
    );
    assert_eq!(
        IBPortProcessor::process_create_transfer_unwrap_request(&mut port, &signer(10), &key(20), &key(99), &key(1), &request, 5, &key(2)),
        Err(ContractError::Port(PortError::InvalidTokenMint))
    );
    assert!(IBPortProcessor::process_create_transfer_unwrap_request(&mut port, &signer(10), &key(20), &key(21), &key(1), &request, 5, &key(2)).is_ok());
    assert_eq!(
        IBPortProcessor::process_create_transfer_unwrap_request(&mut port, &signer(10), &key(20), &key(21), &key(1), &request, 5, &key(2)),
        Err(ContractError::Port(PortError::RequestIDIsAlreadyBeingProcessed))
    );
}

fn request_id(i: u32) -> Vec<u8> {
    let mut id = vec![0u8; 16];
    id[..4].copy_from_slice(&i.to_le_bytes());
    id
}

#[test]
fn ib_queue_cap() {
    let mut port = ib_port(5);
    for i in 0..1000u32 {
        IBPortProcessor::process_create_transfer_unwrap_request(
            &mut port, &signer(10), &key(20), &key(21), &key(1), &request_id(i), 1, &key(2),
        )
        .unwrap();
    }
    assert_eq!(port.registry.requests_queue.len(), 1000);
    assert_eq!(
        IBPortProcessor::process_create_transfer_unwrap_request(
            &mut port, &signer(10), &key(20), &key(21), &key(1), &request_id(1000), 1, &key(2),
        ),
        Err(ContractError::Port(PortError::TransferRequestsCountLimit))
    );
}

#[test]
fn lu_queue_cap_and_unlock() {
    let mut port = LUPortProcessor::process_init_contract(&signer(10), &[0u8; 8], &key(20), &key(21), &key(22), &vec![key(5)])
        .unwrap();
    for i in 0..100u32 {
        LUPortProcessor::process_create_transfer_unwrap_request(
            &mut port, &signer(10), &key(20), &key(21), &key(1), &request_id(i), 1, &key(2),
        )
        .unwrap();
    }
    assert_eq!(
        LUPortProcessor::process_create_transfer_unwrap_request(
            &mut port, &signer(10), &key(20), &key(21), &key(1), &request_id(100), 1, &key(2),
        ),
        Err(ContractError::Port(PortError::TransferRequestsCountLimit))
    );
    let data = payload(UNLOCK_ACTION, 3, &2.0f64.to_le_bytes(), 40);
    assert!(LUPortProcessor::process_attach_value(&mut port, &signer(5), &key(21), &data, &key(40)).is_ok());
    assert_eq!(
        LUPortProcessor::process_attach_value(&mut port, &signer(5), &key(21), &payload(MINT_ACTION, 4, &[0u8; 8], 40), &key(40)).err(),
        Some(ContractError::Port(PortError::InvalidDataOnAttach))
    );
}

#[test]
fn ib_transfer_token_ownership() {
    let mut port = ib_port(5);
    IBPortProcessor::process_transfer_ownership(&mut port, &signer(5), &[0u8; 32]).unwrap();
    assert_eq!(port.token_address, key(20));
    IBPortProcessor::process_transfer_ownership(&mut port, &signer(5), &key(44)).unwrap();
    assert_eq!(port.token_address, key(44));
    assert_eq!(
        IBPortProcessor::process_transfer_ownership(&mut port, &signer(6), &key(45)),
        Err(ContractError::Port(PortError::AccessDenied))
    );
}

#[test]
fn fee_split() {
    assert_eq!(apply_fee_lamports(10_000_000_000_000_000, 8), (9_990_000_000_000_000, 10_000_000_000_000));
    assert_eq!(apply_fee_lamports(100_000_000_000, 3), (99_900_000_000, 100_000_000));
    assert_eq!(apply_fee_lamports(1_0000, 4), (9_990, 10));
    assert_eq!(apply_fee_lamports(999, 8), (999, 0));
    assert_eq!(apply_fee_lamports(1999, 8), (1998, 1));
    let (a, f) = apply_fee_lamports(u64::MAX, 18);
    assert_eq!(a + f, u64::MAX);
    assert_eq!(f, u64::MAX / 1000);
}

#[test]
fn statuses_types_and_seeds() {
    assert_eq!(RequestStatus::from_u8(1), Some(RequestStatus::New));
    assert_eq!(RequestStatus::from_u8(3), Some(RequestStatus::Success));
    assert_eq!(RequestStatus::from_u8(4), None);
    assert_eq!(DataType::cast_from(1), DataType::String);
    assert_eq!(DataType::cast_from(2), DataType::Bytes);
    assert_eq!(PDAResolver::IBPort.bump_seeds(), b"ibport".to_vec());
    assert_eq!(PDAResolver::LUPort.bump_seeds(), b"luport".to_vec());
    assert_eq!(PDAResolver::Gravity.bump_seeds(), b"gravity".to_vec());
    assert_eq!(GravityError::InputRoundMismatch.code(), 2);
}

#[test]
fn registry_restore() {
    let req = |d: u8| GenericRequest { destination_address: key(d), origin_address: key(d + 1), amount: d as u64 };
    let requests = vec![(vec![1u8; 16], req(10)), (vec![2u8; 16], req(20))];
    let statuses = vec![(vec![1u8; 16], RequestStatus::Success), (vec![3u8; 16], RequestStatus::Success)];
    let g = RequestRegistry::restore(1000, &requests, &statuses).unwrap();
    assert_eq!(g.requests_queue, vec![vec![1u8; 16], vec![2u8; 16]]);
    assert_eq!(g.swap_status.get(&[1u8; 16]), Some(&RequestStatus::Success));
    assert_eq!(g.swap_status.get(&[2u8; 16]), Some(&RequestStatus::New));
    assert_eq!(g.swap_status.get(&[3u8; 16]), Some(&RequestStatus::Success));
    assert_eq!(g.requests.get(&[2u8; 16]).unwrap().amount, 20);
    assert_eq!(g.swap_status.key_at(2), &vec![3u8; 16]);
    let second = g.requests.value_at(1);
    assert_eq!((second.destination_address.clone(), second.amount), (key(20), 20));
    // over capacity, a repeated id, or a New status without a request are refused
    assert!(RequestRegistry::restore(1, &requests, &vec![]).is_none());
    let repeated = vec![(vec![1u8; 16], req(10)), (vec![1u8; 16], req(20))];
    assert!(RequestRegistry::restore(10, &repeated, &vec![]).is_none());
    assert!(RequestRegistry::restore(10, &vec![], &vec![(vec![4u8; 16], RequestStatus::New)]).is_none());
}

#[test]
fn operation_identifiers() {
    assert_eq!(PortOperationIdentifier::MINT, b'm');
    assert_eq!(PortOperationIdentifier::UNLOCK, b'u');
    assert_eq!(PortOperationIdentifier::CONFIRM, b'c');
}

#[test]
fn oracles_from_range() {
    let mut bytes = vec![9u8];
    bytes.extend_from_slice(&key(1));
    bytes.extend_from_slice(&key(2));
    assert_eq!(retrieve_oracles(&bytes, 1..65, 2).unwrap(), vec![key(1), key(2)]);
    assert_eq!(retrieve_oracles(&bytes, 1..65, 3), Err(ValidationError::ExtractionError));
    assert_eq!(retrieve_oracles(&bytes, 1..66, 1), Err(ValidationError::ExtractionError));
}
