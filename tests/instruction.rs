use gravity_core::codec::{build_range_from_alloc, extract_from_range, is_contract_empty, read_u64_le, write_u64_le};
use gravity_core::error::{GravityError, NebulaError, PortError, ValidationError};
use gravity_core::gravity_instruction::{self, GravityContractInstruction};
use gravity_core::ibport_instruction::{self, IBPortContractInstruction};
use gravity_core::luport_instruction::{self, LUPortContractInstruction};
use gravity_core::nebula::DataType;
use gravity_core::nebula_instruction::{self, NebulaContractInstruction};
use gravity_core::port::{pack_port_operation, unpack_port_operation, PortOperation};
use gravity_core::subscriber::{attach_value_accounts, AccountRole, SubscriberInstruction};

#[test]
fn instruction_test_build_from_range_alloc() {
    let allocs = vec![1, 1, 32 * 3, 8];

    let ranges = build_range_from_alloc(&allocs);

    assert_eq!(ranges.len(), allocs.len());
    assert_eq!(ranges[0], 0..1);
    assert_eq!(ranges[1], 1..1 + 1);
    assert_eq!(ranges[2], 1 + 1..1 + 1 + (32 * 3));
    assert_eq!(ranges[3], 1 + 1 + (32 * 3)..1 + 1 + (32 * 3) + 8);
}

#[test]
fn instruction_test_bft_extraction() {
    let input: [u8; 1] = u8::to_le_bytes(3);
    let extracted = extract_from_range(&input, 0..1).unwrap();
    assert_eq!(extracted, vec![3u8]);
}

#[test]
fn extract_out_of_range_fails() {
    let input = [1u8, 2, 3];
    assert_eq!(extract_from_range(&input, 2..4), Err(ValidationError::ExtractionError));
    assert_eq!(extract_from_range(&input, 1..3).unwrap(), vec![2u8, 3]);
}

#[test]
fn empty_ranges_for_no_allocs() {
    assert!(build_range_from_alloc(&vec![]).is_empty());
}

#[test]
fn contract_emptiness() {
    assert!(is_contract_empty(&[0u8; 16]));
    assert!(is_contract_empty(&[]));
    assert!(!is_contract_empty(&[0u8, 0, 1]));
}

#[test]
fn u64_little_endian() {
    let mut out = vec![9u8];
    write_u64_le(&mut out, 0x0102_0304_0506_0708);
    assert_eq!(out, vec![9u8, 8, 7, 6, 5, 4, 3, 2, 1]);
    assert_eq!(read_u64_le(&out, 1), 0x0102_0304_0506_0708);
    assert_eq!(read_u64_le(&u64::MAX.to_le_bytes(), 0), u64::MAX);
}

fn key(b: u8) -> Vec<u8> {
    vec![b; 32]
}

#[test]
fn gravity_instruction_round_trip() {
    let ix = GravityContractInstruction::UpdateConsuls {
        new_consuls: vec![key(1), key(2), key(4)],
        current_round: 77,
        bft: 3,
    };
    let bytes = ix.pack();
    assert_eq!(bytes.len(), 10 + 96);
    assert_eq!(bytes[0], 1);
    assert_eq!(bytes[1], 3);
    assert_eq!(&bytes[2..10], &77u64.to_le_bytes());
    match GravityContractInstruction::unpack(&bytes).unwrap() {
        GravityContractInstruction::UpdateConsuls { new_consuls, current_round, bft } => {
            assert_eq!(new_consuls, vec![key(1), key(2), key(4)]);
            assert_eq!(current_round, 77);
            assert_eq!(bft, 3);
        }
        _ => panic!("wrong variant"),
    }
    assert!(matches!(
        GravityContractInstruction::unpack(&bytes[..bytes.len() - 1]),
        Err(GravityError::InvalidInstruction)
    ));
    let mut bad = bytes.clone();
    bad[0] = 2;
    assert!(matches!(GravityContractInstruction::unpack(&bad), Err(GravityError::InvalidInstruction)));
}

#[test]
fn gravity_allocation() {
    assert_eq!(gravity_instruction::allocation_by_instruction_index(0, 3).unwrap(), vec![1, 8, 96]);
    assert_eq!(
        gravity_instruction::allocation_by_instruction_index(2, 3),
        Err(GravityError::InvalidInstructionIndex)
    );
}

#[test]
fn nebula_allocation() {
    assert_eq!(nebula_instruction::allocation_by_instruction_index(1, 2).unwrap(), vec![1, 64, 8]);
    assert_eq!(nebula_instruction::allocation_by_instruction_index(3, 0).unwrap(), vec![64, 1, 8, 16]);
    assert_eq!(nebula_instruction::allocation_by_instruction_index(5, 0).unwrap(), vec![16]);
    assert_eq!(
        nebula_instruction::allocation_by_instruction_index(6, 0),
        Err(NebulaError::InvalidInstructionIndex)
    );
    assert_eq!(
        nebula_instruction::allocation_by_instruction_index(9, 0),
        Err(NebulaError::InvalidInstructionIndex)
    );
}

#[test]
fn port_allocation() {
    assert_eq!(ibport_instruction::allocation_by_instruction_index(1, 0).unwrap(), vec![8, 32, 16]);
    assert_eq!(ibport_instruction::allocation_by_instruction_index(0, 2).unwrap(), vec![32, 32, 1, 64]);
    assert_eq!(
        ibport_instruction::allocation_by_instruction_index(5, 0),
        Err(PortError::InvalidInstructionIndex)
    );
    assert_eq!(luport_instruction::allocation_by_instruction_index(0, 1).unwrap(), vec![32, 32, 32, 1, 32]);
}

#[test]
fn nebula_instruction_round_trips() {
    let ixs = vec![
        NebulaContractInstruction::InitContract {
            nebula_data_type: DataType::Bytes,
            gravity_contract_program_id: key(7),
            initial_oracles: vec![key(1), key(2)],
            oracles_bft: 2,
        },
        NebulaContractInstruction::UpdateOracles { new_oracles: vec![key(3)], new_round: 5, oracles_bft: 1 },
        NebulaContractInstruction::SendHashValue { data_hash: vec![0xAB; 64] },
        NebulaContractInstruction::SendValueToSubs {
            data_value: vec![0xCD; 64],
            data_type: DataType::String,
            pulse_id: 12,
            subscription_id: vec![4; 16],
        },
        NebulaContractInstruction::Subscribe {
            address: key(9),
            min_confirmations: 3,
            reward: 1000,
            subscription_id: vec![5; 16],
        },
    ];
    let lens = [35 + 64, 10 + 32, 65, 90, 58];
    for (ix, len) in ixs.iter().zip(lens.iter()) {
        let bytes = ix.pack();
        assert_eq!(bytes.len(), *len);
        let back = NebulaContractInstruction::unpack(&bytes).unwrap();
        assert_eq!(back.pack(), bytes);
    }
    let mut bad = ixs[3].pack();
    bad[65] = 3;
    assert!(matches!(NebulaContractInstruction::unpack(&bad), Err(GravityError::InvalidInstruction)));
}

#[test]
fn port_instruction_round_trips() {
    let ixs = vec![
        IBPortContractInstruction::InitContract { nebula_address: key(1), token_address: key(2), oracles: vec![key(3)] },
        IBPortContractInstruction::CreateTransferUnwrapRequest {
            amount: 1.5f64.to_le_bytes().to_vec(),
            receiver: key(4),
            request_id: vec![6; 16],
        },
        IBPortContractInstruction::AttachValue { byte_data: vec![1, 2, 3] },
        IBPortContractInstruction::ConfirmDestinationChainRequest { byte_data: vec![] },
        IBPortContractInstruction::TransferTokenOwnership { new_authority: key(5), new_token: key(0) },
    ];
    for ix in ixs.iter() {
        let bytes = ix.pack();
        let back = IBPortContractInstruction::unpack(&bytes).unwrap();
        assert_eq!(back.pack(), bytes);
    }
    let lu = LUPortContractInstruction::InitContract {
        nebula_address: key(1),
        token_address: key(2),
        token_mint: key(8),
        oracles: vec![key(3), key(4)],
    };
    let bytes = lu.pack();
    assert_eq!(bytes.len(), 98 + 64);
    assert_eq!(bytes[97], 2);
    assert_eq!(LUPortContractInstruction::unpack(&bytes).unwrap().pack(), bytes);
    assert!(matches!(LUPortContractInstruction::unpack(&[4u8; 70]), Err(GravityError::InvalidInstruction)));
}

#[test]
fn port_operation_round_trip() {
    let op = PortOperation { action: b'm', swap_id: vec![1; 16], amount: vec![2; 8], receiver: key(3) };
    let bytes = pack_port_operation(&op);
    assert_eq!(bytes.len(), 57);
    let back = unpack_port_operation(&bytes).unwrap();
    assert_eq!(back.action, b'm');
    assert_eq!(back.swap_id, vec![1; 16]);
    assert_eq!(back.amount, vec![2; 8]);
    assert_eq!(back.receiver, key(3));
    assert!(matches!(unpack_port_operation(&bytes[..56]), Err(PortError::ByteArrayUnpackFailed)));
}

#[test]
fn subscriber_instruction_codec() {
    let ix = SubscriberInstruction::AttachValue { byte_data: vec![7, 8] };
    assert_eq!(ix.pack(), vec![2u8, 7, 8]);
    match SubscriberInstruction::unpack(&[2u8, 7, 8]).unwrap() {
        SubscriberInstruction::AttachValue { byte_data } => assert_eq!(byte_data, vec![7u8, 8]),
    }
    assert!(matches!(SubscriberInstruction::unpack(&[]), Err(PortError::InvalidInstructionIndex)));
    assert!(matches!(SubscriberInstruction::unpack(&[3u8]), Err(PortError::InvalidInstructionIndex)));
}

#[test]
fn attach_value_account_list() {
    let extra = vec![AccountRole { key: key(9), is_signer: false, is_writable: true }];
    let roles = attach_value_accounts(&key(1), &key(2), &key(3), &key(4), &key(5), &key(6), &vec![key(7)], &extra);
    let got: Vec<(Vec<u8>, bool, bool)> = roles.iter().map(|r| (r.key.clone(), r.is_signer, r.is_writable)).collect();
    assert_eq!(
        got,
        vec![
            (key(1), true, false),
            (key(2), false, true),
            (key(3), false, false),
            (key(4), false, true),
            (key(5), false, true),
            (key(6), false, false),
            (key(7), true, false),
            (key(9), false, true),
        ]
    );
}
