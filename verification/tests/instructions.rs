use ore_pool::error::ProgramError;
use ore_pool::instruction::{
    certify_data, initialize, submit_data, AccountMeta, CertifyArgs, ClaimArgs, InitializeArgs,
    Instruction, PoolInstruction, SubmitArgs,
};
use ore_pool::program::{process_claim, process_initialize, CLAIM_ACCOUNTS, INITIALIZE_ACCOUNTS};

fn counting(from: u8, len: usize) -> Vec<u8> {
    (0..len).map(|i| from.wrapping_add(i as u8)).collect()
}

#[test]
fn tags() {
    assert_eq!(PoolInstruction::Certify.to_vec(), vec![100]);
    assert_eq!(PoolInstruction::Initialize.to_vec(), vec![101]);
    assert_eq!(PoolInstruction::Submit.to_vec(), vec![102]);
    assert_eq!(PoolInstruction::Certify.to_u8(), 100);
    assert_eq!(PoolInstruction::Initialize.to_u8(), 101);
    assert_eq!(PoolInstruction::Submit.to_u8(), 102);
}

#[test]
fn tags_are_read_back() {
    for number in 0..=255u8 {
        let expected = match number {
            100 => Some(PoolInstruction::Certify),
            101 => Some(PoolInstruction::Initialize),
            102 => Some(PoolInstruction::Submit),
            _ => None,
        };
        assert_eq!(PoolInstruction::try_from_primitive(number), expected);
        if let Some(instruction) = expected {
            assert_eq!(instruction.to_u8(), number);
        }
    }
}

#[test]
fn certify_args_layout() {
    let data = counting(1, 56);
    let args = CertifyArgs::try_from_bytes(&data).unwrap();
    assert_eq!(args.digest.to_vec(), counting(1, 16));
    assert_eq!(args.nonce.to_vec(), counting(17, 8));
    assert_eq!(args.signature.to_vec(), counting(25, 32));
    assert_eq!(args.to_bytes(), data);
    assert_eq!(CertifyArgs::SIZE, 56);
}

#[test]
fn submit_args_layout() {
    let data = counting(1, 57);
    let args = SubmitArgs::try_from_bytes(&data).unwrap();
    assert_eq!(args.attestation.to_vec(), counting(1, 32));
    assert_eq!(args.batch_bump, 33);
    assert_eq!(args.digest.to_vec(), counting(34, 16));
    assert_eq!(args.nonce.to_vec(), counting(50, 8));
    assert_eq!(args.to_bytes(), data);
    assert_eq!(SubmitArgs::SIZE, 57);
}

#[test]
fn initialize_args_layout() {
    let args = InitializeArgs::try_from_bytes(&[253]).unwrap();
    assert_eq!(args, InitializeArgs { pool_bump: 253 });
    assert_eq!(args.to_bytes(), vec![253]);
    assert_eq!(InitializeArgs::SIZE, 1);
}

#[test]
fn claim_args_layout() {
    let args = ClaimArgs::try_from_bytes(&5000u64.to_le_bytes()).unwrap();
    assert_eq!(args, ClaimArgs { amount: 5000u64.to_le_bytes() });
    assert_eq!(args.to_bytes(), 5000u64.to_le_bytes().to_vec());
    assert_eq!(ClaimArgs::SIZE, 8);
}

#[test]
fn records_of_another_length_are_refused() {
    for len in [0usize, 55, 57, 100] {
        assert_eq!(
            CertifyArgs::try_from_bytes(&vec![0; len]),
            Err(ProgramError::InvalidInstructionData)
        );
    }
    for len in [0usize, 56, 58] {
        assert_eq!(
            SubmitArgs::try_from_bytes(&vec![0; len]),
            Err(ProgramError::InvalidInstructionData)
        );
    }
    for len in [0usize, 2] {
        assert_eq!(
            InitializeArgs::try_from_bytes(&vec![0; len]),
            Err(ProgramError::InvalidInstructionData)
        );
    }
    for len in [0usize, 7, 9] {
        assert_eq!(
            ClaimArgs::try_from_bytes(&vec![0; len]),
            Err(ProgramError::InvalidInstructionData)
        );
    }
}

#[test]
fn initialize_instruction() {
    let instruction = initialize([9u8; 32], [4u8; 32]);
    assert_eq!(
        instruction,
        Instruction {
            program_id: [9u8; 32],
            accounts: vec![AccountMeta { pubkey: [4u8; 32], is_signer: true, is_writable: true }],
            data: vec![101],
        }
    );
}

#[test]
fn instruction_data_is_tag_then_record() {
    let submit = SubmitArgs::try_from_bytes(&counting(7, 57)).unwrap();
    let mut expected = vec![102u8];
    expected.extend(counting(7, 57));
    assert_eq!(submit_data(&submit), expected);

    let certify = CertifyArgs::try_from_bytes(&counting(9, 56)).unwrap();
    let mut expected = vec![100u8];
    expected.extend(counting(9, 56));
    assert_eq!(certify_data(&certify), expected);
}

#[test]
fn claim_is_read_from_its_data() {
    assert_eq!(CLAIM_ACCOUNTS, 9);
    assert_eq!(process_claim(9, &1_000_000u64.to_le_bytes()), Ok(1_000_000));
    assert_eq!(process_claim(9, &[1, 1, 0, 0, 0, 0, 0, 0]), Ok(257));
    assert_eq!(process_claim(9, &u64::MAX.to_le_bytes()), Ok(u64::MAX));
    assert_eq!(process_claim(9, &[0; 8]), Ok(0));
}

#[test]
fn claim_errors() {
    let amount = 5u64.to_le_bytes();
    // Malformed data comes before the account count.
    assert_eq!(process_claim(3, &[1, 2, 3]), Err(ProgramError::InvalidInstructionData));
    assert_eq!(process_claim(9, &[0; 9]), Err(ProgramError::InvalidInstructionData));
    assert_eq!(process_claim(9, &[]), Err(ProgramError::InvalidInstructionData));
    assert_eq!(process_claim(8, &amount), Err(ProgramError::NotEnoughAccountKeys));
    assert_eq!(process_claim(10, &amount), Err(ProgramError::NotEnoughAccountKeys));
    assert_eq!(process_claim(0, &amount), Err(ProgramError::NotEnoughAccountKeys));
}

#[test]
fn initialization_is_read_from_its_data() {
    assert_eq!(INITIALIZE_ACCOUNTS, 9);
    assert_eq!(process_initialize(9, &[255]), Ok(InitializeArgs { pool_bump: 255 }));
    assert_eq!(process_initialize(9, &[]), Err(ProgramError::InvalidInstructionData));
    assert_eq!(process_initialize(2, &[1, 2]), Err(ProgramError::InvalidInstructionData));
    assert_eq!(process_initialize(8, &[255]), Err(ProgramError::NotEnoughAccountKeys));
    assert_eq!(process_initialize(10, &[255]), Err(ProgramError::NotEnoughAccountKeys));
}
