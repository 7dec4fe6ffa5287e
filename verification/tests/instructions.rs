use lighthouse::{
    AccountMeta, MemoryClose, MemoryCloseBuilder, MemoryCloseInstructionArgs,
    MemoryCloseInstructionData, LIGHTHOUSE_ID,
};
use solana_program::pubkey::Pubkey;

#[test]
fn program_address() {
    assert_eq!(
        Pubkey::new_from_array(LIGHTHOUSE_ID).to_string(),
        "L2TExMFKdjpN9kozasaurPirfHy9P8sbXoAN1qA3S95"
    );
}

#[test]
fn discriminator_of_memory_close() {
    assert_eq!(MemoryCloseInstructionData::new().discriminator, 1);
    let mut bytes = Vec::new();
    MemoryCloseInstructionData::new().serialize(&mut bytes);
    assert_eq!(bytes, vec![1]);
}

#[test]
fn arguments_of_memory_close() {
    let args = MemoryCloseInstructionArgs { memory_id: 3, memory_bump: 254 };
    let mut bytes = vec![9];
    args.serialize(&mut bytes);
    assert_eq!(bytes, vec![9, 3, 254]);
    assert_eq!(MemoryCloseInstructionArgs::deserialize(&bytes, 1), Some((args, 3)));
    assert_eq!(MemoryCloseInstructionArgs::deserialize(&bytes, 2), None);
    assert_eq!(MemoryCloseInstructionArgs::deserialize(&bytes, 4), None);
}

#[test]
fn memory_close_instruction() {
    let accounts = MemoryClose { program_id: [1u8; 32], payer: [2u8; 32], memory: [3u8; 32] };
    let ix = accounts.instruction(MemoryCloseInstructionArgs { memory_id: 4, memory_bump: 5 });
    assert_eq!(ix.program_id, LIGHTHOUSE_ID);
    assert_eq!(
        ix.accounts,
        vec![
            AccountMeta { pubkey: [1u8; 32], is_signer: false, is_writable: false },
            AccountMeta { pubkey: [2u8; 32], is_signer: true, is_writable: true },
            AccountMeta { pubkey: [3u8; 32], is_signer: false, is_writable: true },
        ]
    );
    assert_eq!(ix.data, vec![1, 4, 5]);
}

#[test]
fn memory_close_instruction_with_remaining_accounts() {
    let accounts = MemoryClose { program_id: [1u8; 32], payer: [2u8; 32], memory: [3u8; 32] };
    let extra = [AccountMeta::new([8u8; 32], true), AccountMeta::new_readonly([9u8; 32], false)];
    let ix = accounts.instruction_with_remaining_accounts(
        MemoryCloseInstructionArgs { memory_id: 0, memory_bump: 255 },
        &extra,
    );
    assert_eq!(ix.accounts.len(), 5);
    assert_eq!(
        ix.accounts[3],
        AccountMeta { pubkey: [8u8; 32], is_signer: true, is_writable: true }
    );
    assert_eq!(
        ix.accounts[4],
        AccountMeta { pubkey: [9u8; 32], is_signer: false, is_writable: false }
    );
    assert_eq!(ix.data, vec![1, 0, 255]);
}

#[test]
fn memory_close_builder() {
    let mut builder = MemoryCloseBuilder::new();
    assert!(!builder.is_complete());
    builder.program_id([1u8; 32]).payer([2u8; 32]).memory([3u8; 32]).memory_id(7);
    assert!(!builder.is_complete());
    builder.memory_bump(8);
    assert!(builder.is_complete());
    builder
        .add_remaining_account(AccountMeta::new([4u8; 32], false))
        .add_remaining_accounts(&[
            AccountMeta::new_readonly([5u8; 32], true),
            AccountMeta::new([6u8; 32], true),
        ]);
    let ix = builder.instruction();
    let direct = MemoryClose { program_id: [1u8; 32], payer: [2u8; 32], memory: [3u8; 32] }
        .instruction_with_remaining_accounts(
            MemoryCloseInstructionArgs { memory_id: 7, memory_bump: 8 },
            &[
                AccountMeta::new([4u8; 32], false),
                AccountMeta::new_readonly([5u8; 32], true),
                AccountMeta::new([6u8; 32], true),
            ],
        );
    assert_eq!(ix, direct);
    assert_eq!(ix.accounts.len(), 6);
}
