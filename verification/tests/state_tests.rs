use solana_program::pubkey::Pubkey;
use svm_escrow::{Escrow, EscrowInit, ProgramError};

#[test]
fn test_pda_derivation() {
    let program_id = Pubkey::new_unique();
    let maker = Pubkey::new_unique();
    let resolver = Pubkey::new_unique();
    let hash_secret = [1u8; 32];

    let (pda1, bump1) = Escrow::derive_pda(
        &maker.to_bytes(),
        &resolver.to_bytes(),
        &hash_secret,
        &program_id.to_bytes(),
    )
    .unwrap();
    let (pda2, bump2) = Escrow::derive_pda(
        &maker.to_bytes(),
        &resolver.to_bytes(),
        &hash_secret,
        &program_id.to_bytes(),
    )
    .unwrap();

    // Should be deterministic
    assert_eq!(pda1, pda2);
    assert_eq!(bump1, bump2);
}

#[test]
fn test_pda_uniqueness() {
    let program_id = Pubkey::new_unique();
    let maker = Pubkey::new_unique();
    let resolver = Pubkey::new_unique();
    let hash_secret1 = [1u8; 32];
    let hash_secret2 = [2u8; 32];

    let (pda1, _) = Escrow::derive_pda(
        &maker.to_bytes(),
        &resolver.to_bytes(),
        &hash_secret1,
        &program_id.to_bytes(),
    )
    .unwrap();
    let (pda2, _) = Escrow::derive_pda(
        &maker.to_bytes(),
        &resolver.to_bytes(),
        &hash_secret2,
        &program_id.to_bytes(),
    )
    .unwrap();

    // Different secrets should produce different PDAs
    assert_ne!(pda1, pda2);
}

#[test]
fn test_escrow_constants() {
    assert_eq!(&Escrow::SEED_PREFIX, b"escrow");
    assert_eq!(Escrow::ROLE_BYTE_DST, 0x00);

    // Timelock indices
    assert_eq!(Escrow::TL_SRC_EXCLUSIVE_WITHDRAW, 0);
    assert_eq!(Escrow::TL_SRC_PUBLIC_WITHDRAW, 1);
    assert_eq!(Escrow::TL_DST_EXCLUSIVE_WITHDRAW, 2);
    assert_eq!(Escrow::TL_DST_PUBLIC_WITHDRAW, 3);
    assert_eq!(Escrow::TL_DST_EXCLUSIVE_CANCEL, 4);
    assert_eq!(Escrow::TL_DST_PUBLIC_CANCEL, 5);
    assert_eq!(Escrow::TL_RESCUE, 6);
}

#[test]
fn test_escrow_size() {
    // Verify the size calculation is correct
    let expected_size = 32 + 32 + 32 + 32 + 8 + 8 + 32 + 4 + (8 * 7) + 8 + 1;
    // The fields add up to 245 bytes and take 256 with their alignment
    // padding; the account is 293 bytes, so the field sum is checked to fit
    // rather than to equal the account size.
    assert!(expected_size <= Escrow::RECORD_SIZE);
    assert_eq!(Escrow::LEN, 293);
}

#[test]
fn escrow_record_fits_the_account() {
    assert_eq!(Escrow::RECORD_SIZE, 256);
    assert!(Escrow::RECORD_SIZE <= Escrow::LEN);
}

fn sample_escrow() -> Escrow {
    Escrow {
        maker: [1u8; 32],
        resolver: [2u8; 32],
        hash_secret: [3u8; 32],
        token_mint: [4u8; 32],
        amount: 0x0102_0304_0506_0708,
        safety_deposit_lamports: 1_000_000,
        merkle_root: [5u8; 32],
        filled_index: 0xAABB_CCDD,
        timelocks: [0, 0, 300, 600, 900, 1200, 86400],
        deployed_at: 1_700_000_000,
        bump: 254,
    }
}

#[test]
fn account_layout_follows_field_alignment() {
    let mut data = vec![0xEEu8; Escrow::LEN];
    sample_escrow().write_to_account_data(&mut data).unwrap();
    assert_eq!(&data[0..32], &[1u8; 32]);
    assert_eq!(&data[96..128], &[4u8; 32]);
    assert_eq!(&data[128..136], &[8, 7, 6, 5, 4, 3, 2, 1]);
    assert_eq!(&data[136..144], &1_000_000u64.to_le_bytes());
    assert_eq!(&data[176..180], &[0xDD, 0xCC, 0xBB, 0xAA]);
    // padding after the filled index is left alone
    assert_eq!(&data[180..184], &[0xEE; 4]);
    assert_eq!(&data[184..192], &0u64.to_le_bytes());
    assert_eq!(&data[184 + 8 * 6..192 + 8 * 6], &86400u64.to_le_bytes());
    assert_eq!(&data[240..248], &1_700_000_000u64.to_le_bytes());
    assert_eq!(data[248], 254);
    assert_eq!(&data[249..], &[0xEE; 293 - 249]);
}

#[test]
fn write_then_read_gives_the_escrow_back() {
    let escrow = sample_escrow();
    let mut data = vec![0xEEu8; Escrow::LEN + 3];
    assert_eq!(escrow.write_to_account_data(&mut data), Ok(()));
    assert_eq!(&data[Escrow::LEN..], &[0xEE, 0xEE, 0xEE]);
    let read = Escrow::from_account_info(&data).unwrap();
    assert_eq!(read.maker, escrow.maker);
    assert_eq!(read.resolver, escrow.resolver);
    assert_eq!(read.hash_secret, escrow.hash_secret);
    assert_eq!(read.token_mint, escrow.token_mint);
    assert_eq!(read.amount, escrow.amount);
    assert_eq!(read.safety_deposit_lamports, escrow.safety_deposit_lamports);
    assert_eq!(read.merkle_root, escrow.merkle_root);
    assert_eq!(read.filled_index, escrow.filled_index);
    assert_eq!(read.timelocks, escrow.timelocks);
    assert_eq!(read.deployed_at, escrow.deployed_at);
    assert_eq!(read.bump, escrow.bump);
}

#[test]
fn writing_back_what_was_read_changes_only_the_changed_field() {
    let mut data: Vec<u8> = (0..Escrow::LEN + 2).map(|i| (i * 7) as u8).collect();
    let original = data.clone();
    let mut escrow = Escrow::from_account_info(&data).unwrap();
    escrow.write_to_account_data(&mut data).unwrap();
    assert_eq!(data, original);
    escrow.amount = 42;
    escrow.write_to_account_data(&mut data).unwrap();
    assert_eq!(&data[128..136], &42u64.to_le_bytes());
    assert_eq!(&data[..128], &original[..128]);
    assert_eq!(&data[136..], &original[136..]);
    assert_eq!(Escrow::from_account_info(&data).unwrap().amount, 42);
}

#[test]
fn signer_seeds_are_the_address_seeds_and_the_bump() {
    let init = EscrowInit {
        maker: [1u8; 32],
        resolver: [2u8; 32],
        hash_secret: [3u8; 32],
        token_mint: [4u8; 32],
        amount: 1,
        safety_deposit_lamports: 2,
        merkle_root: [0u8; 32],
        timelocks: [0, 0, 300, 600, 900, 1200, 86400],
        bump: 250,
    };
    let seeds = Escrow::signer_seeds(&init, 251);
    assert_eq!(
        seeds,
        vec![b"escrow".to_vec(), vec![1u8; 32], vec![2u8; 32], vec![3u8; 32], vec![0u8], vec![251u8]]
    );
}

#[test]
fn short_account_data_is_refused() {
    let data = vec![0u8; Escrow::LEN - 1];
    assert!(matches!(
        Escrow::from_account_info(&data),
        Err(ProgramError::AccountDataTooSmall)
    ));
    let mut data = vec![7u8; Escrow::LEN - 1];
    assert_eq!(
        sample_escrow().write_to_account_data(&mut data),
        Err(ProgramError::AccountDataTooSmall)
    );
    assert_eq!(data, vec![7u8; Escrow::LEN - 1]);
}
