use solana_program::pubkey::Pubkey;
use svm_escrow::processor::{
    check_create_dst_escrow, escrow_account_lamports, initial_escrow, AccountState,
};
use svm_escrow::{Escrow, EscrowError, EscrowInit, ProgramError};

fn program_id() -> [u8; 32] {
    [1u8; 32]
}

fn sample_init() -> EscrowInit {
    let maker = [2u8; 32];
    let resolver = [3u8; 32];
    let hash_secret = [4u8; 32];
    let (_, bump) = Pubkey::find_program_address(
        &[b"escrow", &maker, &resolver, &hash_secret, &[0u8]],
        &Pubkey::new_from_array(program_id()),
    );
    EscrowInit {
        maker,
        resolver,
        hash_secret,
        token_mint: [5u8; 32],
        amount: 1_000_000_000,
        safety_deposit_lamports: 1_000_000,
        merkle_root: [0u8; 32],
        timelocks: [0, 0, 300, 600, 900, 1200, 86400],
        bump,
    }
}

fn accounts(init: &EscrowInit) -> Vec<AccountState> {
    let (pda, _) = Escrow::derive_pda(&init.maker, &init.resolver, &init.hash_secret, &program_id()).unwrap();
    let plain = |key: [u8; 32], is_signer: bool| AccountState { key, is_signer, lamports: 0 };
    vec![
        plain([9u8; 32], true),
        plain(init.resolver, true),
        plain(pda, false),
        plain([10u8; 32], false),
        plain([11u8; 32], false),
        plain([12u8; 32], false),
    ]
}

fn custom(e: EscrowError) -> Result<u8, ProgramError> {
    Err(ProgramError::Custom(e as u32))
}

#[test]
fn create_checks_pass_and_return_the_bump() {
    let init = sample_init();
    assert_eq!(check_create_dst_escrow(&program_id(), &accounts(&init), &init), Ok(init.bump));
}

#[test]
fn create_needs_six_accounts() {
    let init = sample_init();
    let accs = accounts(&init);
    assert_eq!(
        check_create_dst_escrow(&program_id(), &accs[..5], &init),
        Err(ProgramError::NotEnoughAccountKeys)
    );
}

#[test]
fn create_needs_signatures_and_the_named_resolver() {
    let init = sample_init();
    let mut accs = accounts(&init);
    accs[0].is_signer = false;
    assert_eq!(check_create_dst_escrow(&program_id(), &accs, &init), custom(EscrowError::Unauthorized));
    let mut accs = accounts(&init);
    accs[1].is_signer = false;
    assert_eq!(check_create_dst_escrow(&program_id(), &accs, &init), custom(EscrowError::Unauthorized));
    let mut accs = accounts(&init);
    accs[1].key = [13u8; 32];
    assert_eq!(check_create_dst_escrow(&program_id(), &accs, &init), custom(EscrowError::Unauthorized));
}

#[test]
fn create_needs_the_derived_address_and_bump() {
    let init = sample_init();
    let mut accs = accounts(&init);
    accs[2].key = [14u8; 32];
    assert_eq!(check_create_dst_escrow(&program_id(), &accs, &init), custom(EscrowError::InvalidPDA));
    let mut wrong_bump = init;
    wrong_bump.bump = init.bump.wrapping_sub(1);
    assert_eq!(
        check_create_dst_escrow(&program_id(), &accounts(&init), &wrong_bump),
        custom(EscrowError::InvalidPDA)
    );
    assert_eq!(
        check_create_dst_escrow(&[15u8; 32], &accounts(&init), &init),
        custom(EscrowError::InvalidPDA)
    );
}

#[test]
fn create_refuses_a_funded_escrow_account() {
    let init = sample_init();
    let mut accs = accounts(&init);
    accs[2].lamports = 1;
    assert_eq!(
        check_create_dst_escrow(&program_id(), &accs, &init),
        custom(EscrowError::AlreadyInitialized)
    );
}

#[test]
fn create_refuses_timelock_stages_out_of_order() {
    let init = sample_init();
    for i in 2..6 {
        let mut bad = init;
        bad.timelocks[i] = bad.timelocks[i + 1];
        assert_eq!(
            check_create_dst_escrow(&program_id(), &accounts(&init), &bad),
            custom(EscrowError::InvalidInstruction)
        );
    }
    // the source stages are not part of the ladder
    let mut src = init;
    src.timelocks[0] = 5000;
    src.timelocks[1] = 1;
    assert_eq!(check_create_dst_escrow(&program_id(), &accounts(&init), &src), Ok(init.bump));
    // signatures are checked before the ladder
    let mut bad = init;
    bad.timelocks[6] = 0;
    let mut accs = accounts(&init);
    accs[0].is_signer = false;
    assert_eq!(check_create_dst_escrow(&program_id(), &accs, &bad), custom(EscrowError::Unauthorized));
}

#[test]
fn funding_adds_the_safety_deposit() {
    let init = sample_init();
    assert_eq!(escrow_account_lamports(2_039_280, &init), Ok(3_039_280));
    let mut big = init;
    big.safety_deposit_lamports = u64::MAX;
    assert_eq!(
        escrow_account_lamports(1, &big),
        Err(ProgramError::Custom(EscrowError::Overflow as u32))
    );
    assert_eq!(escrow_account_lamports(0, &big), Ok(u64::MAX));
}

#[test]
fn new_escrow_copies_the_parameters() {
    let init = sample_init();
    let escrow = initial_escrow(&init, init.bump, 1_700_000_000);
    assert_eq!(escrow.maker, init.maker);
    assert_eq!(escrow.resolver, init.resolver);
    assert_eq!(escrow.hash_secret, init.hash_secret);
    assert_eq!(escrow.token_mint, init.token_mint);
    assert_eq!(escrow.amount, init.amount);
    assert_eq!(escrow.safety_deposit_lamports, init.safety_deposit_lamports);
    assert_eq!(escrow.merkle_root, init.merkle_root);
    assert_eq!(escrow.filled_index, 0);
    assert_eq!(escrow.timelocks, init.timelocks);
    assert_eq!(escrow.deployed_at, 1_700_000_000);
    assert_eq!(escrow.bump, init.bump);
    assert_eq!(initial_escrow(&init, 1, -1).deployed_at, u64::MAX);
}
