//! The program's decisions: Merkle proof checking and the checks and state
//! changes of `CreateDstEscrow`.
use vstd::prelude::*;

use crate::error::{error_code, EscrowError, ProgramError};
use crate::instruction::{EscrowInit, EscrowInitView};
use crate::solana::{keccak256, keccak_hashv, program_address_search};
use crate::state::{escrow_pda_seeds, Escrow, EscrowView};
use pinocchio::pubkey::Pubkey;

verus! {

/// The deepest Merkle proof the program accepts.
pub const MAX_MERKLE_DEPTH: usize = 32;

/// The parent of two sibling nodes: the Keccak-256 digest of the left node
/// followed by the right one.
pub open spec fn spec_hash_pair(left: Seq<u8>, right: Seq<u8>) -> Seq<u8> {
    keccak256(left + right)
}

/// The root reached from `node` at position `index` of its level by
/// climbing through the siblings in `proof`, lowest first. At each level an
/// even position puts the node on the left of its sibling, an odd one on
/// the right; the position of the parent is half the node's.
pub open spec fn merkle_root(node: Seq<u8>, proof: Seq<Seq<u8>>, index: nat) -> Seq<u8>
    decreases proof.len(),
{
    if proof.len() == 0 {
        node
    } else {
        let parent = if index % 2 == 0 {
            spec_hash_pair(node, proof[0])
        } else {
            spec_hash_pair(proof[0], node)
        };
        merkle_root(parent, proof.drop_first(), index / 2)
    }
}

/// The outcome of checking a Merkle proof: too deep if it has more than 32
/// siblings, invalid if the root it leads to is not `root`.
pub open spec fn spec_verify_merkle_proof(leaf: Seq<u8>, proof: Seq<Seq<u8>>, root: Seq<u8>, index: nat)
    -> Result<(), ProgramError>
{
    if proof.len() > MAX_MERKLE_DEPTH {
        Err(ProgramError::Custom(error_code(EscrowError::MerkleProofTooDeep)))
    } else if merkle_root(leaf, proof, index) != root {
        Err(ProgramError::Custom(error_code(EscrowError::InvalidMerkleProof)))
    } else {
        Ok(())
    }
}

/// Hashes two sibling nodes into their parent.
pub fn hash_pair(left: &[u8; 32], right: &[u8; 32]) -> (parent: [u8; 32])
    ensures
        parent@ == spec_hash_pair(left@, right@),
{
    keccak_hashv(left.as_slice(), right.as_slice())
}

fn bytes32_eq(a: &[u8; 32], b: &[u8; 32]) -> (eq: bool)
    ensures
        eq == (a@ == b@),
{
    let mut i: usize = 0;
    while i < 32
        invariant
            0 <= i <= 32,
            forall|j: int| 0 <= j < i ==> a@[j] == b@[j],
        decreases 32 - i,
    {
        if a[i] != b[i] {
            assert(a@[i as int] != b@[i as int]);
            return false;
        }
        i = i + 1;
    }
    assert(a@ =~= b@);
    true
}

/// Checks that `proof` leads from `leaf`, at position `index` among the
/// leaves, to `root`.
pub fn verify_merkle_proof(leaf: &[u8; 32], proof: &[[u8; 32]], root: &[u8; 32], index: u32) -> (res:
    Result<(), ProgramError>)
    ensures
        res == spec_verify_merkle_proof(
            leaf@,
            proof@.map_values(|p: [u8; 32]| p@),
            root@,
            index as nat,
        ),
{
    let ghost siblings = proof@.map_values(|p: [u8; 32]| p@);
    if proof.len() > MAX_MERKLE_DEPTH {
        return Err(ProgramError::from(EscrowError::MerkleProofTooDeep));
    }
    let mut current: [u8; 32] = *leaf;
    let mut position: u32 = index;
    let mut i: usize = 0;
    assert(siblings.skip(0) =~= siblings);
    while i < proof.len()
        invariant
            0 <= i <= proof@.len(),
            siblings == proof@.map_values(|p: [u8; 32]| p@),
            merkle_root(leaf@, siblings, index as nat) == merkle_root(
                current@,
                siblings.skip(i as int),
                position as nat,
            ),
        decreases proof@.len() - i,
    {
        let sibling = &proof[i];
        let ghost rest = siblings.skip(i as int);
        assert(rest[0] == sibling@);
        assert(rest.drop_first() =~= siblings.skip(i + 1));
        if position % 2 == 0 {
            current = hash_pair(&current, sibling);
        } else {
            current = hash_pair(sibling, &current);
        }
        position = position / 2;
        i = i + 1;
    }
    assert(siblings.skip(i as int) =~= Seq::<Seq<u8>>::empty());
    if bytes32_eq(&current, root) {
        Ok(())
    } else {
        Err(ProgramError::from(EscrowError::InvalidMerkleProof))
    }
}

/// Two to the power `k`.
pub open spec fn two_to(k: nat) -> nat
    decreases k,
{
    if k == 0 {
        1
    } else {
        2 * two_to((k - 1) as nat)
    }
}

proof fn lemma_two_to_positive(k: nat)
    ensures
        two_to(k) > 0,
    decreases k,
{
    if k > 0 {
        lemma_two_to_positive((k - 1) as nat);
    }
}

/// The root reached through a proof is built level by level: with no
/// siblings it is the leaf itself, and each further sibling is hashed with
/// the node reached so far, the node on the left exactly when bit `k` of the
/// leaf's index is 0, where `k` is the sibling's level.
pub proof fn lemma_merkle_root_levels(leaf: Seq<u8>, proof: Seq<Seq<u8>>, sibling: Seq<u8>, index: nat)
    ensures
        merkle_root(leaf, Seq::empty(), index) == leaf,
        merkle_root(leaf, proof.push(sibling), index) == if (index / two_to(proof.len())) % 2 == 0 {
            keccak256(merkle_root(leaf, proof, index) + sibling)
        } else {
            keccak256(sibling + merkle_root(leaf, proof, index))
        },
    decreases proof.len(),
{
    let longer = proof.push(sibling);
    if proof.len() == 0 {
        assert(longer.drop_first() =~= Seq::<Seq<u8>>::empty());
        assert(longer[0] == sibling);
        let parent = if index % 2 == 0 {
            spec_hash_pair(leaf, sibling)
        } else {
            spec_hash_pair(sibling, leaf)
        };
        assert(merkle_root(leaf, longer, index) == merkle_root(parent, longer.drop_first(), index / 2));
        assert(merkle_root(parent, Seq::<Seq<u8>>::empty(), index / 2) == parent);
        assert(merkle_root(leaf, proof, index) == leaf);
        assert(two_to(0) == 1);
        assert(index / 1 == index);
    } else {
        let rest = proof.drop_first();
        let parent = if index % 2 == 0 {
            spec_hash_pair(leaf, proof[0])
        } else {
            spec_hash_pair(proof[0], leaf)
        };
        assert(longer.drop_first() =~= rest.push(sibling));
        assert(longer[0] == proof[0]);
        lemma_merkle_root_levels(parent, rest, sibling, index / 2);
        assert(merkle_root(leaf, longer, index) == merkle_root(parent, rest.push(sibling), index / 2));
        assert(merkle_root(leaf, proof, index) == merkle_root(parent, rest, index / 2));
        lemma_two_to_positive(rest.len());
        vstd::arithmetic::div_mod::lemma_div_denominator(index as int, 2, two_to(rest.len()) as int);
        assert(two_to(proof.len()) == 2 * two_to(rest.len()));
        assert((index / 2) / two_to(rest.len()) == index / two_to(proof.len()));
    }
}

/// The parent of two nodes is the Keccak-256 digest of the left one
/// followed by the right one.
pub proof fn lemma_hash_pair_is_keccak(left: Seq<u8>, right: Seq<u8>)
    ensures
        spec_hash_pair(left, right) == keccak256(left + right),
{
}

/// A proof is accepted exactly when it has at most 32 entries and the root
/// reached from the leaf at its index is the given root; a proof with more
/// entries is refused as too deep, a wrong root as an invalid proof.
pub proof fn lemma_merkle_verdict(leaf: Seq<u8>, proof: Seq<Seq<u8>>, root: Seq<u8>, index: nat)
    ensures
        spec_verify_merkle_proof(leaf, proof, root, index) is Ok <==> proof.len() <= 32 && root
            == merkle_root(leaf, proof, index),
        proof.len() > 32 ==> spec_verify_merkle_proof(leaf, proof, root, index) == Err::<(), _>(
            ProgramError::Custom(13),
        ),
        proof.len() <= 32 && root != merkle_root(leaf, proof, index) ==> spec_verify_merkle_proof(
            leaf,
            proof,
            root,
            index,
        ) == Err::<(), _>(ProgramError::Custom(5)),
{
}

/// A proof built by climbing from a leaf is accepted for the root it leads
/// to exactly when it has at most 32 entries.
pub proof fn lemma_merkle_proof_complete(leaf: Seq<u8>, proof: Seq<Seq<u8>>, index: nat)
    ensures
        spec_verify_merkle_proof(leaf, proof, merkle_root(leaf, proof, index), index) is Ok
            <==> proof.len() <= MAX_MERKLE_DEPTH,
{
}

/// A proof is accepted only for the root it leads to, and a proof with more
/// than 32 entries is refused as too deep whatever the root.
pub proof fn lemma_merkle_proof_sound(leaf: Seq<u8>, proof: Seq<Seq<u8>>, root: Seq<u8>, index: nat)
    ensures
        spec_verify_merkle_proof(leaf, proof, root, index) is Ok ==> root == merkle_root(
            leaf,
            proof,
            index,
        ),
        proof.len() > MAX_MERKLE_DEPTH ==> spec_verify_merkle_proof(leaf, proof, root, index)
            == Err::<(), _>(custom(EscrowError::MerkleProofTooDeep)),
{
}

/// What an instruction's checks read of an account passed to it.
#[derive(Clone, Copy, Debug)]
pub struct AccountState {
    pub key: Pubkey,
    pub is_signer: bool,
    pub lamports: u64,
}

/// The number of accounts `CreateDstEscrow` takes: payer, resolver, escrow,
/// system program, token program and clock.
pub const CREATE_DST_ESCROW_ACCOUNTS: usize = 6;

pub open spec fn custom(e: EscrowError) -> ProgramError {
    ProgramError::Custom(error_code(e))
}

/// The destination stages come in order: exclusive withdraw, public
/// withdraw, exclusive cancel, public cancel, rescue, each offset strictly
/// below the next.
pub open spec fn timelock_ladder_ordered(timelocks: Seq<u64>) -> bool {
    forall|i: int|
        Escrow::TL_DST_EXCLUSIVE_WITHDRAW <= i < Escrow::TL_RESCUE ==> #[trigger] timelocks[i]
            < timelocks[i + 1]
}

/// The checks of `CreateDstEscrow`, in order, given the outcome of the
/// escrow's program-address search: enough accounts; payer and resolver have
/// signed and the resolver is the one named in `init`; the destination
/// timelock stages are in order (else `InvalidInstruction`); the escrow account is
/// the derived address and the derived bump is the one `init` names; the
/// escrow account holds no lamports. On success, the bump.
pub open spec fn spec_check_create_accounts(
    accounts: Seq<AccountState>,
    init: EscrowInitView,
    derived: Option<(Seq<u8>, u8)>,
) -> Result<u8, ProgramError> {
    if accounts.len() < CREATE_DST_ESCROW_ACCOUNTS {
        Err(ProgramError::NotEnoughAccountKeys)
    } else {
        let payer = accounts[0];
        let resolver = accounts[1];
        let escrow = accounts[2];
        if !payer.is_signer || !resolver.is_signer || resolver.key@ != init.resolver {
            Err(custom(EscrowError::Unauthorized))
        } else if !timelock_ladder_ordered(init.timelocks) {
            Err(custom(EscrowError::InvalidInstruction))
        } else {
            match derived {
                None => Err(custom(EscrowError::InvalidPDA)),
                Some((address, bump)) => if escrow.key@ != address || bump != init.bump {
                    Err(custom(EscrowError::InvalidPDA))
                } else if escrow.lamports > 0 {
                    Err(custom(EscrowError::AlreadyInitialized))
                } else {
                    Ok(bump)
                },
            }
        }
    }
}

/// The checks of `CreateDstEscrow` for a program: those above, with the
/// escrow address derived from `init`'s maker, resolver and secret digest.
pub open spec fn spec_check_create_dst_escrow(
    program_id: Seq<u8>,
    accounts: Seq<AccountState>,
    init: EscrowInitView,
) -> Result<u8, ProgramError> {
    spec_check_create_accounts(
        accounts,
        init,
        program_address_search(escrow_pda_seeds(init.maker, init.resolver, init.hash_secret), program_id),
    )
}

/// Whether the destination timelock stages are in order.
pub fn check_timelock_ladder(timelocks: &[u64; 7]) -> (ordered: bool)
    ensures
        ordered == timelock_ladder_ordered(timelocks@),
{
    let mut i: usize = Escrow::TL_DST_EXCLUSIVE_WITHDRAW;
    while i < Escrow::TL_RESCUE
        invariant
            Escrow::TL_DST_EXCLUSIVE_WITHDRAW <= i <= Escrow::TL_RESCUE,
            forall|j: int|
                Escrow::TL_DST_EXCLUSIVE_WITHDRAW <= j < i ==> #[trigger] timelocks@[j] < timelocks@[j
                    + 1],
        decreases Escrow::TL_RESCUE - i,
    {
        if timelocks[i] >= timelocks[i + 1] {
            assert(timelocks@[i as int] >= timelocks@[i + 1]);
            return false;
        }
        i = i + 1;
    }
    true
}

pub(crate) fn keys_eq(a: &Pubkey, b: &Pubkey) -> (eq: bool)
    ensures
        eq == (a@ == b@),
{
    bytes32_eq(a, b)
}

/// Checks the accounts and parameters of `CreateDstEscrow` against the
/// escrow's derived address and bump (`None` when none was found) and
/// returns the bump.
pub fn check_create_accounts(accounts: &[AccountState], init: &EscrowInit, derived: Option<(Pubkey, u8)>)
    -> (res: Result<u8, ProgramError>)
    ensures
        res == spec_check_create_accounts(
            accounts@,
            init@,
            match derived {
                Some((address, bump)) => Some((address@, bump)),
                None => None,
            },
        ),
{
    if accounts.len() < CREATE_DST_ESCROW_ACCOUNTS {
        return Err(ProgramError::NotEnoughAccountKeys);
    }
    let payer = &accounts[0];
    let resolver = &accounts[1];
    let escrow = &accounts[2];
    if !payer.is_signer {
        return Err(ProgramError::from(EscrowError::Unauthorized));
    }
    if !resolver.is_signer {
        return Err(ProgramError::from(EscrowError::Unauthorized));
    }
    if !keys_eq(&resolver.key, &init.resolver) {
        return Err(ProgramError::from(EscrowError::Unauthorized));
    }
    if !check_timelock_ladder(&init.timelocks) {
        return Err(ProgramError::from(EscrowError::InvalidInstruction));
    }
    match derived {
        None => Err(ProgramError::from(EscrowError::InvalidPDA)),
        Some((expected, bump)) => {
            if !keys_eq(&escrow.key, &expected) {
                return Err(ProgramError::from(EscrowError::InvalidPDA));
            }
            if bump != init.bump {
                return Err(ProgramError::from(EscrowError::InvalidPDA));
            }
            if escrow.lamports > 0 {
                return Err(ProgramError::from(EscrowError::AlreadyInitialized));
            }
            Ok(bump)
        },
    }
}

/// Derives the escrow's address for `program_id` and checks the accounts
/// and parameters of `CreateDstEscrow` against it; returns the bump.
pub fn check_create_dst_escrow(program_id: &Pubkey, accounts: &[AccountState], init: &EscrowInit)
    -> (res: Result<u8, ProgramError>)
    ensures
        res == spec_check_create_dst_escrow(program_id@, accounts@, init@),
{
    let derived = Escrow::derive_pda(&init.maker, &init.resolver, &init.hash_secret, program_id);
    check_create_accounts(accounts, init, derived)
}

/// An escrow is created only at the program address derived from its
/// maker, resolver and secret digest, with the bump the parameters name,
/// only with the named resolver's and the payer's signatures, only with its
/// destination timelock stages in order, and only in an account that holds
/// no lamports.
pub proof fn lemma_create_only_at_derived_empty_account(
    program_id: Seq<u8>,
    accounts: Seq<AccountState>,
    init: EscrowInitView,
)
    ensures
        spec_check_create_dst_escrow(program_id, accounts, init) matches Ok(bump) ==> {
            &&& accounts.len() >= CREATE_DST_ESCROW_ACCOUNTS
            &&& accounts[0].is_signer
            &&& accounts[1].is_signer
            &&& accounts[1].key@ == init.resolver
            &&& forall|i: int| 2 <= i < 6 ==> #[trigger] init.timelocks[i] < init.timelocks[i + 1]
            &&& program_address_search(
                escrow_pda_seeds(init.maker, init.resolver, init.hash_secret),
                program_id,
            ) == Some((accounts[2].key@, bump))
            &&& bump == init.bump
            &&& accounts[2].lamports == 0
        },
{
}

/// Parameters whose destination timelock stages are out of order are
/// refused once the account count and signatures are right, whatever the
/// program address.
pub proof fn lemma_create_refuses_unordered_ladder(
    accounts: Seq<AccountState>,
    init: EscrowInitView,
    derived: Option<(Seq<u8>, u8)>,
)
    requires
        accounts.len() >= CREATE_DST_ESCROW_ACCOUNTS,
        accounts[0].is_signer,
        accounts[1].is_signer,
        accounts[1].key@ == init.resolver,
        !timelock_ladder_ordered(init.timelocks),
    ensures
        spec_check_create_accounts(accounts, init, derived) == Err::<u8, _>(
            custom(EscrowError::InvalidInstruction),
        ),
{
}

/// Creation succeeds, with the bump the parameters name, whenever the six
/// accounts are there, payer and named resolver have signed, the
/// destination stages are in order, the escrow account is the derived
/// address with that bump, and it holds no lamports.
pub proof fn lemma_create_complete(program_id: Seq<u8>, accounts: Seq<AccountState>, init: EscrowInitView)
    requires
        accounts.len() >= 6,
        accounts[0].is_signer,
        accounts[1].is_signer,
        accounts[1].key@ == init.resolver,
        forall|i: int| 2 <= i < 6 ==> #[trigger] init.timelocks[i] < init.timelocks[i + 1],
        program_address_search(
            escrow_pda_seeds(init.maker, init.resolver, init.hash_secret),
            program_id,
        ) == Some((accounts[2].key@, init.bump)),
        accounts[2].lamports == 0,
    ensures
        spec_check_create_dst_escrow(program_id, accounts, init) == Ok::<u8, ProgramError>(init.bump),
{
}

/// The lamports the escrow account is funded with: the rent-exempt minimum
/// plus the safety deposit, refused when the sum overflows.
pub fn escrow_account_lamports(rent_exempt_lamports: u64, init: &EscrowInit) -> (res: Result<
    u64,
    ProgramError,
>)
    ensures
        rent_exempt_lamports + init.safety_deposit_lamports <= u64::MAX ==> res == Ok::<
            u64,
            ProgramError,
        >((rent_exempt_lamports + init.safety_deposit_lamports) as u64),
        rent_exempt_lamports + init.safety_deposit_lamports > u64::MAX ==> res == Err::<
            u64,
            _,
        >(custom(EscrowError::Overflow)),
{
    match rent_exempt_lamports.checked_add(init.safety_deposit_lamports) {
        Some(total) => Ok(total),
        None => Err(ProgramError::from(EscrowError::Overflow)),
    }
}

/// The state a new escrow starts in: the parameters of `init`, no leaf
/// filled yet, created at `unix_timestamp` (read as unsigned), with the
/// derived bump seed.
pub open spec fn spec_initial_escrow(init: EscrowInitView, bump: u8, unix_timestamp: i64) -> EscrowView {
    EscrowView {
        maker: init.maker,
        resolver: init.resolver,
        hash_secret: init.hash_secret,
        token_mint: init.token_mint,
        amount: init.amount,
        safety_deposit_lamports: init.safety_deposit_lamports,
        merkle_root: init.merkle_root,
        filled_index: 0,
        timelocks: init.timelocks,
        deployed_at: unix_timestamp as u64,
        bump,
    }
}

/// Builds the state of a new escrow.
pub fn initial_escrow(init: &EscrowInit, bump: u8, unix_timestamp: i64) -> (escrow: Escrow)
    ensures
        escrow@ == spec_initial_escrow(init@, bump, unix_timestamp),
        escrow.maker == init.maker,
        escrow.resolver == init.resolver,
        escrow.hash_secret == init.hash_secret,
        escrow.token_mint == init.token_mint,
        escrow.amount == init.amount,
        escrow.safety_deposit_lamports == init.safety_deposit_lamports,
        escrow.merkle_root == init.merkle_root,
        escrow.filled_index == 0,
        escrow.timelocks == init.timelocks,
        escrow.deployed_at == unix_timestamp as u64,
        escrow.bump == bump,
{
    Escrow {
        maker: init.maker,
        resolver: init.resolver,
        hash_secret: init.hash_secret,
        token_mint: init.token_mint,
        amount: init.amount,
        safety_deposit_lamports: init.safety_deposit_lamports,
        merkle_root: init.merkle_root,
        filled_index: 0,
        timelocks: init.timelocks,
        deployed_at: unix_timestamp as u64,
        bump,
    }
}

} // verus!
