//! The program's instructions and their byte encoding.
use vstd::prelude::*;
use vstd::bytes::{
    lemma_auto_spec_u64_to_from_le_bytes, spec_u64_from_le_bytes, spec_u64_to_le_bytes, u64_from_le_bytes,
};
use vstd::slice::slice_subrange;

use crate::error::ProgramError;
use pinocchio::pubkey::Pubkey;

verus! {

/// The number of bytes that encode an `EscrowInit`: its fields take 233
/// bytes, laid out in declaration order with integers little-endian, and the
/// record is padded to a multiple of 8.
pub const ESCROW_INIT_LEN: usize = 240;

/// The size of one Merkle proof entry.
pub const PROOF_NODE_LEN: usize = 32;

/// The largest number of entries an instruction's Merkle proof may hold.
pub const MAX_PROOF_NODES: usize = 32;

/// Escrow initialization parameters.
#[derive(Clone, Copy, Debug)]
pub struct EscrowInit {
    /// EVM maker address, carried as opaque bytes.
    pub maker: Pubkey,
    /// The resolver, who signs the creation.
    pub resolver: Pubkey,
    /// Keccak-256 digest of the secret.
    pub hash_secret: [u8; 32],
    /// SPL token mint.
    pub token_mint: Pubkey,
    /// Token amount.
    pub amount: u64,
    /// Native SOL deposit.
    pub safety_deposit_lamports: u64,
    /// Merkle root; all zeroes for single-fill swaps.
    pub merkle_root: [u8; 32],
    /// Offsets in seconds from deployment, one per stage.
    pub timelocks: [u64; 7],
    /// Bump seed of the escrow's program address.
    pub bump: u8,
}

/// An `EscrowInit` with its byte arrays seen as sequences.
pub struct EscrowInitView {
    pub maker: Seq<u8>,
    pub resolver: Seq<u8>,
    pub hash_secret: Seq<u8>,
    pub token_mint: Seq<u8>,
    pub amount: u64,
    pub safety_deposit_lamports: u64,
    pub merkle_root: Seq<u8>,
    pub timelocks: Seq<u64>,
    pub bump: u8,
}

impl View for EscrowInit {
    type V = EscrowInitView;

    open spec fn view(&self) -> EscrowInitView {
        EscrowInitView {
            maker: self.maker@,
            resolver: self.resolver@,
            hash_secret: self.hash_secret@,
            token_mint: self.token_mint@,
            amount: self.amount,
            safety_deposit_lamports: self.safety_deposit_lamports,
            merkle_root: self.merkle_root@,
            timelocks: self.timelocks@,
            bump: self.bump,
        }
    }
}

/// The escrow program's instructions.
#[derive(Debug)]
pub enum EscrowInstruction {
    /// Create the destination escrow account.
    CreateDstEscrow(EscrowInit),
    /// Withdraw to the caller with the secret and an optional Merkle proof.
    Withdraw { secret: [u8; 32], proof: Vec<[u8; 32]> },
    /// Withdraw to `target` with the secret and an optional Merkle proof.
    WithdrawTo { secret: [u8; 32], target: Pubkey, proof: Vec<[u8; 32]> },
    /// Cancel after the timelock.
    Cancel,
    /// Public cancel after the timelock.
    PublicCancel,
    /// Withdraw through the public path.
    PublicWithdraw { secret: [u8; 32], proof: Vec<[u8; 32]> },
    /// Drain what is left after the last timeout.
    RescueFunds,
}

/// An instruction with its byte arrays seen as sequences.
pub enum EscrowInstructionView {
    CreateDstEscrow(EscrowInitView),
    Withdraw { secret: Seq<u8>, proof: Seq<Seq<u8>> },
    WithdrawTo { secret: Seq<u8>, target: Seq<u8>, proof: Seq<Seq<u8>> },
    Cancel,
    PublicCancel,
    PublicWithdraw { secret: Seq<u8>, proof: Seq<Seq<u8>> },
    RescueFunds,
}

pub open spec fn proof_view(proof: Seq<[u8; 32]>) -> Seq<Seq<u8>> {
    proof.map_values(|p: [u8; 32]| p@)
}

impl View for EscrowInstruction {
    type V = EscrowInstructionView;

    open spec fn view(&self) -> EscrowInstructionView {
        match self {
            EscrowInstruction::CreateDstEscrow(init) => EscrowInstructionView::CreateDstEscrow(init@),
            EscrowInstruction::Withdraw { secret, proof } => EscrowInstructionView::Withdraw {
                secret: secret@,
                proof: proof_view(proof@),
            },
            EscrowInstruction::WithdrawTo { secret, target, proof } => EscrowInstructionView::WithdrawTo {
                secret: secret@,
                target: target@,
                proof: proof_view(proof@),
            },
            EscrowInstruction::Cancel => EscrowInstructionView::Cancel,
            EscrowInstruction::PublicCancel => EscrowInstructionView::PublicCancel,
            EscrowInstruction::PublicWithdraw { secret, proof } => EscrowInstructionView::PublicWithdraw {
                secret: secret@,
                proof: proof_view(proof@),
            },
            EscrowInstruction::RescueFunds => EscrowInstructionView::RescueFunds,
        }
    }
}

fn copy_proof(proof: &Vec<[u8; 32]>) -> (copy: Vec<[u8; 32]>)
    ensures
        copy@ == proof@,
{
    let mut copy: Vec<[u8; 32]> = Vec::new();
    let mut i: usize = 0;
    while i < proof.len()
        invariant
            0 <= i <= proof@.len(),
            copy@ == proof@.subrange(0, i as int),
        decreases proof@.len() - i,
    {
        copy.push(proof[i]);
        i = i + 1;
        assert(copy@ =~= proof@.subrange(0, i as int));
    }
    assert(proof@.subrange(0, proof@.len() as int) =~= proof@);
    copy
}

impl Clone for EscrowInstruction {
    fn clone(&self) -> (copy: Self)
        ensures
            copy@ == self@,
    {
        match self {
            EscrowInstruction::CreateDstEscrow(init) => EscrowInstruction::CreateDstEscrow(*init),
            EscrowInstruction::Withdraw { secret, proof } => EscrowInstruction::Withdraw {
                secret: *secret,
                proof: copy_proof(proof),
            },
            EscrowInstruction::WithdrawTo { secret, target, proof } => EscrowInstruction::WithdrawTo {
                secret: *secret,
                target: *target,
                proof: copy_proof(proof),
            },
            EscrowInstruction::Cancel => EscrowInstruction::Cancel,
            EscrowInstruction::PublicCancel => EscrowInstruction::PublicCancel,
            EscrowInstruction::PublicWithdraw { secret, proof } => EscrowInstruction::PublicWithdraw {
                secret: *secret,
                proof: copy_proof(proof),
            },
            EscrowInstruction::RescueFunds => EscrowInstruction::RescueFunds,
        }
    }
}

/// The little-endian `u64` stored at byte `at` of `data`.
pub open spec fn u64_at(data: Seq<u8>, at: int) -> u64 {
    spec_u64_from_le_bytes(data.subrange(at, at + 8))
}

/// The 32 bytes starting at byte `at` of `data`.
pub open spec fn bytes32_at(data: Seq<u8>, at: int) -> Seq<u8> {
    data.subrange(at, at + 32)
}

/// The initialization record encoded at the start of `data`.
pub open spec fn spec_decode_init(data: Seq<u8>) -> EscrowInitView {
    EscrowInitView {
        maker: bytes32_at(data, 0),
        resolver: bytes32_at(data, 32),
        hash_secret: bytes32_at(data, 64),
        token_mint: bytes32_at(data, 96),
        amount: u64_at(data, 128),
        safety_deposit_lamports: u64_at(data, 136),
        merkle_root: bytes32_at(data, 144),
        timelocks: Seq::new(7, |i: int| u64_at(data, 176 + 8 * i)),
        bump: data[232],
    }
}

/// A Merkle proof encoded as consecutive 32-byte entries: it is refused when
/// the bytes do not split evenly into entries or hold more than 32 of them.
pub open spec fn spec_unpack_proof(data: Seq<u8>) -> Result<Seq<Seq<u8>>, ProgramError> {
    if data.len() % 32 != 0 || data.len() / 32 > 32 {
        Err(ProgramError::InvalidInstructionData)
    } else {
        Ok(Seq::new(data.len() / 32, |i: int| bytes32_at(data, 32 * i)))
    }
}

/// The instruction encoded by `input`: a one-byte tag, then the variant's
/// fields. Secrets and targets are 32 bytes each; whatever follows them is
/// the Merkle proof. An empty input, an unknown tag or missing bytes are
/// refused; bytes past an initialization record are ignored.
pub open spec fn spec_unpack(input: Seq<u8>) -> Result<EscrowInstructionView, ProgramError> {
    if input.len() == 0 {
        Err(ProgramError::InvalidInstructionData)
    } else {
        let data = input.drop_first();
        let tag = input[0];
        if tag == 0 {
            if data.len() < ESCROW_INIT_LEN {
                Err(ProgramError::InvalidInstructionData)
            } else {
                Ok(EscrowInstructionView::CreateDstEscrow(spec_decode_init(data)))
            }
        } else if tag == 1 || tag == 5 {
            if data.len() < 32 {
                Err(ProgramError::InvalidInstructionData)
            } else {
                match spec_unpack_proof(data.skip(32)) {
                    Ok(proof) => if tag == 1 {
                        Ok(EscrowInstructionView::Withdraw { secret: bytes32_at(data, 0), proof })
                    } else {
                        Ok(EscrowInstructionView::PublicWithdraw { secret: bytes32_at(data, 0), proof })
                    },
                    Err(e) => Err(e),
                }
            }
        } else if tag == 2 {
            if data.len() < 64 {
                Err(ProgramError::InvalidInstructionData)
            } else {
                match spec_unpack_proof(data.skip(64)) {
                    Ok(proof) => Ok(
                        EscrowInstructionView::WithdrawTo {
                            secret: bytes32_at(data, 0),
                            target: bytes32_at(data, 32),
                            proof,
                        },
                    ),
                    Err(e) => Err(e),
                }
            }
        } else if tag == 3 {
            Ok(EscrowInstructionView::Cancel)
        } else if tag == 4 {
            Ok(EscrowInstructionView::PublicCancel)
        } else if tag == 6 {
            Ok(EscrowInstructionView::RescueFunds)
        } else {
            Err(ProgramError::InvalidInstructionData)
        }
    }
}

/// Copies the 32 bytes at `at` out of `data`.
pub(crate) fn read_bytes32(data: &[u8], at: usize) -> (out: [u8; 32])
    requires
        at + 32 <= data@.len(),
    ensures
        out@ == bytes32_at(data@, at as int),
{
    let len = data.len();
    let mut out = [0u8; 32];
    let mut i: usize = 0;
    while i < 32
        invariant
            0 <= i <= 32,
            at + 32 <= data@.len(),
            len == data@.len(),
            forall|j: int| 0 <= j < i ==> out@[j] == data@[at + j],
        decreases 32 - i,
    {
        out[i] = data[at + i];
        i = i + 1;
    }
    assert(out@ =~= bytes32_at(data@, at as int));
    out
}

/// Reads the little-endian `u64` at `at` in `data`.
pub(crate) fn read_u64(data: &[u8], at: usize) -> (v: u64)
    requires
        at + 8 <= data@.len(),
    ensures
        v == u64_at(data@, at as int),
{
    let len = data.len();
    assert(at + 8 <= len);
    u64_from_le_bytes(slice_subrange(data, at, at + 8))
}

fn decode_init(data: &[u8]) -> (init: EscrowInit)
    requires
        data@.len() >= ESCROW_INIT_LEN,
    ensures
        init@ == spec_decode_init(data@),
{
    let mut timelocks = [0u64; 7];
    let mut i: usize = 0;
    while i < 7
        invariant
            0 <= i <= 7,
            data@.len() >= ESCROW_INIT_LEN,
            forall|j: int| 0 <= j < i ==> timelocks@[j] == u64_at(data@, 176 + 8 * j),
        decreases 7 - i,
    {
        timelocks[i] = read_u64(data, 176 + 8 * i);
        i = i + 1;
    }
    let init = EscrowInit {
        maker: read_bytes32(data, 0),
        resolver: read_bytes32(data, 32),
        hash_secret: read_bytes32(data, 64),
        token_mint: read_bytes32(data, 96),
        amount: read_u64(data, 128),
        safety_deposit_lamports: read_u64(data, 136),
        merkle_root: read_bytes32(data, 144),
        timelocks,
        bump: data[232],
    };
    assert(init@.timelocks =~= spec_decode_init(data@).timelocks);
    init
}

impl EscrowInstruction {
    /// Decodes instruction data.
    pub fn unpack(input: &[u8]) -> (res: Result<Self, ProgramError>)
        ensures
            match res {
                Ok(instr) => spec_unpack(input@) == Ok::<_, ProgramError>(instr@),
                Err(e) => spec_unpack(input@) == Err::<EscrowInstructionView, _>(e),
            },
    {
        if input.len() == 0 {
            return Err(ProgramError::InvalidInstructionData);
        }
        let tag = input[0];
        let data = slice_subrange(input, 1, input.len());
        assert(data@ =~= input@.drop_first());
        if tag == 0 {
            if data.len() < ESCROW_INIT_LEN {
                return Err(ProgramError::InvalidInstructionData);
            }
            Ok(EscrowInstruction::CreateDstEscrow(decode_init(data)))
        } else if tag == 1 || tag == 5 {
            if data.len() < 32 {
                return Err(ProgramError::InvalidInstructionData);
            }
            let secret = read_bytes32(data, 0);
            let rest = slice_subrange(data, 32, data.len());
            assert(rest@ =~= data@.skip(32));
            let proof = Self::unpack_proof(rest)?;
            if tag == 1 {
                Ok(EscrowInstruction::Withdraw { secret, proof })
            } else {
                Ok(EscrowInstruction::PublicWithdraw { secret, proof })
            }
        } else if tag == 2 {
            if data.len() < 64 {
                return Err(ProgramError::InvalidInstructionData);
            }
            let secret = read_bytes32(data, 0);
            let target = read_bytes32(data, 32);
            let rest = slice_subrange(data, 64, data.len());
            assert(rest@ =~= data@.skip(64));
            let proof = Self::unpack_proof(rest)?;
            Ok(EscrowInstruction::WithdrawTo { secret, target, proof })
        } else if tag == 3 {
            Ok(EscrowInstruction::Cancel)
        } else if tag == 4 {
            Ok(EscrowInstruction::PublicCancel)
        } else if tag == 6 {
            Ok(EscrowInstruction::RescueFunds)
        } else {
            Err(ProgramError::InvalidInstructionData)
        }
    }

    /// Splits the bytes of a Merkle proof into its 32-byte entries.
    pub fn unpack_proof(data: &[u8]) -> (res: Result<Vec<[u8; 32]>, ProgramError>)
        ensures
            match res {
                Ok(proof) => spec_unpack_proof(data@) == Ok::<_, ProgramError>(proof_view(proof@)),
                Err(e) => spec_unpack_proof(data@) == Err::<Seq<Seq<u8>>, _>(e),
            },
    {
        if data.len() == 0 {
            let empty: Vec<[u8; 32]> = Vec::new();
            assert(proof_view(empty@) =~= Seq::new(0, |i: int| bytes32_at(data@, 32 * i)));
            return Ok(empty);
        }
        if data.len() % PROOF_NODE_LEN != 0 {
            return Err(ProgramError::InvalidInstructionData);
        }
        let proof_len = data.len() / PROOF_NODE_LEN;
        if proof_len > MAX_PROOF_NODES {
            return Err(ProgramError::InvalidInstructionData);
        }
        let mut proof: Vec<[u8; 32]> = Vec::with_capacity(proof_len);
        let mut i: usize = 0;
        while i < proof_len
            invariant
                0 <= i <= proof_len,
                proof_len == data@.len() / 32,
                proof_len <= 32,
                data@.len() % 32 == 0,
                proof@.len() == i,
                forall|j: int| 0 <= j < i ==> #[trigger] proof@[j]@ == bytes32_at(data@, 32 * j),
            decreases proof_len - i,
        {
            let start = i * PROOF_NODE_LEN;
            let node = read_bytes32(data, start);
            proof.push(node);
            i = i + 1;
        }
        assert(proof_view(proof@) =~= Seq::new(proof_len as nat, |i: int| bytes32_at(data@, 32 * i)));
        Ok(proof)
    }
}

/// The byte strings of `parts`, one after another.
pub open spec fn concat(parts: Seq<Seq<u8>>) -> Seq<u8>
    decreases parts.len(),
{
    if parts.len() == 0 {
        Seq::empty()
    } else {
        parts[0] + concat(parts.drop_first())
    }
}

/// Cutting the concatenation of equally long parts at multiples of their
/// length gives the parts back.
pub(crate) proof fn lemma_concat_uniform(parts: Seq<Seq<u8>>, width: nat)
    requires
        forall|i: int| 0 <= i < parts.len() ==> #[trigger] parts[i].len() == width,
    ensures
        concat(parts).len() == width * parts.len(),
        forall|i: int|
            0 <= i < parts.len() ==> concat(parts).subrange(width * i, width * i + width)
                == #[trigger] parts[i],
    decreases parts.len(),
{
    if parts.len() > 0 {
        let rest = parts.drop_first();
        lemma_concat_uniform(rest, width);
        let whole = concat(parts);
        let tail = concat(rest);
        assert(width * parts.len() == width + width * rest.len()) by (nonlinear_arith)
            requires
                parts.len() == rest.len() + 1,
        ;
        assert forall|i: int| 0 <= i < parts.len() implies whole.subrange(width * i, width * i + width)
            == #[trigger] parts[i] by {
            if i == 0 {
                assert(whole.subrange(0, width as int) =~= parts[0]);
            } else {
                assert(width * i == width + width * (i - 1)) by (nonlinear_arith);
                assert(width * (i - 1) + width <= tail.len()) by (nonlinear_arith)
                    requires
                        tail.len() == width * rest.len(),
                        0 <= i - 1 < rest.len(),
                ;
                assert(whole.subrange(width * i, width * i + width) =~= tail.subrange(
                    width * (i - 1),
                    width * (i - 1) + width,
                ));
                assert(rest[i - 1] == parts[i]);
            }
        }
    }
}

/// The little-endian encoding of a `u64`.
pub open spec fn u64_le(x: u64) -> Seq<u8> {
    spec_u64_to_le_bytes(x)
}

/// The bytes of consecutive little-endian `u64`s.
pub open spec fn u64s_le(values: Seq<u64>) -> Seq<u8> {
    concat(values.map_values(|x: u64| u64_le(x)))
}

/// The encoding of an initialization record, padding included.
pub open spec fn spec_encode_init(v: EscrowInitView) -> Seq<u8> {
    v.maker + v.resolver + v.hash_secret + v.token_mint + u64_le(v.amount) + u64_le(
        v.safety_deposit_lamports,
    ) + v.merkle_root + u64s_le(v.timelocks) + seq![v.bump] + Seq::new(7, |i: int| 0u8)
}

/// The encoding of an instruction: its tag, then its fields, each proof
/// entry after the other.
pub open spec fn spec_encode_instruction(v: EscrowInstructionView) -> Seq<u8> {
    match v {
        EscrowInstructionView::CreateDstEscrow(init) => seq![0u8] + spec_encode_init(init),
        EscrowInstructionView::Withdraw { secret, proof } => seq![1u8] + secret + concat(proof),
        EscrowInstructionView::WithdrawTo { secret, target, proof } => seq![2u8] + secret + target
            + concat(proof),
        EscrowInstructionView::Cancel => seq![3u8],
        EscrowInstructionView::PublicCancel => seq![4u8],
        EscrowInstructionView::PublicWithdraw { secret, proof } => seq![5u8] + secret + concat(
            proof,
        ),
        EscrowInstructionView::RescueFunds => seq![6u8],
    }
}

/// The Merkle proof an instruction carries; none for the variants without.
pub open spec fn proof_of(v: EscrowInstructionView) -> Seq<Seq<u8>> {
    match v {
        EscrowInstructionView::Withdraw { proof, .. } => proof,
        EscrowInstructionView::WithdrawTo { proof, .. } => proof,
        EscrowInstructionView::PublicWithdraw { proof, .. } => proof,
        _ => Seq::empty(),
    }
}

/// The number of proof entries an instruction carries.
pub open spec fn proof_len(v: EscrowInstructionView) -> nat {
    proof_of(v).len()
}

/// Every decoded instruction carries at most 32 Merkle proof entries of 32
/// bytes each.
pub proof fn lemma_unpacked_proof_bounded(input: Seq<u8>)
    ensures
        spec_unpack(input) matches Ok(v) ==> proof_len(v) <= MAX_PROOF_NODES,
        spec_unpack(input) matches Ok(v) ==> forall|i: int|
            0 <= i < proof_len(v) ==> #[trigger] proof_of(v)[i].len() == 32,
{
}

proof fn lemma_proof_roundtrip(proof: Seq<[u8; 32]>)
    requires
        proof.len() <= MAX_PROOF_NODES,
    ensures
        spec_unpack_proof(concat(proof_view(proof))) == Ok::<_, ProgramError>(proof_view(proof)),
{
    let parts = proof_view(proof);
    lemma_concat_uniform(parts, 32);
    let bytes = concat(parts);
    assert(bytes.len() / 32 == parts.len());
    assert(bytes.len() % 32 == 0);
    assert(Seq::new(bytes.len() / 32, |i: int| bytes32_at(bytes, 32 * i)) =~= parts);
}

proof fn lemma_init_roundtrip(init: EscrowInit, tail: Seq<u8>)
    ensures
        spec_decode_init(spec_encode_init(init@) + tail) == init@,
        (spec_encode_init(init@) + tail).len() == ESCROW_INIT_LEN + tail.len(),
{
    lemma_auto_spec_u64_to_from_le_bytes();
    let v = init@;
    let times = v.timelocks.map_values(|x: u64| u64_le(x));
    lemma_concat_uniform(times, 8);
    let data = spec_encode_init(v) + tail;
    let d = spec_decode_init(data);
    assert(d.maker =~= v.maker);
    assert(d.resolver =~= v.resolver);
    assert(d.hash_secret =~= v.hash_secret);
    assert(d.token_mint =~= v.token_mint);
    assert(data.subrange(128, 136) =~= u64_le(v.amount));
    assert(data.subrange(136, 144) =~= u64_le(v.safety_deposit_lamports));
    assert(d.merkle_root =~= v.merkle_root);
    assert forall|i: int| 0 <= i < 7 implies #[trigger] d.timelocks[i] == v.timelocks[i] by {
        assert(data.subrange(176 + 8 * i, 184 + 8 * i) =~= u64s_le(v.timelocks).subrange(
            8 * i,
            8 * i + 8,
        ));
        assert(times[i] == u64_le(v.timelocks[i]));
    }
    assert(d.timelocks =~= v.timelocks);
    assert(d.bump == v.bump);
}

/// Decoding the encoding of an instruction gives the instruction back,
/// whenever its Merkle proof has at most 32 entries.
pub proof fn lemma_unpack_encode_roundtrip(instr: EscrowInstruction)
    requires
        proof_len(instr@) <= MAX_PROOF_NODES,
    ensures
        spec_unpack(spec_encode_instruction(instr@)) == Ok::<_, ProgramError>(instr@),
{
    let bytes = spec_encode_instruction(instr@);
    match instr {
        EscrowInstruction::CreateDstEscrow(init) => {
            lemma_init_roundtrip(init, Seq::empty());
            assert(bytes.drop_first() =~= spec_encode_init(init@) + Seq::<u8>::empty());
        },
        EscrowInstruction::Withdraw { secret, proof } => {
            lemma_proof_roundtrip(proof@);
            let data = bytes.drop_first();
            assert(data =~= secret@ + concat(proof_view(proof@)));
            assert(data.skip(32) =~= concat(proof_view(proof@)));
            assert(bytes32_at(data, 0) =~= secret@);
        },
        EscrowInstruction::PublicWithdraw { secret, proof } => {
            lemma_proof_roundtrip(proof@);
            let data = bytes.drop_first();
            assert(data =~= secret@ + concat(proof_view(proof@)));
            assert(data.skip(32) =~= concat(proof_view(proof@)));
            assert(bytes32_at(data, 0) =~= secret@);
        },
        EscrowInstruction::WithdrawTo { secret, target, proof } => {
            lemma_proof_roundtrip(proof@);
            let data = bytes.drop_first();
            assert(data =~= secret@ + target@ + concat(proof_view(proof@)));
            assert(data.skip(64) =~= concat(proof_view(proof@)));
            assert(bytes32_at(data, 0) =~= secret@);
            assert(bytes32_at(data, 32) =~= target@);
        },
        _ => {},
    }
}

} // verus!
