//! Commitments to the model's input and output: the data is encoded as bytes,
//! an opening is drawn from a ChaCha20 stream seeded by the caller, and the
//! commitment is the BLAKE2s commitment of the bytes under that opening.
use vstd::prelude::*;
use ark_crypto_primitives::commitment::blake2s::Commitment;
use ark_crypto_primitives::commitment::CommitmentScheme;
use rand::Rng;
use rand::SeedableRng;
use rand_chacha::ChaCha20Rng;

verus! {

/// A BLAKE2s commitment.
pub type Commit = [u8; 32];

/// The randomness that opens a commitment.
pub type Open = [u8; 32];

/// The first 32 bytes of the ChaCha20 stream seeded with `seed`.
pub uninterp spec fn chacha20_opening(seed: Seq<u8>) -> Seq<u8>;

/// The BLAKE2s-256 digest of `data` followed by `randomness`: the blake2s commitment.
pub uninterp spec fn blake2s_commitment(data: Seq<u8>, randomness: Seq<u8>) -> Seq<u8>;

/// Seeds `rand_chacha::ChaCha20Rng::from_seed` with `seed` and fills 32 bytes with
/// `rand::Rng::fill` from it. Trusted: the bytes are the named function of the seed
/// (the generator is deterministic: the same seed gives the same stream); nothing is
/// said of what they are.
#[verifier::external_body]
fn opening_from_seed(seed: &[u8; 32]) -> (open: [u8; 32])
    ensures
        open@ == chacha20_opening(seed@),
{
    let mut rng = ChaCha20Rng::from_seed(*seed);
    let mut open = [0u8; 32];
    rng.fill(&mut open);
    open
}

/// Calls `ark_crypto_primitives::commitment::blake2s::Commitment::commit` with the
/// unit parameters. Trusted: that it always succeeds (its source returns `Ok`
/// unconditionally) and that the commitment is the named function of the data and the
/// randomness; nothing is said of the digest's bytes.
#[verifier::external_body]
fn blake2s_commit(data: &[u8], randomness: &[u8; 32]) -> (c: Option<[u8; 32]>)
    ensures
        c.is_some(),
        c.unwrap()@ == blake2s_commitment(data@, randomness@),
{
    Commitment::commit(&(), data, randomness).ok()
}

/// The bytes of `i8` values in two's complement.
pub open spec fn compress_spec(data: Seq<i8>) -> Seq<u8> {
    Seq::new(data.len(), |i: int| data[i] as u8)
}

/// The commitment and opening to a sequence of bytes under `seed`.
pub open spec fn commitment_of(data: Seq<u8>, seed: Seq<u8>) -> (Seq<u8>, Seq<u8>) {
    (blake2s_commitment(data, chacha20_opening(seed)), chacha20_opening(seed))
}

/// Commits to `data`, returning the commitment and its opening; the opening is the start
/// of the ChaCha20 stream seeded with `seed`.
pub fn commit_u8(data: &[u8], seed: &[u8; 32]) -> (r: (Commit, Open))
    ensures
        (r.0@, r.1@) == commitment_of(data@, seed@),
{
    let open = opening_from_seed(seed);
    let c = blake2s_commit(data, &open).unwrap();
    (c, open)
}

/// Encodes `i8` values as bytes (two's complement).
pub fn compress_x(data: &[i8]) -> (r: Vec<u8>)
    ensures
        r@ == compress_spec(data@),
{
    let mut out: Vec<u8> = Vec::new();
    for i in 0..data.len()
        invariant
            out@ =~= compress_spec(data@).subrange(0, i as int),
    {
        out.push(data[i] as u8);
    }
    assert(out@ =~= compress_spec(data@));
    out
}

/// Copies bytes.
pub fn compress_x_u8(data: &[u8]) -> (r: Vec<u8>)
    ensures
        r@ == data@,
{
    let mut out: Vec<u8> = Vec::new();
    for i in 0..data.len()
        invariant
            out@ =~= data@.subrange(0, i as int),
    {
        out.push(data[i]);
    }
    assert(out@ =~= data@);
    out
}

/// Commits to an input vector: to its bytes as `compress_x` encodes them.
pub fn commit_x(data: &[i8], seed: &[u8; 32]) -> (r: (Commit, Open))
    ensures
        (r.0@, r.1@) == commitment_of(compress_spec(data@), seed@),
{
    let input = compress_x(data);
    commit_u8(&input, seed)
}

/// Commits to an output vector: to its bytes in two's complement.
pub fn commit_z(data: &[i8], seed: &[u8; 32]) -> (r: (Commit, Open))
    ensures
        (r.0@, r.1@) == commitment_of(compress_spec(data@), seed@),
{
    let mut input: Vec<u8> = Vec::new();
    for i in 0..data.len()
        invariant
            input@ =~= compress_spec(data@).subrange(0, i as int),
    {
        input.push(data[i] as u8);
    }
    assert(input@ =~= compress_spec(data@));
    commit_u8(&input, seed)
}

/// The byte encoding of `i8` values loses nothing: reading each byte back as `i8`
/// gives back the encoded values.
pub proof fn lemma_compress_x_lossless(data: Seq<i8>)
    ensures
        Seq::new(compress_spec(data).len(), |i: int| compress_spec(data)[i] as i8) == data,
{
    assert forall|i: int| 0 <= i < data.len() implies (#[trigger] compress_spec(data)[i]) as i8 == data[i] by {
        let x = data[i];
        assert((x as u8) as i8 == x) by (bit_vector);
    }
    assert(Seq::new(compress_spec(data).len(), |i: int| compress_spec(data)[i] as i8) =~= data);
}

/// Two inputs whose byte encodings are equal are equal.
pub proof fn lemma_compress_x_injective(a: Seq<i8>, b: Seq<i8>)
    requires
        compress_spec(a) == compress_spec(b),
    ensures
        a == b,
{
    lemma_compress_x_lossless(a);
    lemma_compress_x_lossless(b);
}

} // verus!
