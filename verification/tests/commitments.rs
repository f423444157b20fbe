use ark_crypto_primitives::commitment::blake2s::Commitment;
use ark_crypto_primitives::commitment::CommitmentScheme;
use rand::Rng;
use rand::SeedableRng;
use rand_chacha::ChaCha20Rng;
use zk_ml_private_model_baseline::commit::{commit_u8, commit_x, commit_z, compress_x, compress_x_u8};

fn seed(b: u8) -> [u8; 32] {
    let mut s = [0u8; 32];
    for (i, v) in s.iter_mut().enumerate() {
        *v = b.wrapping_add(i as u8);
    }
    s
}

#[test]
fn compress_x_is_twos_complement() {
    assert_eq!(compress_x(&[-1, 0, 127, -128]), vec![255, 0, 127, 128]);
    assert_eq!(compress_x(&[]), Vec::<u8>::new());
}

#[test]
fn compress_x_reads_back_unchanged() {
    let data: Vec<i8> = vec![-128, -5, 0, 5, 127];
    let back: Vec<i8> = compress_x(&data).iter().map(|b| *b as i8).collect();
    assert_eq!(back, data);
}

#[test]
fn compress_x_u8_copies() {
    assert_eq!(compress_x_u8(&[0, 7, 255]), vec![0, 7, 255]);
}

#[test]
fn commit_u8_opening_is_the_seeded_chacha_stream() {
    let s = seed(3);
    let (_, open) = commit_u8(&[1, 2, 3], &s);
    let mut rng = ChaCha20Rng::from_seed(s);
    let mut expected = [0u8; 32];
    rng.fill(&mut expected);
    assert_eq!(open, expected);
    assert_ne!(open, s);
}

#[test]
fn commit_u8_is_the_blake2s_commitment_under_its_opening() {
    let s = seed(9);
    let data = [4u8, 5, 6, 7];
    let (c, open) = commit_u8(&data, &s);
    let expected = Commitment::commit(&(), &data, &open).unwrap();
    assert_eq!(c, expected);
    assert_ne!(c, open);
}

#[test]
fn commit_u8_is_deterministic_and_depends_on_data_and_seed() {
    let data = [10u8, 20, 30];
    assert_eq!(commit_u8(&data, &seed(1)), commit_u8(&data, &seed(1)));
    assert_ne!(commit_u8(&data, &seed(1)).0, commit_u8(&[10u8, 20, 31], &seed(1)).0);
    assert_ne!(commit_u8(&data, &seed(1)).0, commit_u8(&data, &seed(2)).0);
}

#[test]
fn commit_x_and_commit_z_commit_to_the_encoded_bytes() {
    let data: Vec<i8> = vec![-1, 0, 42, -128];
    let s = seed(5);
    let by_bytes = commit_u8(&[255, 0, 42, 128], &s);
    assert_eq!(commit_x(&data, &s), by_bytes);
    assert_eq!(commit_z(&data, &s), by_bytes);
}
