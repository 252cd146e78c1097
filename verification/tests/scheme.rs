use halo2_proofs::pasta::group::{Curve, GroupEncoding};
use halo2_proofs::pasta::{EpAffine, EqAffine, Fp, Fq};
use halo2_proofs::poly::commitment::{Blind, Params};
use halo2_proofs::poly::EvaluationDomain;
use zk_commitment::error::CommitmentError;
use zk_commitment::field::FieldElement;
use zk_commitment::halo2_impl::Halo2PedersenCommitment;
use zk_commitment::plonk_impl::PlonkPedersenCommitment;
use zk_commitment::scheme::{CommitmentScheme, PedersenCommitment};

fn words(ws: &[u64]) -> Vec<FieldElement> {
    ws.iter().map(|w| FieldElement::from_u64(*w)).collect()
}

#[test]
fn halo2_commit_then_verify_accepts() {
    let scheme = Halo2PedersenCommitment::new(3).unwrap();
    let value = words(&[7, 11, 13]);
    let r = FieldElement::from_u64(42);
    let c = scheme.commit(&value, &r).unwrap();
    assert_eq!(c.len(), 32);
    assert!(scheme.verify(&c, &value, &r));
}

#[test]
fn plonk_commit_then_verify_accepts() {
    let scheme = PlonkPedersenCommitment::new(3).unwrap();
    let value = words(&[7, 11, 13]);
    let r = FieldElement::from_u64(42);
    let c = scheme.commit(&value, &r).unwrap();
    assert_eq!(c.len(), 32);
    assert!(scheme.verify(&c, &value, &r));
}

#[test]
fn commit_is_deterministic() {
    let scheme = Halo2PedersenCommitment::new(3).unwrap();
    let value = words(&[1, 2, 3, 4]);
    let r = FieldElement::from_limbs(5, 6, 7, 8);
    let first = scheme.commit(&value, &r).unwrap();
    let second = scheme.commit(&value, &r).unwrap();
    assert_eq!(first, second);
    let again = Halo2PedersenCommitment::new(3).unwrap();
    assert_eq!(again.commit(&value, &r).unwrap(), first);
}

#[test]
fn verify_rejects_other_value_randomness_and_commitment() {
    let scheme = Halo2PedersenCommitment::new(3).unwrap();
    let value = words(&[1, 2, 3]);
    let other = words(&[1, 2, 4]);
    let r = FieldElement::from_u64(9);
    let s = FieldElement::from_u64(10);
    let c = scheme.commit(&value, &r).unwrap();
    assert!(!scheme.verify(&c, &other, &r));
    assert!(!scheme.verify(&c, &value, &s));
    let mut bent = c.clone();
    bent[0] ^= 1;
    assert!(!scheme.verify(&bent, &value, &r));
    let short = c[..31].to_vec();
    assert!(!scheme.verify(&short, &value, &r));
    assert!(!scheme.verify(&Vec::new(), &value, &r));
}

#[test]
fn distinct_values_give_distinct_commitments() {
    let scheme = Halo2PedersenCommitment::new(4).unwrap();
    let mut seen: Vec<Vec<u8>> = Vec::new();
    for i in 0..20u64 {
        let value = words(&[i, i * i + 1, 1000 - i]);
        let r = FieldElement::from_u64(3 * i + 1);
        let c = scheme.commit(&value, &r).unwrap();
        assert!(!seen.contains(&c));
        seen.push(c);
    }
}

#[test]
fn randomness_blinds_the_commitment() {
    let scheme = Halo2PedersenCommitment::new(3).unwrap();
    let value = words(&[1, 2, 3]);
    let a = scheme.commit(&value, &FieldElement::from_u64(1)).unwrap();
    let b = scheme.commit(&value, &FieldElement::from_u64(2)).unwrap();
    assert_ne!(a, b);
}

#[test]
fn appended_zero_is_another_value() {
    let scheme = Halo2PedersenCommitment::new(3).unwrap();
    let r = FieldElement::from_u64(5);
    let a = scheme.commit(&words(&[1]), &r).unwrap();
    let b = scheme.commit(&words(&[1, 0]), &r).unwrap();
    assert_ne!(a, b);
    let empty = scheme.commit(&words(&[]), &r).unwrap();
    let zero = scheme.commit(&words(&[0]), &r).unwrap();
    assert_ne!(empty, zero);
}

#[test]
fn value_over_capacity_is_an_encoding_error() {
    let scheme = Halo2PedersenCommitment::new(2).unwrap();
    let r = FieldElement::from_u64(5);
    assert!(scheme.commit(&words(&[1, 2, 3]), &r).is_ok());
    assert_eq!(scheme.commit(&words(&[1, 2, 3, 4]), &r), Err(CommitmentError::EncodingError));
    assert!(!scheme.verify(&vec![0u8; 32], &words(&[1, 2, 3, 4]), &r));
}

#[test]
fn halo2_scalar_at_the_field_order_is_an_encoding_error() {
    let scheme = Halo2PedersenCommitment::new(2).unwrap();
    let order = FieldElement::from_limbs(0x992d30ed00000001, 0x224698fc094cf91b, 0, 0x4000000000000000);
    let largest = FieldElement::from_limbs(0x992d30ed00000000, 0x224698fc094cf91b, 0, 0x4000000000000000);
    let r = FieldElement::from_u64(1);
    assert_eq!(scheme.commit(&vec![order], &r), Err(CommitmentError::EncodingError));
    assert_eq!(scheme.commit(&words(&[1]), &order), Err(CommitmentError::EncodingError));
    let c = scheme.commit(&vec![largest], &largest).unwrap();
    assert!(scheme.verify(&c, &vec![largest], &largest));
    assert_eq!(zk_commitment::halo2_impl::scalar_order(), order);
}

#[test]
fn plonk_scalar_at_the_field_order_is_an_encoding_error() {
    let scheme = PlonkPedersenCommitment::new(2).unwrap();
    let order = FieldElement::from_limbs(0x8c46eb2100000001, 0x224698fc0994a8dd, 0, 0x4000000000000000);
    let largest = FieldElement::from_limbs(0x8c46eb2100000000, 0x224698fc0994a8dd, 0, 0x4000000000000000);
    let r = FieldElement::from_u64(1);
    assert_eq!(scheme.commit(&vec![order], &r), Err(CommitmentError::EncodingError));
    assert_eq!(scheme.commit(&words(&[1]), &order), Err(CommitmentError::EncodingError));
    let c = scheme.commit(&vec![largest], &largest).unwrap();
    assert!(scheme.verify(&c, &vec![largest], &largest));
    assert_eq!(zk_commitment::plonk_impl::scalar_order(), order);
}

#[test]
fn a_scalar_between_the_two_orders_fits_one_backend_only() {
    // The order of the Vesta scalars is below that of the Pallas scalars.
    let between = FieldElement::from_limbs(0x992d30ed00000001, 0x224698fc094cf91b, 0, 0x4000000000000000);
    let r = FieldElement::from_u64(1);
    let halo2 = Halo2PedersenCommitment::new(2).unwrap();
    let plonk = PlonkPedersenCommitment::new(2).unwrap();
    assert_eq!(halo2.commit(&vec![between], &r), Err(CommitmentError::EncodingError));
    assert!(plonk.commit(&vec![between], &r).is_ok());
}

#[test]
fn backends_commit_differently() {
    let halo2 = Halo2PedersenCommitment::new(3).unwrap();
    let plonk = PlonkPedersenCommitment::new(3).unwrap();
    let value = words(&[1, 2, 3]);
    let r = FieldElement::from_u64(4);
    assert_ne!(halo2.commit(&value, &r).unwrap(), plonk.commit(&value, &r).unwrap());
}

#[test]
fn capacity_exponent_is_bounded() {
    assert!(Halo2PedersenCommitment::new(12).is_some());
    assert!(Halo2PedersenCommitment::new(13).is_none());
    assert!(PlonkPedersenCommitment::new(0).is_some());
    assert!(PlonkPedersenCommitment::new(40).is_none());
    assert_eq!(Halo2PedersenCommitment::new(5).unwrap().log2_capacity(), 5);
    assert_eq!(Halo2PedersenCommitment::standard().log2_capacity(), 6);
}

#[test]
fn instance_of_one_generator_commits_to_the_empty_value_only() {
    let scheme = Halo2PedersenCommitment::new(0).unwrap();
    let r = FieldElement::from_u64(1);
    let c = scheme.commit(&words(&[]), &r).unwrap();
    assert!(scheme.verify(&c, &words(&[]), &r));
    assert_eq!(scheme.commit(&words(&[5]), &r), Err(CommitmentError::EncodingError));
    let two = Halo2PedersenCommitment::new(1).unwrap();
    assert!(two.commit(&words(&[5]), &r).is_ok());
    assert_eq!(two.commit(&words(&[5, 6]), &r), Err(CommitmentError::EncodingError));
}

#[test]
fn generators_are_fixed_and_as_many_as_the_capacity() {
    let scheme = Halo2PedersenCommitment::new(3).unwrap();
    let g = scheme.generators();
    assert_eq!(g.len(), 8);
    assert!(g.iter().all(|p| p.len() == 32));
    for i in 0..g.len() {
        for j in 0..i {
            assert_ne!(g[i], g[j]);
        }
    }
    let _ = scheme.commit(&words(&[1]), &FieldElement::from_u64(1)).unwrap();
    assert_eq!(scheme.generators(), g);
    let larger = Halo2PedersenCommitment::new(4).unwrap().generators();
    assert_eq!(larger.len(), 16);
    assert_eq!(&larger[..8], &g[..]);
    let other = PlonkPedersenCommitment::new(3).unwrap().generators();
    assert_eq!(other.len(), 8);
    assert_ne!(other, g);
}

#[test]
fn empty_value_commits_alike_at_every_capacity() {
    // With the empty value the committed vector is all zero but its length
    // slot, which is zero too: the commitment is the blinding generator
    // scaled by the randomness, the same for every capacity.
    let r = FieldElement::from_u64(77);
    let a = Halo2PedersenCommitment::new(1).unwrap().commit(&words(&[]), &r).unwrap();
    let b = Halo2PedersenCommitment::new(4).unwrap().commit(&words(&[]), &r).unwrap();
    assert_eq!(a, b);
}

#[test]
fn halo2_commits_to_length_then_members_then_zeros() {
    let scheme = Halo2PedersenCommitment::new(3).unwrap();
    let value = vec![FieldElement::from_u64(7), FieldElement::from_limbs(1, 2, 3, 4)];
    let r = FieldElement::from_limbs(9, 8, 7, 6);
    let coefficients = vec![
        Fp::from(2),
        Fp::from(7),
        Fp::from_raw([1, 2, 3, 4]),
        Fp::zero(),
        Fp::zero(),
        Fp::zero(),
        Fp::zero(),
        Fp::zero(),
    ];
    let polynomial = EvaluationDomain::<Fp>::new(1, 3).coeff_from_vec(coefficients);
    let params = Params::<EqAffine>::new(3);
    let expected = params.commit(&polynomial, Blind(Fp::from_raw([9, 8, 7, 6]))).to_affine().to_bytes();
    assert_eq!(scheme.commit(&value, &r).unwrap(), expected.to_vec());
    let bases: Vec<Vec<u8>> = params.get_g().iter().map(|g| g.to_bytes().to_vec()).collect();
    assert_eq!(scheme.generators(), bases);
}

#[test]
fn plonk_commits_to_length_then_members_then_zeros() {
    let scheme = PlonkPedersenCommitment::new(2).unwrap();
    let value = vec![FieldElement::from_u64(7), FieldElement::from_limbs(1, 2, 3, 4)];
    let r = FieldElement::from_limbs(9, 8, 7, 6);
    let coefficients = vec![Fq::from(2), Fq::from(7), Fq::from_raw([1, 2, 3, 4]), Fq::zero()];
    let polynomial = EvaluationDomain::<Fq>::new(1, 2).coeff_from_vec(coefficients);
    let params = Params::<EpAffine>::new(2);
    let expected = params.commit(&polynomial, Blind(Fq::from_raw([9, 8, 7, 6]))).to_affine().to_bytes();
    assert_eq!(scheme.commit(&value, &r).unwrap(), expected.to_vec());
    let bases: Vec<Vec<u8>> = params.get_g().iter().map(|g| g.to_bytes().to_vec()).collect();
    assert_eq!(scheme.generators(), bases);
}

#[test]
fn commitment_is_the_sum_of_scaled_generators() {
    // With the randomness zero and the one-member value [1], the committed
    // vector is [1, 1, 0, 0]: the commitment is the sum of the first two
    // generators.
    let scheme = Halo2PedersenCommitment::new(2).unwrap();
    let c = scheme.commit(&vec![FieldElement::from_u64(1)], &FieldElement::zero()).unwrap();
    let g = Params::<EqAffine>::new(2).get_g();
    let sum = (g[0] + g[1]).to_affine().to_bytes();
    assert_eq!(c, sum.to_vec());
}
