use zk_commitment::encoding::{pack_word, push_framed};
use zk_commitment::error::CommitmentError;
use zk_commitment::factory::{CommitmentFactory, SchemeHandle, ZkSystem};
use zk_commitment::field::FieldElement;
use zk_commitment::halo2_impl::Halo2PedersenCommitment;
use zk_commitment::lending::{
    copy_slice, split_basket, CollateralCommitment, CollateralOpening, LoanCommitment,
};
use zk_commitment::plonk_impl::PlonkPedersenCommitment;
use zk_commitment::protocol::ProtocolCommitments;
use zk_commitment::scheme::{CommitmentScheme, PedersenCommitment};
use zk_commitment::valuation::{check_sufficiency, find_price, value_basket};

const ASSET_A: u64 = 1;
const ASSET_B: u64 = 2;

fn protocol() -> ProtocolCommitments<Halo2PedersenCommitment> {
    ProtocolCommitments::new(Halo2PedersenCommitment::standard())
}

fn limbs_of(value: &[FieldElement]) -> Vec<[u64; 4]> {
    value.iter().map(|e| e.limbs()).collect()
}

#[test]
fn pack_word_reads_little_endian() {
    let bytes = [0x01u8, 0x02, 0x03, 0x04, 0x05, 0x06, 0x07, 0x08, 0x09];
    assert_eq!(pack_word(&bytes, 0, 8), 0x0807060504030201);
    assert_eq!(pack_word(&bytes, 8, 9), 9);
    assert_eq!(pack_word(&bytes, 1, 3), 0x0302);
    assert_eq!(pack_word(&bytes, 4, 4), 0);
    assert_eq!(pack_word(&[0xffu8; 8], 0, 8), u64::MAX);
}

#[test]
fn framing_puts_the_length_first() {
    let mut out = vec![FieldElement::from_u64(99)];
    push_framed(&mut out, &[0xaa, 0xbb, 0xcc]);
    assert_eq!(limbs_of(&out), vec![[99, 0, 0, 0], [3, 0, 0, 0], [0xccbbaa, 0, 0, 0]]);
    let mut empty = Vec::new();
    push_framed(&mut empty, &[]);
    assert_eq!(limbs_of(&empty), vec![[0, 0, 0, 0]]);
    let mut sixteen = Vec::new();
    push_framed(&mut sixteen, &[1u8; 16]);
    assert_eq!(
        limbs_of(&sixteen),
        vec![[16, 0, 0, 0], [0x0101010101010101, 0, 0, 0], [0x0101010101010101, 0, 0, 0]]
    );
}

#[test]
fn trailing_zero_bytes_change_the_framing() {
    let mut a = Vec::new();
    push_framed(&mut a, &[5]);
    let mut b = Vec::new();
    push_framed(&mut b, &[5, 0]);
    assert_ne!(limbs_of(&a), limbs_of(&b));
}

#[test]
fn encode_collateral_lays_the_basket_out_in_order() {
    let value = ProtocolCommitments::<Halo2PedersenCommitment>::encode_collateral(
        &[7, 9],
        &[100, 200],
        &[1, 2, 3, 4, 5, 6, 7, 8, 9],
    )
    .unwrap();
    assert_eq!(
        limbs_of(&value),
        vec![
            [1, 0, 0, 0],
            [2, 0, 0, 0],
            [7, 0, 0, 0],
            [100, 0, 0, 0],
            [9, 0, 0, 0],
            [200, 0, 0, 0],
            [9, 0, 0, 0],
            [0x0807060504030201, 0, 0, 0],
            [9, 0, 0, 0],
        ]
    );
}

#[test]
fn encode_collateral_of_nothing() {
    let value =
        ProtocolCommitments::<Halo2PedersenCommitment>::encode_collateral(&[], &[], &[]).unwrap();
    assert_eq!(limbs_of(&value), vec![[1, 0, 0, 0], [0, 0, 0, 0], [0, 0, 0, 0]]);
}

#[test]
fn encode_collateral_rejects_lists_of_different_length() {
    let r = ProtocolCommitments::<Halo2PedersenCommitment>::encode_collateral(&[1, 2], &[10], &[]);
    assert_eq!(r.map(|v| limbs_of(&v)), Err(CommitmentError::EncodingError));
    let p = protocol();
    let rnd = FieldElement::from_u64(3);
    assert_eq!(p.commit_collateral(&[1], &[], b"s", &rnd), Err(CommitmentError::EncodingError));
    assert!(!p.verify_collateral_commitment(&vec![0u8; 32], &[1], &[], b"s", &rnd));
}

#[test]
fn commit_collateral_is_stable_and_verifies() {
    let p = protocol();
    let rnd = FieldElement::from_u64(1234);
    let a = p.commit_collateral(&[ASSET_A, ASSET_B], &[10, 5], b"owner secret", &rnd).unwrap();
    let b = p.commit_collateral(&[ASSET_A, ASSET_B], &[10, 5], b"owner secret", &rnd).unwrap();
    assert_eq!(a, b);
    assert_eq!(a.len(), 32);
    assert!(p.verify_collateral_commitment(&a, &[ASSET_A, ASSET_B], &[10, 5], b"owner secret", &rnd));
    assert!(!p.verify_collateral_commitment(&a, &[ASSET_A, ASSET_B], &[10, 6], b"owner secret", &rnd));
    assert!(!p.verify_collateral_commitment(&a, &[ASSET_A, ASSET_B], &[10, 5], b"other secret", &rnd));
    assert!(!p.verify_collateral_commitment(
        &a,
        &[ASSET_A, ASSET_B],
        &[10, 5],
        b"owner secret",
        &FieldElement::from_u64(1235)
    ));
}

#[test]
fn reordered_basket_commits_differently() {
    let p = protocol();
    let rnd = FieldElement::from_u64(1234);
    let a = p.commit_collateral(&[ASSET_A, ASSET_B], &[10, 5], b"s", &rnd).unwrap();
    let b = p.commit_collateral(&[ASSET_B, ASSET_A], &[5, 10], b"s", &rnd).unwrap();
    assert_ne!(a, b);
    assert!(!p.verify_collateral_commitment(&a, &[ASSET_B, ASSET_A], &[5, 10], b"s", &rnd));
}

#[test]
fn adapter_commits_to_the_encoding() {
    let p = protocol();
    let rnd = FieldElement::from_u64(8);
    let value =
        ProtocolCommitments::<Halo2PedersenCommitment>::encode_collateral(&[3], &[4], b"k").unwrap();
    let direct = p.scheme().commit(&value, &rnd).unwrap();
    assert_eq!(p.commit_collateral(&[3], &[4], b"k", &rnd).unwrap(), direct);
}

#[test]
fn basket_too_large_for_the_scheme_is_an_encoding_error() {
    let small = ProtocolCommitments::new(Halo2PedersenCommitment::new(3).unwrap());
    let rnd = FieldElement::from_u64(8);
    // tag, count, two words a holding, length of the secret: 3 + 2n words, 7 at most.
    assert!(small.commit_collateral(&[1, 2], &[3, 4], &[], &rnd).is_ok());
    assert_eq!(
        small.commit_collateral(&[1, 2, 3], &[3, 4, 5], &[], &rnd),
        Err(CommitmentError::EncodingError)
    );
    assert_eq!(small.commit_collateral(&[1, 2], &[3, 4], b"x", &rnd), Err(CommitmentError::EncodingError));
}

#[test]
fn trait_commit_collateral_matches_the_adapter() {
    let p = protocol();
    let rnd = FieldElement::from_u64(77);
    let by_trait =
        CollateralCommitment::commit_collateral(&p, &[(ASSET_A, 10), (ASSET_B, 5)], b"s", &rnd).unwrap();
    let by_adapter = p.commit_collateral(&[ASSET_A, ASSET_B], &[10, 5], b"s", &rnd).unwrap();
    assert_eq!(by_trait, by_adapter);
}

#[test]
fn split_basket_keeps_the_order() {
    let (ids, amounts) = split_basket(&[(5, 50), (3, 30), (4, 40)]);
    assert_eq!(ids, vec![5, 3, 4]);
    assert_eq!(amounts, vec![50, 30, 40]);
    assert_eq!(copy_slice(&[1u8, 2, 3]), vec![1u8, 2, 3]);
}

fn opening() -> CollateralOpening {
    CollateralOpening {
        assets: vec![(ASSET_A, 10), (ASSET_B, 5)],
        owner_secret: b"owner".to_vec(),
        randomness: FieldElement::from_u64(4242),
    }
}

fn committed(p: &ProtocolCommitments<Halo2PedersenCommitment>, o: &CollateralOpening) -> Vec<u8> {
    CollateralCommitment::commit_collateral(p, &o.assets, &o.owner_secret, &o.randomness).unwrap()
}

#[test]
fn insufficient_collateral_is_reported() {
    let p = protocol();
    let o = opening();
    let c = committed(&p, &o);
    let prices = [(ASSET_A, 100), (ASSET_B, 50)];
    // 10 * 100 + 5 * 50 = 1250, and 1.5 * 900 = 1350.
    let r = p.prove_sufficient_collateral(&c, 900, 150, &prices, &o);
    assert_eq!(r.err(), Some(CommitmentError::InsufficientCollateral));
}

#[test]
fn missing_price_is_reported() {
    let p = protocol();
    let o = opening();
    let c = committed(&p, &o);
    let prices = [(ASSET_A, 100)];
    let r = p.prove_sufficient_collateral(&c, 900, 150, &prices, &o);
    assert_eq!(r.err(), Some(CommitmentError::MissingOraclePrice));
    // A missing price is reported even where the rest would cover the loan.
    let r = p.prove_sufficient_collateral(&c, 1, 100, &prices, &o);
    assert_eq!(r.err(), Some(CommitmentError::MissingOraclePrice));
}

#[test]
fn sufficient_collateral_gives_the_statement() {
    let p = protocol();
    let o = opening();
    let c = committed(&p, &o);
    let prices = [(ASSET_A, 100), (ASSET_B, 50)];
    let proof = p.prove_sufficient_collateral(&c, 833, 150, &prices, &o).ok().unwrap();
    assert_eq!(proof.commitment(), &c);
    assert_eq!(proof.loan_amount(), 833);
    assert_eq!(proof.collateralization_ratio(), 150);
    assert_eq!(proof.prices(), &prices.to_vec());
    // 150 * 834 = 125100 is over 100 * 1250.
    let r = p.prove_sufficient_collateral(&c, 834, 150, &prices, &o);
    assert_eq!(r.err(), Some(CommitmentError::InsufficientCollateral));
    // The threshold itself is enough.
    assert!(p.prove_sufficient_collateral(&c, 1250, 100, &prices, &o).is_ok());
    assert!(p.prove_sufficient_collateral(&c, 1251, 100, &prices, &o).is_err());
}

#[test]
fn opening_that_does_not_open_is_unsatisfiable() {
    let p = protocol();
    let o = opening();
    let c = committed(&p, &o);
    let prices = [(ASSET_A, 100), (ASSET_B, 50)];
    let mut richer = opening();
    richer.assets[0].1 = 1000;
    let r = p.prove_sufficient_collateral(&c, 900, 150, &prices, &richer);
    assert_eq!(r.err(), Some(CommitmentError::ConstraintUnsatisfiable));
    let mut bent = c.clone();
    bent[5] ^= 0x10;
    let r = p.prove_sufficient_collateral(&bent, 1, 100, &prices, &o);
    assert_eq!(r.err(), Some(CommitmentError::ConstraintUnsatisfiable));
    // An opening that does not open comes before a missing price.
    let r = p.prove_sufficient_collateral(&bent, 1, 100, &[], &o);
    assert_eq!(r.err(), Some(CommitmentError::ConstraintUnsatisfiable));
}

#[test]
fn find_price_takes_the_first_entry() {
    let prices = [(1, 10), (2, 20), (1, 30)];
    assert_eq!(find_price(&prices, 1), Some(10));
    assert_eq!(find_price(&prices, 2), Some(20));
    assert_eq!(find_price(&prices, 3), None);
    assert_eq!(find_price(&[], 1), None);
}

#[test]
fn value_basket_sums_amount_times_price() {
    let prices = [(ASSET_A, 100), (ASSET_B, 50)];
    assert_eq!(value_basket(&[(ASSET_A, 10), (ASSET_B, 5)], &prices), Some(1250));
    assert_eq!(value_basket(&[(ASSET_A, 10), (ASSET_A, 1)], &prices), Some(1100));
    assert_eq!(value_basket(&[], &prices), Some(0));
    assert_eq!(value_basket(&[], &[]), Some(0));
    assert_eq!(value_basket(&[(3, 0)], &prices), None);
    assert_eq!(value_basket(&[(ASSET_A, 10), (3, 1)], &prices), None);
}

#[test]
fn value_basket_stops_at_the_largest_number() {
    let prices = [(ASSET_A, u64::MAX)];
    let one = (u64::MAX as u128) * (u64::MAX as u128);
    assert_eq!(value_basket(&[(ASSET_A, u64::MAX)], &prices), Some(one));
    assert_eq!(value_basket(&[(ASSET_A, u64::MAX), (ASSET_A, u64::MAX)], &prices), Some(u128::MAX));
    assert_eq!(
        check_sufficiency(&[(ASSET_A, u64::MAX), (ASSET_A, u64::MAX)], u64::MAX, u64::MAX, &prices),
        Ok(())
    );
    // One such holding is worth a hundredth of what this loan asks for, and more.
    assert_eq!(check_sufficiency(&[(ASSET_A, u64::MAX)], u64::MAX, u64::MAX, &prices), Ok(()));
}

#[test]
fn check_sufficiency_compares_in_hundredths() {
    let prices = [(ASSET_A, 1)];
    assert_eq!(check_sufficiency(&[(ASSET_A, 1)], 1, 100, &prices), Ok(()));
    assert_eq!(
        check_sufficiency(&[(ASSET_A, 1)], 1, 101, &prices),
        Err(CommitmentError::InsufficientCollateral)
    );
    assert_eq!(check_sufficiency(&[(ASSET_A, 2)], 1, 101, &prices), Ok(()));
    assert_eq!(check_sufficiency(&[], 0, 150, &prices), Ok(()));
    assert_eq!(check_sufficiency(&[], 5, 0, &prices), Ok(()));
    assert_eq!(check_sufficiency(&[], 1, 1, &prices), Err(CommitmentError::InsufficientCollateral));
    assert_eq!(check_sufficiency(&[(9, 1)], 0, 0, &prices), Err(CommitmentError::MissingOraclePrice));
}

#[test]
fn loan_commitment_binds_terms_and_collateral() {
    let p = protocol();
    let rnd = FieldElement::from_u64(5);
    let collateral = committed(&p, &opening());
    let a = p.commit_loan_details(900, 7, &collateral, &rnd).unwrap();
    assert_eq!(a.len(), 32);
    assert_eq!(p.commit_loan_details(900, 7, &collateral, &rnd).unwrap(), a);
    assert_ne!(p.commit_loan_details(901, 7, &collateral, &rnd).unwrap(), a);
    assert_ne!(p.commit_loan_details(900, 8, &collateral, &rnd).unwrap(), a);
    assert_ne!(p.commit_loan_details(7, 900, &collateral, &rnd).unwrap(), a);
    let mut other = collateral.clone();
    other[31] ^= 1;
    assert_ne!(p.commit_loan_details(900, 7, &other, &rnd).unwrap(), a);
    assert_ne!(a, collateral);
}

#[test]
fn loan_commitment_is_the_commitment_to_its_words() {
    let p = protocol();
    let rnd = FieldElement::from_u64(5);
    let value = vec![
        FieldElement::from_u64(2),
        FieldElement::from_u64(900),
        FieldElement::from_u64(7),
        FieldElement::from_u64(3),
        FieldElement::from_u64(0x030201),
    ];
    let direct = p.scheme().commit(&value, &rnd).unwrap();
    assert_eq!(p.commit_loan_details(900, 7, &[1, 2, 3], &rnd).unwrap(), direct);
}

#[test]
fn nullifier_is_deterministic_and_tells_secrets_apart() {
    let p = protocol();
    let loan = p.commit_loan_details(900, 7, &[9u8; 32], &FieldElement::from_u64(5)).unwrap();
    let a = p.create_loan_nullifier(&loan, b"borrower one").unwrap();
    assert_eq!(a.len(), 32);
    assert_eq!(p.create_loan_nullifier(&loan, b"borrower one").unwrap(), a);
    let again = protocol();
    assert_eq!(again.create_loan_nullifier(&loan, b"borrower one").unwrap(), a);
    let mut seen = vec![a];
    for i in 0..16u8 {
        let n = p.create_loan_nullifier(&loan, &[i, 1, 2, 3]).unwrap();
        assert!(!seen.contains(&n));
        seen.push(n);
    }
    let other_loan = p.commit_loan_details(901, 7, &[9u8; 32], &FieldElement::from_u64(5)).unwrap();
    assert!(!seen.contains(&p.create_loan_nullifier(&other_loan, b"borrower one").unwrap()));
}

#[test]
fn nullifier_keeps_loan_and_secret_apart() {
    let p = protocol();
    let a = p.create_loan_nullifier(&[1, 2], &[3]).unwrap();
    let b = p.create_loan_nullifier(&[1], &[2, 3]).unwrap();
    assert_ne!(a, b);
}

#[test]
fn nullifier_is_the_unblinded_commitment_to_its_words() {
    let p = protocol();
    let value = vec![
        FieldElement::from_u64(3),
        FieldElement::from_u64(2),
        FieldElement::from_u64(0x0201),
        FieldElement::from_u64(1),
        FieldElement::from_u64(0x03),
    ];
    let direct = p.scheme().commit(&value, &FieldElement::zero()).unwrap();
    assert_eq!(p.create_loan_nullifier(&[1, 2], &[3]).unwrap(), direct);
}

#[test]
fn nullifier_too_long_for_the_scheme_is_an_encoding_error() {
    let small = ProtocolCommitments::new(Halo2PedersenCommitment::new(2).unwrap());
    assert_eq!(small.create_loan_nullifier(&[1; 32], &[2; 32]), Err(CommitmentError::EncodingError));
    assert_eq!(
        small.commit_loan_details(1, 2, &[0; 32], &FieldElement::zero()),
        Err(CommitmentError::EncodingError)
    );
}

#[test]
fn unregistered_backend_is_unsupported() {
    let factory = CommitmentFactory::with_backends(&[ZkSystem::Halo2]);
    assert!(factory.is_registered(ZkSystem::Halo2));
    assert!(!factory.is_registered(ZkSystem::Plonk));
    assert_eq!(
        factory.create_commitment_scheme(ZkSystem::Plonk).err(),
        Some(CommitmentError::UnsupportedBackend)
    );
    assert!(factory.create_commitment_scheme(ZkSystem::Halo2).is_ok());
    let none = CommitmentFactory::with_backends(&[]);
    assert_eq!(
        none.create_commitment_scheme(ZkSystem::Halo2).err(),
        Some(CommitmentError::UnsupportedBackend)
    );
    assert_eq!(
        none.create_commitment_scheme(ZkSystem::Plonk).err(),
        Some(CommitmentError::UnsupportedBackend)
    );
}

#[test]
fn factory_hands_out_the_backend_asked_for() {
    let factory = CommitmentFactory::with_backends(&[ZkSystem::Plonk, ZkSystem::Halo2, ZkSystem::Plonk]);
    let halo2 = factory.create_commitment_scheme(ZkSystem::Halo2).ok().unwrap();
    let plonk = factory.create_commitment_scheme(ZkSystem::Plonk).ok().unwrap();
    assert_eq!(halo2.system(), ZkSystem::Halo2);
    assert_eq!(plonk.system(), ZkSystem::Plonk);
    let value = vec![FieldElement::from_u64(1), FieldElement::from_u64(2)];
    let rnd = FieldElement::from_u64(3);
    let c = halo2.commit(&value, &rnd).unwrap();
    assert_eq!(c, Halo2PedersenCommitment::standard().commit(&value, &rnd).unwrap());
    assert!(halo2.verify(&c, &value, &rnd));
    assert!(!plonk.verify(&c, &value, &rnd));
    let d = plonk.commit(&value, &rnd).unwrap();
    assert_eq!(d, PlonkPedersenCommitment::standard().commit(&value, &rnd).unwrap());
    assert!(plonk.verify(&d, &value, &rnd));
    assert_eq!(halo2.generators(), Halo2PedersenCommitment::standard().generators());
    assert_eq!(plonk.generators().len(), 64);
}

#[test]
fn protocol_runs_over_a_handle() {
    let factory = CommitmentFactory::with_backends(&[ZkSystem::Plonk]);
    let handle: SchemeHandle = factory.create_commitment_scheme(ZkSystem::Plonk).ok().unwrap();
    let p = ProtocolCommitments::new(handle);
    let rnd = FieldElement::from_u64(6);
    let c = p.commit_collateral(&[ASSET_A], &[10], b"s", &rnd).unwrap();
    assert!(p.verify_collateral_commitment(&c, &[ASSET_A], &[10], b"s", &rnd));
    let direct = ProtocolCommitments::new(PlonkPedersenCommitment::standard());
    assert_eq!(direct.commit_collateral(&[ASSET_A], &[10], b"s", &rnd).unwrap(), c);
    assert_ne!(protocol().commit_collateral(&[ASSET_A], &[10], b"s", &rnd).unwrap(), c);
}

#[test]
fn error_names() {
    assert_eq!(CommitmentError::UnsupportedBackend.name(), "unsupported backend");
    assert_eq!(CommitmentError::EncodingError.name(), "encoding error");
    assert_eq!(CommitmentError::ConstraintUnsatisfiable.name(), "constraint unsatisfiable");
    assert_eq!(CommitmentError::MissingOraclePrice.name(), "missing oracle price");
    assert_eq!(CommitmentError::InsufficientCollateral.name(), "insufficient collateral");
    assert_eq!(CommitmentError::SynthesisError.name(), "synthesis error");
}
