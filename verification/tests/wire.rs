use ark_ec::AffineRepr;
use ark_ec::CurveGroup;
use ark_serde_compat::babyjubjub;
use ark_serde_compat::bn254;
use ark_serde_compat::curve::{Curve, Fq2};
use ark_serde_compat::edwards::EdwardsAffine;
use ark_serde_compat::error::{DecodeError, ElementError, SequenceError, ValidationMode};
use ark_serde_compat::field::{Field, FieldElement};
use ark_serde_compat::parse::ParseError;
use ark_serde_compat::point::{G1Affine, G2Affine};
use ark_serde_compat::tower::{Fq12, Fq6};
use ark_serde_compat::wire::{
    deserialize_edwards_sequence, deserialize_f, deserialize_f_seq, deserialize_f_seq_signed,
    deserialize_f_seq_with, deserialize_f_signed, deserialize_f_with, deserialize_g1,
    deserialize_g1_sequence, deserialize_g2, deserialize_gt, edwards_from_binary,
    field_from_binary, field_to_bytes, g1_from_binary, g1_to_bytes, g2_from_binary, g2_to_bytes,
    gt_from_binary, gt_to_bytes, serialize_f, serialize_f_seq, serialize_g1,
    serialize_g1_sequence, serialize_g2, serialize_gt, Wire,
};
use ark_serialize::CanonicalSerialize;
use std::str::FromStr;

const CHECKED: ValidationMode = ValidationMode::Checked;
const UNCHECKED: ValidationMode = ValidationMode::Unchecked;

fn strs(v: &[&str]) -> Vec<String> {
    v.iter().map(|s| s.to_string()).collect()
}

fn fe(field: Field, s: &str) -> FieldElement {
    FieldElement::decode(field, s, true).unwrap()
}

fn bytes_of<T: CanonicalSerialize>(v: &T) -> Vec<u8> {
    let mut out = Vec::new();
    v.serialize_compressed(&mut out).unwrap();
    out
}

fn bn_g1(p: &ark_bn254::G1Affine) -> G1Affine {
    match p.xy() {
        Some((x, y)) => G1Affine::Finite {
            x: fe(Field::Bn254Fq, &x.to_string()),
            y: fe(Field::Bn254Fq, &y.to_string()),
        },
        None => G1Affine::Infinity,
    }
}

fn bn_fq2(e: &ark_bn254::Fq2) -> Fq2 {
    Fq2 { c0: fe(Field::Bn254Fq, &e.c0.to_string()), c1: fe(Field::Bn254Fq, &e.c1.to_string()) }
}

fn bn_g2(p: &ark_bn254::G2Affine) -> G2Affine {
    match p.xy() {
        Some((x, y)) => G2Affine::Finite { x: bn_fq2(&x), y: bn_fq2(&y) },
        None => G2Affine::Infinity,
    }
}

fn bn_fq6(e: &ark_bn254::Fq6) -> Fq6 {
    Fq6 { c0: bn_fq2(&e.c0), c1: bn_fq2(&e.c1), c2: bn_fq2(&e.c2) }
}

fn bn_gt(e: &ark_bn254::Fq12) -> Fq12 {
    Fq12 { c0: bn_fq6(&e.c0), c1: bn_fq6(&e.c1) }
}

fn bn_gt_sample() -> ark_bn254::Fq12 {
    let f = |a: u64| ark_bn254::Fq2::new(ark_bn254::Fq::from(a), ark_bn254::Fq::from(a + 100));
    ark_bn254::Fq12::new(
        ark_bn254::Fq6::new(f(1), f(2), f(3)),
        ark_bn254::Fq6::new(f(4), f(5), f(6)),
    )
}

#[test]
fn field_element_in_both_forms() {
    let f = fe(Field::Bn254Fr, "123456789");
    assert_eq!(serialize_f(&f, true), Wire::Readable("123456789".to_string()));
    let should = bytes_of(&ark_bn254::Fr::from_str("123456789").unwrap());
    assert_eq!(serialize_f(&f, false), Wire::Binary(should.clone()));
    assert_eq!(field_to_bytes(&f), should);
    assert_eq!(should.len(), 32);
    assert_eq!(should[0], 0x15);
    for hr in [true, false] {
        let w = serialize_f(&f, hr);
        assert_eq!(deserialize_f(Field::Bn254Fr, &w), Ok(f.clone()));
        assert_eq!(deserialize_f_signed(Field::Bn254Fr, &w), Ok(f.clone()));
        assert_eq!(deserialize_f_with(Field::Bn254Fr, &w, true), Ok(f.clone()));
    }
}

#[test]
fn field_element_bytes_of_every_field() {
    let texts = ["0", "1", "255", "256", "2736030358979909402780800718157159386076813972158567259200215660948447373040"];
    for text in texts {
        let a = fe(Field::Bn254Fr, text);
        assert_eq!(field_to_bytes(&a), bytes_of(&ark_bn254::Fr::from_str(text).unwrap()));
        assert_eq!(field_from_binary(Field::Bn254Fr, &field_to_bytes(&a)), Ok(a));
        let b = fe(Field::Bn254Fq, text);
        assert_eq!(field_to_bytes(&b), bytes_of(&ark_bn254::Fq::from_str(text).unwrap()));
        assert_eq!(field_from_binary(Field::Bn254Fq, &field_to_bytes(&b)), Ok(b));
        let c = fe(Field::BabyJubJubFr, text);
        assert_eq!(
            field_to_bytes(&c),
            bytes_of(&taceo_ark_babyjubjub::Fr::from_str(text).unwrap())
        );
        assert_eq!(field_from_binary(Field::BabyJubJubFr, &field_to_bytes(&c)), Ok(c));
        let d = fe(Field::Bls12381Fr, text);
        assert_eq!(field_to_bytes(&d), bytes_of(&ark_bls12_381::Fr::from_str(text).unwrap()));
        assert_eq!(field_from_binary(Field::Bls12381Fr, &field_to_bytes(&d)), Ok(d));
        let e = fe(Field::Bls12381Fq, text);
        assert_eq!(field_to_bytes(&e), bytes_of(&ark_bls12_381::Fq::from_str(text).unwrap()));
        assert_eq!(field_to_bytes(&e).len(), 48);
        assert_eq!(field_from_binary(Field::Bls12381Fq, &field_to_bytes(&e)), Ok(e));
    }
}

#[test]
fn field_element_bytes_are_little_endian() {
    let mut should = vec![0u8; 32];
    should[0] = 2;
    should[1] = 1;
    assert_eq!(field_to_bytes(&fe(Field::Bn254Fr, "258")), should);
    assert_eq!(field_to_bytes(&fe(Field::Bn254Fq, "258")), should);
    assert_eq!(field_to_bytes(&fe(Field::BabyJubJubFr, "258")), should);
    assert_eq!(field_to_bytes(&fe(Field::Bls12381Fr, "258")), should);
    let mut long = vec![0u8; 48];
    long[2] = 1;
    assert_eq!(field_to_bytes(&fe(Field::Bls12381Fq, "65536")), long);
    let mut trailing = should.clone();
    trailing.push(9);
    assert_eq!(field_from_binary(Field::Bn254Fr, &trailing), Ok(fe(Field::Bn254Fr, "258")));
    let mut modulus = field_to_bytes(&fe(
        Field::Bn254Fr,
        "21888242871839275222246405745257275088548364400416034343698204186575808495616",
    ));
    assert_eq!(modulus[0], 0);
    modulus[0] = 1;
    assert_eq!(field_from_binary(Field::Bn254Fr, &modulus), Err(DecodeError::InvalidEncoding));
    assert!(field_from_binary(Field::Bn254Fq, &modulus).is_ok());
    let fs = vec![fe(Field::Bn254Fr, "258"), fe(Field::Bn254Fr, "1")];
    let mut framed = vec![2u8, 0, 0, 0, 0, 0, 0, 0];
    framed.extend_from_slice(&should);
    framed.extend_from_slice(&field_to_bytes(&fe(Field::Bn254Fr, "1")));
    assert_eq!(serialize_f_seq(Field::Bn254Fr, &fs, false), Wire::Binary(framed.clone()));
    framed.push(7);
    assert_eq!(deserialize_f_seq(Field::Bn254Fr, &Wire::Binary(framed.clone())), Ok(fs));
    framed[0] = 3;
    assert_eq!(
        deserialize_f_seq(Field::Bn254Fr, &Wire::Binary(framed.clone())),
        Err(SequenceError::Encoding)
    );
    framed[0] = 1;
    assert_eq!(
        deserialize_f_seq(Field::Bn254Fr, &Wire::Binary(framed)),
        Ok(vec![fe(Field::Bn254Fr, "258")])
    );
    assert_eq!(
        deserialize_f_seq(Field::Bn254Fr, &Wire::Binary(vec![0; 8])),
        Ok(vec![])
    );
    assert_eq!(
        deserialize_f_seq(Field::Bn254Fr, &Wire::Binary(vec![0; 7])),
        Err(SequenceError::Encoding)
    );
}

#[test]
fn field_element_bytes_that_are_refused() {
    assert_eq!(field_from_binary(Field::Bn254Fr, &[1, 2, 3]), Err(DecodeError::InvalidEncoding));
    assert_eq!(field_from_binary(Field::Bn254Fr, &[0xff; 32]), Err(DecodeError::InvalidEncoding));
    assert_eq!(
        deserialize_f(Field::Bn254Fq, &Wire::Binary(vec![])),
        Err(DecodeError::InvalidEncoding)
    );
    assert_eq!(
        deserialize_f(Field::Bn254Fq, &Wire::Readable("-1".to_string())),
        Err(DecodeError::Scalar { position: 0, error: ParseError::NegativeRejected })
    );
    assert_eq!(
        deserialize_f_signed(Field::Bn254Fq, &Wire::Readable("-1".to_string()))
            .unwrap()
            .encode(),
        "21888242871839275222246405745257275088696311157297823662689037894645226208582"
    );
}

#[test]
fn field_sequences_in_both_forms() {
    let fs = vec![fe(Field::Bn254Fr, "1"), fe(Field::Bn254Fr, "2"), fe(Field::Bn254Fr, "300")];
    assert_eq!(serialize_f_seq(Field::Bn254Fr, &fs, true), Wire::Readable(strs(&["1", "2", "300"])));
    let ark: Vec<ark_bn254::Fr> = vec![1u64, 2, 300].into_iter().map(ark_bn254::Fr::from).collect();
    assert_eq!(serialize_f_seq(Field::Bn254Fr, &fs, false), Wire::Binary(bytes_of(&ark)));
    for hr in [true, false] {
        let w = serialize_f_seq(Field::Bn254Fr, &fs, hr);
        assert_eq!(deserialize_f_seq(Field::Bn254Fr, &w), Ok(fs.clone()));
        assert_eq!(deserialize_f_seq_signed(Field::Bn254Fr, &w), Ok(fs.clone()));
        assert_eq!(deserialize_f_seq_with(Field::Bn254Fr, &w, true), Ok(fs.clone()));
    }
    for field in [Field::Bn254Fq, Field::BabyJubJubFr, Field::Bls12381Fr, Field::Bls12381Fq] {
        let fs = vec![fe(field, "7"), fe(field, "0"), fe(field, "65536")];
        let w = serialize_f_seq(field, &fs, false);
        assert!(matches!(w, Wire::Binary(_)));
        assert_eq!(deserialize_f_seq(field, &w), Ok(fs));
    }
    let ark: Vec<ark_bls12_381::Fq> = vec![ark_bls12_381::Fq::from(9u64)];
    assert_eq!(
        serialize_f_seq(Field::Bls12381Fq, &vec![fe(Field::Bls12381Fq, "9")], false),
        Wire::Binary(bytes_of(&ark))
    );
    assert_eq!(
        deserialize_f_seq(Field::Bn254Fr, &Wire::Binary(vec![3, 0, 0, 0, 0, 0, 0, 0, 1])),
        Err(SequenceError::Encoding)
    );
    assert_eq!(
        deserialize_f_seq(Field::Bn254Fr, &Wire::Readable(strs(&["1", "x"]))),
        Err(SequenceError::Entry(ElementError {
            index: 1,
            error: DecodeError::Scalar { position: 0, error: ParseError::InvalidDigits },
        }))
    );
}

#[test]
fn g1_in_both_forms() {
    let g = ark_bn254::G1Affine::generator();
    let p = bn_g1(&g);
    assert_eq!(serialize_g1(Curve::Bn254, &p, true), Wire::Readable(strs(&["1", "2", "1"])));
    assert_eq!(serialize_g1(Curve::Bn254, &p, false), Wire::Binary(bytes_of(&g)));
    assert_eq!(g1_to_bytes(Curve::Bn254, &p), bytes_of(&g));
    let zero = ark_bn254::G1Affine::zero();
    assert_eq!(g1_to_bytes(Curve::Bn254, &G1Affine::Infinity), bytes_of(&zero));
    for point in [p, G1Affine::Infinity] {
        for hr in [true, false] {
            for mode in [CHECKED, UNCHECKED] {
                let w = serialize_g1(Curve::Bn254, &point, hr);
                assert_eq!(deserialize_g1(Curve::Bn254, &w, mode), Ok(point.clone()));
                assert_eq!(bn254::deserialize_g1(&bn254::serialize_g1(&point, hr), mode), Ok(point.clone()));
            }
        }
    }
    let h = ark_bls12_381::G1Affine::generator();
    let q = G1Affine::Finite {
        x: fe(Field::Bls12381Fq, &h.x.to_string()),
        y: fe(Field::Bls12381Fq, &h.y.to_string()),
    };
    assert_eq!(g1_to_bytes(Curve::Bls12381, &q), bytes_of(&h));
    assert_eq!(g1_from_binary(Curve::Bls12381, &bytes_of(&h), CHECKED), Ok(q.clone()));
    assert_eq!(g1_from_binary(Curve::Bls12381, &bytes_of(&h), UNCHECKED), Ok(q));
    assert_eq!(
        g1_from_binary(Curve::Bls12381, &bytes_of(&ark_bls12_381::G1Affine::zero()), CHECKED),
        Ok(G1Affine::Infinity)
    );
    assert_eq!(g1_from_binary(Curve::Bn254, &[1, 2], CHECKED), Err(DecodeError::InvalidEncoding));
    assert_eq!(g1_from_binary(Curve::Bn254, &[1, 2], UNCHECKED), Err(DecodeError::InvalidEncoding));
}

#[test]
fn g1_bytes_outside_the_subgroup() {
    let mut x = ark_bls12_381::Fq::from(1u64);
    let p = loop {
        if let Some(p) = ark_bls12_381::G1Affine::get_point_from_x_unchecked(x, true) {
            if !p.is_in_correct_subgroup_assuming_on_curve() {
                break p;
            }
        }
        x += ark_bls12_381::Fq::from(1u64);
    };
    let bytes = bytes_of(&p);
    assert_eq!(g1_from_binary(Curve::Bls12381, &bytes, CHECKED), Err(DecodeError::InvalidEncoding));
    let q = g1_from_binary(Curve::Bls12381, &bytes, UNCHECKED).unwrap();
    assert_eq!(
        q,
        G1Affine::Finite {
            x: fe(Field::Bls12381Fq, &p.x.to_string()),
            y: fe(Field::Bls12381Fq, &p.y.to_string()),
        }
    );
}

#[test]
fn g1_sequences_in_both_forms() {
    let g = ark_bn254::G1Affine::generator();
    let g2 = (g.into_group() + g).into_affine();
    let ark = vec![g, ark_bn254::G1Affine::zero(), g2];
    let ps: Vec<G1Affine> = ark.iter().map(bn_g1).collect();
    assert_eq!(serialize_g1_sequence(Curve::Bn254, &ps, false), Wire::Binary(bytes_of(&ark)));
    for hr in [true, false] {
        for mode in [CHECKED, UNCHECKED] {
            let w = serialize_g1_sequence(Curve::Bn254, &ps, hr);
            assert_eq!(deserialize_g1_sequence(Curve::Bn254, &w, None, mode), Ok(ps.clone()));
            let w = bn254::serialize_g1_sequence(&ps, hr);
            assert_eq!(bn254::deserialize_g1_sequence(&w, mode), Ok(ps.clone()));
        }
    }
    let h = ark_bls12_381::G1Affine::generator();
    let qs = vec![G1Affine::Finite {
        x: fe(Field::Bls12381Fq, &h.x.to_string()),
        y: fe(Field::Bls12381Fq, &h.y.to_string()),
    }];
    let w = serialize_g1_sequence(Curve::Bls12381, &qs, false);
    assert_eq!(w, Wire::Binary(bytes_of(&vec![h])));
    assert_eq!(deserialize_g1_sequence(Curve::Bls12381, &w, None, CHECKED), Ok(qs.clone()));
    assert_eq!(deserialize_g1_sequence(Curve::Bls12381, &w, None, UNCHECKED), Ok(qs));
    assert_eq!(
        deserialize_g1_sequence(Curve::Bn254, &Wire::Binary(vec![9]), None, CHECKED),
        Err(SequenceError::Encoding)
    );
    assert_eq!(
        deserialize_g1_sequence(Curve::Bn254, &Wire::Readable(vec![strs(&["1", "2"])]), None, CHECKED),
        Err(SequenceError::Entry(ElementError {
            index: 0,
            error: DecodeError::LengthMismatch { expected: 3, found: 2 },
        }))
    );
}

#[test]
fn g2_in_both_forms() {
    let g = ark_bn254::G2Affine::generator();
    let p = bn_g2(&g);
    assert_eq!(serialize_g2(Curve::Bn254, &p, false), Wire::Binary(bytes_of(&g)));
    assert_eq!(g2_to_bytes(Curve::Bn254, &G2Affine::Infinity), bytes_of(&ark_bn254::G2Affine::zero()));
    for point in [p, G2Affine::Infinity] {
        for hr in [true, false] {
            for mode in [CHECKED, UNCHECKED] {
                let w = serialize_g2(Curve::Bn254, &point, hr);
                assert_eq!(deserialize_g2(Curve::Bn254, &w, mode), Ok(point.clone()));
                assert_eq!(bn254::deserialize_g2(&bn254::serialize_g2(&point, hr), mode), Ok(point.clone()));
            }
        }
    }
    let h = ark_bls12_381::G2Affine::generator();
    let f = |e: &ark_bls12_381::Fq| fe(Field::Bls12381Fq, &e.to_string());
    let q = G2Affine::Finite {
        x: Fq2 { c0: f(&h.x.c0), c1: f(&h.x.c1) },
        y: Fq2 { c0: f(&h.y.c0), c1: f(&h.y.c1) },
    };
    assert_eq!(g2_to_bytes(Curve::Bls12381, &q), bytes_of(&h));
    assert_eq!(g2_from_binary(Curve::Bls12381, &bytes_of(&h), CHECKED), Ok(q.clone()));
    assert_eq!(g2_from_binary(Curve::Bls12381, &bytes_of(&h), UNCHECKED), Ok(q));
    assert_eq!(g2_from_binary(Curve::Bn254, &[0; 3], CHECKED), Err(DecodeError::InvalidEncoding));
    let mut x = ark_bn254::Fq2::new(ark_bn254::Fq::from(1u64), ark_bn254::Fq::from(1u64));
    let off = loop {
        if let Some(p) = ark_bn254::G2Affine::get_point_from_x_unchecked(x, true) {
            if !p.is_in_correct_subgroup_assuming_on_curve() {
                break p;
            }
        }
        x += ark_bn254::Fq2::new(ark_bn254::Fq::from(1u64), ark_bn254::Fq::from(0u64));
    };
    assert_eq!(
        g2_from_binary(Curve::Bn254, &bytes_of(&off), CHECKED),
        Err(DecodeError::InvalidEncoding)
    );
    assert_eq!(g2_from_binary(Curve::Bn254, &bytes_of(&off), UNCHECKED), Ok(bn_g2(&off)));
}

#[test]
fn target_element_in_both_forms() {
    let e = bn_gt_sample();
    let t = bn_gt(&e);
    assert_eq!(gt_to_bytes(Curve::Bn254, &t), bytes_of(&e));
    assert_eq!(serialize_gt(Curve::Bn254, &t, false), Wire::Binary(bytes_of(&e)));
    assert_eq!(gt_from_binary(Curve::Bn254, &bytes_of(&e)), Ok(t.clone()));
    for hr in [true, false] {
        let w = serialize_gt(Curve::Bn254, &t, hr);
        assert_eq!(deserialize_gt(Curve::Bn254, &w), Ok(t.clone()));
        assert_eq!(bn254::deserialize_gt(&bn254::serialize_gt(&t, hr)), Ok(t.clone()));
    }
    assert_eq!(gt_from_binary(Curve::Bn254, &[1; 100]), Err(DecodeError::InvalidEncoding));
    let f = |a: u64| ark_bls12_381::Fq2::new(ark_bls12_381::Fq::from(a), ark_bls12_381::Fq::from(a + 9));
    let b = ark_bls12_381::Fq12::new(
        ark_bls12_381::Fq6::new(f(1), f(2), f(3)),
        ark_bls12_381::Fq6::new(f(4), f(5), f(6)),
    );
    let g = |e: &ark_bls12_381::Fq2| Fq2 {
        c0: fe(Field::Bls12381Fq, &e.c0.to_string()),
        c1: fe(Field::Bls12381Fq, &e.c1.to_string()),
    };
    let s = Fq12 {
        c0: Fq6 { c0: g(&b.c0.c0), c1: g(&b.c0.c1), c2: g(&b.c0.c2) },
        c1: Fq6 { c0: g(&b.c1.c0), c1: g(&b.c1.c1), c2: g(&b.c1.c2) },
    };
    assert_eq!(gt_to_bytes(Curve::Bls12381, &s), bytes_of(&b));
    assert_eq!(gt_from_binary(Curve::Bls12381, &bytes_of(&b)), Ok(s));
}

#[test]
fn target_element_bytes_are_its_scalars_in_order() {
    let e = bn_gt_sample();
    let t = bn_gt(&e);
    let mut should: Vec<u8> = Vec::new();
    for six in [&t.c0, &t.c1] {
        for two in [&six.c0, &six.c1, &six.c2] {
            should.extend_from_slice(&field_to_bytes(&two.c0));
            should.extend_from_slice(&field_to_bytes(&two.c1));
        }
    }
    assert_eq!(should.len(), 384);
    assert_eq!(should[0], 1);
    assert_eq!(should[32], 101);
    assert_eq!(should[64], 2);
    assert_eq!(gt_to_bytes(Curve::Bn254, &t), should);
    let mut trailing = should.clone();
    trailing.push(1);
    assert_eq!(gt_from_binary(Curve::Bn254, &trailing), Ok(t.clone()));
    let mut short = should.clone();
    short.pop();
    assert_eq!(gt_from_binary(Curve::Bn254, &short), Err(DecodeError::InvalidEncoding));
    let mut large = should.clone();
    large[383] = 0xff;
    assert_eq!(gt_from_binary(Curve::Bn254, &large), Err(DecodeError::InvalidEncoding));
    assert_eq!(gt_from_binary(Curve::Bls12381, &should), Err(DecodeError::InvalidEncoding));
    let mut wide = vec![0u8; 576];
    wide[48] = 5;
    let q = gt_from_binary(Curve::Bls12381, &wide).unwrap();
    assert!(q.c0.c0.c0.is_zero());
    assert_eq!(q.c0.c0.c1.as_str(), "5");
}

#[test]
fn edwards_in_both_forms() {
    let g = taceo_ark_babyjubjub::EdwardsAffine::generator();
    let p = EdwardsAffine {
        x: fe(Field::Bn254Fr, &g.x.to_string()),
        y: fe(Field::Bn254Fr, &g.y.to_string()),
    };
    assert_eq!(babyjubjub::serialize_babyjubjub_affine(&p, false), Wire::Binary(bytes_of(&g)));
    assert_eq!(
        babyjubjub::serialize_babyjubjub_affine(&p, true),
        Wire::Readable(vec![g.x.to_string(), g.y.to_string()])
    );
    for hr in [true, false] {
        for mode in [CHECKED, UNCHECKED] {
            let w = babyjubjub::serialize_babyjubjub_affine(&p, hr);
            assert_eq!(babyjubjub::deserialize_babyjubjub_affine(&w, mode), Ok(p.clone()));
        }
    }
    assert_eq!(edwards_from_binary(&bytes_of(&g), CHECKED), Ok(p.clone()));
    assert_eq!(edwards_from_binary(&[7], CHECKED), Err(DecodeError::InvalidEncoding));
    let two = taceo_ark_babyjubjub::EdwardsAffine::new_unchecked(
        taceo_ark_babyjubjub::Fq::from(0u64),
        -taceo_ark_babyjubjub::Fq::from(1u64),
    );
    assert_eq!(edwards_from_binary(&bytes_of(&two), CHECKED), Err(DecodeError::InvalidEncoding));
    assert_eq!(
        edwards_from_binary(&bytes_of(&two), UNCHECKED),
        Ok(EdwardsAffine {
            x: fe(Field::Bn254Fr, "0"),
            y: fe(
                Field::Bn254Fr,
                "21888242871839275222246405745257275088548364400416034343698204186575808495616"
            ),
        })
    );
    let ps = vec![p.clone(), p.clone()];
    assert_eq!(
        babyjubjub::serialize_babyjubjub_affine_sequence(&ps, false),
        Wire::Binary(bytes_of(&vec![g, g]))
    );
    for hr in [true, false] {
        for mode in [CHECKED, UNCHECKED] {
            let w = babyjubjub::serialize_babyjubjub_affine_sequence(&ps, hr);
            assert_eq!(babyjubjub::deserialize_babyjubjub_affine_sequence(&w, mode), Ok(ps.clone()));
            assert_eq!(deserialize_edwards_sequence(&w, Some(2), mode), Ok(ps.clone()));
            assert_eq!(
                deserialize_edwards_sequence(&w, Some(3), mode),
                Err(SequenceError::Entry(ElementError {
                    index: 2,
                    error: DecodeError::LengthMismatch { expected: 3, found: 2 },
                }))
            );
        }
    }
    assert_eq!(
        deserialize_edwards_sequence(&Wire::Binary(vec![1]), None, CHECKED),
        Err(SequenceError::Encoding)
    );
    assert_eq!(
        deserialize_edwards_sequence(&Wire::Binary(vec![1]), None, UNCHECKED),
        Err(SequenceError::Encoding)
    );
}

#[test]
fn fields_of_both_curve_modules() {
    let r = fe(Field::Bn254Fr, "5");
    let q = fe(Field::Bn254Fq, "6");
    let s = fe(Field::BabyJubJubFr, "7");
    for hr in [true, false] {
        assert_eq!(bn254::deserialize_fr(&bn254::serialize_fr(&r, hr)), Ok(r.clone()));
        assert_eq!(bn254::deserialize_fq(&bn254::serialize_fq(&q, hr)), Ok(q.clone()));
        assert_eq!(
            babyjubjub::deserialize_babyjubjub_fr(&babyjubjub::serialize_fr(&s, hr)),
            Ok(s.clone())
        );
        assert_eq!(
            babyjubjub::deserialize_babyjubjub_fq(&babyjubjub::serialize_fq(&r, hr)),
            Ok(r.clone())
        );
        assert_eq!(
            babyjubjub::deserialize_babyjubjub_fq(&babyjubjub::serialize_babyjubjub_fq(&r, hr)),
            Ok(r.clone())
        );
        let fs = vec![r.clone(), r.clone()];
        assert_eq!(
            babyjubjub::deserialize_babyjubjub_fq_sequence(
                &babyjubjub::serialize_babyjubjub_fq_sequence(&fs, hr)
            ),
            Ok(fs)
        );
    }
    assert_eq!(
        bn254::deserialize_fr(&Wire::Readable("-5".to_string())),
        Err(DecodeError::Scalar { position: 0, error: ParseError::NegativeRejected })
    );
}
