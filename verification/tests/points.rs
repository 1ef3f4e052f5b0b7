use ark_ec::AffineRepr;
use ark_ec::CurveGroup;
use ark_ff::Field as ArkField;
use ark_serde_compat::curve::{
    g1_is_in_subgroup, g1_is_on_curve, g1_normalize, g2_is_in_subgroup, g2_is_on_curve,
    g2_normalize, Curve, Fq2,
};
use ark_serde_compat::error::{
    checked_verdict, DecodeError, ElementError, ValidationMode,
};
use ark_serde_compat::field::{Field, FieldElement};
use ark_serde_compat::parse::ParseError;
use ark_serde_compat::point::{
    decode_fq2, decode_g1, decode_g1_sequence, decode_g2, decode_scalar, encode_fq2, encode_g1,
    encode_g1_sequence, encode_g2, g1_from_projective, g2_from_projective, G1Affine, G2Affine,
};

fn strs(v: &[&str]) -> Vec<String> {
    v.iter().map(|s| s.to_string()).collect()
}

fn fe(field: Field, s: &str) -> FieldElement {
    FieldElement::decode(field, s, true).unwrap()
}

fn g1(curve: Curve, x: &str, y: &str) -> G1Affine {
    let f = curve.base_field();
    G1Affine::Finite { x: fe(f, x), y: fe(f, y) }
}

fn bn_g2(p: &ark_bn254::G2Affine) -> Vec<Vec<String>> {
    vec![
        vec![p.x.c0.to_string(), p.x.c1.to_string()],
        vec![p.y.c0.to_string(), p.y.c1.to_string()],
        strs(&["1", "0"]),
    ]
}

fn bls_g2(p: &ark_bls12_381::G2Affine) -> Vec<Vec<String>> {
    vec![
        vec![p.x.c0.to_string(), p.x.c1.to_string()],
        vec![p.y.c0.to_string(), p.y.c1.to_string()],
        strs(&["1", "0"]),
    ]
}

#[test]
fn the_verdict_puts_the_curve_first() {
    assert_eq!(checked_verdict(true, true), Ok(()));
    assert_eq!(checked_verdict(true, false), Err(DecodeError::SubgroupViolation));
    assert_eq!(checked_verdict(false, true), Err(DecodeError::CurveViolation));
    assert_eq!(checked_verdict(false, false), Err(DecodeError::CurveViolation));
}

#[test]
fn g1_generator_decodes_and_encodes() {
    let p = decode_g1(Curve::Bn254, &strs(&["1", "2", "1"]), ValidationMode::Checked).unwrap();
    assert_eq!(p, g1(Curve::Bn254, "1", "2"));
    assert_eq!(encode_g1(&p), strs(&["1", "2", "1"]));
    let g = ark_bls12_381::G1Affine::generator();
    let wire = vec![g.x.to_string(), g.y.to_string(), "1".to_string()];
    let q = decode_g1(Curve::Bls12381, &wire, ValidationMode::Checked).unwrap();
    assert_eq!(encode_g1(&q), wire);
}

#[test]
fn g1_infinity_is_accepted_without_checks() {
    for curve in [Curve::Bn254, Curve::Bls12381] {
        for mode in [ValidationMode::Checked, ValidationMode::Unchecked] {
            let p = decode_g1(curve, &strs(&["0", "1", "0"]), mode).unwrap();
            assert_eq!(p, G1Affine::Infinity);
            let q = decode_g1(curve, &strs(&["5", "7", "0"]), mode).unwrap();
            assert_eq!(q, G1Affine::Infinity);
            let z = decode_g1(curve, &strs(&["0", "0", "1"]), mode).unwrap();
            assert_eq!(z, G1Affine::Infinity);
        }
    }
    assert_eq!(encode_g1(&G1Affine::Infinity), strs(&["0", "1", "0"]));
}

#[test]
fn g1_off_curve_is_refused_only_when_checked() {
    let wire = strs(&["1", "1", "1"]);
    assert_eq!(
        decode_g1(Curve::Bn254, &wire, ValidationMode::Checked),
        Err(DecodeError::CurveViolation)
    );
    assert_eq!(
        decode_g1(Curve::Bn254, &wire, ValidationMode::Unchecked),
        Ok(g1(Curve::Bn254, "1", "1"))
    );
    let five_seven = strs(&["5", "7", "1"]);
    assert_eq!(
        decode_g1(Curve::Bn254, &five_seven, ValidationMode::Checked),
        Err(DecodeError::CurveViolation)
    );
    assert_eq!(
        decode_g1(Curve::Bls12381, &wire, ValidationMode::Checked),
        Err(DecodeError::CurveViolation)
    );
    assert!(decode_g1(Curve::Bls12381, &wire, ValidationMode::Unchecked).is_ok());
}

#[test]
fn g1_jacobian_coordinates_are_normalized() {
    let p = decode_g1(Curve::Bn254, &strs(&["4", "16", "2"]), ValidationMode::Checked).unwrap();
    assert_eq!(p, g1(Curve::Bn254, "1", "2"));
    let g = ark_bls12_381::G1Affine::generator();
    let z = ark_bls12_381::Fq::from(3u64);
    let wire = vec![
        (g.x * z.square()).to_string(),
        (g.y * z.square() * z).to_string(),
        z.to_string(),
    ];
    let q = decode_g1(Curve::Bls12381, &wire, ValidationMode::Checked).unwrap();
    assert_eq!(q, g1(Curve::Bls12381, &g.x.to_string(), &g.y.to_string()));
}

#[test]
fn g1_normalize_and_tests_through_the_curve_functions() {
    let f = Field::Bn254Fq;
    let r = g1_normalize(Curve::Bn254, &fe(f, "4"), &fe(f, "16"), &fe(f, "2"));
    assert_eq!(r, Some((fe(f, "1"), fe(f, "2"))));
    assert_eq!(g1_normalize(Curve::Bn254, &fe(f, "4"), &fe(f, "16"), &fe(f, "0")), None);
    assert!(g1_is_on_curve(Curve::Bn254, &fe(f, "1"), &fe(f, "2")));
    assert!(!g1_is_on_curve(Curve::Bn254, &fe(f, "1"), &fe(f, "3")));
    assert!(g1_is_in_subgroup(Curve::Bn254, &fe(f, "1"), &fe(f, "2")));
    let p = g1_from_projective(
        Curve::Bn254,
        &fe(f, "4"),
        &fe(f, "16"),
        &fe(f, "2"),
        ValidationMode::Checked,
    );
    assert_eq!(p, Ok(g1(Curve::Bn254, "1", "2")));
}

#[test]
fn bls12_381_g1_outside_the_subgroup() {
    let mut x = ark_bls12_381::Fq::from(1u64);
    let p = loop {
        if let Some(p) = ark_bls12_381::G1Affine::get_point_from_x_unchecked(x, true) {
            if !p.is_in_correct_subgroup_assuming_on_curve() {
                break p;
            }
        }
        x += ark_bls12_381::Fq::from(1u64);
    };
    let wire = vec![p.x.to_string(), p.y.to_string(), "1".to_string()];
    assert_eq!(
        decode_g1(Curve::Bls12381, &wire, ValidationMode::Checked),
        Err(DecodeError::SubgroupViolation)
    );
    let q = decode_g1(Curve::Bls12381, &wire, ValidationMode::Unchecked).unwrap();
    assert_eq!(encode_g1(&q), wire);
    let f = Field::Bls12381Fq;
    assert!(g1_is_on_curve(Curve::Bls12381, &fe(f, &wire[0]), &fe(f, &wire[1])));
    assert!(!g1_is_in_subgroup(Curve::Bls12381, &fe(f, &wire[0]), &fe(f, &wire[1])));
    let g = ark_bls12_381::G1Affine::generator();
    assert!(g1_is_in_subgroup(
        Curve::Bls12381,
        &fe(f, &g.x.to_string()),
        &fe(f, &g.y.to_string())
    ));
}

#[test]
fn g1_shape_errors() {
    let c = Curve::Bn254;
    let m = ValidationMode::Checked;
    assert_eq!(decode_g1(c, &strs(&[]), m), Err(DecodeError::MissingCoordinate { position: 0 }));
    assert_eq!(
        decode_g1(c, &strs(&["1"]), m),
        Err(DecodeError::MissingCoordinate { position: 1 })
    );
    assert_eq!(
        decode_g1(c, &strs(&["1", "2"]), m),
        Err(DecodeError::MissingCoordinate { position: 2 })
    );
    assert_eq!(
        decode_g1(c, &strs(&["1", "2", "1", "1"]), m),
        Err(DecodeError::UnexpectedTrailingElement)
    );
    assert_eq!(
        decode_g1(c, &strs(&["x", "2", "1", "1"]), m),
        Err(DecodeError::UnexpectedTrailingElement)
    );
}

#[test]
fn g1_coordinates_are_unsigned_and_located() {
    let c = Curve::Bn254;
    let m = ValidationMode::Unchecked;
    assert_eq!(
        decode_g1(c, &strs(&["-1", "2", "1"]), m),
        Err(DecodeError::Scalar { position: 0, error: ParseError::NegativeRejected })
    );
    assert_eq!(
        decode_g1(c, &strs(&["1", "02", "1"]), m),
        Err(DecodeError::Scalar { position: 1, error: ParseError::LeadingZero })
    );
    assert_eq!(
        decode_g1(c, &strs(&["1", "2", "+1"]), m),
        Err(DecodeError::Scalar { position: 2, error: ParseError::LeadingPlusSign })
    );
    assert_eq!(
        decode_g1(c, &strs(&["a", "b", "c"]), m),
        Err(DecodeError::Scalar { position: 0, error: ParseError::InvalidDigits })
    );
    let q = "21888242871839275222246405745257275088696311157297823662689037894645226208583";
    assert_eq!(
        decode_g1(c, &strs(&["1", q, "1"]), m),
        Err(DecodeError::Scalar { position: 1, error: ParseError::OutOfRange })
    );
    assert_eq!(
        decode_scalar(Field::Bn254Fq, "00", 7),
        Err(DecodeError::Scalar { position: 7, error: ParseError::NonCanonicalZero })
    );
    assert_eq!(decode_scalar(Field::Bn254Fq, "17", 7), Ok(fe(Field::Bn254Fq, "17")));
}

#[test]
fn g1_sequences() {
    let c = Curve::Bn254;
    let m = ValidationMode::Checked;
    let items = vec![strs(&["1", "2", "1"]), strs(&["0", "1", "0"]), strs(&["4", "16", "2"])];
    let points = decode_g1_sequence(c, &items, None, m).unwrap();
    assert_eq!(points, vec![g1(c, "1", "2"), G1Affine::Infinity, g1(c, "1", "2")]);
    assert_eq!(
        encode_g1_sequence(&points),
        vec![strs(&["1", "2", "1"]), strs(&["0", "1", "0"]), strs(&["1", "2", "1"])]
    );
    let short = vec![strs(&["1", "2", "1"]), strs(&["1", "2"])];
    assert_eq!(
        decode_g1_sequence(c, &short, None, m),
        Err(ElementError {
            index: 1,
            error: DecodeError::LengthMismatch { expected: 3, found: 2 },
        })
    );
    let long = vec![strs(&["1", "2", "1", "1"])];
    assert_eq!(
        decode_g1_sequence(c, &long, None, m),
        Err(ElementError {
            index: 0,
            error: DecodeError::LengthMismatch { expected: 3, found: 4 },
        })
    );
    let off = vec![strs(&["1", "2", "1"]), strs(&["1", "2", "1"]), strs(&["1", "1", "1"])];
    assert_eq!(
        decode_g1_sequence(c, &off, None, m),
        Err(ElementError { index: 2, error: DecodeError::CurveViolation })
    );
    assert_eq!(decode_g1_sequence(c, &off, None, ValidationMode::Unchecked).unwrap().len(), 3);
    let none: Vec<Vec<String>> = vec![];
    assert_eq!(decode_g1_sequence(c, &none, None, m), Ok(vec![]));
    assert_eq!(decode_g1_sequence(c, &items, Some(3), m).unwrap().len(), 3);
    assert_eq!(
        decode_g1_sequence(c, &items, Some(2), m),
        Err(ElementError {
            index: 3,
            error: DecodeError::LengthMismatch { expected: 2, found: 3 },
        })
    );
    assert_eq!(
        decode_g1_sequence(c, &short, Some(5), m),
        Err(ElementError {
            index: 1,
            error: DecodeError::LengthMismatch { expected: 3, found: 2 },
        })
    );
}

#[test]
fn g2_generator_decodes_and_encodes() {
    let g = ark_bn254::G2Affine::generator();
    let wire = bn_g2(&g);
    let p = decode_g2(Curve::Bn254, &wire, ValidationMode::Checked).unwrap();
    assert_eq!(encode_g2(&p), wire);
    let h = ark_bls12_381::G2Affine::generator();
    let wire = bls_g2(&h);
    let q = decode_g2(Curve::Bls12381, &wire, ValidationMode::Checked).unwrap();
    assert_eq!(encode_g2(&q), wire);
}

#[test]
fn g2_infinity_is_accepted_without_checks() {
    let wire = vec![strs(&["0", "0"]), strs(&["1", "0"]), strs(&["0", "0"])];
    for curve in [Curve::Bn254, Curve::Bls12381] {
        for mode in [ValidationMode::Checked, ValidationMode::Unchecked] {
            assert_eq!(decode_g2(curve, &wire, mode), Ok(G2Affine::Infinity));
        }
    }
    assert_eq!(encode_g2(&G2Affine::Infinity), wire);
}

#[test]
fn g2_jacobian_coordinates_are_normalized() {
    let g = ark_bn254::G2Affine::generator();
    let z = ark_bn254::Fq2::new(ark_bn254::Fq::from(3u64), ark_bn254::Fq::from(5u64));
    let x = g.x * z.square();
    let y = g.y * z.square() * z;
    let wire = vec![
        vec![x.c0.to_string(), x.c1.to_string()],
        vec![y.c0.to_string(), y.c1.to_string()],
        vec![z.c0.to_string(), z.c1.to_string()],
    ];
    let p = decode_g2(Curve::Bn254, &wire, ValidationMode::Checked).unwrap();
    assert_eq!(encode_g2(&p), bn_g2(&g));
    let h = ark_bls12_381::G2Affine::generator();
    let z = ark_bls12_381::Fq2::new(ark_bls12_381::Fq::from(2u64), ark_bls12_381::Fq::from(9u64));
    let x = h.x * z.square();
    let y = h.y * z.square() * z;
    let wire = vec![
        vec![x.c0.to_string(), x.c1.to_string()],
        vec![y.c0.to_string(), y.c1.to_string()],
        vec![z.c0.to_string(), z.c1.to_string()],
    ];
    let q = decode_g2(Curve::Bls12381, &wire, ValidationMode::Checked).unwrap();
    assert_eq!(encode_g2(&q), bls_g2(&h));
}

#[test]
fn g2_off_curve_and_outside_the_subgroup() {
    let off = vec![strs(&["1", "2"]), strs(&["3", "4"]), strs(&["1", "0"])];
    for curve in [Curve::Bn254, Curve::Bls12381] {
        assert_eq!(
            decode_g2(curve, &off, ValidationMode::Checked),
            Err(DecodeError::CurveViolation)
        );
        let p = decode_g2(curve, &off, ValidationMode::Unchecked).unwrap();
        assert_eq!(encode_g2(&p), off);
    }
    let mut x = ark_bn254::Fq2::new(ark_bn254::Fq::from(1u64), ark_bn254::Fq::from(1u64));
    let p = loop {
        if let Some(p) = ark_bn254::G2Affine::get_point_from_x_unchecked(x, true) {
            if !p.is_in_correct_subgroup_assuming_on_curve() {
                break p;
            }
        }
        x += ark_bn254::Fq2::new(ark_bn254::Fq::from(1u64), ark_bn254::Fq::from(0u64));
    };
    assert_eq!(
        decode_g2(Curve::Bn254, &bn_g2(&p), ValidationMode::Checked),
        Err(DecodeError::SubgroupViolation)
    );
    assert!(decode_g2(Curve::Bn254, &bn_g2(&p), ValidationMode::Unchecked).is_ok());
    let mut x = ark_bls12_381::Fq2::new(ark_bls12_381::Fq::from(1u64), ark_bls12_381::Fq::from(1u64));
    let q = loop {
        if let Some(q) = ark_bls12_381::G2Affine::get_point_from_x_unchecked(x, true) {
            if !q.is_in_correct_subgroup_assuming_on_curve() {
                break q;
            }
        }
        x += ark_bls12_381::Fq2::new(ark_bls12_381::Fq::from(1u64), ark_bls12_381::Fq::from(0u64));
    };
    assert_eq!(
        decode_g2(Curve::Bls12381, &bls_g2(&q), ValidationMode::Checked),
        Err(DecodeError::SubgroupViolation)
    );
    assert!(decode_g2(Curve::Bls12381, &bls_g2(&q), ValidationMode::Unchecked).is_ok());
}

#[test]
fn g2_through_the_curve_functions() {
    let f = Field::Bn254Fq;
    let g = ark_bn254::G2Affine::generator();
    let x = Fq2 { c0: fe(f, &g.x.c0.to_string()), c1: fe(f, &g.x.c1.to_string()) };
    let y = Fq2 { c0: fe(f, &g.y.c0.to_string()), c1: fe(f, &g.y.c1.to_string()) };
    let one = Fq2 { c0: fe(f, "1"), c1: fe(f, "0") };
    let zero = Fq2 { c0: fe(f, "0"), c1: fe(f, "0") };
    assert!(g2_is_on_curve(Curve::Bn254, &x, &y));
    assert!(!g2_is_on_curve(Curve::Bn254, &x, &one));
    assert!(g2_is_in_subgroup(Curve::Bn254, &x, &y));
    assert_eq!(g2_normalize(Curve::Bn254, &x, &y, &one), Some((x.clone(), y.clone())));
    assert_eq!(g2_normalize(Curve::Bn254, &x, &y, &zero), None);
    let p = g2_from_projective(Curve::Bn254, &x, &y, &one, ValidationMode::Checked).unwrap();
    assert_eq!(p, G2Affine::Finite { x: x.clone(), y: y.clone() });
    assert_eq!(encode_fq2(&x), vec![g.x.c0.to_string(), g.x.c1.to_string()]);
    assert_eq!(decode_fq2(f, &encode_fq2(&y), 2), Ok(y));
    let g2 = (g.into_group() + g).into_affine();
    let d = decode_g2(Curve::Bn254, &bn_g2(&g2), ValidationMode::Checked).unwrap();
    assert_eq!(encode_g2(&d), bn_g2(&g2));
}

#[test]
fn g2_shape_errors() {
    let c = Curve::Bn254;
    let m = ValidationMode::Checked;
    let pair = strs(&["1", "0"]);
    assert_eq!(
        decode_g2(c, &vec![pair.clone(), pair.clone()], m),
        Err(DecodeError::MissingCoordinate { position: 2 })
    );
    assert_eq!(
        decode_g2(c, &vec![pair.clone(), pair.clone(), pair.clone(), pair.clone()], m),
        Err(DecodeError::UnexpectedTrailingElement)
    );
    assert_eq!(
        decode_g2(c, &vec![strs(&["1"]), pair.clone(), pair.clone()], m),
        Err(DecodeError::CoordinateArityError { coordinate: 0, found: 1 })
    );
    assert_eq!(
        decode_g2(c, &vec![pair.clone(), strs(&["1", "2", "3"]), pair.clone()], m),
        Err(DecodeError::CoordinateArityError { coordinate: 1, found: 3 })
    );
    assert_eq!(
        decode_g2(c, &vec![pair.clone(), pair.clone(), strs(&[])], m),
        Err(DecodeError::CoordinateArityError { coordinate: 2, found: 0 })
    );
    assert_eq!(
        decode_g2(c, &vec![strs(&["x", "y"]), pair.clone(), strs(&["1"])], m),
        Err(DecodeError::CoordinateArityError { coordinate: 2, found: 1 })
    );
    assert_eq!(
        decode_g2(c, &vec![pair.clone(), strs(&["1", "-2"]), pair.clone()], m),
        Err(DecodeError::Scalar { position: 3, error: ParseError::NegativeRejected })
    );
    assert_eq!(
        decode_g2(c, &vec![pair.clone(), pair.clone(), strs(&["01", "0"])], m),
        Err(DecodeError::Scalar { position: 4, error: ParseError::LeadingZero })
    );
}
