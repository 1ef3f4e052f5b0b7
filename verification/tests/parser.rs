use ark_serde_compat::decimal::{is_all_zero, pad_left, strip_leading_zeros, sub_digits};
use ark_serde_compat::field::{decode_sequence, encode_sequence, Field, FieldElement};
use ark_serde_compat::error::{DecodeError, ElementError};
use ark_serde_compat::parse::{parse_canonical, ParseError};
use ark_serde_compat::text::{digits_to_string, text_to_digits};
use rand::Rng;
use std::ops::Neg;

const BN254_FR: &str =
    "21888242871839275222246405745257275088548364400416034343698204186575808495617";
const BN254_FR_MINUS_ONE: &str =
    "21888242871839275222246405745257275088548364400416034343698204186575808495616";
const BN254_FR_PLUS_ONE: &str =
    "21888242871839275222246405745257275088548364400416034343698204186575808495618";
const BN254_FQ: &str =
    "21888242871839275222246405745257275088696311157297823662689037894645226208583";
const BABYJUBJUB_FR: &str =
    "2736030358979909402780800718157159386076813972158567259200215660948447373041";
const BLS12_381_FR: &str =
    "52435875175126190479447740508185965837690552500527637822603658699938581184513";
const BLS12_381_FQ: &str = "4002409555221667393417789825735904156556882819939007885332058136124031650490837864442687629129015664037894272559787";

#[test]
fn digits_of_text_and_back() {
    assert_eq!(text_to_digits("1203"), Some(vec![1, 2, 0, 3]));
    assert_eq!(text_to_digits(""), Some(vec![]));
    assert_eq!(text_to_digits("12a3"), None);
    assert_eq!(text_to_digits("-1"), None);
    assert_eq!(text_to_digits("1\u{663}"), None);
    assert_eq!(digits_to_string(&vec![1, 2, 0, 3]), "1203");
    assert_eq!(digits_to_string(&vec![]), "");
}

#[test]
fn subtraction_with_and_without_borrow() {
    assert_eq!(sub_digits(&vec![1, 0, 0], &vec![0, 0, 1]), (vec![0, 9, 9], false));
    assert_eq!(sub_digits(&vec![5, 0], &vec![5, 0]), (vec![0, 0], false));
    assert_eq!(sub_digits(&vec![0, 1], &vec![0, 2]), (vec![9, 9], true));
    assert_eq!(sub_digits(&vec![], &vec![]), (vec![], false));
}

#[test]
fn padding_and_stripping() {
    assert_eq!(pad_left(&vec![7], 3), vec![0, 0, 7]);
    assert_eq!(pad_left(&vec![7, 1], 2), vec![7, 1]);
    assert_eq!(strip_leading_zeros(&vec![0, 0, 7, 0]), vec![7, 0]);
    assert_eq!(strip_leading_zeros(&vec![0, 0]), vec![0]);
    assert_eq!(strip_leading_zeros(&vec![3]), vec![3]);
    assert!(is_all_zero(&vec![0, 0, 0]));
    assert!(is_all_zero(&vec![]));
    assert!(!is_all_zero(&vec![0, 1, 0]));
}

#[test]
fn parser_reads_small_moduli() {
    assert_eq!(parse_canonical("12", true, "13"), Ok("12".to_string()));
    assert_eq!(parse_canonical("13", true, "13"), Err(ParseError::OutOfRange));
    assert_eq!(parse_canonical("-1", false, "13"), Ok("12".to_string()));
    assert_eq!(parse_canonical("-12", false, "13"), Ok("1".to_string()));
    assert_eq!(parse_canonical("-13", false, "13"), Ok("0".to_string()));
    assert_eq!(parse_canonical("-14", false, "13"), Err(ParseError::OutOfRange));
    assert_eq!(parse_canonical("-3", false, "1000"), Ok("997".to_string()));
    assert_eq!(parse_canonical("-999", false, "1000"), Ok("1".to_string()));
    assert_eq!(parse_canonical("1000", false, "1000"), Err(ParseError::OutOfRange));
    assert_eq!(parse_canonical("99999", true, "1000"), Err(ParseError::OutOfRange));
}

#[test]
fn every_parse_error_has_its_input() {
    let f = Field::Bn254Fr;
    assert_eq!(FieldElement::decode(f, "+1", true).unwrap_err(), ParseError::LeadingPlusSign);
    assert_eq!(FieldElement::decode(f, "+1", false).unwrap_err(), ParseError::LeadingPlusSign);
    assert_eq!(FieldElement::decode(f, "+", false).unwrap_err(), ParseError::LeadingPlusSign);
    assert_eq!(FieldElement::decode(f, "12a", true).unwrap_err(), ParseError::InvalidDigits);
    assert_eq!(FieldElement::decode(f, "", true).unwrap_err(), ParseError::InvalidDigits);
    assert_eq!(FieldElement::decode(f, "-", false).unwrap_err(), ParseError::InvalidDigits);
    assert_eq!(FieldElement::decode(f, "--1", false).unwrap_err(), ParseError::InvalidDigits);
    assert_eq!(FieldElement::decode(f, "1 ", false).unwrap_err(), ParseError::InvalidDigits);
    assert_eq!(FieldElement::decode(f, "0x10", false).unwrap_err(), ParseError::InvalidDigits);
    assert_eq!(FieldElement::decode(f, "1\u{e9}", false).unwrap_err(), ParseError::InvalidDigits);
    assert_eq!(FieldElement::decode(f, "-1", true).unwrap_err(), ParseError::NegativeRejected);
    assert_eq!(FieldElement::decode(f, "-x", true).unwrap_err(), ParseError::NegativeRejected);
    assert_eq!(FieldElement::decode(f, "00", true).unwrap_err(), ParseError::NonCanonicalZero);
    assert_eq!(FieldElement::decode(f, "-0", false).unwrap_err(), ParseError::NonCanonicalZero);
    assert_eq!(FieldElement::decode(f, "-00", false).unwrap_err(), ParseError::NonCanonicalZero);
    assert_eq!(FieldElement::decode(f, "0123", true).unwrap_err(), ParseError::LeadingZero);
    assert_eq!(FieldElement::decode(f, "-01", false).unwrap_err(), ParseError::LeadingZero);
    assert_eq!(FieldElement::decode(f, BN254_FR, true).unwrap_err(), ParseError::OutOfRange);
}

#[test]
fn round_trip_of_field_elements() {
    for text in ["0", "1", "9", "10", "123", "168700", BN254_FR_MINUS_ONE] {
        for unsigned in [true, false] {
            let f = FieldElement::decode(Field::Bn254Fr, text, unsigned).unwrap();
            assert_eq!(f.encode(), text);
            assert_eq!(f.as_str(), text);
            assert_eq!(f.field(), Field::Bn254Fr);
            let again = FieldElement::decode(Field::Bn254Fr, &f.encode(), unsigned).unwrap();
            assert_eq!(again, f);
        }
    }
}

#[test]
fn minus_one_is_the_modulus_less_one() {
    let a = FieldElement::decode(Field::Bn254Fr, "-1", false).unwrap();
    let b = FieldElement::decode(Field::Bn254Fr, BN254_FR_MINUS_ONE, false).unwrap();
    assert_eq!(a, b);
    assert_eq!(a.encode(), BN254_FR_MINUS_ONE);
    assert_eq!(
        FieldElement::decode(Field::Bn254Fr, "-1", true),
        Err(ParseError::NegativeRejected)
    );
    let c = FieldElement::decode(Field::Bn254Fr, "-3", false).unwrap();
    assert_eq!(
        c.encode(),
        "21888242871839275222246405745257275088548364400416034343698204186575808495614"
    );
}

#[test]
fn zero_has_one_spelling() {
    for field in [
        Field::Bn254Fr,
        Field::Bn254Fq,
        Field::BabyJubJubFr,
        Field::Bls12381Fr,
        Field::Bls12381Fq,
    ] {
        for unsigned in [true, false] {
            let z = FieldElement::decode(field, "0", unsigned).unwrap();
            assert!(z.is_zero());
            assert!(!z.is_one());
            assert_eq!(z.encode(), "0");
            assert!(FieldElement::decode(field, "00", unsigned).is_err());
            assert!(FieldElement::decode(field, "-0", unsigned).is_err());
        }
    }
    let one = FieldElement::decode(Field::Bn254Fr, "1", true).unwrap();
    assert!(one.is_one());
    assert!(!one.is_zero());
    let ten = FieldElement::decode(Field::Bn254Fr, "10", true).unwrap();
    assert!(!ten.is_one());
    assert!(!ten.is_zero());
}

#[test]
fn leading_zero_is_refused() {
    assert_eq!(
        FieldElement::decode(Field::Bn254Fr, "0123", true),
        Err(ParseError::LeadingZero)
    );
    assert_eq!(
        FieldElement::decode(Field::Bn254Fr, "0123", false),
        Err(ParseError::LeadingZero)
    );
    assert_eq!(FieldElement::decode(Field::Bn254Fr, "123", true).unwrap().encode(), "123");
}

#[test]
fn the_modulus_is_out_of_range() {
    let f = Field::Bn254Fr;
    assert_eq!(FieldElement::decode(f, BN254_FR, true), Err(ParseError::OutOfRange));
    assert_eq!(FieldElement::decode(f, BN254_FR, false), Err(ParseError::OutOfRange));
    assert_eq!(FieldElement::decode(f, BN254_FR_PLUS_ONE, true), Err(ParseError::OutOfRange));
    let top = FieldElement::decode(f, BN254_FR_MINUS_ONE, true).unwrap();
    assert_eq!(top, FieldElement::decode(f, "-1", false).unwrap());
    let longer = format!("{}0", BN254_FR);
    assert_eq!(FieldElement::decode(f, &longer, true), Err(ParseError::OutOfRange));
}

#[test]
fn minus_the_modulus_is_zero_and_one_more_fails() {
    let f = Field::Bn254Fr;
    let z = FieldElement::decode(f, &format!("-{}", BN254_FR), false).unwrap();
    assert!(z.is_zero());
    assert_eq!(z.encode(), "0");
    assert_eq!(
        FieldElement::decode(f, &format!("-{}", BN254_FR_PLUS_ONE), false),
        Err(ParseError::OutOfRange)
    );
    let one = FieldElement::decode(f, &format!("-{}", BN254_FR_MINUS_ONE), false).unwrap();
    assert_eq!(one.encode(), "1");
}

#[test]
fn moduli_are_those_of_the_arithmetic_library() {
    assert_eq!(Field::Bn254Fr.modulus_string(), BN254_FR);
    assert_eq!(Field::Bn254Fq.modulus_string(), BN254_FQ);
    assert_eq!(Field::BabyJubJubFr.modulus_string(), BABYJUBJUB_FR);
    assert_eq!(Field::Bls12381Fr.modulus_string(), BLS12_381_FR);
    assert_eq!(Field::Bls12381Fq.modulus_string(), BLS12_381_FQ);
}

#[test]
fn the_range_follows_the_field() {
    assert!(FieldElement::decode(Field::Bn254Fq, BN254_FR, true).is_ok());
    assert!(FieldElement::decode(Field::Bn254Fr, BABYJUBJUB_FR, true).is_ok());
    assert_eq!(
        FieldElement::decode(Field::BabyJubJubFr, BABYJUBJUB_FR, true),
        Err(ParseError::OutOfRange)
    );
    assert!(FieldElement::decode(Field::Bls12381Fq, BLS12_381_FR, true).is_ok());
    assert_eq!(
        FieldElement::decode(Field::Bls12381Fr, BLS12_381_FR, true),
        Err(ParseError::OutOfRange)
    );
    assert_eq!(
        FieldElement::decode(Field::Bls12381Fq, BLS12_381_FQ, true),
        Err(ParseError::OutOfRange)
    );
}

#[test]
fn sequences_of_field_elements() {
    let items: Vec<String> = vec!["1".to_string(), "-2".to_string(), "3".to_string()];
    let signed = decode_sequence(Field::Bn254Fr, &items, false).unwrap();
    assert_eq!(signed.len(), 3);
    assert_eq!(signed[0].encode(), "1");
    assert_eq!(
        signed[1].encode(),
        "21888242871839275222246405745257275088548364400416034343698204186575808495615"
    );
    assert_eq!(
        decode_sequence(Field::Bn254Fr, &items, true),
        Err(ElementError {
            index: 1,
            error: DecodeError::Scalar { position: 0, error: ParseError::NegativeRejected },
        })
    );
    let empty: Vec<String> = vec![];
    assert_eq!(decode_sequence(Field::Bn254Fr, &empty, true), Ok(vec![]));
    let texts = encode_sequence(&signed);
    assert_eq!(texts[0], "1");
    assert_eq!(texts[2], "3");
    assert_eq!(decode_sequence(Field::Bn254Fr, &texts, true).unwrap(), signed);
}

#[test]
fn negative_texts_agree_with_negation_in_the_field() {
    let mut rng = rand::thread_rng();
    for _ in 0..200 {
        let a = rng.gen::<ark_bn254::Fr>();
        let b = rng.gen::<ark_bls12_381::Fq>();
        let c = rng.gen::<taceo_ark_babyjubjub::Fr>();
        let small = ark_bn254::Fq::from(rng.gen::<u64>());
        let cases = [
            (Field::Bn254Fr, a.to_string(), a.neg().to_string()),
            (Field::Bls12381Fq, b.to_string(), b.neg().to_string()),
            (Field::BabyJubJubFr, c.to_string(), c.neg().to_string()),
            (Field::Bn254Fq, small.to_string(), small.neg().to_string()),
        ];
        for (field, text, negated) in cases {
            if text == "0" {
                continue;
            }
            let minus = format!("-{}", text);
            assert_eq!(FieldElement::decode(field, &minus, false).unwrap().encode(), negated);
            assert_eq!(FieldElement::decode(field, &text, true).unwrap().encode(), text);
            assert_eq!(
                FieldElement::decode(field, &minus, true),
                Err(ParseError::NegativeRejected)
            );
        }
    }
}

#[test]
fn a_sign_before_other_characters() {
    let f = Field::Bn254Fr;
    assert_eq!(FieldElement::decode(f, "-\u{e9}1", false), Err(ParseError::InvalidDigits));
    assert_eq!(FieldElement::decode(f, "\u{e9}", true), Err(ParseError::InvalidDigits));
    assert_eq!(FieldElement::decode(f, "-\u{e9}1", true), Err(ParseError::NegativeRejected));
    assert_eq!(FieldElement::decode(f, "+\u{e9}", true), Err(ParseError::LeadingPlusSign));
    assert_eq!(FieldElement::decode(f, "1-", false), Err(ParseError::InvalidDigits));
    assert_eq!(FieldElement::decode(f, "-+1", false), Err(ParseError::InvalidDigits));
    assert_eq!(FieldElement::decode(f, "-12", false).unwrap().encode(),
        "21888242871839275222246405745257275088548364400416034343698204186575808495605");
}
