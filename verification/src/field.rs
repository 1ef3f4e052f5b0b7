//! Prime fields and their elements. An element is held by the canonical
//! decimal text of its representative in `[0, p)`.

use crate::error::{DecodeError, ElementError};
use crate::parse::{parse_canonical, parse_spec, ParseError};
use crate::text::texts;
use crate::text::{canonical_text, text_value};
use vstd::prelude::*;

verus! {

/// The prime fields that the codec serves.
#[derive(Clone, Copy, Debug, PartialEq, Eq, Structural)]
pub enum Field {
    /// The scalar field of BN254, which is also the base field of BabyJubJub.
    Bn254Fr,
    /// The base field of BN254.
    Bn254Fq,
    /// The scalar field of BabyJubJub.
    BabyJubJubFr,
    /// The scalar field of BLS12-381.
    Bls12381Fr,
    /// The base field of BLS12-381.
    Bls12381Fq,
}

impl Field {
    /// The decimal text of the field's modulus.
    pub open spec fn modulus_text(self) -> Seq<char> {
        match self {
            Field::Bn254Fr => "21888242871839275222246405745257275088548364400416034343698204186575808495617"@,
            Field::Bn254Fq => "21888242871839275222246405745257275088696311157297823662689037894645226208583"@,
            Field::BabyJubJubFr => "2736030358979909402780800718157159386076813972158567259200215660948447373041"@,
            Field::Bls12381Fr => "52435875175126190479447740508185965837690552500527637822603658699938581184513"@,
            Field::Bls12381Fq => "4002409555221667393417789825735904156556882819939007885332058136124031650490837864442687629129015664037894272559787"@,
        }
    }

    /// The field's modulus.
    pub open spec fn modulus(self) -> nat {
        text_value(self.modulus_text())
    }

    /// The modulus is spelled canonically, with more than one digit.
    pub proof fn lemma_modulus_canonical(self)
        ensures
            canonical_text(self.modulus_text()),
            self.modulus_text().len() >= 2,
            self.modulus() >= 10,
    {
        self.lemma_modulus_shape();
        let t = self.modulus_text();
        crate::text::lemma_canonical_text_digits(t);
        crate::decimal::lemma_value_lower_bound(crate::text::text_digits(t));
        crate::decimal::lemma_pow10_monotonic(1, (t.len() - 1) as nat);
        assert(crate::decimal::pow10(1) == 10) by {
            assert(crate::decimal::pow10(0) == 1);
        }
    }

    /// Every number of at most 75 digits is below the modulus.
    pub proof fn lemma_modulus_exceeds(self, k: nat)
        requires
            k <= 75,
        ensures
            self.modulus() >= crate::decimal::pow10(k),
    {
        self.lemma_modulus_shape();
        let t = self.modulus_text();
        crate::text::lemma_canonical_text_digits(t);
        crate::decimal::lemma_value_lower_bound(crate::text::text_digits(t));
        crate::decimal::lemma_pow10_monotonic(k, (t.len() - 1) as nat);
    }

    proof fn lemma_modulus_shape(self)
        ensures
            canonical_text(self.modulus_text()),
            self.modulus_text().len() >= 76,
    {
        reveal_strlit("21888242871839275222246405745257275088548364400416034343698204186575808495617");
        reveal_strlit("21888242871839275222246405745257275088696311157297823662689037894645226208583");
        reveal_strlit("2736030358979909402780800718157159386076813972158567259200215660948447373041");
        reveal_strlit("52435875175126190479447740508185965837690552500527637822603658699938581184513");
        reveal_strlit("4002409555221667393417789825735904156556882819939007885332058136124031650490837864442687629129015664037894272559787");
    }
}

/// The modulus of `ark_bn254::Fr`, the constant `MODULUS` of
/// `ark_ff::PrimeField`, printed in decimal. Believed: the text is the one
/// that `modulus_text` gives for this field.
#[verifier::external_body]
fn bn254_fr_modulus() -> (r: String)
    ensures
        r@ == Field::Bn254Fr.modulus_text(),
{
    <ark_bn254::Fr as ark_ff::PrimeField>::MODULUS.to_string()
}

/// The modulus of `ark_bn254::Fq`, the constant `MODULUS` of
/// `ark_ff::PrimeField`, printed in decimal. Believed: the text is the one
/// that `modulus_text` gives for this field.
#[verifier::external_body]
fn bn254_fq_modulus() -> (r: String)
    ensures
        r@ == Field::Bn254Fq.modulus_text(),
{
    <ark_bn254::Fq as ark_ff::PrimeField>::MODULUS.to_string()
}

/// The modulus of `taceo_ark_babyjubjub::Fr`, the constant `MODULUS` of
/// `ark_ff::PrimeField`, printed in decimal. Believed: the text is the one
/// that `modulus_text` gives for this field.
#[verifier::external_body]
fn babyjubjub_fr_modulus() -> (r: String)
    ensures
        r@ == Field::BabyJubJubFr.modulus_text(),
{
    <taceo_ark_babyjubjub::Fr as ark_ff::PrimeField>::MODULUS.to_string()
}

/// The modulus of `ark_bls12_381::Fr`, the constant `MODULUS` of
/// `ark_ff::PrimeField`, printed in decimal. Believed: the text is the one
/// that `modulus_text` gives for this field.
#[verifier::external_body]
fn bls12_381_fr_modulus() -> (r: String)
    ensures
        r@ == Field::Bls12381Fr.modulus_text(),
{
    <ark_bls12_381::Fr as ark_ff::PrimeField>::MODULUS.to_string()
}

/// The modulus of `ark_bls12_381::Fq`, the constant `MODULUS` of
/// `ark_ff::PrimeField`, printed in decimal. Believed: the text is the one
/// that `modulus_text` gives for this field.
#[verifier::external_body]
fn bls12_381_fq_modulus() -> (r: String)
    ensures
        r@ == Field::Bls12381Fq.modulus_text(),
{
    <ark_bls12_381::Fq as ark_ff::PrimeField>::MODULUS.to_string()
}

/// A canonical text spells one exactly when it is `1`.
pub proof fn lemma_canonical_one(t: Seq<char>)
    requires
        canonical_text(t),
    ensures
        text_value(t) == 1 <==> t =~= seq!['1'],
{
    crate::parse::lemma_single_digit_value('1');
    if text_value(t) == 1 {
        crate::text::lemma_canonical_text_unique(t, seq!['1']);
    }
}

/// The texts `0` and `1` spell residues of every field.
pub proof fn lemma_zero_one_texts(field: Field)
    ensures
        is_residue_text("0"@, field),
        is_residue_text("1"@, field),
        text_value("0"@) == 0,
        text_value("1"@) == 1,
{
    reveal_strlit("0");
    reveal_strlit("1");
    assert("0"@ =~= seq!['0']);
    assert("1"@ =~= seq!['1']);
    crate::parse::lemma_single_digit_value('0');
    crate::parse::lemma_single_digit_value('1');
    field.lemma_modulus_canonical();
}

impl Field {
    /// The decimal text of the field's modulus, as the arithmetic library
    /// holds it.
    pub fn modulus_string(self) -> (r: String)
        ensures
            r@ == self.modulus_text(),
            canonical_text(r@),
    {
        proof {
            self.lemma_modulus_canonical();
        }
        match self {
            Field::Bn254Fr => bn254_fr_modulus(),
            Field::Bn254Fq => bn254_fq_modulus(),
            Field::BabyJubJubFr => babyjubjub_fr_modulus(),
            Field::Bls12381Fr => bls12_381_fr_modulus(),
            Field::Bls12381Fq => bls12_381_fq_modulus(),
        }
    }
}

/// `t` is the canonical text of a residue of `field`.
pub open spec fn is_residue_text(t: Seq<char>, field: Field) -> bool {
    canonical_text(t) && text_value(t) < field.modulus()
}

/// An element of a prime field: the field, and the canonical decimal text of
/// the representative in `[0, p)`.
#[derive(Debug, PartialEq, Eq)]
pub struct FieldElement {
    field: Field,
    text: String,
}

impl View for FieldElement {
    type V = nat;

    /// The representative in `[0, p)`.
    closed spec fn view(&self) -> nat {
        text_value(self.text@)
    }
}

impl Clone for FieldElement {
    fn clone(&self) -> (r: Self)
        ensures
            r == *self,
    {
        proof {
            use_type_invariant(self);
        }
        FieldElement { field: self.field, text: self.text.clone() }
    }
}

/// What decoding a text into `field` owes: the element of the value that the
/// parser's rules give, or the same error.
pub open spec fn decoded_as(
    r: Result<FieldElement, ParseError>,
    expected: Result<nat, ParseError>,
    field: Field,
) -> bool {
    match expected {
        Ok(v) => r.is_ok() && r.unwrap().wf() && r.unwrap()@ == v && r.unwrap().in_field() == field,
        Err(e) => r.is_err() && r.unwrap_err() == e,
    }
}

impl FieldElement {
    #[verifier::type_invariant]
    spec fn inv(self) -> bool {
        self.wf()
    }

    /// The field that the element belongs to.
    pub closed spec fn in_field(&self) -> Field {
        self.field
    }

    /// The decimal text that the element is held by.
    pub closed spec fn text(&self) -> Seq<char> {
        self.text@
    }

    /// The text is canonical and spells a number below the modulus. Every
    /// element that this library hands out is well formed.
    pub closed spec fn wf(&self) -> bool {
        &&& canonical_text(self.text@)
        &&& text_value(self.text@) < self.field.modulus()
    }

    /// What well-formedness says, over the text and the value.
    pub proof fn lemma_wf(&self)
        requires
            self.wf(),
        ensures
            is_residue_text(self.text(), self.in_field()),
            text_value(self.text()) == self@,
            self@ < self.in_field().modulus(),
    {
    }

    /// Elements of one field and one value are held by one text.
    pub proof fn lemma_value_determines_text(&self, other: &FieldElement)
        requires
            self.wf(),
            other.wf(),
            self@ == other@,
        ensures
            self.text() == other.text(),
    {
        crate::text::lemma_canonical_text_unique(self.text@, other.text@);
    }

    /// Round trip: the text that `encode` gives decodes, with signed texts
    /// accepted or not, to the element's own value.
    pub proof fn lemma_encode_decode(&self, unsigned: bool)
        requires
            self.wf(),
        ensures
            parse_spec(self.text(), unsigned, self.in_field().modulus()) == Ok::<nat, ParseError>(
                self@,
            ),
    {
        crate::parse::lemma_canonical_round_trip(self.text@, unsigned, self.field.modulus());
    }

    /// The element of `field` that the canonical text `text` spells.
    pub(crate) fn from_residue_text(field: Field, text: String) -> (r: FieldElement)
        requires
            is_residue_text(text@, field),
        ensures
            r.wf(),
            r.in_field() == field,
            r.text() == text@,
            r@ == text_value(text@),
    {
        FieldElement { field, text }
    }

    /// The element's field.
    pub fn field(&self) -> (r: Field)
        ensures
            r == self.in_field(),
    {
        self.field
    }

    /// The canonical decimal text of the element.
    pub fn as_str(&self) -> (r: &str)
        ensures
            r@ == self.text(),
            self.wf(),
            is_residue_text(r@, self.in_field()),
            text_value(r@) == self@,
    {
        proof {
            use_type_invariant(self);
        }
        self.text.as_str()
    }

    /// Encodes the element as its canonical decimal text. The text is the
    /// same whatever decoder will read it.
    pub fn encode(&self) -> (r: String)
        ensures
            r@ == self.text(),
            is_residue_text(r@, self.in_field()),
            text_value(r@) == self@,
            self.wf(),
    {
        proof {
            use_type_invariant(self);
        }
        self.text.clone()
    }

    /// Decodes a decimal text into an element of `field`. With `unsigned`
    /// a text that starts with `-` is refused; without it `-v` stands for
    /// `p - v`.
    pub fn decode(field: Field, s: &str, unsigned: bool) -> (r: Result<FieldElement, ParseError>)
        ensures
            decoded_as(r, parse_spec(s@, unsigned, field.modulus()), field),
    {
        let modulus: String = field.modulus_string();
        proof {
            field.lemma_modulus_canonical();
        }
        match parse_canonical(s, unsigned, modulus.as_str()) {
            Ok(text) => Ok(FieldElement { field, text }),
            Err(e) => Err(e),
        }
    }

    /// Whether the element is zero.
    pub fn is_zero(&self) -> (r: bool)
        ensures
            r == (self@ == 0),
    {
        proof {
            use_type_invariant(self);
            reveal_strlit("0");
            crate::text::lemma_canonical_text_digits(self.text@);
            crate::decimal::lemma_value_zero(crate::text::text_digits(self.text@));
        }
        let zero: &str = "0";
        let same: bool = str_equal(self.text.as_str(), zero);
        proof {
            if self@ == 0 {
                assert(crate::text::text_digits(self.text@)[0] == 0);
                assert(crate::text::is_digit_char(self.text@[0]));
                assert(self.text@ =~= "0"@);
            } else {
                assert(crate::text::text_digits("0"@) =~= seq![0u8]);
                assert(crate::decimal::all_zero(seq![0u8]));
            }
        }
        same
    }

    /// Whether the element is one.
    pub fn is_one(&self) -> (r: bool)
        ensures
            r == (self@ == 1),
    {
        proof {
            use_type_invariant(self);
            reveal_strlit("1");
            lemma_canonical_one(self.text@);
            assert("1"@ =~= seq!['1']);
        }
        let one: &str = "1";
        str_equal(self.text.as_str(), one)
    }
}

/// `r` is what decoding the texts `items` in order owes: all elements, each
/// as its text spells it, or the first text that is refused with its index
/// and error.
pub open spec fn field_sequence_as(
    r: Result<Vec<FieldElement>, ElementError>,
    field: Field,
    items: Seq<String>,
    unsigned: bool,
) -> bool {
    match r {
        Ok(v) => v.len() == items.len() && forall|i: int|
            0 <= i < items.len() ==> decoded_as(
                Ok(#[trigger] v[i]),
                parse_spec(items[i]@, unsigned, field.modulus()),
                field,
            ),
        Err(e) => e.index < items.len() && (exists|pe: ParseError|
            e.error == (DecodeError::Scalar { position: 0, error: pe }) && parse_spec(
                items[e.index as int]@,
                unsigned,
                field.modulus(),
            ) == Err::<nat, ParseError>(pe)) && forall|j: int|
            0 <= j < e.index ==> (#[trigger] parse_spec(items[j]@, unsigned, field.modulus())).is_ok(),
    }
}

/// Decodes a sequence of field elements, text by text until the input ends.
/// The first text that is refused ends the decoding, and the error names it.
/// No number of entries is asked for.
pub fn decode_sequence(field: Field, items: &Vec<String>, unsigned: bool) -> (r: Result<
    Vec<FieldElement>,
    ElementError,
>)
    ensures
        field_sequence_as(r, field, items@, unsigned),
{
    let mut out: Vec<FieldElement> = Vec::new();
    let mut i: usize = 0;
    while i < items.len()
        invariant
            i <= items.len(),
            out.len() == i,
            forall|k: int|
                0 <= k < i ==> decoded_as(
                    Ok(#[trigger] out[k]),
                    parse_spec(items[k]@, unsigned, field.modulus()),
                    field,
                ),
            forall|k: int|
                0 <= k < i ==> (#[trigger] parse_spec(items[k]@, unsigned, field.modulus())).is_ok(),
        decreases items.len() - i,
    {
        match FieldElement::decode(field, items[i].as_str(), unsigned) {
            Ok(f) => {
                out.push(f);
            },
            Err(pe) => {
                return Err(
                    ElementError { index: i, error: DecodeError::Scalar { position: 0, error: pe } },
                );
            },
        }
        i = i + 1;
    }
    Ok(out)
}

/// Encodes a sequence of field elements, each as its canonical text.
pub fn encode_sequence(fs: &Vec<FieldElement>) -> (r: Vec<String>)
    ensures
        r.len() == fs.len(),
        forall|i: int| 0 <= i < fs.len() ==> (#[trigger] r[i])@ == fs[i].text(),
        forall|i: int| 0 <= i < fs.len() ==> (#[trigger] fs[i]).wf(),
{
    let mut out: Vec<String> = Vec::new();
    let mut i: usize = 0;
    while i < fs.len()
        invariant
            i <= fs.len(),
            out.len() == i,
            forall|k: int| 0 <= k < i ==> (#[trigger] out[k])@ == fs[k].text(),
            forall|k: int| 0 <= k < i ==> (#[trigger] fs[k]).wf(),
        decreases fs.len() - i,
    {
        let text: String = fs[i].encode();
        out.push(text);
        i = i + 1;
    }
    out
}

/// Whether two texts are the same.
fn str_equal(a: &str, b: &str) -> (r: bool)
    ensures
        r == (a@ == b@),
{
    let x: String = a.to_owned();
    let y: String = b.to_owned();
    x == y
}

} // verus!
