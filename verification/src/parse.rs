//! The canonical integer parser: a decimal text, read under strict rules, as a
//! residue of a given modulus.

use crate::decimal::{
    all_zero, digits_value, is_all_zero, lemma_pow10_monotonic, lemma_value_bound,
    lemma_value_lower_bound, lemma_value_zero, pad_left, strip_leading_zeros, sub_digits,
};
use crate::text::{
    all_digit_chars, canonical_text, digits_to_string, lemma_canonical_text_digits,
    lemma_digits_text_canonical, text_digits, text_to_digits, text_value,
};
use vstd::prelude::*;

verus! {

/// Why a decimal text is not the canonical spelling of a residue.
#[derive(Clone, Copy, Debug, PartialEq, Eq, Structural)]
pub enum ParseError {
    /// The text starts with `+`.
    LeadingPlusSign,
    /// The text, after an accepted `-`, is empty or holds a character that is
    /// no decimal digit.
    InvalidDigits,
    /// The text starts with `-` where only unsigned texts are accepted.
    NegativeRejected,
    /// The number is zero but the text is not exactly `0`.
    NonCanonicalZero,
    /// The number is not zero and its digits start with `0`.
    LeadingZero,
    /// The magnitude does not fit the modulus.
    OutOfRange,
}

/// Whether the text starts with the character `c`.
pub open spec fn starts_with(s: Seq<char>, c: char) -> bool {
    s.len() > 0 && s[0] == c
}

/// The digits of a text: all of it, or what follows a leading `-`.
pub open spec fn magnitude_text(s: Seq<char>) -> Seq<char> {
    if starts_with(s, '-') {
        s.subrange(1, s.len() as int)
    } else {
        s
    }
}

/// What a text means modulo `p`, or why it is refused.
///
/// A text without sign spells its own number, which must be below `p`. With
/// signed texts accepted, `-v` stands for `p - v`, for every `v` from 1 to
/// `p`. Zero has the one spelling `0`.
pub open spec fn parse_spec(s: Seq<char>, unsigned: bool, p: nat) -> Result<nat, ParseError> {
    let body = magnitude_text(s);
    let v = text_value(body);
    if starts_with(s, '+') {
        Err(ParseError::LeadingPlusSign)
    } else if unsigned && starts_with(s, '-') {
        Err(ParseError::NegativeRejected)
    } else if body.len() == 0 || !all_digit_chars(body) {
        Err(ParseError::InvalidDigits)
    } else if v == 0 {
        if s =~= seq!['0'] {
            Ok(0)
        } else {
            Err(ParseError::NonCanonicalZero)
        }
    } else if body[0] == '0' {
        Err(ParseError::LeadingZero)
    } else if starts_with(s, '-') {
        if v <= p {
            Ok((p - v) as nat)
        } else {
            Err(ParseError::OutOfRange)
        }
    } else if v < p {
        Ok(v)
    } else {
        Err(ParseError::OutOfRange)
    }
}

/// `r` is the canonical text of the residue that `expected` gives, or the same
/// error.
pub open spec fn parsed_as(r: Result<String, ParseError>, expected: Result<nat, ParseError>) -> bool {
    match expected {
        Ok(v) => r.is_ok() && canonical_text(r.unwrap()@) && text_value(r.unwrap()@) == v,
        Err(e) => r == Err::<String, ParseError>(e),
    }
}

/// Parses `s` as a residue of the modulus that `modulus` spells, and returns
/// the residue's canonical text.
pub fn parse_canonical(s: &str, unsigned: bool, modulus: &str) -> (r: Result<String, ParseError>)
    requires
        canonical_text(modulus@),
    ensures
        parsed_as(r, parse_spec(s@, unsigned, text_value(modulus@))),
{
    if s.is_empty() {
        return Err(ParseError::InvalidDigits);
    }
    let first: char = s.get_char(0);
    if first == '+' {
        return Err(ParseError::LeadingPlusSign);
    }
    let negative: bool = first == '-';
    if negative && unsigned {
        return Err(ParseError::NegativeRejected);
    }
    let body: &str = if negative {
        let len: usize = s.unicode_len();
        s.substring_char(1, len)
    } else {
        s
    };
    assert(body@ == magnitude_text(s@));
    let digits: Vec<u8> = match text_to_digits(body) {
        None => {
            return Err(ParseError::InvalidDigits);
        },
        Some(d) => d,
    };
    if digits.len() == 0 {
        return Err(ParseError::InvalidDigits);
    }
    proof {
        lemma_value_zero(digits@);
        assert forall|i: int| 0 <= i < digits@.len() implies #[trigger] digits@[i] <= 9 by {
            assert(crate::text::is_digit_char(body@[i]));
        }
    }
    if is_all_zero(&digits) {
        if !negative && digits.len() == 1 {
            proof {
                assert(digits@[0] == 0);
                assert(crate::text::is_digit_char(body@[0]));
                assert(s@ =~= seq!['0']);
                lemma_canonical_text_digits(s@);
            }
            return Ok(body.to_owned());
        }
        proof {
            if s@ =~= seq!['0'] {
                assert(s@[0] == '0');
            }
        }
        return Err(ParseError::NonCanonicalZero);
    }
    proof {
        assert(crate::text::is_digit_char(body@[0]));
    }
    if digits[0] == 0 {
        return Err(ParseError::LeadingZero);
    }
    let limit: Vec<u8> = match text_to_digits(modulus) {
        None => {
            return Err(ParseError::OutOfRange);
        },
        Some(d) => d,
    };
    proof {
        lemma_canonical_text_digits(modulus@);
        lemma_value_bound(limit@);
        lemma_value_lower_bound(digits@);
    }
    if digits.len() > limit.len() {
        proof {
            lemma_pow10_monotonic(limit@.len(), (digits@.len() - 1) as nat);
        }
        return Err(ParseError::OutOfRange);
    }
    let padded: Vec<u8> = pad_left(&digits, limit.len());
    let (rest, below) = sub_digits(&limit, &padded);
    if below {
        return Err(ParseError::OutOfRange);
    }
    if negative {
        let out: Vec<u8> = strip_leading_zeros(&rest);
        let text: String = digits_to_string(&out);
        proof {
            lemma_digits_text_canonical(out@);
        }
        return Ok(text);
    }
    proof {
        lemma_value_zero(rest@);
    }
    if is_all_zero(&rest) {
        return Err(ParseError::OutOfRange);
    }
    proof {
        assert(body@[0] != '0');
    }
    Ok(body.to_owned())
}

/// The value of a one-character text is the digit of that character.
pub proof fn lemma_single_digit_value(c: char)
    ensures
        text_value(seq![c]) == crate::text::char_digit(c),
{
    let d = text_digits(seq![c]);
    assert(d =~= seq![crate::text::char_digit(c)]);
    assert(d.drop_last() =~= Seq::<u8>::empty());
    assert(digits_value(d.drop_last()) == 0);
    assert(digits_value(d) == digits_value(d.drop_last()) * 10 + d.last() as nat);
}

/// A canonical text spells zero exactly when it is `0`.
pub proof fn lemma_canonical_zero(t: Seq<char>)
    requires
        canonical_text(t),
    ensures
        text_value(t) == 0 <==> t =~= seq!['0'],
        text_value(t) != 0 ==> t[0] != '0',
{
    lemma_canonical_text_digits(t);
    lemma_value_zero(text_digits(t));
    assert(crate::text::is_digit_char(t[0]));
    if text_value(t) == 0 {
        assert(text_digits(t)[0] == 0);
    }
    if t =~= seq!['0'] {
        lemma_single_digit_value('0');
    }
    if t[0] == '0' {
        assert(t.len() == 1);
        assert(t =~= seq!['0']);
    }
}

/// Round trip: the canonical text of a number below `p` decodes to that
/// number, whether or not signed texts are accepted.
pub proof fn lemma_canonical_round_trip(t: Seq<char>, unsigned: bool, p: nat)
    requires
        canonical_text(t),
        text_value(t) < p,
    ensures
        parse_spec(t, unsigned, p) == Ok::<nat, ParseError>(text_value(t)),
{
    lemma_canonical_zero(t);
    assert(crate::text::is_digit_char(t[0]));
    assert(magnitude_text(t) == t);
}

/// The text `-v`, for a canonical text `v` of a number from 1 to `p`, decodes
/// to `p - v` where signed texts are accepted, and is refused where they are
/// not.
pub proof fn lemma_negative_text(t: Seq<char>, p: nat)
    requires
        canonical_text(t),
        1 <= text_value(t) <= p,
    ensures
        parse_spec(seq!['-'] + t, false, p) == Ok::<nat, ParseError>((p - text_value(t)) as nat),
        parse_spec(seq!['-'] + t, true, p) == Err::<nat, ParseError>(ParseError::NegativeRejected),
{
    let s = seq!['-'] + t;
    assert(s[0] == '-');
    assert(magnitude_text(s) =~= t);
    lemma_canonical_zero(t);
}

/// Malleability of signed texts: `-1` and the canonical text of `p - 1`
/// decode to the same residue, `p - 1`. Where only unsigned texts are
/// accepted, `-1` is refused.
pub proof fn lemma_minus_one(t: Seq<char>, p: nat)
    requires
        p >= 1,
        canonical_text(t),
        text_value(t) == p - 1,
    ensures
        parse_spec("-1"@, false, p) == Ok::<nat, ParseError>((p - 1) as nat),
        parse_spec(t, false, p) == parse_spec("-1"@, false, p),
        parse_spec(t, true, p) == Ok::<nat, ParseError>((p - 1) as nat),
        parse_spec("-1"@, true, p) == Err::<nat, ParseError>(ParseError::NegativeRejected),
{
    reveal_strlit("-1");
    let one = seq!['1'];
    assert("-1"@ =~= seq!['-'] + one);
    lemma_single_digit_value('1');
    lemma_negative_text(one, p);
    lemma_canonical_round_trip(t, false, p);
    lemma_canonical_round_trip(t, true, p);
}

/// Zero has one spelling: `0` decodes to zero in either mode, and neither
/// `-0` nor `00` decodes at all.
pub proof fn lemma_zero_spellings(unsigned: bool, p: nat)
    requires
        p >= 1,
    ensures
        parse_spec("0"@, unsigned, p) == Ok::<nat, ParseError>(0),
        parse_spec("00"@, unsigned, p) == Err::<nat, ParseError>(ParseError::NonCanonicalZero),
        parse_spec("-0"@, false, p) == Err::<nat, ParseError>(ParseError::NonCanonicalZero),
        parse_spec("-0"@, true, p) == Err::<nat, ParseError>(ParseError::NegativeRejected),
{
    reveal_strlit("0");
    reveal_strlit("00");
    reveal_strlit("-0");
    lemma_single_digit_value('0');
    assert("0"@ =~= seq!['0']);
    lemma_canonical_round_trip(seq!['0'], unsigned, p);
    let zz = "00"@;
    assert(magnitude_text(zz) == zz);
    assert(text_digits(zz) =~= seq![0u8, 0u8]);
    assert(all_zero(text_digits(zz)));
    lemma_value_zero(text_digits(zz));
    assert(!(zz =~= seq!['0']));
    let mz = "-0"@;
    assert(magnitude_text(mz) =~= seq!['0']);
    assert(!(mz =~= seq!['0']));
    assert(mz[0] == '-');
}

/// Digits that start with `0` and spell a number other than zero are refused
/// as a leading zero.
pub proof fn lemma_leading_zero(t: Seq<char>, unsigned: bool, p: nat)
    requires
        t.len() >= 1,
        all_digit_chars(t),
        t[0] == '0',
        text_value(t) != 0,
    ensures
        parse_spec(t, unsigned, p) == Err::<nat, ParseError>(ParseError::LeadingZero),
        parse_spec(seq!['-'] + t, false, p) == Err::<nat, ParseError>(ParseError::LeadingZero),
{
    assert(magnitude_text(t) == t);
    let s = seq!['-'] + t;
    assert(s[0] == '-');
    assert(magnitude_text(s) =~= t);
}

/// Range: the canonical text of `p` itself is refused as out of range in
/// either mode, and so is every larger number; with a `-` in front, `p` is
/// the last magnitude that is accepted.
pub proof fn lemma_range(t: Seq<char>, unsigned: bool, p: nat)
    requires
        p >= 1,
        canonical_text(t),
        text_value(t) >= p,
    ensures
        parse_spec(t, unsigned, p) == Err::<nat, ParseError>(ParseError::OutOfRange),
        text_value(t) == p ==> parse_spec(seq!['-'] + t, false, p) == Ok::<nat, ParseError>(0),
        text_value(t) > p ==> parse_spec(seq!['-'] + t, false, p) == Err::<nat, ParseError>(
            ParseError::OutOfRange,
        ),
{
    lemma_canonical_zero(t);
    assert(crate::text::is_digit_char(t[0]));
    assert(magnitude_text(t) == t);
    let s = seq!['-'] + t;
    assert(s[0] == '-');
    assert(magnitude_text(s) =~= t);
}

} // verus!
