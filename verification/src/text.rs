//! Decimal text: the link between strings of digit characters and the digit
//! values that the arithmetic works on.

use crate::decimal::{all_digits, canonical_digits, digits_value, lemma_canonical_unique};
use vstd::prelude::*;
use vstd::utf8::is_ascii_chars;

verus! {

/// `c` is one of `0` to `9`.
pub open spec fn is_digit_char(c: char) -> bool {
    '0' <= c <= '9'
}

/// The digit value of a digit character (0 for any other).
pub open spec fn char_digit(c: char) -> u8 {
    if is_digit_char(c) {
        (c as int - 48) as u8
    } else {
        0
    }
}

/// The character of a digit value.
pub open spec fn digit_char(d: u8) -> char {
    (d as int + 48) as char
}

/// Every character is a decimal digit.
pub open spec fn all_digit_chars(s: Seq<char>) -> bool {
    forall|i: int| 0 <= i < s.len() ==> is_digit_char(#[trigger] s[i])
}

/// The digit values of a text, character by character.
pub open spec fn text_digits(s: Seq<char>) -> Seq<u8> {
    Seq::new(s.len(), |i: int| char_digit(s[i]))
}

/// The text of digit values, digit by digit.
pub open spec fn digits_text(d: Seq<u8>) -> Seq<char> {
    Seq::new(d.len(), |i: int| digit_char(d[i]))
}

/// The number that a decimal text spells.
pub open spec fn text_value(s: Seq<char>) -> nat {
    digits_value(text_digits(s))
}

/// A decimal text in its one canonical spelling: digits only, at least one,
/// and no leading zero but for `"0"` itself.
pub open spec fn canonical_text(s: Seq<char>) -> bool {
    &&& s.len() >= 1
    &&& all_digit_chars(s)
    &&& (s.len() == 1 || s[0] != '0')
}

/// The texts of an array of strings.
pub open spec fn texts(v: Seq<String>) -> Seq<Seq<char>> {
    Seq::new(v.len(), |i: int| v[i]@)
}

/// The texts of an array of arrays of strings.
pub open spec fn texts2(v: Seq<Vec<String>>) -> Seq<Seq<Seq<char>>> {
    Seq::new(v.len(), |i: int| texts(v[i]@))
}

/// The texts of an array of arrays of arrays of strings.
pub open spec fn texts3(v: Seq<Vec<Vec<String>>>) -> Seq<Seq<Seq<Seq<char>>>> {
    Seq::new(v.len(), |i: int| texts2(v[i]@))
}

/// Canonical texts are exactly the texts of canonical digit strings.
pub proof fn lemma_canonical_text_digits(s: Seq<char>)
    requires
        canonical_text(s),
    ensures
        canonical_digits(text_digits(s)),
        digits_text(text_digits(s)) == s,
{
    let d = text_digits(s);
    assert forall|i: int| 0 <= i < d.len() implies #[trigger] d[i] <= 9 by {
        assert(is_digit_char(s[i]));
    }
    assert(is_digit_char(s[0]));
    assert forall|i: int| 0 <= i < s.len() implies digits_text(d)[i] == s[i] by {
        assert(is_digit_char(s[i]));
    }
    assert(digits_text(d) =~= s);
}

/// The text of a canonical digit string is canonical and spells the same
/// number.
pub proof fn lemma_digits_text_canonical(d: Seq<u8>)
    requires
        all_digits(d),
    ensures
        all_digit_chars(digits_text(d)),
        text_digits(digits_text(d)) == d,
        canonical_digits(d) ==> canonical_text(digits_text(d)),
{
    let s = digits_text(d);
    assert forall|i: int| 0 <= i < s.len() implies is_digit_char(#[trigger] s[i]) by {
        assert(d[i] <= 9);
    }
    assert forall|i: int| 0 <= i < d.len() implies text_digits(s)[i] == d[i] by {
        assert(d[i] <= 9);
    }
    assert(text_digits(s) =~= d);
    if canonical_digits(d) {
        assert(d[0] <= 9);
    }
}

/// Two canonical texts of one number are the same text.
pub proof fn lemma_canonical_text_unique(a: Seq<char>, b: Seq<char>)
    requires
        canonical_text(a),
        canonical_text(b),
        text_value(a) == text_value(b),
    ensures
        a == b,
{
    lemma_canonical_text_digits(a);
    lemma_canonical_text_digits(b);
    lemma_canonical_unique(text_digits(a), text_digits(b));
}

/// The digit values of `s`, or `None` where some character is no digit.
pub fn text_to_digits(s: &str) -> (r: Option<Vec<u8>>)
    ensures
        r.is_some() == all_digit_chars(s@),
        r.is_some() ==> r.unwrap()@ == text_digits(s@),
{
    if !s.is_ascii() {
        proof {
            if all_digit_chars(s@) {
                assert forall|i: int| 0 <= i < s@.len() implies '\0' <= #[trigger] s@[i]
                    <= '\u{7f}' by {
                    assert(is_digit_char(s@[i]));
                }
            }
        }
        return None;
    }
    proof {
        vstd::string::is_ascii_spec_bytes(s);
    }
    let bytes = s.as_bytes();
    let n: usize = bytes.len();
    let mut out: Vec<u8> = Vec::new();
    let mut i: usize = 0;
    while i < n
        invariant
            i <= n,
            n == s@.len(),
            n == bytes@.len(),
            is_ascii_chars(s@),
            forall|j: int| 0 <= j < n ==> #[trigger] bytes@[j] == s@[j] as u8,
            out@ =~= text_digits(s@.subrange(0, i as int)),
            all_digit_chars(s@.subrange(0, i as int)),
        decreases n - i,
    {
        let b: u8 = bytes[i];
        proof {
            assert(bytes@[i as int] == s@[i as int] as u8);
            assert('\0' <= s@[i as int] <= '\u{7f}');
        }
        if b < 48 || b > 57 {
            proof {
                assert(!is_digit_char(s@[i as int]));
            }
            return None;
        }
        out.push(b - 48);
        proof {
            assert(is_digit_char(s@[i as int]));
            let prev = s@.subrange(0, i as int);
            let next = s@.subrange(0, i + 1);
            assert forall|j: int| 0 <= j < next.len() implies is_digit_char(#[trigger] next[j]) by {
                if j < i {
                    assert(is_digit_char(prev[j]));
                }
            }
            assert(out@ =~= text_digits(next));
        }
        i = i + 1;
    }
    proof {
        assert(s@.subrange(0, n as int) =~= s@);
    }
    Some(out)
}

/// The one-character text of a digit value.
fn digit_str(d: u8) -> (r: &'static str)
    requires
        d <= 9,
    ensures
        r@ == seq![digit_char(d)],
{
    proof {
        reveal_strlit("0");
        reveal_strlit("1");
        reveal_strlit("2");
        reveal_strlit("3");
        reveal_strlit("4");
        reveal_strlit("5");
        reveal_strlit("6");
        reveal_strlit("7");
        reveal_strlit("8");
        reveal_strlit("9");
    }
    let r = match d {
        0 => "0",
        1 => "1",
        2 => "2",
        3 => "3",
        4 => "4",
        5 => "5",
        6 => "6",
        7 => "7",
        8 => "8",
        _ => "9",
    };
    assert(r@ =~= seq![digit_char(d)]);
    r
}

/// The text of the digit values `d`.
pub fn digits_to_string(d: &Vec<u8>) -> (r: String)
    requires
        all_digits(d@),
    ensures
        r@ == digits_text(d@),
{
    let mut out = String::new();
    let mut i: usize = 0;
    while i < d.len()
        invariant
            i <= d.len(),
            all_digits(d@),
            out@ =~= digits_text(d@.subrange(0, i as int)),
        decreases d.len() - i,
    {
        assert(d@[i as int] <= 9);
        out.append(digit_str(d[i]));
        assert(out@ =~= digits_text(d@.subrange(0, i + 1)));
        i = i + 1;
    }
    proof {
        assert(d@.subrange(0, d.len() as int) =~= d@);
    }
    out
}

} // verus!
