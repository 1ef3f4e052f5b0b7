//! Decimal digit strings as natural numbers: value, canonical form, padded
//! subtraction with borrow, and the removal of leading zeros.

use vstd::prelude::*;

verus! {

/// Ten to the power `n`.
pub open spec fn pow10(n: nat) -> nat
    decreases n,
{
    if n == 0 {
        1
    } else {
        10 * pow10((n - 1) as nat)
    }
}

/// The number that the digit values `d` (most significant first) spell.
pub open spec fn digits_value(d: Seq<u8>) -> nat
    decreases d.len(),
{
    if d.len() == 0 {
        0
    } else {
        digits_value(d.drop_last()) * 10 + d.last() as nat
    }
}

/// Every entry is a digit value, 0 to 9.
pub open spec fn all_digits(d: Seq<u8>) -> bool {
    forall|i: int| 0 <= i < d.len() ==> #[trigger] d[i] <= 9
}

/// Every entry is 0.
pub open spec fn all_zero(d: Seq<u8>) -> bool {
    forall|i: int| 0 <= i < d.len() ==> #[trigger] d[i] == 0
}

/// The one spelling of a number: at least one digit, and no leading zero but
/// for zero itself.
pub open spec fn canonical_digits(d: Seq<u8>) -> bool {
    &&& d.len() >= 1
    &&& all_digits(d)
    &&& (d.len() == 1 || d[0] != 0)
}

/// Powers of ten grow with the exponent.
pub proof fn lemma_pow10_monotonic(m: nat, n: nat)
    requires
        m <= n,
    ensures
        pow10(m) <= pow10(n),
    decreases n,
{
    if m < n {
        lemma_pow10_monotonic(m, (n - 1) as nat);
    }
}

/// A digit in front adds its multiple of the power of ten of what follows.
pub proof fn lemma_value_prepend(x: u8, s: Seq<u8>)
    ensures
        digits_value(seq![x] + s) == x as nat * pow10(s.len()) + digits_value(s),
    decreases s.len(),
{
    let t = seq![x] + s;
    assert(t.len() == s.len() + 1);
    assert(t.last() == if s.len() == 0 { x } else { s.last() });
    assert(digits_value(t) == digits_value(t.drop_last()) * 10 + t.last() as nat);
    if s.len() == 0 {
        assert(t.drop_last() =~= Seq::<u8>::empty());
        assert(digits_value(t.drop_last()) == 0);
        assert(digits_value(s) == 0);
        assert(pow10(0) == 1);
        assert(x as nat * 1 == x as nat);
    } else {
        assert(t.drop_last() =~= seq![x] + s.drop_last());
        lemma_value_prepend(x, s.drop_last());
        let p = pow10(s.drop_last().len());
        let h = x as nat;
        let v = digits_value(s.drop_last());
        assert(digits_value(s) == v * 10 + s.last() as nat);
        assert(pow10(s.len()) == 10 * p);
        assert((h * p + v) * 10 == h * (10 * p) + v * 10) by (nonlinear_arith);
    }
}

/// `n` digits spell a number below ten to the `n`.
pub proof fn lemma_value_bound(s: Seq<u8>)
    requires
        all_digits(s),
    ensures
        digits_value(s) < pow10(s.len()),
    decreases s.len(),
{
    if s.len() > 0 {
        assert(all_digits(s.drop_last()));
        lemma_value_bound(s.drop_last());
        assert(s.last() <= 9);
    }
}

/// The value is zero exactly when every digit is.
pub proof fn lemma_value_zero(s: Seq<u8>)
    ensures
        digits_value(s) == 0 <==> all_zero(s),
    decreases s.len(),
{
    if s.len() > 0 {
        lemma_value_zero(s.drop_last());
        if all_zero(s) {
            assert(all_zero(s.drop_last()));
            assert(s.last() == 0);
        }
        if digits_value(s) == 0 {
            assert(all_zero(s.drop_last()));
            assert forall|i: int| 0 <= i < s.len() implies #[trigger] s[i] == 0 by {
                if i < s.len() - 1 {
                    assert(s.drop_last()[i] == 0);
                }
            }
        }
    }
}

/// Zeros in front change nothing.
pub proof fn lemma_value_skip_zeros(s: Seq<u8>, k: int)
    requires
        0 <= k <= s.len(),
        all_zero(s.subrange(0, k)),
    ensures
        digits_value(s.subrange(k, s.len() as int)) == digits_value(s),
    decreases k,
{
    if k == 0 {
        assert(s.subrange(0, s.len() as int) =~= s);
    } else {
        let rest = s.subrange(k, s.len() as int);
        let prev = s.subrange(k - 1, s.len() as int);
        assert(s.subrange(0, k)[k - 1] == 0);
        assert(prev =~= seq![0u8] + rest);
        lemma_value_prepend(0u8, rest);
        assert forall|i: int| 0 <= i < k - 1 implies #[trigger] s.subrange(0, k - 1)[i] == 0 by {
            assert(s.subrange(0, k)[i] == 0);
        }
        lemma_value_skip_zeros(s, k - 1);
    }
}

/// A spelling whose first digit is not zero reaches the power of ten of its
/// remaining length.
pub proof fn lemma_value_lower_bound(s: Seq<u8>)
    requires
        s.len() >= 1,
        s[0] != 0,
    ensures
        digits_value(s) >= pow10((s.len() - 1) as nat),
{
    let rest = s.subrange(1, s.len() as int);
    assert(s =~= seq![s[0]] + rest);
    lemma_value_prepend(s[0], rest);
    let p = pow10(rest.len());
    let h = s[0] as nat;
    assert(h >= 1);
    assert(h * p >= p) by (nonlinear_arith)
        requires
            h >= 1,
    ;
}

/// Two canonical spellings of one number are the same spelling.
pub proof fn lemma_canonical_unique(a: Seq<u8>, b: Seq<u8>)
    requires
        canonical_digits(a),
        canonical_digits(b),
        digits_value(a) == digits_value(b),
    ensures
        a == b,
{
    lemma_canonical_same_len(a, b);
    lemma_same_len_unique(a, b);
}

/// Canonical spellings of one number have one length.
pub proof fn lemma_canonical_same_len(a: Seq<u8>, b: Seq<u8>)
    requires
        canonical_digits(a),
        canonical_digits(b),
        digits_value(a) == digits_value(b),
    ensures
        a.len() == b.len(),
{
    lemma_value_bound(a);
    lemma_value_bound(b);
    if a.len() < b.len() {
        lemma_value_lower_bound(b);
        lemma_pow10_monotonic(a.len(), (b.len() - 1) as nat);
    }
    if b.len() < a.len() {
        lemma_value_lower_bound(a);
        lemma_pow10_monotonic(b.len(), (a.len() - 1) as nat);
    }
}

/// Digit strings of one length and one value are equal.
pub proof fn lemma_same_len_unique(a: Seq<u8>, b: Seq<u8>)
    requires
        all_digits(a),
        all_digits(b),
        a.len() == b.len(),
        digits_value(a) == digits_value(b),
    ensures
        a == b,
    decreases a.len(),
{
    if a.len() == 0 {
        assert(a =~= b);
    } else {
        assert(a.last() <= 9 && b.last() <= 9);
        assert(all_digits(a.drop_last()));
        assert(all_digits(b.drop_last()));
        lemma_same_len_unique(a.drop_last(), b.drop_last());
        assert(a =~= a.drop_last().push(a.last()));
        assert(b =~= b.drop_last().push(b.last()));
    }
}

/// Whether every digit of `d` is zero.
pub fn is_all_zero(d: &Vec<u8>) -> (r: bool)
    ensures
        r == all_zero(d@),
{
    let mut i: usize = 0;
    while i < d.len()
        invariant
            i <= d.len(),
            all_zero(d@.subrange(0, i as int)),
        decreases d.len() - i,
    {
        if d[i] != 0 {
            return false;
        }
        proof {
            assert forall|j: int| 0 <= j < i + 1 implies #[trigger] d@.subrange(0, i + 1)[j]
                == 0 by {
                if j < i {
                    assert(d@.subrange(0, i as int)[j] == 0);
                }
            }
        }
        i = i + 1;
    }
    proof {
        assert(d@.subrange(0, d.len() as int) =~= d@);
    }
    true
}

/// `d` with zeros put in front until it has `n` digits.
pub fn pad_left(d: &Vec<u8>, n: usize) -> (r: Vec<u8>)
    requires
        d.len() <= n,
    ensures
        r.len() == n,
        r@ =~= Seq::new((n - d.len()) as nat, |i: int| 0u8) + d@,
        digits_value(r@) == digits_value(d@),
        all_digits(d@) ==> all_digits(r@),
{
    let gap: usize = n - d.len();
    let mut r: Vec<u8> = Vec::new();
    let mut i: usize = 0;
    while i < gap
        invariant
            i <= gap,
            r@ =~= Seq::new(i as nat, |j: int| 0u8),
        decreases gap - i,
    {
        r.push(0u8);
        i = i + 1;
    }
    let mut k: usize = 0;
    while k < d.len()
        invariant
            k <= d.len(),
            gap + d.len() == n,
            r@ =~= Seq::new(gap as nat, |j: int| 0u8) + d@.subrange(0, k as int),
        decreases d.len() - k,
    {
        r.push(d[k]);
        k = k + 1;
    }
    proof {
        assert(d@.subrange(0, d.len() as int) =~= d@);
        assert(r@.subrange(gap as int, n as int) =~= d@);
        assert(all_zero(r@.subrange(0, gap as int)));
        lemma_value_skip_zeros(r@, gap as int);
    }
    r
}

/// Digit-wise `a - b` on two spellings of one length. The flag tells that `b`
/// is the larger; the digits then spell the difference plus ten to the length.
pub fn sub_digits(a: &Vec<u8>, b: &Vec<u8>) -> (r: (Vec<u8>, bool))
    requires
        a.len() == b.len(),
        all_digits(a@),
        all_digits(b@),
    ensures
        r.0.len() == a.len(),
        all_digits(r.0@),
        r.1 == (digits_value(a@) < digits_value(b@)),
        digits_value(a@) + (if r.1 { pow10(a@.len()) } else { 0 }) == digits_value(b@)
            + digits_value(r.0@),
{
    let n: usize = a.len();
    let mut out: Vec<u8> = a.clone();
    let mut borrow: u8 = 0;
    let mut i: usize = n;
    proof {
        assert(a@.subrange(n as int, n as int) =~= Seq::<u8>::empty());
        assert(b@.subrange(n as int, n as int) =~= Seq::<u8>::empty());
        assert(out@.subrange(n as int, n as int) =~= Seq::<u8>::empty());
    }
    while i > 0
        invariant
            i <= n,
            n == a.len(),
            n == b.len(),
            n == out.len(),
            all_digits(a@),
            all_digits(b@),
            borrow <= 1,
            all_digits(out@.subrange(i as int, n as int)),
            digits_value(a@.subrange(i as int, n as int)) + borrow as nat * pow10((n - i) as nat)
                == digits_value(b@.subrange(i as int, n as int)) + digits_value(
                out@.subrange(i as int, n as int),
            ),
        decreases i,
    {
        let ghost before = out@;
        let ghost old_borrow = borrow;
        let da: u8 = a[i - 1];
        let db: u8 = b[i - 1] + borrow;
        let digit: u8;
        if da >= db {
            digit = da - db;
            borrow = 0;
        } else {
            digit = da + 10 - db;
            borrow = 1;
        }
        out.set(i - 1, digit);
        proof {
            let sa = a@.subrange(i as int, n as int);
            let sb = b@.subrange(i as int, n as int);
            let so = before.subrange(i as int, n as int);
            assert(out@.subrange(i as int, n as int) =~= so);
            assert(a@.subrange(i - 1, n as int) =~= seq![da] + sa);
            assert(b@.subrange(i - 1, n as int) =~= seq![b@[i - 1]] + sb);
            assert(out@.subrange(i - 1, n as int) =~= seq![digit] + so);
            lemma_value_prepend(da, sa);
            lemma_value_prepend(b@[i - 1], sb);
            lemma_value_prepend(digit, so);
            let p = pow10((n - i) as nat);
            assert(pow10((n - i + 1) as nat) == 10 * p);
            let xa = da as nat;
            let xb = b@[i - 1] as nat;
            let xo = digit as nat;
            let c0 = old_borrow as nat;
            let c1 = borrow as nat;
            assert(xa + 10 * c1 == xb + c0 + xo);
            assert(xa * p + c1 * (10 * p) == xb * p + c0 * p + xo * p) by (nonlinear_arith)
                requires
                    xa + 10 * c1 == xb + c0 + xo,
            ;
            assert forall|j: int| 0 <= j < n - i + 1 implies #[trigger] out@.subrange(
                i - 1,
                n as int,
            )[j] <= 9 by {
                if j > 0 {
                    assert(so[j - 1] <= 9);
                }
            }
        }
        i = i - 1;
    }
    proof {
        assert(a@.subrange(0, n as int) =~= a@);
        assert(b@.subrange(0, n as int) =~= b@);
        assert(out@.subrange(0, n as int) =~= out@);
        lemma_value_bound(a@);
        lemma_value_bound(b@);
        lemma_value_bound(out@);
        let p = pow10(n as nat);
        let c = borrow as nat;
        assert(c * p == if borrow == 1 { p } else { 0 }) by (nonlinear_arith)
            requires
                c == borrow as nat,
                borrow <= 1,
        ;
    }
    (out, borrow == 1)
}

/// The canonical spelling of the number that `d` spells.
pub fn strip_leading_zeros(d: &Vec<u8>) -> (r: Vec<u8>)
    requires
        d.len() >= 1,
        all_digits(d@),
    ensures
        canonical_digits(r@),
        digits_value(r@) == digits_value(d@),
{
    let n: usize = d.len();
    let mut k: usize = 0;
    while k + 1 < n && d[k] == 0
        invariant
            k < n,
            n == d.len(),
            all_zero(d@.subrange(0, k as int)),
        decreases n - k,
    {
        proof {
            assert forall|j: int| 0 <= j < k + 1 implies #[trigger] d@.subrange(0, k + 1)[j]
                == 0 by {
                if j < k {
                    assert(d@.subrange(0, k as int)[j] == 0);
                }
            }
        }
        k = k + 1;
    }
    let mut r: Vec<u8> = Vec::new();
    let mut i: usize = k;
    while i < n
        invariant
            k <= i <= n,
            n == d.len(),
            r@ =~= d@.subrange(k as int, i as int),
        decreases n - i,
    {
        r.push(d[i]);
        i = i + 1;
    }
    proof {
        lemma_value_skip_zeros(d@, k as int);
        assert forall|j: int| 0 <= j < r@.len() implies #[trigger] r@[j] <= 9 by {
            assert(r@[j] == d@[k + j]);
        }
    }
    r
}

} // verus!
