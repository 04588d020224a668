//! Arbitrary-precision unsigned decimal arithmetic over big-endian digit vectors.
//!
//! A digit vector holds values below ten, most significant digit first. Its value is
//! [`digits_value`]. These routines back quantity comparison and increment alignment.
use vstd::prelude::*;
use vstd::arithmetic::div_mod::*;

verus! {

broadcast use vstd::seq::group_seq_axioms;

/// Ten to the power `n`.
pub open spec fn pow10(n: nat) -> nat
    decreases n,
{
    if n == 0 {
        1
    } else {
        10 * pow10((n - 1) as nat)
    }
}

/// The value of a big-endian decimal digit sequence.
pub open spec fn digits_value(s: Seq<u8>) -> nat
    decreases s.len(),
{
    if s.len() == 0 {
        0
    } else {
        digits_value(s.drop_last()) * 10 + s.last() as nat
    }
}

/// Every element is a decimal digit.
pub open spec fn all_digits(s: Seq<u8>) -> bool {
    forall|i: int| 0 <= i < s.len() ==> #[trigger] s[i] < 10
}

/// The sequence has no leading zero digit.
pub open spec fn is_trimmed(s: Seq<u8>) -> bool {
    s.len() == 0 || s[0] != 0
}

/// A sequence of `n` zero digits.
pub open spec fn zeros(n: nat) -> Seq<u8> {
    Seq::new(n, |i: int| 0u8)
}

pub proof fn lemma_pow10_positive(n: nat)
    ensures
        pow10(n) >= 1,
    decreases n,
{
    if n > 0 {
        lemma_pow10_positive((n - 1) as nat);
    }
}

pub proof fn lemma_pow10_monotone(a: nat, b: nat)
    requires
        a <= b,
    ensures
        pow10(a) <= pow10(b),
    decreases b,
{
    if a < b {
        lemma_pow10_monotone(a, (b - 1) as nat);
        lemma_pow10_positive((b - 1) as nat);
    }
}

pub proof fn lemma_pow10_add(a: nat, b: nat)
    ensures
        pow10(a + b) == pow10(a) * pow10(b),
    decreases b,
{
    let pa = pow10(a);
    let pb = pow10(b);
    assert(pa * pb >= 0) by (nonlinear_arith);
    if b > 0 {
        lemma_pow10_add(a, (b - 1) as nat);
        assert(pow10(a + b) == 10 * pow10((a + b - 1) as nat));
        assert((a + b - 1) as nat == a + (b - 1) as nat);
        let p = pow10(a);
        let q = pow10((b - 1) as nat);
        assert(pow10((a + b - 1) as nat) == p * q);
        assert(pow10(b) == 10 * q);
        assert(10 * (p * q) == p * (10 * q)) by (nonlinear_arith);
        assert(pow10(a + b) == pa * pb);
    } else {
        assert(pow10(b) == 1);
        assert(a + b == a);
        assert(pa * pb == pa) by (nonlinear_arith)
            requires
                pb == 1,
        ;
    }
}

pub proof fn lemma_value_push(s: Seq<u8>, d: u8)
    ensures
        digits_value(s.push(d)) == digits_value(s) * 10 + d as nat,
{
    assert(s.push(d).drop_last() =~= s);
}

pub proof fn lemma_value_single(d: u8)
    ensures
        digits_value(seq![d]) == d as nat,
{
    assert(seq![d].drop_last() =~= Seq::<u8>::empty());
    assert(digits_value(Seq::<u8>::empty()) == 0);
}

/// Splitting a digit sequence at `k`: high part scaled by the length of the low part.
pub proof fn lemma_value_split(s: Seq<u8>, k: int)
    requires
        0 <= k <= s.len(),
    ensures
        digits_value(s) == digits_value(s.take(k)) * pow10((s.len() - k) as nat) + digits_value(
            s.skip(k),
        ),
    decreases s.len(),
{
    let hh = digits_value(s.take(k));
    let pp = pow10((s.len() - k) as nat);
    assert(hh * pp >= 0) by (nonlinear_arith);
    if k == s.len() {
        assert(s.take(k) =~= s);
        assert(s.skip(k) =~= Seq::<u8>::empty());
        assert(digits_value(Seq::<u8>::empty()) == 0);
        assert(pow10(0) == 1);
        assert(pp == 1);
        assert(hh == digits_value(s));
        assert(hh * pp == hh) by (nonlinear_arith)
            requires
                pp == 1,
        ;
    } else {
        let t = s.drop_last();
        lemma_value_split(t, k);
        assert(t.take(k) =~= s.take(k));
        assert(s.skip(k).drop_last() =~= t.skip(k));
        assert(s.skip(k).last() == s.last());
        let h = digits_value(s.take(k));
        let p = pow10((t.len() - k) as nat);
        assert(pow10((s.len() - k) as nat) == 10 * p);
        let l = digits_value(t.skip(k));
        let d = s.last() as nat;
        assert(digits_value(s) == digits_value(t) * 10 + d);
        assert(digits_value(s.skip(k)) == l * 10 + d);
        assert(digits_value(t) == h * p + l);
        assert((h * p + l) * 10 + d == h * (10 * p) + (l * 10 + d)) by (nonlinear_arith);
        assert(digits_value(s) == hh * pp + digits_value(s.skip(k)));
    }
}

pub proof fn lemma_value_upper(s: Seq<u8>)
    requires
        all_digits(s),
    ensures
        digits_value(s) < pow10(s.len()),
    decreases s.len(),
{
    if s.len() > 0 {
        let t = s.drop_last();
        lemma_value_upper(t);
        assert(s.last() < 10);
        let v = digits_value(t);
        let p = pow10(t.len());
        assert(v < p ==> v * 10 + 9 < 10 * p) by (nonlinear_arith);
    }
}

/// Two digit sequences of one length with one value are equal.
pub proof fn lemma_value_injective(s: Seq<u8>, t: Seq<u8>)
    requires
        all_digits(s),
        all_digits(t),
        s.len() == t.len(),
        digits_value(s) == digits_value(t),
    ensures
        s == t,
    decreases s.len(),
{
    if s.len() > 0 {
        let s0 = s.drop_last();
        let t0 = t.drop_last();
        assert(s.last() < 10 && t.last() < 10);
        assert(digits_value(s) == digits_value(s0) * 10 + s.last() as nat);
        assert(digits_value(t) == digits_value(t0) * 10 + t.last() as nat);
        assert(s.last() == t.last() && digits_value(s0) == digits_value(t0));
        lemma_value_injective(s0, t0);
        assert(s =~= s0.push(s.last()));
        assert(t =~= t0.push(t.last()));
    } else {
        assert(s =~= t);
    }
}

pub proof fn lemma_value_zeros(n: nat)
    ensures
        digits_value(zeros(n)) == 0,
    decreases n,
{
    if n > 0 {
        assert(zeros(n).drop_last() =~= zeros((n - 1) as nat));
        lemma_value_zeros((n - 1) as nat);
    }
}

pub proof fn lemma_value_all_zero(s: Seq<u8>)
    requires
        forall|i: int| 0 <= i < s.len() ==> s[i] == 0,
    ensures
        digits_value(s) == 0,
{
    assert(s =~= zeros(s.len()));
    lemma_value_zeros(s.len());
}

/// A nonempty trimmed sequence has its full length of significance.
pub proof fn lemma_value_lower(s: Seq<u8>)
    requires
        all_digits(s),
        s.len() > 0,
        s[0] != 0,
    ensures
        digits_value(s) >= pow10((s.len() - 1) as nat),
{
    lemma_value_split(s, 1);
    assert(s.take(1) =~= seq![s[0]]);
    lemma_value_single(s[0]);
    let p = pow10((s.len() - 1) as nat);
    let d = s[0] as nat;
    assert(d >= 1 ==> d * p >= p) by (nonlinear_arith);
}

/// Some nonzero digit makes the value positive.
pub proof fn lemma_value_positive(s: Seq<u8>, i: int)
    requires
        0 <= i < s.len(),
        s[i] != 0,
    ensures
        digits_value(s) > 0,
    decreases s.len(),
{
    if i == s.len() - 1 {
    } else {
        lemma_value_positive(s.drop_last(), i);
        let v = digits_value(s.drop_last());
        assert(v > 0 ==> v * 10 > 0) by (nonlinear_arith);
    }
}

/// Leading zeros do not change the value.
pub proof fn lemma_value_skip_zeros(s: Seq<u8>, k: int)
    requires
        0 <= k <= s.len(),
        forall|i: int| 0 <= i < k ==> s[i] == 0,
    ensures
        digits_value(s) == digits_value(s.skip(k)),
{
    lemma_value_split(s, k);
    lemma_value_all_zero(s.take(k));
}

/// Appending zero digits multiplies by a power of ten.
pub proof fn lemma_value_pad(s: Seq<u8>, n: nat)
    ensures
        digits_value(s + zeros(n)) == digits_value(s) * pow10(n),
{
    let t = s + zeros(n);
    lemma_value_split(t, s.len() as int);
    assert(t.take(s.len() as int) =~= s);
    assert(t.skip(s.len() as int) =~= zeros(n));
    lemma_value_zeros(n);
}

/// For trimmed digit sequences, a shorter sequence is smaller.
pub proof fn lemma_shorter_is_smaller(a: Seq<u8>, b: Seq<u8>)
    requires
        all_digits(a),
        all_digits(b),
        is_trimmed(b),
        a.len() < b.len(),
    ensures
        digits_value(a) < digits_value(b),
{
    lemma_value_upper(a);
    lemma_value_lower(b);
    lemma_pow10_monotone(a.len(), (b.len() - 1) as nat);
}

/// Removes leading zero digits.
pub fn trim_zeroes(value: &Vec<u8>) -> (r: Vec<u8>)
    requires
        all_digits(value@),
    ensures
        all_digits(r@),
        is_trimmed(r@),
        digits_value(r@) == digits_value(value@),
        r@.len() <= value@.len(),
{
    let mut first: usize = 0;
    while first < value.len() && value[first] == 0
        invariant
            first <= value@.len(),
            forall|i: int| 0 <= i < first ==> value@[i] == 0,
        decreases value@.len() - first,
    {
        first = first + 1;
    }
    let mut r: Vec<u8> = Vec::new();
    let mut i = first;
    while i < value.len()
        invariant
            first <= i <= value@.len(),
            r@ == value@.subrange(first as int, i as int),
        decreases value@.len() - i,
    {
        r.push(value[i]);
        i = i + 1;
    }
    proof {
        assert(r@ =~= value@.skip(first as int));
        lemma_value_skip_zeros(value@, first as int);
    }
    r
}

/// Three-way comparison of two trimmed digit vectors by value: -1, 0 or 1.
pub fn compare_digits(a: &Vec<u8>, b: &Vec<u8>) -> (r: i8)
    requires
        all_digits(a@),
        all_digits(b@),
        is_trimmed(a@),
        is_trimmed(b@),
    ensures
        r == -1 <==> digits_value(a@) < digits_value(b@),
        r == 0 <==> digits_value(a@) == digits_value(b@),
        r == 1 <==> digits_value(a@) > digits_value(b@),
{
    if a.len() < b.len() {
        proof {
            lemma_shorter_is_smaller(a@, b@);
        }
        return -1;
    }
    if a.len() > b.len() {
        proof {
            lemma_shorter_is_smaller(b@, a@);
        }
        return 1;
    }
    let mut i: usize = 0;
    while i < a.len()
        invariant
            all_digits(a@),
            all_digits(b@),
            a@.len() == b@.len(),
            i <= a@.len(),
            forall|j: int| 0 <= j < i ==> a@[j] == b@[j],
        decreases a@.len() - i,
    {
        if a[i] != b[i] {
            proof {
                lemma_first_difference(a@, b@, i as int);
            }
            if a[i] < b[i] {
                return -1;
            } else {
                return 1;
            }
        }
        i = i + 1;
    }
    assert(a@ =~= b@);
    0
}

/// Equal-length sequences that agree before `i` are ordered by their digit at `i`.
proof fn lemma_first_difference(a: Seq<u8>, b: Seq<u8>, i: int)
    requires
        all_digits(a),
        all_digits(b),
        a.len() == b.len(),
        0 <= i < a.len(),
        forall|j: int| 0 <= j < i ==> a[j] == b[j],
        a[i] != b[i],
    ensures
        a[i] < b[i] ==> digits_value(a) < digits_value(b),
        a[i] > b[i] ==> digits_value(a) > digits_value(b),
{
    lemma_value_split(a, i);
    lemma_value_split(b, i);
    assert(a.take(i) =~= b.take(i));
    let sa = a.skip(i);
    let sb = b.skip(i);
    lemma_value_split(sa, 1);
    lemma_value_split(sb, 1);
    assert(sa.take(1) =~= seq![a[i]]);
    assert(sb.take(1) =~= seq![b[i]]);
    lemma_value_single(a[i]);
    lemma_value_single(b[i]);
    let ra = sa.skip(1);
    let rb = sb.skip(1);
    assert(all_digits(ra));
    assert(all_digits(rb));
    lemma_value_upper(ra);
    lemma_value_upper(rb);
    let q = pow10(ra.len());
    assert(ra.len() == (sa.len() - 1) as nat);
    assert(rb.len() == ra.len());
    let x = digits_value(ra);
    let y = digits_value(rb);
    let da = a[i] as int;
    let db = b[i] as int;
    assert(da < db && x < q && y >= 0 ==> da * q + x < db * q + y) by (nonlinear_arith);
    assert(db < da && y < q && x >= 0 ==> db * q + y < da * q + x) by (nonlinear_arith);
    let h = digits_value(a.take(i));
    let p = pow10((a.len() - i) as nat);
    let u = digits_value(sa);
    let w = digits_value(sb);
    assert(u < w ==> h * p + u < h * p + w);
    assert(w < u ==> h * p + w < h * p + u);
}

/// Subtracts `subtrahend` from `value` in place; the result is trimmed.
pub fn subtract_decimal(value: &mut Vec<u8>, subtrahend: &Vec<u8>)
    requires
        all_digits(old(value)@),
        all_digits(subtrahend@),
        subtrahend@.len() <= old(value)@.len(),
        digits_value(subtrahend@) <= digits_value(old(value)@),
    ensures
        all_digits(final(value)@),
        is_trimmed(final(value)@),
        digits_value(final(value)@) == digits_value(old(value)@) - digits_value(subtrahend@),
{
    let ghost orig = value@;
    let n = value.len();
    let mut borrow: u8 = 0;
    let mut value_index: usize = n;
    let mut subtrahend_index: usize = subtrahend.len();
    proof {
        assert(value@.skip(n as int) =~= Seq::<u8>::empty());
        assert(orig.skip(n as int) =~= Seq::<u8>::empty());
        assert(subtrahend@.skip(subtrahend@.len() as int) =~= Seq::<u8>::empty());
    }
    while value_index > 0
        invariant
            n == value@.len(),
            orig.len() == n,
            all_digits(orig),
            all_digits(value@),
            all_digits(subtrahend@),
            subtrahend@.len() <= n,
            value_index <= n,
            borrow <= 1,
            subtrahend_index <= subtrahend@.len(),
            subtrahend_index > 0 ==> n - value_index == subtrahend@.len() - subtrahend_index,
            subtrahend_index <= value_index,
            forall|j: int| 0 <= j < value_index ==> value@[j] == orig[j],
            digits_value(value@.skip(value_index as int)) + digits_value(
                subtrahend@.skip(subtrahend_index as int),
            ) == digits_value(orig.skip(value_index as int)) + borrow as nat * pow10(
                (n - value_index) as nat,
            ),
        decreases value_index,
    {
        let ghost old_value = value@;
        let ghost old_borrow = borrow;
        let ghost old_sub_index = subtrahend_index;
        value_index = value_index - 1;
        let subtrahend_digit: u8 = if subtrahend_index > 0 {
            subtrahend_index = subtrahend_index - 1;
            subtrahend[subtrahend_index]
        } else {
            0
        };
        let current: u8 = value[value_index];
        let next_digit: u8;
        if current < subtrahend_digit + borrow {
            next_digit = current + 10 - subtrahend_digit - borrow;
            borrow = 1;
        } else {
            next_digit = current - subtrahend_digit - borrow;
            borrow = 0;
        }
        value.set(value_index, next_digit);
        proof {
            let k = value_index as int;
            let p = pow10((n - k - 1) as nat);
            // New suffix = new digit followed by the old suffix.
            let vs = value@.skip(k);
            lemma_value_split(vs, 1);
            assert(vs.take(1) =~= seq![next_digit]);
            assert(vs.skip(1) =~= old_value.skip(k + 1));
            lemma_value_single(next_digit);
            let os = orig.skip(k);
            lemma_value_split(os, 1);
            assert(os.take(1) =~= seq![orig[k]]);
            assert(os.skip(1) =~= orig.skip(k + 1));
            lemma_value_single(orig[k]);
            assert(current == orig[k]);
            let ss = subtrahend@.skip(subtrahend_index as int);
            if old_sub_index > 0 {
                lemma_value_split(ss, 1);
                assert(ss.take(1) =~= seq![subtrahend_digit]);
                assert(ss.skip(1) =~= subtrahend@.skip(old_sub_index as int));
                lemma_value_single(subtrahend_digit);
            } else {
                assert(ss =~= subtrahend@.skip(old_sub_index as int));
                assert(subtrahend_digit == 0);
            }
            assert(digits_value(ss) == subtrahend_digit as nat * p + digits_value(
                subtrahend@.skip(old_sub_index as int),
            ));
            assert(pow10((n - k) as nat) == 10 * p);
            let nd = next_digit as int;
            let sd = subtrahend_digit as int;
            let od = orig[k] as int;
            let b0 = old_borrow as int;
            let b1 = borrow as int;
            assert(nd + sd + b0 == od + 10 * b1);
            assert((nd + sd + b0) * p == (od + 10 * b1) * p);
            assert(nd * p + sd * p + b0 * p == od * p + b1 * (10 * p)) by (nonlinear_arith)
                requires
                    (nd + sd + b0) * p == (od + 10 * b1) * p,
            ;
            assert(forall|j: int| 0 <= j < value_index ==> value@[j] == orig[j]);
            assert(all_digits(value@));
        }
    }
    proof {
        assert(subtrahend_index == 0);
        assert(value@.skip(0) =~= value@);
        assert(orig.skip(0) =~= orig);
        assert(subtrahend@.skip(0) =~= subtrahend@);
        lemma_value_upper(value@);
        assert(borrow == 0) by {
            if borrow == 1 {
                assert(digits_value(value@) + digits_value(subtrahend@) == digits_value(orig)
                    + pow10(n as nat));
            }
        }
    }
    let trimmed = trim_zeroes(value);
    *value = trimmed;
}

/// The remainder of `value` divided by a positive trimmed `divisor`; the result is trimmed.
pub fn decimal_remainder(value: &Vec<u8>, divisor: &Vec<u8>) -> (r: Vec<u8>)
    requires
        all_digits(value@),
        all_digits(divisor@),
        is_trimmed(divisor@),
        digits_value(divisor@) > 0,
    ensures
        all_digits(r@),
        is_trimmed(r@),
        digits_value(r@) == digits_value(value@) % digits_value(divisor@),
{
    let ghost m = digits_value(divisor@) as int;
    let mut remainder: Vec<u8> = Vec::new();
    let mut k: usize = 0;
    proof {
        assert(value@.take(0) =~= Seq::<u8>::empty());
        lemma_small_mod(0, m as nat);
    }
    while k < value.len()
        invariant
            m == digits_value(divisor@),
            m > 0,
            all_digits(value@),
            all_digits(divisor@),
            is_trimmed(divisor@),
            k <= value@.len(),
            all_digits(remainder@),
            is_trimmed(remainder@),
            digits_value(remainder@) == digits_value(value@.take(k as int)) % (m as nat),
        decreases value@.len() - k,
    {
        let digit = value[k];
        let ghost old_rem = remainder@;
        remainder.push(digit);
        proof {
            lemma_value_push(old_rem, digit);
            let prefix = value@.take(k as int);
            assert(value@.take(k + 1) =~= prefix.push(digit));
            lemma_value_push(prefix, digit);
            let x = digits_value(prefix) as int;
            // ((x % m) * 10 + d) % m == (x * 10 + d) % m
            lemma_mul_mod_noop_left(x, 10, m);
            lemma_add_mod_noop((x % m) * 10, digit as int, m);
            lemma_add_mod_noop(x * 10, digit as int, m);
            assert(all_digits(remainder@));
        }
        remainder = trim_zeroes(&remainder);
        k = k + 1;
        while compare_digits(&remainder, divisor) != -1
            invariant
                m == digits_value(divisor@),
                m > 0,
                all_digits(divisor@),
                is_trimmed(divisor@),
                all_digits(remainder@),
                is_trimmed(remainder@),
                1 <= k <= value@.len(),
                (digits_value(remainder@) as int) % m == (digits_value(value@.take(k as int))
                    as int) % m,
            decreases digits_value(remainder@),
        {
            proof {
                if remainder@.len() < divisor@.len() {
                    lemma_shorter_is_smaller(remainder@, divisor@);
                }
                lemma_mod_sub_multiples_vanish(digits_value(remainder@) as int, m);
            }
            subtract_decimal(&mut remainder, divisor);
        }
        proof {
            lemma_small_mod(digits_value(remainder@), m as nat);
        }
    }
    proof {
        assert(value@.take(value@.len() as int) =~= value@);
    }
    remainder
}

} // verus!
