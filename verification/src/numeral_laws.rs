//! What the numerals that are written stand for: reading them gives the numbers back.
use vstd::prelude::*;
use vstd::arithmetic::div_mod::{lemma_fundamental_div_mod, lemma_mod_breakdown, lemma_small_mod};
use vstd::arithmetic::power::{lemma_pow_positive, pow};
use crate::text::{
    decimal, digit, fixed3, fixed3_magnitude, last_digits, padded4, pow10, shortest,
    shortest_signed,
};

verus! {

/// Nothing but decimal digits.
pub open spec fn all_digits(s: Seq<char>) -> bool {
    forall|i: int| 0 <= i < s.len() ==> 48 <= (#[trigger] s[i]) as int <= 57
}

/// The number that a run of decimal digits stands for.
pub open spec fn digits_value(s: Seq<char>) -> int
    decreases s.len(),
{
    if s.len() == 0 {
        0
    } else {
        10 * digits_value(s.drop_last()) + (s.last() as int - 48)
    }
}

/// The digits before the point of a numeral without a sign.
pub open spec fn whole_part(s: Seq<char>) -> Seq<char> {
    if s.contains('.') {
        s.take(s.index_of('.'))
    } else {
        s
    }
}

/// The digits behind the point of a numeral.
pub open spec fn fraction_part(s: Seq<char>) -> Seq<char> {
    if s.contains('.') {
        s.skip(s.index_of('.') + 1)
    } else {
        Seq::empty()
    }
}

/// How many units of `10^-scale` a numeral without a sign stands for.
pub open spec fn magnitude(s: Seq<char>, scale: nat) -> int {
    let f = fraction_part(s);
    digits_value(whole_part(s)) * pow(10, scale) + digits_value(f) * pow(
        10,
        (scale - f.len()) as nat,
    )
}

/// How many units of `10^-scale` a numeral stands for.
pub open spec fn units(s: Seq<char>, scale: nat) -> int {
    if s.len() > 0 && s[0] == '-' {
        -magnitude(s.drop_first(), scale)
    } else {
        magnitude(s, scale)
    }
}

/// The text is a numeral without a sign: digits, and where there is a point, digits on both sides of
/// it.
pub open spec fn well_formed(s: Seq<char>) -> bool {
    &&& whole_part(s).len() > 0
    &&& all_digits(whole_part(s))
    &&& all_digits(fraction_part(s))
    &&& s.contains('.') ==> fraction_part(s).len() > 0
    &&& s.contains('.') ==> s == whole_part(s).push('.') + fraction_part(s)
}

/// There is no needless zero at the beginning.
pub open spec fn no_leading_zero(s: Seq<char>) -> bool {
    s.len() > 1 ==> s[0] != '0'
}

/// The text is the numeral of this number: digits without a needless zero, which stand for it.
pub open spec fn is_numeral(s: Seq<char>, n: int) -> bool {
    s.len() > 0 && all_digits(s) && no_leading_zero(s) && digits_value(s) == n
}

proof fn lemma_digit(d: nat)
    requires
        d < 10,
    ensures
        digit(d) as int == 48 + d,
{
}

/// A numeral without a point consists of digits, has no needless zero, and gives its number back.
pub proof fn law_numerals_are_read_back(n: nat)
    ensures
        is_numeral(decimal(n), n as int),
    decreases n,
{
    reveal_with_fuel(digits_value, 2);
    let s = decimal(n);
    if n < 10 {
        lemma_digit(n);
        assert(s.drop_last() =~= Seq::<char>::empty());
    } else {
        let t = decimal(n / 10);
        law_numerals_are_read_back(n / 10);
        lemma_digit(n % 10);
        assert(s.drop_last() =~= t);
        assert(s[0] == t[0]);
        if t.len() == 1 {
            assert(t.drop_last() =~= Seq::<char>::empty());
            assert(digits_value(t) == t[0] as int - 48);
        }
    }
}

proof fn lemma_last_digits(n: nat, k: nat)
    ensures
        last_digits(n, k).len() == k,
        all_digits(last_digits(n, k)),
        digits_value(last_digits(n, k)) == n as int % pow(10, k),
    decreases k,
{
    reveal(pow);
    let s = last_digits(n, k);
    if k > 0 {
        let t = last_digits(n / 10, (k - 1) as nat);
        lemma_last_digits(n / 10, (k - 1) as nat);
        lemma_digit(n % 10);
        assert(s.drop_last() =~= t);
        lemma_pow_positive(10, (k - 1) as nat);
        lemma_mod_breakdown(n as int, 10, pow(10, (k - 1) as nat));
    }
}

/// A numeral that is filled up with zeros has four digits, or more where they are needed, and gives
/// its number back.
pub proof fn law_padded_numerals_are_read_back(n: nat)
    ensures
        all_digits(padded4(n)),
        digits_value(padded4(n)) == n,
        padded4(n).len() >= 4,
        n < 10_000 ==> padded4(n).len() == 4,
{
    if n < 10_000 {
        lemma_last_digits(n, 4);
        lemma_powers_of_ten();
        lemma_small_mod(n, 10_000);
    } else {
        law_numerals_are_read_back(n);
        lemma_powers_of_ten();
        lemma_many_digits(n, 4);
    }
}

proof fn lemma_powers_of_ten()
    ensures
        pow(10, 3) == 1000,
        pow(10, 4) == 10_000,
        pow(10, 6) == 1_000_000,
{
    reveal(pow);
    reveal_with_fuel(pow, 7);
}

/// A number with at least `k + 1` digits has a numeral of that length.
proof fn lemma_many_digits(n: nat, k: nat)
    requires
        n >= pow(10, k),
    ensures
        decimal(n).len() > k,
    decreases k,
{
    reveal(pow);
    if k > 0 {
        lemma_pow_positive(10, (k - 1) as nat);
        assert(n / 10 >= pow(10, (k - 1) as nat));
        lemma_many_digits(n / 10, (k - 1) as nat);
    }
}

proof fn lemma_no_point(s: Seq<char>)
    requires
        all_digits(s),
    ensures
        !s.contains('.'),
        !s.contains('-'),
{
    if s.contains('.') {
        let i = choose|i: int| 0 <= i < s.len() && s[i] == '.';
        assert(s[i] as int == 46);
    }
    if s.contains('-') {
        let i = choose|i: int| 0 <= i < s.len() && s[i] == '-';
        assert(s[i] as int == 45);
    }
}

/// The two parts of a numeral with a point.
proof fn lemma_parts(a: Seq<char>, b: Seq<char>)
    requires
        all_digits(a),
        all_digits(b),
    ensures
        (a.push('.') + b).contains('.'),
        whole_part(a.push('.') + b) == a,
        fraction_part(a.push('.') + b) == b,
{
    let s = a.push('.') + b;
    let p = a.len() as int;
    assert(s[p] == '.');
    assert forall|i: int| 0 <= i < s.len() && s[i] == '.' implies i == p by {
        if i < p {
            assert(s[i] == a[i]);
            assert(s[i] as int == 46);
        } else if i > p {
            assert(s[i] == b[i - p - 1]);
            assert(s[i] as int == 46);
        }
    }
    let q = s.index_of('.');
    assert(0 <= q < s.len() && s[q] == '.');
    assert(s.take(q) =~= a);
    assert(s.skip(q + 1) =~= b);
}

proof fn lemma_whole(s: Seq<char>)
    requires
        all_digits(s),
        s.len() > 0,
    ensures
        well_formed(s),
        fraction_part(s).len() == 0,
        forall|scale: nat| #[trigger] magnitude(s, scale) == digits_value(s) * pow(10, scale),
{
    lemma_no_point(s);
}

/// One more digit of scale makes ten times as many units.
proof fn lemma_finer(s: Seq<char>, scale: nat)
    requires
        fraction_part(s).len() <= scale,
    ensures
        magnitude(s, scale + 1) == 10 * magnitude(s, scale),
{
    reveal(pow);
    let f = fraction_part(s);
    let a = digits_value(whole_part(s));
    let b = digits_value(f);
    let p = pow(10, scale);
    let q = pow(10, (scale - f.len()) as nat);
    assert(pow(10, scale + 1) == 10 * p);
    assert((scale + 1 - f.len()) as nat == (scale - f.len()) as nat + 1);
    assert(pow(10, (scale + 1 - f.len()) as nat) == 10 * q);
    assert(a * (10 * p) + b * (10 * q) == 10 * (a * p + b * q)) by (nonlinear_arith);
}

proof fn lemma_pow10(k: nat)
    ensures
        pow10(k) == pow(10, k),
    decreases k,
{
    reveal(pow);
    if k > 0 {
        lemma_pow10((k - 1) as nat);
    }
}

proof fn lemma_shortest(n: nat, scale: nat)
    ensures
        well_formed(shortest(n, scale)),
        no_leading_zero(whole_part(shortest(n, scale))),
        fraction_part(shortest(n, scale)).len() <= scale,
        shortest(n, scale).contains('.') ==> shortest(n, scale).last() != '0',
        shortest(n, scale).len() > 0 && shortest(n, scale)[0] != '-',
        magnitude(shortest(n, scale), scale) == n,
    decreases scale,
{
    let s = shortest(n, scale);
    if scale == 0 {
        law_numerals_are_read_back(n);
        lemma_whole(s);
        lemma_no_point(s);
        assert(s.contains(s[0]));
        reveal(pow);
        assert(magnitude(s, 0) == n as int * 1);
    } else if n % 10 == 0 {
        lemma_shortest(n / 10, (scale - 1) as nat);
        lemma_finer(s, (scale - 1) as nat);
    } else {
        let p = pow(10, scale);
        lemma_pow10(scale);
        lemma_pow_positive(10, scale);
        let a = decimal(n / pow10(scale));
        let b = last_digits(n % pow10(scale), scale);
        law_numerals_are_read_back(n / pow10(scale));
        lemma_last_digits(n % pow10(scale), scale);
        lemma_parts(a, b);
        lemma_no_point(a);
        assert(s[0] == a[0]);
        assert(a.contains(a[0]));
        lemma_small_mod(n % pow10(scale), pow10(scale));
        lemma_fundamental_div_mod(n as int, p);
        reveal(pow);
        assert(magnitude(s, scale) == digits_value(a) * p + digits_value(b) * 1);
        assert(digits_value(a) * p == p * (n as int / p)) by (nonlinear_arith)
            requires
                digits_value(a) == n as int / p,
        ;
        // The last digit is that of the number.
        assert(s.last() == b.last());
        let rest = n % pow10(scale);
        assert(rest % 10 == n % 10) by {
            let h = pow10((scale - 1) as nat);
            assert(pow10(scale) == 10 * h);
            lemma_pow10((scale - 1) as nat);
            lemma_pow_positive(10, (scale - 1) as nat);
            lemma_mod_breakdown(n as int, 10, h as int);
            assert(n as int % (10 * h as int) == 10 * ((n as int / 10) % h as int) + n as int % 10);
        }
        lemma_digit(rest % 10);
        assert(b.last() == digit(rest % 10));
    }
}

/// A number of units of `10^-scale` is written as a decimal fraction that gives it back: with a sign
/// exactly if it lies below zero, with digits on both sides of a point or without one, and without
/// needless zeros at either end.
pub proof fn law_fractions_are_read_back(n: int, scale: nat)
    ensures
        ({
            let s = shortest_signed(n, scale);
            let m = if n < 0 {
                s.drop_first()
            } else {
                s
            };
            &&& units(s, scale) == n
            &&& s.len() > 0 && (s[0] == '-' <==> n < 0)
            &&& well_formed(m)
            &&& no_leading_zero(whole_part(m))
            &&& fraction_part(m).len() <= scale
            &&& m.contains('.') ==> m.last() != '0'
        }),
{
    if n < 0 {
        lemma_shortest((-n) as nat, scale);
        let s = shortest_signed(n, scale);
        assert(s.drop_first() =~= shortest((-n) as nat, scale));
    } else {
        lemma_shortest(n as nat, scale);
    }
}

proof fn lemma_fixed3(n: nat)
    ensures
        well_formed(fixed3_magnitude(n)),
        no_leading_zero(whole_part(fixed3_magnitude(n))),
        fraction_part(fixed3_magnitude(n)).len() == 3,
        fixed3_magnitude(n).len() > 0 && fixed3_magnitude(n)[0] != '-',
        magnitude(fixed3_magnitude(n), 3) == n,
{
    let a = decimal(n / 1000);
    let b = last_digits(n % 1000, 3);
    lemma_powers_of_ten();
    law_numerals_are_read_back(n / 1000);
    lemma_last_digits(n % 1000, 3);
    lemma_small_mod(n % 1000, 1000);
    lemma_parts(a, b);
    lemma_no_point(a);
    assert(a.contains(a[0]));
    assert(fixed3_magnitude(n)[0] == a[0]);
    reveal(pow);
    assert(pow(10, 0) == 1);
}

/// A number of thousandths is written with three digits behind the point, and is given back.
pub proof fn law_thousandths_are_read_back(n: int)
    ensures
        ({
            let s = fixed3(n);
            let m = if n < 0 {
                s.drop_first()
            } else {
                s
            };
            &&& units(s, 3) == n
            &&& s.len() > 0 && (s[0] == '-' <==> n < 0)
            &&& well_formed(m)
            &&& no_leading_zero(whole_part(m))
            &&& fraction_part(m).len() == 3
        }),
{
    if n < 0 {
        lemma_fixed3((-n) as nat);
        assert(fixed3(n).drop_first() =~= fixed3_magnitude((-n) as nat));
    } else {
        lemma_fixed3(n as nat);
    }
}

} // verus!
