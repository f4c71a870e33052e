//! Fitting a clip into its time: leave it, pad it with silence, or speed it up.
//!
//! Lengths of audio are whole microseconds.
use vstd::prelude::*;
use crate::numeral_laws::{
    fraction_part, law_thousandths_are_read_back, units, well_formed,
};
use crate::text::{fixed3, push_fixed3_magnitude};
use vstd::arithmetic::power2::pow2;

verus! {

/// The longest time that is handled, in milliseconds: the difference of two of them is a length that
/// is handled.
pub const MAX_MILLIS: i64 = 1_537_228_672_809_129;

/// The longest length of audio that is handled, in microseconds: three of them can be added.
pub const MAX_MICROS: i64 = 0x2AAA_AAAA_AAAA_AAAA;

/// The time is one that is handled.
pub open spec fn time_in_range(millis: int) -> bool {
    -MAX_MILLIS <= millis <= MAX_MILLIS
}

/// The length is one that is handled.
pub open spec fn length_in_range(micros: int) -> bool {
    -MAX_MICROS <= micros <= MAX_MICROS
}

// ---------------------------------------------------------------------------
// Rounding
// ---------------------------------------------------------------------------

/// The whole number nearest to `n / d`; of two equally near ones, the even one.
pub open spec fn nearest(n: nat, d: nat) -> nat
    recommends
        d > 0,
{
    let q = n / d;
    let rest = n % d;
    if 2 * rest < d || (2 * rest == d && q % 2 == 0) {
        q
    } else {
        q + 1
    }
}

/// The whole number nearest to `n / d`; of two equally near ones, the even one.
pub fn round_to_nearest(n: u128, d: u128) -> (r: u128)
    requires
        0 < d <= u128::MAX / 2,
        n < u128::MAX,
    ensures
        r == nearest(n as nat, d as nat),
{
    let q: u128 = n / d;
    let rest: u128 = n % d;
    assert(q <= n) by (nonlinear_arith)
        requires
            q == n / d,
            d > 0,
    ;
    if 2 * rest < d || (2 * rest == d && q % 2 == 0) {
        q
    } else {
        q + 1
    }
}

/// Rounding stays within whole bounds.
pub proof fn lemma_nearest_bounds(n: nat, d: nat, low: nat, high: nat)
    requires
        d > 0,
        low * d <= n <= high * d,
    ensures
        low <= nearest(n, d) <= high,
{
    let q = n / d;
    let rest = n % d;
    vstd::arithmetic::div_mod::lemma_fundamental_div_mod(n as int, d as int);
    assert(low <= q) by (nonlinear_arith)
        requires
            low * d <= n,
            n == d * q + rest,
            rest < d,
            d > 0,
    ;
    assert(q <= high) by (nonlinear_arith)
        requires
            n <= high * d,
            n == d * q + rest,
            0 <= rest,
            d > 0,
    ;
    if q == high {
        assert(rest == 0) by (nonlinear_arith)
            requires
                n <= high * d,
                n == d * q + rest,
                q == high,
                0 <= rest,
        ;
    }
}

// ---------------------------------------------------------------------------
// The plan for a clip
// ---------------------------------------------------------------------------

/// What happens to a clip so that it fills its time.
#[derive(Debug, Clone, Copy, PartialEq, Eq, Structural)]
pub enum ClipPlan {
    /// It fits as it is.
    Copy,
    /// Silence of this many microseconds is added.
    Pad { micros: i64 },
    /// It is played faster: twice as fast `doublings` times, and then by `thousandths`.
    Speed { doublings: u32, thousandths: u64 },
}

/// The length is within one per cent of the time to fill.
pub open spec fn nearly_fits(target: int, actual: int) -> bool {
    target > 0 && 100 * (actual - target) < target && 100 * (target - actual) < target
}

/// How often the speed doubles before at most a factor of two is left.
pub open spec fn doublings(target: int, actual: int) -> nat
    decreases actual - target,
{
    if 0 < target && 2 * target < actual {
        1 + doublings(2 * target, actual)
    } else {
        0
    }
}

/// The time that is left to fill when the speed was doubled `k` times.
pub open spec fn stretched(target: int, k: nat) -> int
    decreases k,
{
    if k == 0 {
        target
    } else {
        stretched(2 * target, (k - 1) as nat)
    }
}

/// The plan for a clip of `actual` microseconds that has `target` microseconds to fill: within one
/// per cent it stays as it is, a shorter one is padded, and a longer one is sped up, in steps of at
/// most two.
pub open spec fn clip_plan(target: int, actual: int) -> ClipPlan {
    if nearly_fits(target, actual) {
        ClipPlan::Copy
    } else if actual < target || target < 0 {
        ClipPlan::Pad { micros: (target - actual) as i64 }
    } else {
        let k = doublings(target, actual);
        ClipPlan::Speed {
            doublings: k as u32,
            thousandths: nearest((1000 * actual) as nat, stretched(target, k) as nat) as u64,
        }
    }
}

proof fn lemma_doublings(target: int, actual: int)
    requires
        0 < target < actual,
    ensures
        ({
            let k = doublings(target, actual);
            let left = stretched(target, k);
            &&& 0 < left
            &&& actual <= 2 * left
            &&& left < actual
            &&& k < actual
        }),
    decreases actual - target,
{
    if 2 * target < actual {
        lemma_doublings(2 * target, actual);
        lemma_doublings_shrink(2 * target, actual);
    }
}

proof fn lemma_doublings_shrink(target: int, actual: int)
    requires
        0 < target,
    ensures
        doublings(target, actual) <= if actual > target { actual - target } else { 0 },
    decreases actual - target,
{
    if 2 * target < actual {
        lemma_doublings_shrink(2 * target, actual);
    }
}

proof fn lemma_stretched_step(target: int, k: nat)
    ensures
        stretched(target, k + 1) == 2 * stretched(target, k),
    decreases k,
{
    reveal_with_fuel(stretched, 2);
    if k > 0 {
        lemma_stretched_step(2 * target, (k - 1) as nat);
    }
}

/// The plan for a clip.
pub fn plan_clip(target: i64, actual: i64) -> (r: ClipPlan)
    requires
        target != 0,
        length_in_range(target as int),
        0 < actual <= MAX_MICROS,
    ensures
        r == clip_plan(target as int, actual as int),
{
    let t: i128 = target as i128;
    let a: i128 = actual as i128;
    if t > 0 && 100 * (a - t) < t && 100 * (t - a) < t {
        return ClipPlan::Copy;
    }
    if actual < target || target < 0 {
        return ClipPlan::Pad { micros: target - actual };
    }
    proof {
        lemma_doublings(target as int, actual as int);
    }
    let mut left: u128 = target as u128;
    let mut k: u32 = 0;
    let whole: u128 = actual as u128;
    while 2 * left < whole
        invariant
            0 < target < actual <= MAX_MICROS,
            whole == actual,
            0 < left < whole,
            left == stretched(target as int, k as nat),
            doublings(target as int, actual as int) == k + doublings(left as int, actual as int),
            k < left,
        decreases whole - left,
    {
        proof {
            lemma_stretched_step(target as int, k as nat);
        }
        assert(k < 0xFFFF_FFFF) by {
            lemma_doublings_small(target as int, actual as int);
        }
        left = 2 * left;
        k += 1;
    }
    let th: u128 = round_to_nearest(1000 * whole, left);
    proof {
        lemma_nearest_bounds((1000 * whole) as nat, left as nat, 1000, 2000);
    }
    ClipPlan::Speed { doublings: k, thousandths: th as u64 }
}

proof fn lemma_doublings_small(target: int, actual: int)
    requires
        0 < target,
        actual <= MAX_MICROS,
    ensures
        doublings(target, actual) <= 62,
{
    reveal_with_fuel(stretched, 63);
    lemma_doublings_log(target, actual, 62);
}

proof fn lemma_doublings_log(target: int, actual: int, k: nat)
    requires
        0 < target,
        actual <= stretched(target, k),
    ensures
        doublings(target, actual) <= k,
    decreases k,
{
    if k > 0 && 2 * target < actual {
        lemma_doublings_log(2 * target, actual, (k - 1) as nat);
    }
}

// ---------------------------------------------------------------------------
// The second pass
// ---------------------------------------------------------------------------

/// A sped-up clip may be off by this many microseconds.
pub const CLIP_TOLERANCE: i64 = 50_000;

/// The tempo of a second pass over a sped-up clip, in thousandths: the clip's length over the time to
/// fill, so that the clip comes to fill it. There is one where the clip's
/// length is known, is off by more than the tolerance, and is off by a factor of two at most.
pub open spec fn correction(target: int, processed: Option<int>) -> Option<u64> {
    match processed {
        Some(p) => if (p - target > CLIP_TOLERANCE || target - p > CLIP_TOLERANCE) && 0 < p && p
            <= 2 * target && target <= 2 * p {
            Some(nearest((1000 * p) as nat, target as nat) as u64)
        } else {
            None
        },
        None => None,
    }
}

/// The tempo of a second pass over a sped-up clip.
pub fn plan_correction(target: i64, processed: Option<i64>) -> (r: Option<u64>)
    requires
        0 < target <= MAX_MICROS,
        processed matches Some(p) ==> length_in_range(p as int),
    ensures
        r == correction(
            target as int,
            match processed {
                Some(p) => Some(p as int),
                None => None,
            },
        ),
        r matches Some(t) ==> 500 <= t <= 2000,
{
    match processed {
        Some(p) => {
            if (p - target > CLIP_TOLERANCE || target - p > CLIP_TOLERANCE) && 0 < p && p <= 2
                * target && target <= 2 * p {
                proof {
                    lemma_nearest_bounds((1000 * p) as nat, target as nat, 500, 2000);
                }
                let t: u128 = round_to_nearest(1000 * (p as u128), target as u128);
                Some(t as u64)
            } else {
                None
            }
        },
        None => None,
    }
}

// ---------------------------------------------------------------------------
// Filters
// ---------------------------------------------------------------------------

/// An audio filter.
#[derive(Debug, Clone, Copy, PartialEq, Eq, Structural)]
pub enum Filter {
    /// Silence of this many microseconds at the end.
    Pad { micros: i64 },
    /// Twice as fast `doublings` times, and then by `thousandths`.
    Tempo { doublings: u32, thousandths: u64 },
}

/// Microseconds as seconds, rounded to three digits behind the point. What is below zero has a sign,
/// also where nothing else is left of it.
pub open spec fn seconds_text(micros: int) -> Seq<char> {
    if micros < 0 {
        seq!['-'] + fixed3(nearest((-micros) as nat, 1000) as int)
    } else {
        fixed3(nearest(micros as nat, 1000) as int)
    }
}

/// A chain of tempo filters.
pub open spec fn tempo_chain(doublings: nat, thousandths: int) -> Seq<char>
    decreases doublings,
{
    if doublings == 0 {
        "atempo="@ + fixed3(thousandths)
    } else {
        "atempo=2.000,"@ + tempo_chain((doublings - 1) as nat, thousandths)
    }
}

impl Filter {
    /// The filter as it is given to the tool.
    pub open spec fn spec_text(self) -> Seq<char> {
        match self {
            Filter::Pad { micros } => "apad=pad_dur="@ + seconds_text(micros as int),
            Filter::Tempo { doublings, thousandths } => tempo_chain(
                doublings as nat,
                thousandths as int,
            ),
        }
    }

    /// The filter as it is given to the tool.
    pub fn text(&self) -> (r: String)
        ensures
            r@ == self.spec_text(),
    {
        match self {
            Filter::Pad { micros } => {
                let mut r = "apad=pad_dur=".to_string();
                push_seconds(&mut r, *micros);
                r
            },
            Filter::Tempo { doublings, thousandths } => {
                let mut r = String::new();
                let mut left: u32 = *doublings;
                assert(r@ + tempo_chain(left as nat, *thousandths as int) =~= tempo_chain(
                    left as nat,
                    *thousandths as int,
                ));
                while left > 0
                    invariant
                        r@ + tempo_chain(left as nat, *thousandths as int) == tempo_chain(
                            *doublings as nat,
                            *thousandths as int,
                        ),
                    decreases left,
                {
                    assert(r@ + tempo_chain(left as nat, *thousandths as int) =~= (r@
                        + "atempo=2.000,"@) + tempo_chain((left - 1) as nat, *thousandths as int));
                    r.append("atempo=2.000,");
                    left -= 1;
                }
                let ghost head = r@;
                r.append("atempo=");
                push_fixed3_magnitude(&mut r, *thousandths);
                assert(r@ =~= head + tempo_chain(0, *thousandths as int));
                r
            },
        }
    }
}

/// Appends microseconds as seconds, rounded to three digits behind the point.
pub fn push_seconds(s: &mut String, micros: i64)
    ensures
        final(s)@ == old(s)@ + seconds_text(micros as int),
{
    let size: u64 = if micros < 0 {
        s.push('-');
        (-(micros as i128)) as u64
    } else {
        micros as u64
    };
    let millis: u128 = round_to_nearest(size as u128, 1000);
    proof {
        lemma_nearest_bounds(size as nat, 1000, 0, 18_446_744_073_709_552);
    }
    push_fixed3_magnitude(s, millis as u64);
    assert(s@ =~= old(s)@ + seconds_text(micros as int));
}

// ---------------------------------------------------------------------------
// Laws
// ---------------------------------------------------------------------------

/// A padded clip fills its time exactly.
pub proof fn law_padding_fills_the_time(target: int, actual: int)
    requires
        target != 0,
        length_in_range(target),
        0 < actual <= MAX_MICROS,
    ensures
        clip_plan(target, actual) matches ClipPlan::Pad { micros } ==> actual + micros == target,
{
}

/// Every tempo of a chain is one that the filter takes, and the chain as a whole has the speed that
/// is wanted: the doublings leave a factor between one and two, which the last tempo is, rounded.
pub proof fn law_tempo_chain_has_the_speed(target: int, actual: int)
    requires
        target != 0,
        length_in_range(target),
        0 < actual <= MAX_MICROS,
    ensures
        clip_plan(target, actual) matches ClipPlan::Speed { doublings: k, thousandths: t } ==> {
            let left = stretched(target, k as nat);
            &&& 0 < left < actual <= 2 * left
            &&& 1000 <= t <= 2000
            &&& t == nearest((1000 * actual) as nat, left as nat)
            &&& k <= 62
        },
{
    if clip_plan(target, actual) is Speed {
        lemma_doublings(target, actual);
        lemma_doublings_small(target, actual);
        let left = stretched(target, doublings(target, actual));
        lemma_nearest_bounds((1000 * actual) as nat, left as nat, 1000, 2000);
    }
}

/// Doubling the speed `k` times leaves `2^k` times the time to fill.
pub proof fn law_stretched_is_a_power_of_two(target: int, k: nat)
    ensures
        stretched(target, k) == target * vstd::arithmetic::power2::pow2(k),
    decreases k,
{
    if k == 0 {
        vstd::arithmetic::power2::lemma2_to64();
    } else {
        law_stretched_is_a_power_of_two(2 * target, (k - 1) as nat);
        vstd::arithmetic::power2::lemma_pow2_unfold(k);
        assert(2 * target * vstd::arithmetic::power2::pow2((k - 1) as nat) == target * (2
            * vstd::arithmetic::power2::pow2((k - 1) as nat))) by (nonlinear_arith);
    }
}

/// The distance of two numbers.
pub open spec fn distance(a: int, b: int) -> int {
    if a > b {
        a - b
    } else {
        b - a
    }
}

/// Rounding misses by half at most.
proof fn lemma_nearest_misses(n: nat, d: nat)
    requires
        d > 0,
    ensures
        2 * distance(n as int, (nearest(n, d) * d) as int) <= d,
{
    let q = (n / d) as int;
    let rest = (n % d) as int;
    vstd::arithmetic::div_mod::lemma_fundamental_div_mod(n as int, d as int);
    assert(q * d == d * q) by (nonlinear_arith);
    assert((q + 1) * d == d * q + d) by (nonlinear_arith);
}

/// A second pass brings a clip to its time: played with the tempo, a clip of `p` microseconds takes
/// `1000 p / tempo`, which misses the target by half a thousandth of the tempo at most. It lies
/// nearer than the clip did, unless the tempo rounds to one, or to 0.999 for a clip that is off by
/// less than a thousandth. Lengths are compared as multiples of the tempo.
pub proof fn law_second_pass_comes_nearer(target: int, p: int)
    requires
        0 < target <= MAX_MICROS,
        length_in_range(p),
    ensures
        correction(target, Some(p)) matches Some(t) ==> {
            &&& 500 <= t <= 2000
            &&& 2 * distance(1000 * p, target * t) <= target
            &&& t != 1000 && (t != 999 || 1000 * p <= 999 * target) ==> distance(
                1000 * p,
                target * t,
            ) < distance(p, target) * t
        },
{
    if correction(target, Some(p)) is Some {
        let t = nearest((1000 * p) as nat, target as nat) as int;
        lemma_nearest_bounds((1000 * p) as nat, target as nat, 500, 2000);
        lemma_nearest_misses((1000 * p) as nat, target as nat);
        assert(t * target == target * t) by (nonlinear_arith);
        let miss = distance(1000 * p, target * t);
        let off = distance(p, target);
        assert(2 * miss <= target);
        if t > 1000 {
            assert(target * t >= 1001 * target) by (nonlinear_arith)
                requires
                    t >= 1001,
                    target > 0,
            ;
            assert(1000 * p - 1000 * target >= target - miss);
            assert(2000 * off >= target);
            assert(off * t >= 1001 * off) by (nonlinear_arith)
                requires
                    t >= 1001,
                    off >= 0,
            ;
        } else if t < 999 {
            assert(target * t <= 998 * target) by (nonlinear_arith)
                requires
                    t <= 998,
                    target > 0,
            ;
            assert(1000 * target - 1000 * p >= 2 * target - miss);
            assert(2000 * off >= 3 * target);
            assert(off * t >= 500 * off) by (nonlinear_arith)
                requires
                    t >= 500,
                    off >= 0,
            ;
        } else if t == 999 && 1000 * p <= 999 * target {
            assert(off * t == 999 * off) by (nonlinear_arith)
                requires
                    t == 999,
            ;
            assert(target * t == 999 * target) by (nonlinear_arith)
                requires
                    t == 999,
            ;
            assert(1000 * off >= target);
        }
    }
}

/// Rounding misses by half at most, and where it misses by half the result is even.
pub proof fn law_rounding_is_nearest(n: nat, d: nat)
    requires
        d > 0,
    ensures
        2 * distance(n as int, (nearest(n, d) * d) as int) <= d,
        2 * distance(n as int, (nearest(n, d) * d) as int) == d ==> nearest(n, d) % 2 == 0,
{
    let q = (n / d) as int;
    lemma_nearest_misses(n, d);
    vstd::arithmetic::div_mod::lemma_fundamental_div_mod(n as int, d as int);
    assert(q * d == d * q) by (nonlinear_arith);
    assert((q + 1) * d == d * q + d) by (nonlinear_arith);
}

/// A clip is left as it is exactly if it misses its time by less than one per cent of it. Otherwise
/// silence is added to one that is shorter, and one that is longer is played faster. A time that ends
/// before it starts counts as one that is longer than any clip.
pub proof fn law_a_clip_is_left_only_if_it_fits(target: int, actual: int)
    requires
        target != 0,
        length_in_range(target),
        0 < actual <= MAX_MICROS,
    ensures
        clip_plan(target, actual) is Copy <==> 100 * distance(actual, target) < target,
        clip_plan(target, actual) is Pad <==> target < 0 || (actual < target && 100 * distance(
            actual,
            target,
        ) >= target),
        clip_plan(target, actual) is Speed <==> 0 < target < actual && 100 * distance(
            actual,
            target,
        ) >= target,
{
}

/// A clip that is played faster comes to fill its time: `2^k` and the last tempo `t`, in thousandths,
/// make up the clip's length over the time to fill, with the tempo rounded; and no tempo of the chain
/// is above two.
pub proof fn law_a_faster_clip_fills_its_time(target: int, actual: int)
    requires
        target != 0,
        length_in_range(target),
        0 < actual <= MAX_MICROS,
    ensures
        clip_plan(target, actual) matches ClipPlan::Speed { doublings: k, thousandths: t } ==> {
            let left = target * pow2(k as nat);
            &&& left < actual <= 2 * left
            &&& 1000 <= t <= 2000
            &&& 2 * distance(1000 * actual, t * left) <= left
        },
{
    if let ClipPlan::Speed { doublings: k, thousandths: t } = clip_plan(target, actual) {
        law_tempo_chain_has_the_speed(target, actual);
        law_stretched_is_a_power_of_two(target, k as nat);
        lemma_doublings_small(target, actual);
        lemma_nearest_misses((1000 * actual) as nat, stretched(target, k as nat) as nat);
    }
}

/// There is a second pass exactly if the length after the first one is known, misses the time by more
/// than fifty milliseconds, and is neither less than half of it nor more than twice as long.
pub proof fn law_when_there_is_a_second_pass(target: int, processed: Option<int>)
    requires
        0 < target <= MAX_MICROS,
    ensures
        correction(target, processed) is Some <==> {
            &&& processed is Some
            &&& distance(processed->0, target) > 50_000
            &&& target <= 2 * processed->0 <= 4 * target
        },
        correction(target, processed) matches Some(t) ==> t == nearest(
            (1000 * processed->0) as nat,
            target as nat,
        ),
{
    if let Some(p) = processed {
        if target <= 2 * p <= 4 * target {
            lemma_nearest_bounds((1000 * p) as nat, target as nat, 500, 2000);
        }
    }
}

/// A length in seconds is written with three digits behind the point, with a sign exactly if it lies
/// below zero, and what is read back misses it by half a millisecond at most.
pub proof fn law_seconds_are_rounded(micros: int)
    ensures
        ({
            let s = seconds_text(micros);
            let m = if micros < 0 {
                s.drop_first()
            } else {
                s
            };
            &&& 2 * distance(1000 * units(s, 3), micros) <= 1000
            &&& m == fixed3(nearest(distance(micros, 0) as nat, 1000) as int)
            &&& s.len() > 0 && (s[0] == '-' <==> micros < 0)
            &&& well_formed(m)
            &&& fraction_part(m).len() == 3
        }),
{
    let size = (if micros < 0 {
        -micros
    } else {
        micros
    }) as nat;
    let v = nearest(size, 1000);
    lemma_nearest_misses(size, 1000);
    law_thousandths_are_read_back(v as int);
    if micros < 0 {
        assert(seconds_text(micros).drop_first() =~= fixed3(v as int));
    }
}

/// The filter that is written is the one that is meant. Padding has its length. A tempo has three
/// digits behind its point and gives its thousandths back, and every doubling stands before it as a
/// tempo of two.
pub proof fn law_filters_are_written(micros: i64, k: u32, t: u64)
    ensures
        (Filter::Pad { micros }).spec_text() == "apad=pad_dur="@ + seconds_text(micros as int),
        ({
            let s = (Filter::Tempo { doublings: 0, thousandths: t }).spec_text();
            let numeral = s.skip("atempo="@.len() as int);
            &&& s == "atempo="@ + numeral
            &&& units(numeral, 3) == t
            &&& well_formed(numeral)
            &&& fraction_part(numeral).len() == 3
        }),
        k > 0 ==> (Filter::Tempo { doublings: k, thousandths: t }).spec_text() == "atempo=2.000,"@ + (
        Filter::Tempo { doublings: (k - 1) as u32, thousandths: t }).spec_text(),
{
    let s = (Filter::Tempo { doublings: 0, thousandths: t }).spec_text();
    assert(s.skip("atempo="@.len() as int) =~= fixed3(t as int));
    law_thousandths_are_read_back(t as int);
}

} // verus!
