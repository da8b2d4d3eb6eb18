use vstd::prelude::*;
use vstd::arithmetic::div_mod::{lemma_fundamental_div_mod, lemma_mod_division_less_than_divisor};
use vstd::string::{StringExecFns, StringSliceAdditionalSpecFns};

use crate::op_sequence::{Entry, OpSequence};
use crate::units::{
    clamp_to, div_floor_i128, scaled_offset, scaled_position, BeatFraction, SampleOffset,
    SamplePosition, SampleScale,
};

verus! {

/// Fixed-point playback speed in thousandths of the nominal rate.
///
/// The speed-ramp operation is a documented stub: it contributes no
/// transform, and its endpoints are carried only as data.
#[derive(Clone, Copy, Debug, PartialEq, Eq, Hash, Structural)]
pub struct Speed {
    pub thousandths: i32,
}

/// One playback manipulation. Operations are pure descriptions: they carry
/// no mutable state, and two `Repeat` or `Jump` operations are the same
/// trigger exactly when their parameter values are equal.
#[derive(Clone, Copy, Debug, PartialEq, Eq, Structural)]
pub enum Operation {
    NoOp,
    Reverse,
    Repeat { loop_size: BeatFraction },
    Jump { offset: BeatFraction },
    SpeedRamp { start_speed: Speed, end_speed: Speed },
}

/// The signed sample delta an operation contributes to the play clock,
/// for a clock `play_clock >= op_start`.
///
/// - `NoOp` and `SpeedRamp` contribute nothing.
/// - `Jump` contributes its offset in samples, independent of the clock.
/// - `Reverse` contributes `-2 * elapsed`, mirroring time around the start.
/// - `Repeat` pulls the clock back by a whole number of inner-loop lengths,
///   into `[op_start, op_start + loop_size)`; a loop size that scales to
///   zero samples is treated defensively as no transform.
///
/// Every arm is clamped into the `SampleOffset` range, so the delta is
/// defined for all clocks rather than trapping on extreme values.
pub open spec fn transform_delta(
    op: Operation,
    scale: SampleScale,
    play_clock: int,
    op_start: int,
) -> int {
    match op {
        Operation::NoOp => 0,
        Operation::SpeedRamp { .. } => 0,
        Operation::Jump { offset } => scaled_offset(offset.value as int, scale),
        Operation::Reverse => clamp_to(
            -2 * (play_clock - op_start),
            isize::MIN as int,
            isize::MAX as int,
        ),
        Operation::Repeat { loop_size } => {
            let inner = scaled_position(loop_size.value as int, scale);
            if inner <= 0 {
                0
            } else {
                clamp_to(
                    -(((play_clock - op_start) / inner) * inner),
                    isize::MIN as int,
                    isize::MAX as int,
                )
            }
        },
    }
}

/// The delta that `op`, begun at `op_start`, applies to `play_clock`.
pub fn get_transform(
    op: Operation,
    scale: SampleScale,
    play_clock: SamplePosition,
    op_start: SamplePosition,
    _loop_length: SamplePosition,
) -> (r: SampleOffset)
    requires
        scale.valid(),
        op_start <= play_clock,
    ensures
        r as int == transform_delta(op, scale, play_clock as int, op_start as int),
{
    match op {
        Operation::NoOp => 0,
        Operation::SpeedRamp { .. } => 0,
        Operation::Jump { offset } => offset.as_sample_offset(scale),
        Operation::Reverse => {
            let elapsed = play_clock - op_start;
            let e = elapsed as i128;
            clamp_to_isize(-(e + e))
        },
        Operation::Repeat { loop_size } => {
            let inner = loop_size.as_sample_position(scale);
            if inner == 0 {
                0
            } else {
                let elapsed = play_clock - op_start;
                let cycles = elapsed / inner;
                proof {
                    lemma_fundamental_div_mod(elapsed as int, inner as int);
                    assert((inner as int) * ((elapsed as int) / (inner as int)) == ((
                    elapsed as int) / (inner as int)) * (inner as int)) by (nonlinear_arith);
                }
                let pulled_back = cycles * inner;
                clamp_to_isize(-(pulled_back as i128))
            }
        },
    }
}

/// Reverse is a time-mirror around the trigger point: as long as the
/// elapsed time keeps the delta inside the offset range, the transformed
/// clock is `op_start - elapsed`, so play runs backward from the start at
/// the rate it would have run forward.
pub proof fn lemma_reverse_mirrors_time(
    scale: SampleScale,
    play_clock: int,
    op_start: int,
)
    requires
        op_start <= play_clock,
        2 * (play_clock - op_start) <= isize::MAX,
    ensures
        play_clock + transform_delta(Operation::Reverse, scale, play_clock, op_start) == op_start
            - (play_clock - op_start),
{
}

/// Repeat pulls the clock back into the inner window: as long as the
/// loop size scales to a positive sample count and the delta stays inside
/// the offset range, the transformed clock lies in
/// `[op_start, op_start + loop_size_samples)`.
pub proof fn lemma_repeat_pulls_into_window(
    loop_size: BeatFraction,
    scale: SampleScale,
    play_clock: int,
    op_start: int,
)
    requires
        op_start <= play_clock,
        play_clock - op_start <= isize::MAX,
        scaled_position(loop_size.value as int, scale) > 0,
    ensures
        ({
            let inner = scaled_position(loop_size.value as int, scale);
            let landed = play_clock + transform_delta(
                Operation::Repeat { loop_size },
                scale,
                play_clock,
                op_start,
            );
            op_start <= landed < op_start + inner
        }),
{
    let inner = scaled_position(loop_size.value as int, scale);
    let elapsed = play_clock - op_start;
    lemma_fundamental_div_mod(elapsed, inner);
    lemma_mod_division_less_than_divisor(elapsed, inner);
    assert(0 <= (elapsed / inner) * inner <= elapsed) by (nonlinear_arith)
        requires
            elapsed >= 0,
            inner > 0,
            elapsed == inner * (elapsed / inner) + elapsed % inner,
            0 <= elapsed % inner < inner,
    ;
    assert(elapsed - (elapsed / inner) * inner == elapsed % inner) by (nonlinear_arith)
        requires
            elapsed == inner * (elapsed / inner) + elapsed % inner,
    ;
}

/// An ASCII whitespace byte, as the line format's token separator.
pub open spec fn is_ws(b: u8) -> bool {
    b == 0x20 || b == 0x09 || b == 0x0a || b == 0x0d || b == 0x0c
}

/// The length of the token at the front of `s`: the run of non-separator
/// bytes before the first separator.
pub open spec fn first_token_len(s: Seq<u8>) -> int
    decreases s.len(),
{
    if s.len() == 0 || is_ws(s[0]) {
        0
    } else {
        1 + first_token_len(s.drop_first())
    }
}

/// The front token is never longer than the sequence, and is non-empty
/// exactly when the sequence opens with a non-separator byte.
pub proof fn lemma_first_token_len_bounds(s: Seq<u8>)
    ensures
        0 <= first_token_len(s) <= s.len(),
        s.len() > 0 && !is_ws(s[0]) ==> 1 <= first_token_len(s),
    decreases s.len(),
{
    if s.len() > 0 && !is_ws(s[0]) {
        lemma_first_token_len_bounds(s.drop_first());
    }
}

/// `s` split at ASCII whitespace into its tokens, in order, separators
/// dropped.
pub open spec fn spec_tokens(s: Seq<u8>) -> Seq<Seq<u8>>
    decreases s.len(),
    via spec_tokens_decreases
{
    if s.len() == 0 {
        Seq::<Seq<u8>>::empty()
    } else if is_ws(s[0]) {
        spec_tokens(s.drop_first())
    } else {
        seq![s.take(first_token_len(s))] + spec_tokens(s.skip(first_token_len(s)))
    }
}

#[via_fn]
proof fn spec_tokens_decreases(s: Seq<u8>) {
    lemma_first_token_len_bounds(s);
}

/// A run of `n` non-separator bytes ended by a separator or the end of
/// the sequence is exactly the front token.
proof fn lemma_first_token_len(t: Seq<u8>, n: int)
    requires
        0 <= n <= t.len(),
        forall|k: int| 0 <= k < n ==> !is_ws(#[trigger] t[k]),
        n == t.len() || is_ws(t[n]),
    ensures
        first_token_len(t) == n,
    decreases n,
{
    if n == 0 {
    } else {
        assert(!is_ws(t[0]));
        let rest = t.drop_first();
        assert(forall|k: int| 0 <= k < n - 1 ==> !is_ws(#[trigger] rest[k]));
        lemma_first_token_len(rest, n - 1);
    }
}

/// Split a line into its whitespace-separated tokens.
fn tokenize(bytes: &[u8]) -> (tokens: Vec<Vec<u8>>)
    ensures
        tokens@.map_values(|t: Vec<u8>| t@) == spec_tokens(bytes@),
{
    let n = bytes.len();
    let mut tokens: Vec<Vec<u8>> = Vec::new();
    let mut i: usize = 0;
    proof {
        assert(bytes@.skip(0) =~= bytes@);
        assert(tokens@.map_values(|t: Vec<u8>| t@) =~= Seq::<Seq<u8>>::empty());
        assert(Seq::<Seq<u8>>::empty() + spec_tokens(bytes@) =~= spec_tokens(bytes@));
    }
    while i < n
        invariant
            i <= n,
            n == bytes@.len(),
            tokens@.map_values(|t: Vec<u8>| t@) + spec_tokens(bytes@.skip(i as int))
                == spec_tokens(bytes@),
        decreases n - i,
    {
        let ghost pre_tokens = tokens@.map_values(|t: Vec<u8>| t@);
        let b = bytes[i];
        if is_ws_byte(b) {
            proof {
                assert(bytes@.skip(i as int).drop_first() =~= bytes@.skip(i + 1));
            }
            i += 1;
        } else {
            let mut j = i + 1;
            while j < n
                invariant_except_break
                    i < j <= n,
                    n == bytes@.len(),
                    forall|k: int| i <= k < j ==> !is_ws(#[trigger] bytes@[k]),
                ensures
                    i < j <= n,
                    n == bytes@.len(),
                    forall|k: int| i <= k < j ==> !is_ws(#[trigger] bytes@[k]),
                    j == n || is_ws(bytes@[j as int]),
                decreases n - j,
            {
                if is_ws_byte(bytes[j]) {
                    break ;
                }
                j += 1;
            }
            let mut token: Vec<u8> = Vec::new();
            let mut k = i;
            while k < j
                invariant
                    i <= k <= j <= n,
                    n == bytes@.len(),
                    token@ == bytes@.subrange(i as int, k as int),
                decreases j - k,
            {
                token.push(bytes[k]);
                proof {
                    assert(bytes@.subrange(i as int, k + 1) =~= bytes@.subrange(
                        i as int,
                        k as int,
                    ).push(bytes@[k as int]));
                }
                k += 1;
            }
            proof {
                let tail = bytes@.skip(i as int);
                assert(forall|p: int| 0 <= p < j - i ==> !is_ws(#[trigger] tail[p]));
                if j < n {
                    assert(is_ws(tail[j - i]));
                }
                lemma_first_token_len(tail, j - i);
                assert(tail.take(j - i) =~= bytes@.subrange(i as int, j as int));
                assert(tail.skip(j - i) =~= bytes@.skip(j as int));
                assert(pre_tokens.push(token@) + spec_tokens(bytes@.skip(j as int))
                    =~= pre_tokens + spec_tokens(tail));
            }
            tokens.push(token);
            proof {
                assert(tokens@.map_values(|t: Vec<u8>| t@) =~= pre_tokens.push(
                    bytes@.subrange(i as int, j as int),
                ));
            }
            i = j;
        }
    }
    proof {
        assert(bytes@.skip(n as int) =~= Seq::<u8>::empty());
        assert(tokens@.map_values(|t: Vec<u8>| t@) + Seq::<Seq<u8>>::empty() =~= tokens@.map_values(
            |t: Vec<u8>| t@,
        ));
    }
    tokens
}

/// Whether `b` separates tokens.
fn is_ws_byte(b: u8) -> (r: bool)
    ensures
        r == is_ws(b),
{
    b == 0x20 || b == 0x09 || b == 0x0a || b == 0x0d || b == 0x0c
}

/// A decimal digit byte.
pub open spec fn is_digit(b: u8) -> bool {
    0x30 <= b <= 0x39
}

/// Every byte of `s` is a decimal digit.
pub open spec fn all_digits(s: Seq<u8>) -> bool {
    forall|i: int| 0 <= i < s.len() ==> is_digit(#[trigger] s[i])
}

/// The value of a digit string read in base ten.
pub open spec fn digits_value(s: Seq<u8>) -> int
    decreases s.len(),
{
    if s.len() == 0 {
        0
    } else {
        digits_value(s.drop_last()) * 10 + (s.last() - 0x30)
    }
}

/// Ten to the `k`-th power.
pub open spec fn pow10(k: int) -> int
    decreases k,
{
    if k <= 0 {
        1
    } else {
        10 * pow10(k - 1)
    }
}

proof fn lemma_pow10_concrete()
    ensures
        pow10(9) == 1_000_000_000,
        pow10(18) == 1_000_000_000_000_000_000,
        pow10(27) == 1_000_000_000_000_000_000_000_000_000,
{
    reveal_with_fuel(pow10, 28);
}

proof fn lemma_pow10_mono(a: int, b: int)
    requires
        a <= b,
    ensures
        1 <= pow10(a) <= pow10(b),
    decreases b,
{
    if b > 0 {
        if a == b {
            lemma_pow10_mono(a - 1, b - 1);
        } else {
            lemma_pow10_mono(a, b - 1);
        }
    }
}

/// A digit string's value is below ten to its length.
proof fn lemma_digits_value_bound(s: Seq<u8>)
    requires
        all_digits(s),
    ensures
        0 <= digits_value(s) < pow10(s.len() as int),
    decreases s.len(),
{
    if s.len() > 0 {
        assert(all_digits(s.drop_last()));
        lemma_digits_value_bound(s.drop_last());
    }
}

/// The position of the first `.` in `s`, or its length when none occurs.
pub open spec fn dot_index(s: Seq<u8>) -> int
    decreases s.len(),
{
    if s.len() == 0 {
        0
    } else if s[0] == 0x2e {
        0
    } else {
        1 + dot_index(s.drop_first())
    }
}

/// A position `m` with no dot before it, and a dot (or the end) at it,
/// is exactly the first dot position.
proof fn lemma_dot_index(s: Seq<u8>, m: int)
    requires
        0 <= m <= s.len(),
        forall|k: int| 0 <= k < m ==> #[trigger] s[k] != 0x2e,
        m == s.len() || s[m] == 0x2e,
    ensures
        dot_index(s) == m,
    decreases m,
{
    if m > 0 {
        let rest = s.drop_first();
        assert(forall|k: int| 0 <= k < m - 1 ==> #[trigger] rest[k] != 0x2e);
        lemma_dot_index(rest, m - 1);
    }
}

/// Whether a number token opens with a minus sign.
pub open spec fn number_negative(t: Seq<u8>) -> bool {
    t.len() > 0 && t[0] == 0x2d
}

/// The token after its optional minus sign.
pub open spec fn number_body(t: Seq<u8>) -> Seq<u8> {
    if number_negative(t) {
        t.drop_first()
    } else {
        t
    }
}

/// The digits before the first dot.
pub open spec fn int_digits(t: Seq<u8>) -> Seq<u8> {
    number_body(t).take(dot_index(number_body(t)))
}

/// The digits after the first dot; empty when there is no dot.
pub open spec fn frac_digits(t: Seq<u8>) -> Seq<u8> {
    let body = number_body(t);
    if dot_index(body) < body.len() {
        body.skip(dot_index(body) + 1)
    } else {
        Seq::<u8>::empty()
    }
}

/// A well-formed decimal number token: an optional minus sign, then
/// digits with at most one dot among them — at least one digit in all,
/// at most eighteen integer digits and nine fraction digits.
pub open spec fn number_ok(t: Seq<u8>) -> bool {
    &&& all_digits(int_digits(t))
    &&& all_digits(frac_digits(t))
    &&& int_digits(t).len() + frac_digits(t).len() >= 1
    &&& int_digits(t).len() <= 18
    &&& frac_digits(t).len() <= 9
}

/// The token's exact value is the fraction `number_num / number_den`.
pub open spec fn number_num(t: Seq<u8>) -> int {
    let magnitude = digits_value(int_digits(t)) * pow10(frac_digits(t).len() as int)
        + digits_value(frac_digits(t));
    if number_negative(t) {
        -magnitude
    } else {
        magnitude
    }
}

/// The denominator of the token's value: ten to the number of fraction
/// digits.
pub open spec fn number_den(t: Seq<u8>) -> int {
    pow10(frac_digits(t).len() as int)
}

/// Bounds every caller of the parsed value relies on.
proof fn lemma_number_bounds(t: Seq<u8>)
    requires
        number_ok(t),
    ensures
        -pow10(27) < number_num(t) < pow10(27),
        1 <= number_den(t) <= pow10(9),
        pow10(9) == 1_000_000_000,
        pow10(27) == 1_000_000_000_000_000_000_000_000_000,
{
    lemma_pow10_concrete();
    lemma_digits_value_bound(int_digits(t));
    lemma_digits_value_bound(frac_digits(t));
    lemma_pow10_mono(int_digits(t).len() as int, 18);
    lemma_pow10_mono(frac_digits(t).len() as int, 9);
    assert(digits_value(int_digits(t)) * pow10(frac_digits(t).len() as int) + digits_value(
        frac_digits(t),
    ) < pow10(18) * pow10(9)) by (nonlinear_arith)
        requires
            0 <= digits_value(int_digits(t)) < pow10(18),
            0 <= digits_value(frac_digits(t)) < pow10(frac_digits(t).len() as int),
            1 <= pow10(frac_digits(t).len() as int) <= pow10(9),
            pow10(18) >= 1,
            pow10(9) >= 1,
    ;
    assert(pow10(18) * pow10(9) == pow10(27)) by {
        lemma_pow10_concrete();
        reveal_with_fuel(pow10, 28);
    };
}

/// Whether `b` is a decimal digit.
fn is_digit_byte(b: u8) -> (r: bool)
    ensures
        r == is_digit(b),
{
    0x30 <= b && b <= 0x39
}

/// Ten to the `k`-th power, for small `k`.
fn pow10_u64(k: usize) -> (r: u64)
    requires
        k <= 9,
    ensures
        r as int == pow10(k as int),
{
    proof {
        lemma_pow10_concrete();
    }
    let mut p: u64 = 1;
    let mut i: usize = 0;
    while i < k
        invariant
            i <= k <= 9,
            p as int == pow10(i as int),
        decreases k - i,
    {
        proof {
            lemma_pow10_mono(i as int + 1, 9);
            lemma_pow10_concrete();
        }
        p = p * 10;
        i += 1;
    }
    p
}

/// Parse a decimal number token into its exact rational value
/// `num / den`, or `None` when the token is not a well-formed number.
fn parse_number(token: &[u8]) -> (r: Option<(i128, u64)>)
    ensures
        r is Some <==> number_ok(token@),
        r matches Some(p) ==> p.0 as int == number_num(token@) && p.1 as int == number_den(
            token@,
        ) && p.1 > 0,
{
    let n = token.len();
    let negative = n > 0 && token[0] == 0x2d;
    let body_start: usize = if negative {
        1
    } else {
        0
    };
    let ghost body = number_body(token@);
    proof {
        assert(body =~= token@.skip(body_start as int));
    }

    // Find the first dot inside the body.
    let mut dotpos = body_start;
    while dotpos < n
        invariant_except_break
            body_start <= dotpos <= n,
            n == token@.len(),
            forall|k: int| body_start <= k < dotpos ==> #[trigger] token@[k] != 0x2e,
        ensures
            body_start <= dotpos <= n,
            n == token@.len(),
            forall|k: int| body_start <= k < dotpos ==> #[trigger] token@[k] != 0x2e,
            dotpos == n || token@[dotpos as int] == 0x2e,
        decreases n - dotpos,
    {
        if token[dotpos] == 0x2e {
            break ;
        }
        dotpos += 1;
    }
    proof {
        assert(forall|k: int| 0 <= k < dotpos - body_start ==> #[trigger] body[k] != 0x2e);
        lemma_dot_index(body, dotpos - body_start);
        assert(int_digits(token@) =~= token@.subrange(body_start as int, dotpos as int));
        if dotpos < n {
            assert(frac_digits(token@) =~= token@.subrange(dotpos + 1, n as int));
        } else {
            assert(frac_digits(token@) =~= Seq::<u8>::empty());
        }
    }

    let int_len = dotpos - body_start;
    if int_len > 18 {
        return None;
    }

    // Integer digits.
    let mut ival: u64 = 0;
    let mut k = body_start;
    while k < dotpos
        invariant
            body_start <= k <= dotpos <= n,
            n == token@.len(),
            dotpos - body_start <= 18,
            int_digits(token@) == token@.subrange(body_start as int, dotpos as int),
            all_digits(token@.subrange(body_start as int, k as int)),
            ival as int == digits_value(token@.subrange(body_start as int, k as int)),
            (ival as int) < pow10(k - body_start),
        decreases dotpos - k,
    {
        let b = token[k];
        if !is_digit_byte(b) {
            assert(!is_digit(int_digits(token@)[k - body_start]));
            assert(!all_digits(int_digits(token@)));
            return None;
        }
        proof {
            lemma_pow10_mono(k - body_start, 17);
            lemma_pow10_concrete();
            reveal_with_fuel(pow10, 28);
            assert(token@.subrange(body_start as int, k + 1).drop_last() =~= token@.subrange(
                body_start as int,
                k as int,
            ));
            assert(all_digits(token@.subrange(body_start as int, k + 1)));
        }
        ival = ival * 10 + ((b - 0x30) as u64);
        k += 1;
    }

    // Fraction digits.
    let frac_len = if dotpos < n {
        n - dotpos - 1
    } else {
        0
    };
    if frac_len > 9 {
        return None;
    }
    if int_len == 0 && frac_len == 0 {
        return None;
    }
    let mut fval: u64 = 0;
    if dotpos < n {
        let mut k2 = dotpos + 1;
        while k2 < n
            invariant
                dotpos + 1 <= k2 <= n,
                n == token@.len(),
                n - dotpos - 1 <= 9,
                frac_digits(token@) == token@.subrange(dotpos + 1, n as int),
                all_digits(token@.subrange(dotpos + 1, k2 as int)),
                fval as int == digits_value(token@.subrange(dotpos + 1, k2 as int)),
                (fval as int) < pow10(k2 - dotpos - 1),
            decreases n - k2,
        {
            let b = token[k2];
            if !is_digit_byte(b) {
                assert(!is_digit(frac_digits(token@)[k2 - dotpos - 1]));
                assert(!all_digits(frac_digits(token@)));
                return None;
            }
            proof {
                lemma_pow10_mono(k2 - dotpos - 1, 8);
                lemma_pow10_concrete();
                reveal_with_fuel(pow10, 28);
                assert(token@.subrange(dotpos + 1, k2 + 1).drop_last() =~= token@.subrange(
                    dotpos + 1,
                    k2 as int,
                ));
                assert(all_digits(token@.subrange(dotpos + 1, k2 + 1)));
            }
            fval = fval * 10 + ((b - 0x30) as u64);
            k2 += 1;
        }
        proof {
            assert(token@.subrange(dotpos + 1, n as int) =~= frac_digits(token@));
        }
    }
    proof {
        assert(token@.subrange(body_start as int, dotpos as int) =~= int_digits(token@));
        assert(number_ok(token@));
        lemma_number_bounds(token@);
    }

    let den = pow10_u64(frac_len);
    let magnitude = (ival as u128) * (den as u128) + (fval as u128);
    proof {
        lemma_pow10_concrete();
        lemma_pow10_mono(dotpos - body_start, 18);
        lemma_pow10_mono(0, frac_len as int);
        lemma_pow10_mono(frac_len as int, 9);
        assert((ival as u128) * (den as u128) < 1_000_000_000_000_000_000u128
            * 1_000_000_000u128) by (nonlinear_arith)
            requires
                (ival as u128) < 1_000_000_000_000_000_000u128,
                0 < (den as u128) <= 1_000_000_000u128,
        ;
    }
    let num = if negative {
        -(magnitude as i128)
    } else {
        magnitude as i128
    };
    Some((num, den))
}

/// `x` saturated into the `isize` range.
fn clamp_to_isize(x: i128) -> (r: isize)
    ensures
        r as int == clamp_to(x as int, isize::MIN as int, isize::MAX as int),
{
    if x < isize::MIN as i128 {
        isize::MIN
    } else if x > isize::MAX as i128 {
        isize::MAX
    } else {
        x as isize
    }
}

/// Whether two byte slices hold the same bytes.
pub(crate) fn bytes_eq(a: &[u8], b: &[u8]) -> (r: bool)
    ensures
        r == (a@ == b@),
{
    let n = a.len();
    if n != b.len() {
        return false;
    }
    let mut i: usize = 0;
    while i < n
        invariant
            i <= n,
            n == a@.len() == b@.len(),
            forall|k: int| 0 <= k < i ==> a@[k] == b@[k],
        decreases n - i,
    {
        if a[i] != b[i] {
            return false;
        }
        i += 1;
    }
    proof {
        assert(a@ =~= b@);
    }
    true
}

/// A number token's value in nanoseconds, read as seconds: exact, since
/// a well-formed token has at most nine fraction digits.
pub open spec fn token_nanos(t: Seq<u8>) -> int {
    number_num(t) * 1_000_000_000 / number_den(t)
}

/// A time field is usable when it is a well-formed number whose value in
/// nanoseconds fits a signed 64-bit count.
pub open spec fn time_token_ok(t: Seq<u8>) -> bool {
    &&& number_ok(t)
    &&& i64::MIN <= token_nanos(t) <= i64::MAX
}

/// A number token read as beats and quantised to sixteenths of a beat:
/// `floor(value * 16)`, saturating at the ends of the parameter range.
pub open spec fn token_sixteenths(t: Seq<u8>) -> int {
    clamp_to(number_num(t) * 16 / number_den(t), i32::MIN as int, i32::MAX as int)
}

/// A number token quantised to thousandths: `floor(value * 1000)`,
/// saturating at the ends of the parameter range.
pub open spec fn token_thousandths(t: Seq<u8>) -> int {
    clamp_to(number_num(t) * 1000 / number_den(t), i32::MIN as int, i32::MAX as int)
}

/// The meaning of one line of the operation file format,
/// `<kind> <start_seconds> <duration_seconds> [<param>...]`:
/// `None` for a malformed line, otherwise the start and duration in
/// nanoseconds together with the operation. Tokens past those a kind
/// needs are ignored.
pub open spec fn spec_parse_line(s: Seq<u8>) -> Option<(int, int, Operation)> {
    let toks = spec_tokens(s);
    if toks.len() < 3 {
        None
    } else if !(time_token_ok(toks[1]) && time_token_ok(toks[2])) {
        None
    } else {
        let start = token_nanos(toks[1]);
        let duration = token_nanos(toks[2]);
        if toks[0] == ("reverse").spec_bytes() {
            Some((start, duration, Operation::Reverse))
        } else if toks[0] == ("jump").spec_bytes() {
            if toks.len() >= 4 && number_ok(toks[3]) {
                Some(
                    (
                        start,
                        duration,
                        Operation::Jump {
                            offset: BeatFraction { value: token_sixteenths(toks[3]) as i32 },
                        },
                    ),
                )
            } else {
                None
            }
        } else if toks[0] == ("repeat").spec_bytes() {
            if toks.len() >= 4 && number_ok(toks[3]) {
                Some(
                    (
                        start,
                        duration,
                        Operation::Repeat {
                            loop_size: BeatFraction { value: token_sixteenths(toks[3]) as i32 },
                        },
                    ),
                )
            } else {
                None
            }
        } else if toks[0] == ("speed-ramp").spec_bytes() {
            if toks.len() >= 5 && number_ok(toks[3]) && number_ok(toks[4]) {
                Some(
                    (
                        start,
                        duration,
                        Operation::SpeedRamp {
                            start_speed: Speed { thousandths: token_thousandths(toks[3]) as i32 },
                            end_speed: Speed { thousandths: token_thousandths(toks[4]) as i32 },
                        },
                    ),
                )
            } else {
                None
            }
        } else {
            None
        }
    }
}

/// A malformed operation line, described for the caller.
#[derive(Debug)]
pub struct ParseError {
    pub message: String,
}

/// A time field in nanoseconds, or `None` when the token is not a number
/// or does not fit.
fn parse_time_token(token: &Vec<u8>) -> (r: Option<i64>)
    ensures
        r is Some <==> time_token_ok(token@),
        r matches Some(v) ==> v as int == token_nanos(token@),
{
    match parse_number(token.as_slice()) {
        None => None,
        Some((num, den)) => {
            proof {
                lemma_number_bounds(token@);
            }
            assert(-1_000_000_000_000_000_000_000_000_000i128 * 1_000_000_000i128 <= num
                * 1_000_000_000i128 <= 1_000_000_000_000_000_000_000_000_000i128
                * 1_000_000_000i128) by (nonlinear_arith)
                requires
                    -1_000_000_000_000_000_000_000_000_000i128 <= num
                        <= 1_000_000_000_000_000_000_000_000_000i128,
            ;
            let q = div_floor_i128(num * 1_000_000_000, den);
            if q < i64::MIN as i128 || q > i64::MAX as i128 {
                None
            } else {
                Some(q as i64)
            }
        },
    }
}

/// A beat parameter in sixteenths, or `None` when the token is not a
/// number.
fn parse_beat_token(token: &Vec<u8>) -> (r: Option<i32>)
    ensures
        r is Some <==> number_ok(token@),
        r matches Some(v) ==> v as int == token_sixteenths(token@),
{
    match parse_number(token.as_slice()) {
        None => None,
        Some((num, den)) => {
            proof {
                lemma_number_bounds(token@);
            }
            assert(-1_000_000_000_000_000_000_000_000_000i128 * 16i128 <= num * 16i128
                <= 1_000_000_000_000_000_000_000_000_000i128 * 16i128) by (nonlinear_arith)
                requires
                    -1_000_000_000_000_000_000_000_000_000i128 <= num
                        <= 1_000_000_000_000_000_000_000_000_000i128,
            ;
            let q = div_floor_i128(num * 16, den);
            if q < i32::MIN as i128 {
                Some(i32::MIN)
            } else if q > i32::MAX as i128 {
                Some(i32::MAX)
            } else {
                Some(q as i32)
            }
        },
    }
}

/// A speed parameter in thousandths, or `None` when the token is not a
/// number.
fn parse_speed_token(token: &Vec<u8>) -> (r: Option<i32>)
    ensures
        r is Some <==> number_ok(token@),
        r matches Some(v) ==> v as int == token_thousandths(token@),
{
    match parse_number(token.as_slice()) {
        None => None,
        Some((num, den)) => {
            proof {
                lemma_number_bounds(token@);
            }
            assert(-1_000_000_000_000_000_000_000_000_000i128 * 1000i128 <= num * 1000i128
                <= 1_000_000_000_000_000_000_000_000_000i128 * 1000i128) by (nonlinear_arith)
                requires
                    -1_000_000_000_000_000_000_000_000_000i128 <= num
                        <= 1_000_000_000_000_000_000_000_000_000i128,
            ;
            let q = div_floor_i128(num * 1000, den);
            if q < i32::MIN as i128 {
                Some(i32::MIN)
            } else if q > i32::MAX as i128 {
                Some(i32::MAX)
            } else {
                Some(q as i32)
            }
        },
    }
}

/// Parse one line of the operation file format into its start and
/// duration, in nanoseconds, and its operation. A malformed line — too
/// few fields, a bad number, or an unknown kind — is a `ParseError`.
pub fn new_from_string(line: &str) -> (r: Result<(i64, i64, Operation), ParseError>)
    ensures
        r is Ok <==> spec_parse_line(line.spec_bytes()) is Some,
        r matches Ok(v) ==> spec_parse_line(line.spec_bytes()) matches Some(s) && v.0 as int == s.0
            && v.1 as int == s.1 && v.2 == s.2,
{
    let bytes = line.as_bytes();
    let tokens = tokenize(bytes);
    let ghost toks = spec_tokens(line.spec_bytes());
    if tokens.len() < 3 {
        return Err(
            ParseError {
                message: String::from_str("expected an operation kind, a start and a duration"),
            },
        );
    }
    let start = match parse_time_token(&tokens[1]) {
        Some(v) => v,
        None => {
            return Err(ParseError { message: String::from_str("bad start time") });
        },
    };
    let duration = match parse_time_token(&tokens[2]) {
        Some(v) => v,
        None => {
            return Err(ParseError { message: String::from_str("bad duration") });
        },
    };
    if bytes_eq(tokens[0].as_slice(), "reverse".as_bytes()) {
        Ok((start, duration, Operation::Reverse))
    } else if bytes_eq(tokens[0].as_slice(), "jump".as_bytes()) {
        if tokens.len() < 4 {
            return Err(ParseError { message: String::from_str("jump needs an offset") });
        }
        match parse_beat_token(&tokens[3]) {
            Some(v) => Ok(
                (start, duration, Operation::Jump { offset: BeatFraction::from_sixteenths(v) }),
            ),
            None => Err(ParseError { message: String::from_str("bad jump offset") }),
        }
    } else if bytes_eq(tokens[0].as_slice(), "repeat".as_bytes()) {
        if tokens.len() < 4 {
            return Err(ParseError { message: String::from_str("repeat needs a loop size") });
        }
        match parse_beat_token(&tokens[3]) {
            Some(v) => Ok(
                (
                    start,
                    duration,
                    Operation::Repeat { loop_size: BeatFraction::from_sixteenths(v) },
                ),
            ),
            None => Err(ParseError { message: String::from_str("bad repeat loop size") }),
        }
    } else if bytes_eq(tokens[0].as_slice(), "speed-ramp".as_bytes()) {
        if tokens.len() < 5 {
            return Err(ParseError { message: String::from_str("speed-ramp needs two speeds") });
        }
        let start_speed = match parse_speed_token(&tokens[3]) {
            Some(v) => v,
            None => {
                return Err(ParseError { message: String::from_str("bad start speed") });
            },
        };
        match parse_speed_token(&tokens[4]) {
            Some(v) => Ok(
                (
                    start,
                    duration,
                    Operation::SpeedRamp {
                        start_speed: Speed { thousandths: start_speed },
                        end_speed: Speed { thousandths: v },
                    },
                ),
            ),
            None => Err(ParseError { message: String::from_str("bad end speed") }),
        }
    } else {
        Err(ParseError { message: String::from_str("unknown operation kind") })
    }
}

/// A duration in nanoseconds converted to a sample count at
/// `sample_rate`, saturating below at zero and above at the top of the
/// position range.
pub open spec fn nanos_to_samples(nanos: int, sample_rate: int) -> int {
    clamp_to(nanos * sample_rate / 1_000_000_000, 0, usize::MAX as int)
}

/// `nanos_to_samples`, computed exactly.
fn nanos_to_samples_exec(nanos: i64, sample_rate: u32) -> (r: SamplePosition)
    ensures
        r as int == nanos_to_samples(nanos as int, sample_rate as int),
{
    let nn = nanos as i128;
    let rr = sample_rate as i128;
    assert(-0x8000_0000_0000_0000i128 * 0x1_0000_0000i128 <= nn * rr <= 0x8000_0000_0000_0000i128
        * 0x1_0000_0000i128) by (nonlinear_arith)
        requires
            -0x8000_0000_0000_0000i128 <= nn <= 0x8000_0000_0000_0000i128,
            0 <= rr <= 0x1_0000_0000i128,
    ;
    let a = nn * rr;
    let q = div_floor_i128(a, 1_000_000_000);
    if q < 0 {
        0
    } else if q > usize::MAX as i128 {
        usize::MAX
    } else {
        q as usize
    }
}

/// The entry a parsed line stands for, with its times as sample
/// positions at `sample_rate`.
pub open spec fn line_entry(parsed: (int, int, Operation), sample_rate: int) -> Entry {
    Entry {
        start: nanos_to_samples(parsed.0, sample_rate) as usize,
        duration: Some(nanos_to_samples(parsed.1, sample_rate) as usize),
        operation: parsed.2,
    }
}

/// Build the operation sequence for a batch run from the lines of an
/// operation file: each line parses as one operation whose start and
/// duration, given in seconds, convert to sample positions at
/// `sample_rate`. The first malformed line is the error.
pub fn ops_from_lines(sample_rate: u32, lines: &Vec<String>) -> (r: Result<
    OpSequence,
    ParseError,
>)
    ensures
        r is Ok <==> (forall|i: int|
            0 <= i < lines@.len() ==> spec_parse_line(
                vstd::utf8::encode_utf8((#[trigger] lines@[i])@),
            ) is Some),
        r matches Ok(ops) ==> ops@.len() == lines@.len() && (forall|i: int|
            0 <= i < lines@.len() ==> #[trigger] ops@[i] == line_entry(
                spec_parse_line(vstd::utf8::encode_utf8(lines@[i]@))->0,
                sample_rate as int,
            )),
{
    let mut ops: OpSequence = Vec::new();
    let n = lines.len();
    let mut i: usize = 0;
    while i < n
        invariant
            i <= n,
            n == lines@.len(),
            ops@.len() == i,
            forall|k: int|
                0 <= k < i ==> spec_parse_line(
                    vstd::utf8::encode_utf8((#[trigger] lines@[k])@),
                ) is Some,
            forall|k: int|
                0 <= k < i ==> #[trigger] ops@[k] == line_entry(
                    spec_parse_line(vstd::utf8::encode_utf8(lines@[k]@))->0,
                    sample_rate as int,
                ),
        decreases n - i,
    {
        match new_from_string(lines[i].as_str()) {
            Ok((start_nanos, duration_nanos, operation)) => {
                let start = nanos_to_samples_exec(start_nanos, sample_rate);
                let duration = nanos_to_samples_exec(duration_nanos, sample_rate);
                ops.push(Entry { start, duration: Some(duration), operation });
            },
            Err(e) => {
                return Err(e);
            },
        }
        i += 1;
    }
    Ok(ops)
}

} // verus!
