//! The target frame rate, read from a decimal numeral such as `10` or
//! `29.97`, and the frame interval it gives.
use vstd::prelude::*;
use vstd::string::StrSliceExecFns;
use crate::pacing::MAX_FRAME_NANOS;

verus! {

/// Most digits accepted after the decimal point.
pub const MAX_FRACTION_DIGITS: usize = 18;

/// Nanoseconds in a second.
pub const NANOS_PER_SEC: u128 = 1_000_000_000;

/// An ASCII decimal digit.
pub open spec fn is_digit(c: char) -> bool {
    '0' <= c && c <= '9'
}

/// Every character of `s` is a decimal digit.
pub open spec fn all_digits(s: Seq<char>) -> bool {
    forall|i: int| 0 <= i < s.len() ==> is_digit(#[trigger] s[i])
}

/// The number that a run of decimal digits denotes.
pub open spec fn digits_value(s: Seq<char>) -> int
    decreases s.len(),
{
    if s.len() == 0 {
        0
    } else {
        10 * digits_value(s.drop_last()) + (s.last() as int - '0' as int)
    }
}

/// `10^k`.
pub open spec fn pow10(k: nat) -> nat
    decreases k,
{
    if k == 0 {
        1
    } else {
        10 * pow10((k - 1) as nat)
    }
}

/// Position of the first `.` in `s`, or its length when there is none.
pub open spec fn point_index(s: Seq<char>) -> int
    decreases s.len(),
{
    if s.len() == 0 || s[0] == '.' {
        0
    } else {
        1 + point_index(s.drop_first())
    }
}

/// What comes before the decimal point.
pub open spec fn int_part(s: Seq<char>) -> Seq<char> {
    s.take(point_index(s))
}

/// What comes after the decimal point (nothing when there is none).
pub open spec fn frac_part(s: Seq<char>) -> Seq<char> {
    if point_index(s) < s.len() {
        s.skip(point_index(s) + 1)
    } else {
        Seq::empty()
    }
}

/// Digits, then optionally a point and more digits, with at least one digit
/// in all.
pub open spec fn is_decimal(s: Seq<char>) -> bool {
    &&& all_digits(int_part(s))
    &&& all_digits(frac_part(s))
    &&& int_part(s).len() + frac_part(s).len() > 0
}

/// The digits of the numeral without its point: the value times
/// `10^(digits after the point)`.
pub open spec fn scaled_value(s: Seq<char>) -> int {
    digits_value(int_part(s) + frac_part(s))
}

/// Why a frame rate was refused.
#[derive(PartialEq, Eq, Structural, Debug, Clone, Copy)]
pub enum FramerateError {
    /// Not a decimal numeral.
    Malformed,
    /// The numeral denotes zero.
    NotPositive,
    /// Too many digits after the point, or too many in all.
    OutOfRange,
}

/// A positive frame rate of `num / den` frames per second.
#[derive(PartialEq, Eq, Structural, Debug, Clone, Copy)]
pub struct Framerate {
    pub num: u64,
    pub den: u64,
}

impl Framerate {
    /// Positive, with a denominator of at most `10^18`.
    pub open spec fn wf(&self) -> bool {
        &&& self.num > 0
        &&& 0 < self.den <= pow10(MAX_FRACTION_DIGITS as nat)
    }

    /// Seconds per frame, in nanoseconds, rounded up:
    /// `ceil(10^9 * den / num)`.
    pub fn frame_time_nanos(&self) -> (r: u128)
        requires
            self.wf(),
        ensures
            r == (NANOS_PER_SEC * self.den + self.num - 1) / (self.num as int),
            0 < r <= MAX_FRAME_NANOS,
    {
        proof {
            lemma_pow10_18();
        }
        let a: u128 = NANOS_PER_SEC * (self.den as u128);
        let n: u128 = self.num as u128;
        let r = (a + n - 1) / n;
        assert(0 < r <= a) by (nonlinear_arith)
            requires
                r as int == (a as int + n as int - 1) / (n as int),
                n >= 1,
                a >= 1,
        ;
        r
    }
}

proof fn lemma_pow10_18()
    ensures
        pow10(18) == 1_000_000_000_000_000_000,
{
    reveal_with_fuel(pow10, 19);
}

proof fn lemma_pow10_mono(a: nat, b: nat)
    requires
        a <= b,
    ensures
        1 <= pow10(a) <= pow10(b),
    decreases b,
{
    if a < b {
        lemma_pow10_mono(a, (b - 1) as nat);
    } else if a > 0 {
        lemma_pow10_mono((a - 1) as nat, (a - 1) as nat);
    }
}

/// The first `.` of `s` is at `p` when none comes before `p` and `p` is a
/// point or the end.
proof fn lemma_point_index(s: Seq<char>, p: int)
    requires
        0 <= p <= s.len(),
        forall|j: int| 0 <= j < p ==> s[j] != '.',
        p == s.len() || s[p] == '.',
    ensures
        point_index(s) == p,
    decreases p,
{
    if p > 0 {
        assert(s[0] != '.');
        let t = s.drop_first();
        assert forall|j: int| 0 <= j < p - 1 implies t[j] != '.' by {
            assert(t[j] == s[j + 1]);
        }
        lemma_point_index(t, p - 1);
    }
}

/// `10^k`, for `k` up to [`MAX_FRACTION_DIGITS`].
fn pow10_u64(k: usize) -> (r: u64)
    requires
        k <= MAX_FRACTION_DIGITS,
    ensures
        r == pow10(k as nat),
{
    let mut r: u64 = 1;
    let mut j: usize = 0;
    while j < k
        invariant
            j <= k <= MAX_FRACTION_DIGITS,
            r == pow10(j as nat),
        decreases k - j,
    {
        proof {
            lemma_pow10_mono((j + 1) as nat, 18);
            lemma_pow10_18();
        }
        r = r * 10;
        j = j + 1;
    }
    r
}

/// The digits of `s` before position `i`, leaving out the point at `p`.
spec fn digits_before(s: Seq<char>, p: int, i: int) -> Seq<char> {
    if i <= p {
        s.take(i)
    } else {
        s.take(p) + s.subrange(p + 1, i)
    }
}

/// The frame rate that `text` gives: a decimal numeral with at most
/// [`MAX_FRACTION_DIGITS`] digits after the point whose digits, the point
/// left out, denote a number that fits in a `u64` and is not zero.
pub fn parse_framerate(text: &str) -> (r: Result<Framerate, FramerateError>)
    ensures
        (r == Err::<Framerate, FramerateError>(FramerateError::Malformed)) <==> !is_decimal(text@),
        (r == Err::<Framerate, FramerateError>(FramerateError::OutOfRange)) <==> (is_decimal(text@)
            && (frac_part(text@).len() > MAX_FRACTION_DIGITS || scaled_value(text@) > u64::MAX)),
        (r == Err::<Framerate, FramerateError>(FramerateError::NotPositive)) <==> (is_decimal(
            text@,
        ) && frac_part(text@).len() <= MAX_FRACTION_DIGITS && scaled_value(text@) == 0),
        r matches Ok(rate) ==> rate.wf() && rate.num == scaled_value(text@) && rate.den == pow10(
            frac_part(text@).len(),
        ),
{
    let ghost s = text@;
    let n = text.unicode_len();
    let mut p: usize = 0;
    while p < n
        invariant
            s == text@,
            n == s.len(),
            p <= n,
            forall|j: int| 0 <= j < p ==> s[j] != '.',
        ensures
            p <= n,
            forall|j: int| 0 <= j < p ==> s[j] != '.',
            p == n || s[p as int] == '.',
        decreases n - p,
    {
        if text.get_char(p) == '.' {
            break;
        }
        p = p + 1;
    }
    proof {
        lemma_point_index(s, p as int);
    }
    let frac_len: usize = if p < n {
        n - p - 1
    } else {
        0
    };
    assert(int_part(s).len() == p);
    assert(frac_part(s).len() == frac_len);
    if p + frac_len == 0 {
        return Err(FramerateError::Malformed);
    }
    let mut num: u64 = 0;
    let mut overflow = false;
    let mut i: usize = 0;
    let ghost mut done: Seq<char> = Seq::empty();
    while i < n
        invariant
            s == text@,
            n == s.len(),
            p <= n,
            point_index(s) == p,
            frac_len == frac_part(s).len(),
            p < n ==> s[p as int] == '.',
            i <= n,
            done == digits_before(s, p as int, i as int),
            all_digits(done),
            !overflow ==> num == digits_value(done),
            overflow ==> digits_value(done) > u64::MAX,
        decreases n - i,
    {
        if i != p {
            let c = text.get_char(i);
            if c < '0' || c > '9' {
                proof {
                    if i < p {
                        assert(int_part(s)[i as int] == c);
                    } else {
                        assert(frac_part(s)[i - p - 1] == c);
                    }
                }
                return Err(FramerateError::Malformed);
            }
            let d: u64 = (c as u32 - '0' as u32) as u64;
            proof {
                let next = done.push(c);
                assert(next.drop_last() =~= done);
                assert(digits_value(next) == 10 * digits_value(done) + d);
                assert(digits_before(s, p as int, i + 1) =~= next);
                done = next;
            }
            if !overflow {
                if num > (u64::MAX - d) / 10 {
                    overflow = true;
                } else {
                    num = num * 10 + d;
                }
            }
        } else {
            proof {
                assert(digits_before(s, p as int, i + 1) =~= done);
            }
        }
        i = i + 1;
    }
    proof {
        assert(done =~= int_part(s) + frac_part(s));
        assert forall|j: int| 0 <= j < int_part(s).len() implies is_digit(
            #[trigger] int_part(s)[j],
        ) by {
            assert(int_part(s)[j] == done[j]);
        }
        assert forall|j: int| 0 <= j < frac_part(s).len() implies is_digit(
            #[trigger] frac_part(s)[j],
        ) by {
            assert(frac_part(s)[j] == done[int_part(s).len() + j]);
        }
    }
    if overflow || frac_len > MAX_FRACTION_DIGITS {
        return Err(FramerateError::OutOfRange);
    }
    if num == 0 {
        return Err(FramerateError::NotPositive);
    }
    let den = pow10_u64(frac_len);
    proof {
        lemma_pow10_mono(frac_len as nat, 18);
    }
    Ok(Framerate { num, den })
}

} // verus!
