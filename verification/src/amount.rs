use vstd::prelude::*;

use crate::consts::SCALE;
use crate::errors::{AmountParseError, AppErrors, AppResult};

verus! {

/// Whether `c` is one of the whitespace characters stripped from both
/// ends of an amount string before parsing.
pub open spec fn is_ws_char(c: char) -> bool {
    c == ' ' || c == '\t' || c == '\n' || c == '\r'
}

/// Whether `c` is a decimal digit.
pub open spec fn is_digit_char(c: char) -> bool {
    ('0' as int) <= (c as int) <= ('9' as int)
}

/// The numeric value of a decimal digit character.
pub open spec fn digit_val(c: char) -> int {
    (c as int) - ('0' as int)
}

/// Whether every character of `s` is a decimal digit.
pub open spec fn all_digits(s: Seq<char>) -> bool {
    forall|i: int| 0 <= i < s.len() ==> is_digit_char(#[trigger] s[i])
}

/// The non-negative integer denoted by a sequence of decimal digits,
/// most significant first; the empty sequence denotes zero.
pub open spec fn digits_val(s: Seq<char>) -> int
    decreases s.len(),
{
    if s.len() == 0 {
        0
    } else {
        digits_val(s.drop_last()) * 10 + digit_val(s.last())
    }
}

/// `s` with its leading whitespace removed.
pub open spec fn trim_start_spec(s: Seq<char>) -> Seq<char>
    decreases s.len(),
{
    if s.len() > 0 && is_ws_char(s[0]) {
        trim_start_spec(s.drop_first())
    } else {
        s
    }
}

/// `s` with its trailing whitespace removed.
pub open spec fn trim_end_spec(s: Seq<char>) -> Seq<char>
    decreases s.len(),
{
    if s.len() > 0 && is_ws_char(s.last()) {
        trim_end_spec(s.drop_last())
    } else {
        s
    }
}

/// `s` with whitespace removed from both ends.
pub open spec fn trim_spec(s: Seq<char>) -> Seq<char> {
    trim_end_spec(trim_start_spec(s))
}

/// The index of the first `.` in `s`, or `s.len()` if there is none.
pub open spec fn dot_pos(s: Seq<char>) -> int
    decreases s.len(),
{
    if s.len() == 0 {
        0
    } else if s[0] == '.' {
        0
    } else {
        1 + dot_pos(s.drop_first())
    }
}

/// The fractional source brought to exactly four characters: truncated
/// beyond the fourth, padded with zeros up to it.
pub open spec fn frac4(fr: Seq<char>) -> Seq<char> {
    if fr.len() >= 4 {
        fr.take(4)
    } else {
        fr + Seq::new((4 - fr.len()) as nat, |i: int| '0')
    }
}

/// The result of parsing a decimal amount string into a scaled 64-bit
/// value, four fractional digits implied.
///
/// Whitespace is trimmed; one leading `+` or `-` is allowed; the
/// integer part must be a plain run of digits whose value fits in an
/// `i64`; the fractional part, if a `.` is present, must be digits in
/// its first four places, with a fifth character at or above `'5'`
/// rounding the fourth digit up; the scaled result must fit in an
/// `i64`.
pub open spec fn spec_parse_4dp(s0: Seq<char>) -> Result<i64, AmountParseError> {
    let t = trim_spec(s0);
    if t.len() == 0 {
        Err(AmountParseError::Empty)
    } else {
        let neg = t[0] == '-';
        let body = if t[0] == '-' || t[0] == '+' {
            t.drop_first()
        } else {
            t
        };
        let p = dot_pos(body);
        let int_part = body.take(p);
        let frac_src = if p < body.len() {
            body.skip(p + 1)
        } else {
            seq!['0']
        };
        if int_part.len() == 0 || !all_digits(int_part) || digits_val(int_part) > i64::MAX {
            Err(AmountParseError::MalformedInt)
        } else if !all_digits(frac4(frac_src)) {
            Err(AmountParseError::MalformedFrac)
        } else {
            let round: int = if frac_src.len() > 4 && ('5' as int) <= (frac_src[4] as int) {
                1
            } else {
                0
            };
            let v = digits_val(int_part) * 10000 + digits_val(frac4(frac_src)) + round;
            if v > i64::MAX {
                Err(AmountParseError::Overflow)
            } else if neg {
                Ok((-v) as i64)
            } else {
                Ok(v as i64)
            }
        }
    }
}

/// Ten to the `k`-th power, for bounding runs of `k` digits.
pub open spec fn pow10(k: int) -> int
    decreases k,
{
    if k <= 0 {
        1
    } else {
        10 * pow10(k - 1)
    }
}

/// `trim_start_spec` removes exactly the leading whitespace run: if the
/// first `i` characters are whitespace and the next one (if any) is
/// not, the result is `s` without its first `i` characters.
proof fn lemma_trim_start_at(s: Seq<char>, i: int)
    requires
        0 <= i <= s.len(),
        forall|j: int| 0 <= j < i ==> is_ws_char(#[trigger] s[j]),
        i == s.len() || !is_ws_char(s[i]),
    ensures
        trim_start_spec(s) == s.skip(i),
    decreases i,
{
    if i == 0 {
        assert(s.skip(0) =~= s);
    } else {
        lemma_trim_start_at(s.drop_first(), i - 1);
        assert(s.drop_first().skip(i - 1) =~= s.skip(i));
    }
}

/// `trim_end_spec` removes exactly the trailing whitespace run: if
/// every character from `e` on is whitespace and the one before `e`
/// (if any) is not, the result is the first `e` characters of `s`.
proof fn lemma_trim_end_at(s: Seq<char>, e: int)
    requires
        0 <= e <= s.len(),
        forall|j: int| e <= j < s.len() ==> is_ws_char(#[trigger] s[j]),
        e == 0 || !is_ws_char(s[e - 1]),
    ensures
        trim_end_spec(s) == s.take(e),
    decreases s.len() - e,
{
    if e == s.len() {
        assert(s.take(e) =~= s);
    } else {
        lemma_trim_end_at(s.drop_last(), e);
        assert(s.drop_last().take(e) =~= s.take(e));
    }
}

/// `dot_pos` finds exactly the first `.`: if the first `p` characters
/// are not dots and the next one (if any) is, the position is `p`.
proof fn lemma_dot_pos_at(s: Seq<char>, p: int)
    requires
        0 <= p <= s.len(),
        forall|j: int| 0 <= j < p ==> #[trigger] s[j] != '.',
        p == s.len() || s[p] == '.',
    ensures
        dot_pos(s) == p,
    decreases p,
{
    if p > 0 {
        lemma_dot_pos_at(s.drop_first(), p - 1);
    }
}

/// A sequence of digits denotes a non-negative value.
proof fn lemma_digits_val_nonneg(s: Seq<char>)
    requires
        all_digits(s),
    ensures
        digits_val(s) >= 0,
    decreases s.len(),
{
    if s.len() > 0 {
        assert(all_digits(s.drop_last()));
        lemma_digits_val_nonneg(s.drop_last());
    }
}

/// Reading one more digit multiplies the prefix value by ten and adds
/// the digit.
proof fn lemma_digits_val_step(s: Seq<char>, i: int)
    requires
        0 <= i < s.len(),
    ensures
        digits_val(s.take(i + 1)) == digits_val(s.take(i)) * 10 + digit_val(s[i]),
{
    assert(s.take(i + 1).drop_last() =~= s.take(i));
    assert(s.take(i + 1).last() == s[i]);
}

/// For a digit run, every prefix denotes at most the whole: appending
/// digits never shrinks the value.
proof fn lemma_digits_val_grows(s: Seq<char>, i: int)
    requires
        all_digits(s),
        0 <= i <= s.len(),
    ensures
        digits_val(s.take(i)) <= digits_val(s),
    decreases s.len() - i,
{
    if i == s.len() {
        assert(s.take(i) =~= s);
    } else {
        lemma_digits_val_step(s, i);
        assert(all_digits(s.take(i)));
        lemma_digits_val_nonneg(s.take(i));
        lemma_digits_val_grows(s, i + 1);
    }
}

/// Whether `c` is one of the trimmed whitespace characters.
fn is_ws(c: char) -> (b: bool)
    ensures
        b == is_ws_char(c),
{
    c == ' ' || c == '\t' || c == '\n' || c == '\r'
}

/// Whether `c` is a decimal digit.
fn is_digit(c: char) -> (b: bool)
    ensures
        b == is_digit_char(c),
{
    let u = c as u32;
    48 <= u && u <= 57
}

/// The character for one decimal digit.
pub open spec fn digit_char(d: int) -> char {
    if d == 0 {
        '0'
    } else if d == 1 {
        '1'
    } else if d == 2 {
        '2'
    } else if d == 3 {
        '3'
    } else if d == 4 {
        '4'
    } else if d == 5 {
        '5'
    } else if d == 6 {
        '6'
    } else if d == 7 {
        '7'
    } else if d == 8 {
        '8'
    } else {
        '9'
    }
}

/// The decimal rendering of a non-negative integer, without leading
/// zeros (a single `'0'` for zero).
pub open spec fn dec_str(n: int) -> Seq<char>
    decreases n,
{
    if n < 10 {
        seq![digit_char(n)]
    } else {
        dec_str(n / 10).push(digit_char(n % 10))
    }
}

/// The four zero-padded fractional digits of a value below ten
/// thousand.
pub open spec fn frac_str4(f: int) -> Seq<char> {
    seq![
        digit_char(f / 1000 % 10),
        digit_char(f / 100 % 10),
        digit_char(f / 10 % 10),
        digit_char(f % 10),
    ]
}

/// The rendering of a scaled amount: sign, integer part, `.`, and
/// exactly four zero-padded fractional digits.
pub open spec fn spec_format_4dp(v: i64) -> Seq<char> {
    let m = if v < 0 {
        -(v as int)
    } else {
        v as int
    };
    let sign: Seq<char> = if v < 0 {
        seq!['-']
    } else {
        Seq::empty()
    };
    sign + dec_str(m / 10000) + seq!['.'] + frac_str4(m % 10000)
}

/// The one-character string for a decimal digit.
fn digit_str(d: u64) -> (r: &'static str)
    requires
        d < 10,
    ensures
        r@ =~= seq![digit_char(d as int)],
{
    if d == 0 {
        proof {
            reveal_strlit("0");
        }
        "0"
    } else if d == 1 {
        proof {
            reveal_strlit("1");
        }
        "1"
    } else if d == 2 {
        proof {
            reveal_strlit("2");
        }
        "2"
    } else if d == 3 {
        proof {
            reveal_strlit("3");
        }
        "3"
    } else if d == 4 {
        proof {
            reveal_strlit("4");
        }
        "4"
    } else if d == 5 {
        proof {
            reveal_strlit("5");
        }
        "5"
    } else if d == 6 {
        proof {
            reveal_strlit("6");
        }
        "6"
    } else if d == 7 {
        proof {
            reveal_strlit("7");
        }
        "7"
    } else if d == 8 {
        proof {
            reveal_strlit("8");
        }
        "8"
    } else {
        proof {
            reveal_strlit("9");
        }
        "9"
    }
}

/// Renders a non-negative integer in decimal, matching [`dec_str`].
fn dec_digits(n: u64) -> (out: String)
    ensures
        out@ == dec_str(n as int),
    decreases n,
{
    if n < 10 {
        let mut out = String::new();
        out.append(digit_str(n));
        proof {
            assert(out@ =~= dec_str(n as int));
        }
        out
    } else {
        let mut out = dec_digits(n / 10);
        out.append(digit_str(n % 10));
        proof {
            assert(out@ =~= dec_str(n as int));
        }
        out
    }
}

/// Reads the run of characters in `[bstart, dotk)` as a decimal
/// integer: its value if it is all digits and fits in an `i64`, `None`
/// otherwise.
fn scan_int(s: &str, bstart: usize, dotk: usize) -> (r: Option<i64>)
    requires
        bstart <= dotk <= s@.len(),
    ensures
        ({
            let int_part = s@.subrange(bstart as int, dotk as int);
            match r {
                Some(acc) => all_digits(int_part) && acc == digits_val(int_part) && 0 <= acc,
                None => !all_digits(int_part) || digits_val(int_part) > i64::MAX,
            }
        }),
{
    let ghost int_part = s@.subrange(bstart as int, dotk as int);
    let mut acc: i64 = 0;
    let mut i: usize = bstart;
    while i < dotk
        invariant
            bstart <= i <= dotk <= s@.len(),
            int_part == s@.subrange(bstart as int, dotk as int),
            forall|j: int| bstart <= j < i ==> is_digit_char(#[trigger] s@[j]),
            0 <= acc,
            acc == digits_val(int_part.take(i - bstart)),
        decreases dotk - i,
    {
        let c = s.get_char(i);
        proof {
            assert(int_part[i - bstart] == s@[i as int]);
        }
        if !is_digit(c) {
            return None;
        }
        let d: i64 = ((c as u32) - 48) as i64;
        proof {
            lemma_digits_val_step(int_part, i - bstart);
        }
        let next = match acc.checked_mul(10) {
            Some(a10) => a10.checked_add(d),
            None => None,
        };
        match next {
            Some(a2) => {
                acc = a2;
            },
            None => {
                proof {
                    assert(digits_val(int_part.take(i - bstart + 1)) > i64::MAX);
                    if all_digits(int_part) {
                        lemma_digits_val_grows(int_part, i - bstart + 1);
                    }
                }
                return None;
            },
        }
        i += 1;
    }
    proof {
        assert(int_part.take(dotk - bstart) =~= int_part);
    }
    Some(acc)
}

/// Reads the fractional source after a dot at `dotk` (or the implied
/// `"0"` when there is no dot) brought to four digits: its value if
/// its first four places are digits, `None` otherwise.
fn scan_frac(s: &str, dotk: usize, end: usize) -> (r: Option<i64>)
    requires
        dotk <= end <= s@.len(),
    ensures
        ({
            let frac_src = if dotk < end {
                s@.subrange(dotk + 1, end as int)
            } else {
                seq!['0']
            };
            match r {
                Some(fr) => all_digits(frac4(frac_src)) && fr == digits_val(frac4(frac_src)) && 0
                    <= fr < 10000,
                None => !all_digits(frac4(frac_src)),
            }
        }),
{
    let ghost frac_src = if dotk < end {
        s@.subrange(dotk + 1, end as int)
    } else {
        seq!['0']
    };
    proof {
        reveal_with_fuel(pow10, 6);
        assert(frac4(frac_src).len() == 4);
    }
    let mut fr: i64 = 0;
    let mut k: usize = 0;
    while k < 4
        invariant
            0 <= k <= 4,
            dotk <= end <= s@.len(),
            frac_src == (if dotk < end {
                s@.subrange(dotk + 1, end as int)
            } else {
                seq!['0']
            }),
            forall|j: int| 0 <= j < k ==> is_digit_char(#[trigger] frac4(frac_src)[j]),
            0 <= fr < pow10(k as int),
            fr == digits_val(frac4(frac_src).take(k as int)),
        decreases 4 - k,
    {
        let c: char = if dotk < end && k < end - dotk - 1 {
            s.get_char(dotk + 1 + k)
        } else {
            '0'
        };
        proof {
            assert(frac4(frac_src)[k as int] == c);
        }
        if !is_digit(c) {
            return None;
        }
        let d: i64 = ((c as u32) - 48) as i64;
        proof {
            lemma_digits_val_step(frac4(frac_src), k as int);
            reveal_with_fuel(pow10, 6);
            assert(pow10(0) == 1 && pow10(1) == 10 && pow10(2) == 100 && pow10(3) == 1000 && pow10(
                4,
            ) == 10000);
            if k == 0 {
            } else if k == 1 {
            } else if k == 2 {
            } else {
                assert(k == 3);
            }
        }
        fr = fr * 10 + d;
        k += 1;
    }
    proof {
        assert(frac4(frac_src).take(4) =~= frac4(frac_src));
        reveal_with_fuel(pow10, 6);
    }
    Some(fr)
}

/// A monetary amount as a 64-bit signed integer, scaled by
/// [`crate::consts::SCALE`] so that four decimal digits are carried
/// exactly, with no floating-point involved.
#[derive(Clone, Copy, Debug, PartialEq, Eq, Structural)]
pub struct Amount(pub i64);

impl Amount {
    /// A zero amount.
    #[inline]
    pub fn zero() -> (r: Self)
        ensures
            r.0 == 0,
    {
        Amount(0)
    }

    /// Adds two amounts; `None` exactly when the sum leaves the 64-bit
    /// signed range.
    #[inline]
    pub fn checked_add(self, other: Amount) -> (r: Option<Amount>)
        ensures
            ({
                let s = self.0 + other.0;
                if i64::MIN <= s <= i64::MAX {
                    r == Some(Amount(s as i64))
                } else {
                    r is None
                }
            }),
    {
        match self.0.checked_add(other.0) {
            Some(v) => Some(Amount(v)),
            None => None,
        }
    }

    /// Subtracts `other` from `self`; `None` exactly when the difference
    /// leaves the 64-bit signed range.
    #[inline]
    pub fn checked_sub(self, other: Amount) -> (r: Option<Amount>)
        ensures
            ({
                let d = self.0 - other.0;
                if i64::MIN <= d <= i64::MAX {
                    r == Some(Amount(d as i64))
                } else {
                    r is None
                }
            }),
    {
        match self.0.checked_sub(other.0) {
            Some(v) => Some(Amount(v)),
            None => None,
        }
    }

    /// Whether the amount is strictly below zero.
    #[inline]
    pub fn is_negative(self) -> (r: bool)
        ensures
            r == (self.0 < 0),
    {
        self.0 < 0
    }

    /// Parses a decimal string into a scaled amount, rounding a fifth
    /// fractional digit half-up, exactly as [`spec_parse_4dp`] says:
    /// `Ok` for every well-formed in-range string and the matching
    /// parse error for every other.
    #[verifier::rlimit(100)]
    pub fn parse_4dp(s: &str) -> (r: AppResult<Amount>)
        ensures
            match spec_parse_4dp(s@) {
                Ok(v) => r matches Ok(a) && a.0 == v,
                Err(e) => r matches Err(AppErrors::AmountParseError(pe)) && pe == e,
            },
    {
        let n = s.unicode_len();

        let mut start: usize = 0;
        while start < n && is_ws(s.get_char(start))
            invariant
                0 <= start <= n,
                n == s@.len(),
                forall|j: int| 0 <= j < start ==> is_ws_char(#[trigger] s@[j]),
            decreases n - start,
        {
            start += 1;
        }
        let mut end: usize = n;
        while end > start && is_ws(s.get_char(end - 1))
            invariant
                start <= end <= n,
                n == s@.len(),
                forall|j: int| end <= j < n ==> is_ws_char(#[trigger] s@[j]),
            decreases end,
        {
            end -= 1;
        }
        proof {
            lemma_trim_start_at(s@, start as int);
            lemma_trim_end_at(s@.skip(start as int), end - start);
            assert(trim_spec(s@) =~= s@.subrange(start as int, end as int));
        }
        let ghost t = trim_spec(s@);

        if start == end {
            return Err(AppErrors::AmountParseError(AmountParseError::Empty));
        }

        let c0 = s.get_char(start);
        proof {
            assert(t[0] == s@[start as int]);
        }
        let neg = c0 == '-';
        let bstart: usize = if neg || c0 == '+' {
            start + 1
        } else {
            start
        };
        let ghost body = if t[0] == '-' || t[0] == '+' {
            t.drop_first()
        } else {
            t
        };
        proof {
            assert(body =~= s@.subrange(bstart as int, end as int));
        }

        let mut dotk: usize = bstart;
        while dotk < end && s.get_char(dotk) != '.'
            invariant
                bstart <= dotk <= end <= n,
                n == s@.len(),
                forall|j: int| bstart <= j < dotk ==> #[trigger] s@[j] != '.',
            decreases end - dotk,
        {
            dotk += 1;
        }
        proof {
            lemma_dot_pos_at(body, dotk - bstart);
        }
        let ghost int_part = body.take(dotk - bstart);
        proof {
            assert(int_part =~= s@.subrange(bstart as int, dotk as int));
        }

        if dotk == bstart {
            return Err(AppErrors::AmountParseError(AmountParseError::MalformedInt));
        }

        let acc: i64 = match scan_int(s, bstart, dotk) {
            Some(acc) => acc,
            None => {
                return Err(AppErrors::AmountParseError(AmountParseError::MalformedInt));
            },
        };

        let ghost frac_src = if dotk < end {
            s@.subrange(dotk + 1, end as int)
        } else {
            seq!['0']
        };
        proof {
            if dot_pos(body) < body.len() {
                assert(body.skip(dot_pos(body) + 1) =~= s@.subrange(dotk + 1, end as int));
            }
        }

        let fr: i64 = match scan_frac(s, dotk, end) {
            Some(fr) => fr,
            None => {
                return Err(AppErrors::AmountParseError(AmountParseError::MalformedFrac));
            },
        };

        let round_up: bool = if dotk < end && end - dotk - 1 > 4 {
            let c5 = s.get_char(dotk + 5);
            proof {
                assert(frac_src[4] == s@[dotk + 5]);
            }
            (c5 as u32) >= 53
        } else {
            false
        };
        let fr_total: i64 = fr + if round_up {
            1
        } else {
            0
        };

        match acc.checked_mul(SCALE) {
            Some(base) => match base.checked_add(fr_total) {
                Some(v) => {
                    if neg {
                        Ok(Amount(-v))
                    } else {
                        Ok(Amount(v))
                    }
                },
                None => Err(AppErrors::AmountParseError(AmountParseError::Overflow)),
            },
            None => Err(AppErrors::AmountParseError(AmountParseError::Overflow)),
        }
    }

    /// Renders the amount as sign, integer part, and exactly four
    /// zero-padded fractional digits, matching [`spec_format_4dp`].
    pub fn format_4dp(&self) -> (out: String)
        ensures
            out@ == spec_format_4dp(self.0),
    {
        let v = self.0;
        let m: u64 = if v < 0 {
            (-(v as i128)) as u64
        } else {
            v as u64
        };
        let int_part: u64 = m / 10_000;
        let frac: u64 = m % 10_000;
        let mut out = String::new();
        if v < 0 {
            proof {
                reveal_strlit("-");
            }
            out.append("-");
        }
        let digits = dec_digits(int_part);
        out.append(digits.as_str());
        proof {
            reveal_strlit(".");
        }
        out.append(".");
        out.append(digit_str(frac / 1000 % 10));
        out.append(digit_str(frac / 100 % 10));
        out.append(digit_str(frac / 10 % 10));
        out.append(digit_str(frac % 10));
        proof {
            assert(out@ =~= spec_format_4dp(v));
        }
        out
    }
}

impl std::str::FromStr for Amount {
    type Err = AmountParseError;

    /// Parses with [`Amount::parse_4dp`], unwrapping the amount-parse
    /// error from the application error it is carried in.
    fn from_str(s: &str) -> Result<Amount, AmountParseError> {
        match Amount::parse_4dp(s) {
            Ok(a) => Ok(a),
            Err(AppErrors::AmountParseError(e)) => Err(e),
            Err(_) => Err(AmountParseError::MalformedInt),
        }
    }
}

} // verus!
