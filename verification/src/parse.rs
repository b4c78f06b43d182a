//! Verified text conversions: calendar dates in `YYYY-MM-DD` form, plain
//! decimal amounts into micro-units, and small numbers into decimal strings.

use vstd::prelude::*;

use crate::date::Date;
use crate::fixed::SCALE;

verus! {

pub open spec fn is_digit(c: char) -> bool {
    48 <= c as u32 <= 57
}

pub open spec fn digit_val(c: char) -> int {
    c as u32 - 48
}

/// The number the first `k` characters spell in decimal.
pub open spec fn digits_val(s: Seq<char>, k: int) -> int
    decreases k,
{
    if k <= 0 {
        0
    } else {
        digits_val(s, k - 1) * 10 + digit_val(s[k - 1])
    }
}

pub open spec fn all_digits(s: Seq<char>, k: int) -> bool {
    forall|i: int| 0 <= i < k ==> is_digit(s[i])
}

/// Ten to a small power.
pub open spec fn p10(e: nat) -> int
    decreases e,
{
    if e == 0 {
        1
    } else {
        10 * p10((e - 1) as nat)
    }
}

pub proof fn lemma_p10_positive(e: nat)
    ensures
        p10(e) >= 1,
    decreases e,
{
    if e > 0 {
        lemma_p10_positive((e - 1) as nat);
    }
}

pub proof fn lemma_p10_monotone(a: nat, b: nat)
    requires
        a <= b,
    ensures
        p10(a) <= p10(b),
    decreases b,
{
    lemma_p10_positive(a);
    if a < b {
        lemma_p10_monotone(a, (b - 1) as nat);
        lemma_p10_positive((b - 1) as nat);
    }
}

pub proof fn lemma_p10_24()
    ensures
        p10(6) == 1_000_000,
        p10(23) == 100_000_000_000_000_000_000_000,
        p10(24) == 1_000_000_000_000_000_000_000_000,
        p10(25) == 10_000_000_000_000_000_000_000_000,
{
    assert(p10(0) == 1);
    assert(p10(1) == 10);
    assert(p10(2) == 100);
    assert(p10(3) == 1000);
    assert(p10(4) == 10_000);
    assert(p10(5) == 100_000);
    assert(p10(6) == 1_000_000);
    assert(p10(7) == 10_000_000);
    assert(p10(8) == 100_000_000);
    assert(p10(9) == 1_000_000_000);
    assert(p10(10) == 10_000_000_000);
    assert(p10(11) == 100_000_000_000);
    assert(p10(12) == 1_000_000_000_000);
    assert(p10(13) == 10_000_000_000_000);
    assert(p10(14) == 100_000_000_000_000);
    assert(p10(15) == 1_000_000_000_000_000);
    assert(p10(16) == 10_000_000_000_000_000);
    assert(p10(17) == 100_000_000_000_000_000);
    assert(p10(18) == 1_000_000_000_000_000_000);
    assert(p10(19) == 10_000_000_000_000_000_000);
    assert(p10(20) == 100_000_000_000_000_000_000);
    assert(p10(21) == 1_000_000_000_000_000_000_000);
    assert(p10(22) == 10_000_000_000_000_000_000_000);
    assert(p10(23) == 100_000_000_000_000_000_000_000);
    assert(p10(24) == 1_000_000_000_000_000_000_000_000);
    assert(p10(25) == 10_000_000_000_000_000_000_000_000);
}

/// `k` decimal digits spell a number below ten to the `k`.
pub proof fn lemma_digits_val_bound(s: Seq<char>, k: int)
    requires
        0 <= k,
        all_digits(s, k),
    ensures
        0 <= digits_val(s, k) < p10(k as nat),
    decreases k,
{
    if k > 0 {
        lemma_digits_val_bound(s, k - 1);
        assert(is_digit(s[k - 1]));
        assert(digits_val(s, k - 1) * 10 + digit_val(s[k - 1]) < 10 * p10((k - 1) as nat))
            by (nonlinear_arith)
            requires
                0 <= digits_val(s, k - 1) < p10((k - 1) as nat),
                0 <= digit_val(s[k - 1]) <= 9,
        ;
        assert(digits_val(s, k - 1) * 10 >= 0) by (nonlinear_arith)
            requires
                digits_val(s, k - 1) >= 0,
        ;
    }
}

/// `digits_val` reads only the first `k` characters.
pub proof fn lemma_digits_val_prefix(a: Seq<char>, b: Seq<char>, k: int)
    requires
        0 <= k,
        forall|j: int| 0 <= j < k ==> a[j] == b[j],
    ensures
        digits_val(a, k) == digits_val(b, k),
    decreases k,
{
    if k > 0 {
        lemma_digits_val_prefix(a, b, k - 1);
    }
}

/// A date in `YYYY-MM-DD` form; `None` unless the text has exactly that
/// shape and names a real calendar date.
pub open spec fn parse_date_spec(s: Seq<char>) -> Option<Date> {
    if s.len() == 10 && is_digit(s[0]) && is_digit(s[1]) && is_digit(s[2]) && is_digit(s[3])
        && s[4] == '-' && is_digit(s[5]) && is_digit(s[6]) && s[7] == '-' && is_digit(s[8])
        && is_digit(s[9]) {
        let d = Date {
            year: (digits_val(s, 4)) as i32,
            month: (digit_val(s[5]) * 10 + digit_val(s[6])) as i32,
            day: (digit_val(s[8]) * 10 + digit_val(s[9])) as i32,
        };
        if d.valid() {
            Some(d)
        } else {
            None
        }
    } else {
        None
    }
}

pub fn parse_date(s: &str) -> (r: Option<Date>)
    ensures
        r == parse_date_spec(s@),
{
    let n = s.unicode_len();
    if n != 10 {
        return None;
    }
    let mut i: usize = 0;
    while i < 10
        invariant
            s@.len() == 10,
            i <= 10,
            forall|j: int| 0 <= j < i && j != 4 && j != 7 ==> is_digit(s@[j]),
            forall|j: int| 0 <= j < i && (j == 4 || j == 7) ==> s@[j] == '-',
        decreases 10 - i,
    {
        let c = s.get_char(i);
        if i == 4 || i == 7 {
            if c != '-' {
                return None;
            }
        } else {
            let cu = c as u32;
            if cu < 48 || cu > 57 {
                return None;
            }
        }
        i = i + 1;
    }
    let y: u32 = (s.get_char(0) as u32 - 48) * 1000 + (s.get_char(1) as u32 - 48) * 100 + (
    s.get_char(2) as u32 - 48) * 10 + (s.get_char(3) as u32 - 48);
    let m: u32 = (s.get_char(5) as u32 - 48) * 10 + (s.get_char(6) as u32 - 48);
    let d: u32 = (s.get_char(8) as u32 - 48) * 10 + (s.get_char(9) as u32 - 48);
    proof {
        assert(digits_val(s@, 0) == 0);
        assert(digits_val(s@, 1) == digit_val(s@[0]));
        assert(digits_val(s@, 2) == digits_val(s@, 1) * 10 + digit_val(s@[1]));
        assert(digits_val(s@, 3) == digits_val(s@, 2) * 10 + digit_val(s@[2]));
        assert(digits_val(s@, 4) == digits_val(s@, 3) * 10 + digit_val(s@[3]));
    }
    let date = Date { year: y as i32, month: m as i32, day: d as i32 };
    let dv = if date.month >= 1 && date.month <= 12 {
        crate::date::days_in_month(date.year, date.month)
    } else {
        0
    };
    if date.year >= crate::date::MIN_YEAR && date.month >= 1 && date.month <= 12 && date.day >= 1
        && date.day <= dv {
        Some(date)
    } else {
        None
    }
}

/// Position of the first `'.'` from `k` on, or the length when there is none.
pub open spec fn dot_pos(s: Seq<char>, k: int) -> int
    decreases s.len() - k,
{
    if k < 0 || k >= s.len() {
        s.len() as int
    } else if s[k] == '.' {
        k
    } else {
        dot_pos(s, k + 1)
    }
}

proof fn lemma_dot_pos_at(t: Seq<char>, k: int, p: int)
    requires
        0 <= k <= p <= t.len(),
        forall|j: int| k <= j < p ==> t[j] != '.',
        p < t.len() ==> t[p] == '.',
    ensures
        dot_pos(t, k) == p,
    decreases t.len() - k,
{
    if k < t.len() && k < p {
        lemma_dot_pos_at(t, k + 1, p);
    }
}

/// The value of a fractional part in micro-units: the first six digits,
/// padded with zeros; digits beyond the sixth are dropped.
pub open spec fn frac_micro(s: Seq<char>) -> int {
    if s.len() >= 6 {
        digits_val(s, 6)
    } else {
        digits_val(s, s.len() as int) * p10((6 - s.len()) as nat)
    }
}

/// A plain signed decimal number — an optional `'-'`, digits, then
/// optionally a `'.'` and more digits — as micro-units, fraction truncated
/// beyond six digits. `None` for any other shape or more than 25 characters.
pub open spec fn parse_decimal_spec(s: Seq<char>) -> Option<int> {
    let neg = s.len() > 0 && s[0] == '-';
    let t = if neg {
        s.drop_first()
    } else {
        s
    };
    let dp = dot_pos(t, 0);
    let whole = t.take(dp);
    let frac = if dp < t.len() {
        t.subrange(dp + 1, t.len() as int)
    } else {
        Seq::empty()
    };
    if s.len() <= 25 && whole.len() >= 1 && all_digits(whole, whole.len() as int) && all_digits(
        frac,
        frac.len() as int,
    ) {
        let v = digits_val(whole, whole.len() as int) * (SCALE as int) + frac_micro(frac);
        Some(
            if neg {
                -v
            } else {
                v
            },
        )
    } else {
        None
    }
}

/// Ten to a small power, as a machine number.
fn pow10(e: usize) -> (r: i128)
    requires
        e <= 24,
    ensures
        r == p10(e as nat),
{
    proof {
        lemma_p10_24();
    }
    let mut r: i128 = 1;
    let mut i: usize = 0;
    while i < e
        invariant
            i <= e <= 24,
            r == p10(i as nat),
        decreases e - i,
    {
        proof {
            lemma_p10_positive(i as nat);
            lemma_p10_monotone(i as nat, 23nat);
            lemma_p10_24();
            assert(p10(23) * 10 == p10(24));
        }
        r = r * 10;
        i = i + 1;
    }
    r
}

pub fn parse_decimal_micro(s: &str) -> (r: Option<i128>)
    ensures
        match r {
            Some(v) => parse_decimal_spec(s@) == Some(v as int),
            None => parse_decimal_spec(s@) is None,
        },
{
    let n = s.unicode_len();
    if n == 0 || n > 25 {
        return None;
    }
    let neg = s.get_char(0) == '-';
    let start: usize = if neg {
        1
    } else {
        0
    };
    let ghost t = if neg {
        s@.drop_first()
    } else {
        s@
    };
    // Find the dot within the unsigned part.
    let mut dp: usize = start;
    while dp < n && s.get_char(dp) != '.'
        invariant
            n == s@.len(),
            start <= dp <= n,
            start == if neg {
                1int
            } else {
                0
            },
            neg == (s@.len() > 0 && s@[0] == '-'),
            n <= 25,
            t == (if neg {
                s@.drop_first()
            } else {
                s@
            }),
            forall|j: int| start <= j < dp ==> s@[j] != '.',
        decreases n - dp,
    {
        dp = dp + 1;
    }
    proof {
        assert forall|j: int| 0 <= j < dp - start implies t[j] != '.' by {
            assert(t[j] == s@[j + start]);
        }
        if dp < n {
            assert(t[dp - start] == s@[dp as int]);
        }
        lemma_dot_pos_at(t, 0, dp - start);
    }
    if dp == start {
        // Empty whole part.
        return None;
    }
    // Whole part.
    let mut w: i128 = 0;
    let mut i: usize = start;
    while i < dp
        invariant
            n == s@.len(),
            n <= 25,
            start <= i <= dp <= n,
            start == if neg {
                1int
            } else {
                0
            },
            neg == (s@.len() > 0 && s@[0] == '-'),
            t == (if neg {
                s@.drop_first()
            } else {
                s@
            }),
            dot_pos(t, 0) == dp - start,
            forall|j: int| 0 <= j < i - start ==> is_digit(t[j]),
            w == digits_val(t, i - start),
            0 <= w,
        decreases dp - i,
    {
        let c = s.get_char(i);
        let cu = c as u32;
        proof {
            assert(t[i - start] == s@[i as int]);
        }
        if cu < 48 || cu > 57 {
            proof {
                let whole = t.take(dp - start);
                assert(whole[i - start] == t[i - start]);
                assert(!all_digits(whole, whole.len() as int));
            }
            return None;
        }
        proof {
            lemma_digits_val_bound(t, i + 1 - start);
            lemma_digits_val_bound(t, i - start);
            lemma_p10_monotone((i - start) as nat, 25nat);
            lemma_p10_24();
            assert(w * 10 + digit_val(s@[i as int]) == digits_val(t, i + 1 - start));
        }
        w = w * 10 + ((cu as i128) - 48);
        i = i + 1;
    }
    proof {
        lemma_digits_val_bound(t, dp - start);
        lemma_p10_monotone((dp - start) as nat, 25nat);
        lemma_p10_24();
    }
    // Fraction part: first six digits count, zero-padded to six.
    let mut f: i128 = 0;
    let mut fl: usize = 0;
    let ghost frac = if dp < n {
        t.subrange(dp - start + 1, t.len() as int)
    } else {
        Seq::<char>::empty()
    };
    if dp < n {
        let mut j: usize = dp + 1;
        while j < n
            invariant
                n == s@.len(),
                n <= 25,
                start == if neg {
                    1int
                } else {
                    0
                },
                neg == (s@.len() > 0 && s@[0] == '-'),
                start < dp + 1 <= j <= n,
                t == (if neg {
                    s@.drop_first()
                } else {
                    s@
                }),
                frac == t.subrange(dp - start + 1, t.len() as int),
                dot_pos(t, 0) == dp - start,
                frac.len() == n - dp - 1,
                fl == if j - dp - 1 <= 6 {
                    j - dp - 1
                } else {
                    6int
                },
                forall|q: int| 0 <= q < j - dp - 1 ==> is_digit(frac[q]),
                f == digits_val(frac, fl as int),
                0 <= f < 1_000_000,
            decreases n - j,
        {
            let c = s.get_char(j);
            let cu = c as u32;
            proof {
                assert(frac[j - dp - 1] == t[j - start]);
                assert(t[j - start] == s@[j as int]);
            }
            if cu < 48 || cu > 57 {
                proof {
                    assert(!all_digits(frac, frac.len() as int));
                }
                return None;
            }
            if fl < 6 {
                proof {
                    lemma_digits_val_bound(frac, fl + 1);
                    lemma_p10_monotone((fl + 1) as nat, 6nat);
                    lemma_p10_24();
                }
                f = f * 10 + ((cu as i128) - 48);
                fl = fl + 1;
            }
            j = j + 1;
        }
    }
    let fscale = pow10(if 6 >= fl {
        6 - fl
    } else {
        0
    });
    proof {
        lemma_p10_positive((6 - fl) as nat);
        lemma_p10_monotone((6 - fl) as nat, 6nat);
        lemma_p10_24();
        assert(0 <= f * fscale <= 1_000_000 * 1_000_000) by (nonlinear_arith)
            requires
                0 <= f < 1_000_000,
                1 <= fscale <= 1_000_000,
        ;
    }
    let fm: i128 = f * fscale;
    proof {
        // The scanned parts are exactly the spec's whole and fraction.
        let whole = t.take(dp - start);
        lemma_digits_val_prefix(whole, t, dp - start);
        if dp < n {
            if frac.len() >= 6 {
                assert(fl == 6);
                assert(fm == f * 1) by (nonlinear_arith)
                    requires
                        fscale == 1,
                        fm == f * fscale,
                ;
            } else {
                assert(fl == frac.len());
            }
            assert(fm == frac_micro(frac));
        } else {
            assert(frac_micro(Seq::<char>::empty()) == 0 * p10(6nat)) by {
                assert(digits_val(Seq::<char>::empty(), 0) == 0);
            }
            assert(0 * p10(6nat) == 0) by (nonlinear_arith);
        }
        assert(0 <= w * (SCALE as int) <= 10_000_000_000_000_000_000_000_000 * 1_000_000)
            by (nonlinear_arith)
            requires
                0 <= w <= 10_000_000_000_000_000_000_000_000,
                SCALE == 1_000_000,
        ;
    }
    let v: i128 = w * SCALE + fm;
    if neg {
        Some(-v)
    } else {
        Some(v)
    }
}

/// The decimal spelling of a nonnegative number.
pub open spec fn dec_str(n: int) -> Seq<char>
    decreases n,
{
    if n <= 9 {
        seq![((n + 48) as u32) as char]
    } else {
        dec_str(n / 10).push((((n % 10) + 48) as u32) as char)
    }
}

fn digit_str(d: u16) -> (r: &'static str)
    requires
        d <= 9,
    ensures
        r@ == seq![(((d + 48) as u32) as char)],
{
    proof {
        reveal_strlit("0");
        reveal_strlit("1");
        reveal_strlit("2");
        reveal_strlit("3");
        reveal_strlit("4");
        reveal_strlit("5");
        reveal_strlit("6");
        reveal_strlit("7");
        reveal_strlit("8");
        reveal_strlit("9");
    }
    let r = match d {
        0 => "0",
        1 => "1",
        2 => "2",
        3 => "3",
        4 => "4",
        5 => "5",
        6 => "6",
        7 => "7",
        8 => "8",
        _ => "9",
    };
    proof {
        assert(r@ =~= seq![(((d + 48) as u32) as char)]);
    }
    r
}

/// A small number spelt in decimal.
pub fn u16_to_string(n: u16) -> (r: String)
    ensures
        r@ == dec_str(n as int),
    decreases n,
{
    if n <= 9 {
        String::from_str(digit_str(n))
    } else {
        let mut head = u16_to_string(n / 10);
        head.append(digit_str(n % 10));
        proof {
            assert(dec_str((n / 10) as int) + seq![((((n as int) % 10 + 48) as u32) as char)]
                =~= dec_str(n as int));
        }
        head
    }
}

} // verus!
