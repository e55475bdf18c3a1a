use vstd::prelude::*;
use vstd::arithmetic::div_mod::{lemma_fundamental_div_mod, lemma_mod_division_less_than_divisor};

verus! {

/// One whole unit in fixed-point representation: values carry eight
/// decimal places.
pub const FIXED_SCALE: u64 = 100_000_000;

pub open spec fn is_digit(c: char) -> bool {
    48 <= c as int <= 57
}

pub open spec fn digit_val(c: char) -> int {
    c as int - 48
}

pub open spec fn all_digits(s: Seq<char>) -> bool {
    forall|i: int| 0 <= i < s.len() ==> is_digit(#[trigger] s[i])
}

/// The number a string of decimal digits denotes, most significant first.
pub open spec fn digits_val(s: Seq<char>) -> int
    decreases s.len(),
{
    if s.len() == 0 {
        0
    } else {
        digits_val(s.drop_last()) * 10 + digit_val(s.last())
    }
}

pub open spec fn pow10(k: nat) -> int
    decreases k,
{
    if k == 0 {
        1
    } else {
        10 * pow10((k - 1) as nat)
    }
}

/// The index of the first `.` in `s`, or `s.len()` if there is none.
pub open spec fn dot_index(s: Seq<char>) -> int
    decreases s.len(),
{
    if s.len() == 0 {
        0
    } else if s[0] == '.' {
        0
    } else {
        1 + dot_index(s.drop_first())
    }
}

/// The decimal strings this library accepts for prices and quantities: a
/// non-empty run of digits, optionally followed by a point and further
/// digits. Anything else — empty, signed, exponent forms — is malformed.
pub open spec fn spec_fixed_valid(s: Seq<char>) -> bool {
    let d = dot_index(s);
    &&& d >= 1
    &&& all_digits(s.subrange(0, d))
    &&& (d < s.len() ==> all_digits(s.subrange(d + 1, s.len() as int)))
}

/// The value a valid decimal string denotes, in fixed-point units: the
/// integer part scaled up, plus the first eight fractional digits scaled
/// to their place; fractional digits beyond the eighth are truncated.
pub open spec fn spec_fixed_value(s: Seq<char>) -> int {
    let d = dot_index(s);
    let frac = if d < s.len() {
        s.subrange(d + 1, s.len() as int)
    } else {
        Seq::<char>::empty()
    };
    let f8 = if frac.len() <= 8 {
        frac
    } else {
        frac.subrange(0, 8)
    };
    digits_val(s.subrange(0, d)) * FIXED_SCALE + digits_val(f8) * pow10((8 - f8.len()) as nat)
}

/// What parsing a price or quantity string yields: the denoted fixed-point
/// value, or 0 where the string is malformed or the value does not fit —
/// the deliberate lossy-but-live policy for numeric fields.
pub open spec fn spec_parse_fixed(s: Seq<char>) -> u64 {
    if spec_fixed_valid(s) && spec_fixed_value(s) <= u64::MAX {
        spec_fixed_value(s) as u64
    } else {
        0
    }
}

proof fn lemma_dot_index_range(s: Seq<char>)
    ensures
        0 <= dot_index(s) <= s.len(),
        dot_index(s) < s.len() ==> s[dot_index(s)] == '.',
        forall|j: int| 0 <= j < dot_index(s) ==> s[j] != '.',
    decreases s.len(),
{
    if s.len() > 0 && s[0] != '.' {
        lemma_dot_index_range(s.drop_first());
        assert forall|j: int| 0 <= j < dot_index(s) implies s[j] != '.' by {
            if j > 0 {
                assert(s.drop_first()[j - 1] == s[j]);
            }
        }
    }
}

proof fn lemma_dot_index_is(s: Seq<char>, d: int)
    requires
        0 <= d <= s.len(),
        forall|j: int| 0 <= j < d ==> s[j] != '.',
        d < s.len() ==> s[d] == '.',
    ensures
        dot_index(s) == d,
    decreases s.len(),
{
    if s.len() > 0 && s[0] != '.' {
        lemma_dot_index_is(s.drop_first(), d - 1);
    }
}

proof fn lemma_digits_val_nonneg(s: Seq<char>)
    requires
        all_digits(s),
    ensures
        digits_val(s) >= 0,
    decreases s.len(),
{
    if s.len() > 0 {
        assert(all_digits(s.drop_last()));
        lemma_digits_val_nonneg(s.drop_last());
    }
}

/// Appending one digit multiplies the denoted value by ten and adds it.
proof fn lemma_digits_val_snoc(s: Seq<char>, i: int)
    requires
        0 <= i < s.len(),
    ensures
        digits_val(s.subrange(0, i + 1)) == digits_val(s.subrange(0, i)) * 10 + digit_val(s[i]),
{
    assert(s.subrange(0, i + 1).drop_last() =~= s.subrange(0, i));
    assert(s.subrange(0, i + 1).last() == s[i]);
}

/// A digit string's value never shrinks as more digits follow.
proof fn lemma_digits_val_prefix_le(s: Seq<char>, i: int)
    requires
        0 <= i <= s.len(),
        all_digits(s),
    ensures
        digits_val(s.subrange(0, i)) <= digits_val(s),
    decreases s.len() - i,
{
    if i == s.len() {
        assert(s.subrange(0, i) =~= s);
    } else {
        lemma_digits_val_snoc(s, i);
        assert(all_digits(s.subrange(0, i)));
        lemma_digits_val_nonneg(s.subrange(0, i));
        lemma_digits_val_prefix_le(s, i + 1);
    }
}

/// Ten to the `k`, for the fixed-point fractional scales.
pub fn pow10_u64(k: u64) -> (r: u64)
    requires
        k <= 8,
    ensures
        r == pow10(k as nat),
        r <= 100_000_000,
{
    proof {
        reveal_with_fuel(pow10, 9);
    }
    let mut r: u64 = 1;
    let mut i: u64 = 0;
    while i < k
        invariant
            i <= k <= 8,
            r == pow10(i as nat),
            r <= 100_000_000,
        decreases k - i,
    {
        proof {
            reveal_with_fuel(pow10, 9);
        }
        r = r * 10;
        i = i + 1;
    }
    r
}

/// Parses a decimal string to a fixed-point value with eight decimal
/// places. Malformed input and values that do not fit yield 0, so a bad
/// message degrades instead of failing the stream.
pub fn parse_fixed(s: &str) -> (r: u64)
    ensures
        r == spec_parse_fixed(s@),
{
    let n = s.unicode_len();
    // locate the fraction point
    let mut d: usize = n;
    for i in 0..n
        invariant
            n == s@.len(),
            d == n || (d < i && s@[d as int] == '.' && (forall|j: int|
                0 <= j < d ==> s@[j] != '.')),
            d == n ==> forall|j: int| 0 <= j < i ==> s@[j] != '.',
    {
        if d == n && s.get_char(i) == '.' {
            d = i;
        }
    }
    proof {
        lemma_dot_index_is(s@, d as int);
    }
    if d == 0 {
        // empty integer part (or an empty string): malformed
        return 0;
    }
    // integer part
    let mut int_acc: u64 = 0;
    let mut i: usize = 0;
    while i < d
        invariant
            0 <= i <= d <= n,
            n == s@.len(),
            dot_index(s@) == d,
            all_digits(s@.subrange(0, i as int)),
            int_acc == digits_val(s@.subrange(0, i as int)),
        decreases d - i,
    {
        let c = s.get_char(i);
        let cv = c as u32;
        if cv < 48 || cv > 57 {
            // a non-digit in the integer part: malformed
            proof {
                assert(s@.subrange(0, d as int)[i as int] == s@[i as int]);
                assert(!is_digit(s@.subrange(0, d as int)[i as int]));
            }
            return 0;
        }
        proof {
            lemma_digits_val_snoc(s@, i as int);
            assert(s@.subrange(0, i as int + 1) =~= s@.subrange(0, i as int).push(s@[i as int]));
        }
        let dv = (cv - 48) as u64;
        if int_acc > (u64::MAX - dv) / 10 {
            // the integer part alone exceeds the representable range; the
            // full value can only be larger, so the parse degrades to 0
            proof {
                assert(int_acc as int * 10 + dv as int > u64::MAX);
                lemma_fixed_overflow(s@, i as int + 1);
            }
            return 0;
        }
        int_acc = int_acc * 10 + dv;
        i = i + 1;
    }
    // fractional part: every character must be a digit; only the first
    // eight contribute to the value
    let mut frac_acc: u64 = 0;
    let mut taken: usize = 0;
    if d < n {
        let mut j: usize = d + 1;
        while j < n
            invariant
                d < n,
                d + 1 <= j <= n,
                n == s@.len(),
                dot_index(s@) == d,
                taken as int == if j - (d + 1) <= 8 {
                    j - (d + 1)
                } else {
                    8
                },
                all_digits(s@.subrange(d as int + 1, j as int)),
                frac_acc == digits_val(s@.subrange(d as int + 1, d as int + 1 + taken as int)),
                frac_acc < pow10(taken as nat),
            decreases n - j,
        {
            let c = s.get_char(j);
            let cv = c as u32;
            if cv < 48 || cv > 57 {
                proof {
                    assert(s@.subrange(d as int + 1, n as int)[j - (d as int + 1)]
                        == s@[j as int]);
                    assert(!is_digit(s@.subrange(d as int + 1, n as int)[j - (d as int + 1)]));
                }
                return 0;
            }
            proof {
                assert(s@.subrange(d as int + 1, j as int + 1) =~= s@.subrange(
                    d as int + 1,
                    j as int,
                ).push(s@[j as int]));
            }
            if taken < 8 {
                proof {
                    let pre = s@.subrange(d as int + 1, d as int + 1 + taken as int);
                    assert(s@.subrange(d as int + 1, d as int + 1 + (taken as int + 1)) =~= pre.push(
                        s@[d as int + 1 + taken as int],
                    ));
                    assert(pre.push(s@[d as int + 1 + taken as int]).drop_last() =~= pre);
                    lemma_pow10_mono(taken as nat, 7);
                    reveal_with_fuel(pow10, 9);
                }
                let dv = (cv - 48) as u64;
                frac_acc = frac_acc * 10 + dv;
                taken = taken + 1;
            }
            j = j + 1;
        }
    }
    proof {
        assert(spec_fixed_valid(s@));
    }
    // assemble in 128 bits, then range-check
    let scale_down = pow10_u64(8 - (taken as u64));
    proof {
        lemma_assemble_fits(int_acc, frac_acc, scale_down);
        lemma_fixed_value_parts(s@, d as int, taken as int);
    }
    let total: u128 = (int_acc as u128) * (FIXED_SCALE as u128) + (frac_acc as u128) * (
    scale_down as u128);
    if total > u64::MAX as u128 {
        return 0;
    }
    total as u64
}

/// What parsing a signed 32-bit integer yields: an optional sign followed
/// by at least one digit, rejected when the value leaves the `i32` range.
pub open spec fn spec_parse_i32(s: Seq<char>) -> Option<i32> {
    let neg = s.len() > 0 && s[0] == '-';
    let signed = s.len() > 0 && (s[0] == '-' || s[0] == '+');
    let digits = if signed {
        s.drop_first()
    } else {
        s
    };
    if digits.len() >= 1 && all_digits(digits) {
        if !neg && digits_val(digits) <= i32::MAX {
            Some(digits_val(digits) as i32)
        } else if neg && digits_val(digits) <= 0x8000_0000 {
            Some((-digits_val(digits)) as i32)
        } else {
            None
        }
    } else {
        None
    }
}

/// Parses a decimal `i32`, as the symbol table's id column requires:
/// optional sign, digits, in range — anything else is `None`.
pub fn parse_i32(s: &str) -> (r: Option<i32>)
    ensures
        r == spec_parse_i32(s@),
{
    let n = s.unicode_len();
    if n == 0 {
        return None;
    }
    let c0 = s.get_char(0);
    let neg = c0 == '-';
    let signed = neg || c0 == '+';
    let start: usize = if signed {
        1
    } else {
        0
    };
    let ghost digits = if signed {
        s@.drop_first()
    } else {
        s@
    };
    proof {
        assert(digits.len() == n - start);
        assert(forall|j: int| 0 <= j < digits.len() ==> digits[j] == s@[j + start]);
    }
    if n == start {
        // a bare sign with no digits
        return None;
    }
    let bound: u64 = if neg {
        2147483648
    } else {
        2147483647
    };
    let mut acc: u64 = 0;
    let mut i: usize = start;
    while i < n
        invariant
            start <= i <= n,
            n == s@.len(),
            n > 0,
            neg == (s@[0] == '-'),
            signed == (s@[0] == '-' || s@[0] == '+'),
            bound == if neg {
                2147483648u64
            } else {
                2147483647u64
            },
            start == if signed {
                1int
            } else {
                0int
            },
            digits == if signed {
                s@.drop_first()
            } else {
                s@
            },
            digits.len() == n - start,
            forall|j: int| 0 <= j < digits.len() ==> digits[j] == s@[j + start],
            all_digits(digits.subrange(0, i - start)),
            acc == digits_val(digits.subrange(0, i - start)),
            acc <= bound,
        decreases n - i,
    {
        let c = s.get_char(i);
        let cv = c as u32;
        let ghost k = i - start;
        if cv < 48 || cv > 57 {
            proof {
                assert(digits[k as int] == s@[i as int]);
                assert(!is_digit(digits[k as int]));
            }
            return None;
        }
        proof {
            lemma_digits_val_snoc(digits, k as int);
        }
        let dv = (cv - 48) as u64;
        if acc > (bound - dv) / 10 {
            proof {
                lemma_fundamental_div_mod((bound - dv) as int, 10);
                lemma_mod_division_less_than_divisor((bound - dv) as int, 10);
                assert(acc as int * 10 + dv as int > bound as int);
                if all_digits(digits) {
                    lemma_digits_val_prefix_le(digits, k as int + 1);
                }
            }
            return None;
        }
        acc = acc * 10 + dv;
        i = i + 1;
    }
    proof {
        assert(digits.subrange(0, n - start) =~= digits);
    }
    if neg {
        Some(-(acc as i64) as i32)
    } else {
        Some(acc as i32)
    }
}

/// The character for one decimal digit.
pub open spec fn digit_char(d: int) -> char {
    ((48 + d) as u8) as char
}

/// The decimal rendering of an unsigned number, most significant digit
/// first, with no leading zeros (a single `0` for zero).
pub open spec fn spec_u64_digits(n: nat) -> Seq<char>
    decreases n,
{
    if n < 10 {
        seq![digit_char(n as int)]
    } else {
        spec_u64_digits(n / 10).push(digit_char((n % 10) as int))
    }
}

fn digit_str(d: u8) -> (r: &'static str)
    requires
        d < 10,
    ensures
        r@.len() == 1,
        r@[0] == digit_char(d as int),
{
    match d {
        0 => {
            proof {
                reveal_strlit("0");
            }
            "0"
        },
        1 => {
            proof {
                reveal_strlit("1");
            }
            "1"
        },
        2 => {
            proof {
                reveal_strlit("2");
            }
            "2"
        },
        3 => {
            proof {
                reveal_strlit("3");
            }
            "3"
        },
        4 => {
            proof {
                reveal_strlit("4");
            }
            "4"
        },
        5 => {
            proof {
                reveal_strlit("5");
            }
            "5"
        },
        6 => {
            proof {
                reveal_strlit("6");
            }
            "6"
        },
        7 => {
            proof {
                reveal_strlit("7");
            }
            "7"
        },
        8 => {
            proof {
                reveal_strlit("8");
            }
            "8"
        },
        _ => {
            proof {
                reveal_strlit("9");
            }
            "9"
        },
    }
}

/// Renders a number in decimal, exactly as its digit sequence.
pub fn u64_to_string(n: u64) -> (r: String)
    ensures
        r@ == spec_u64_digits(n as nat),
    decreases n,
{
    let d = (n % 10) as u8;
    let ds = digit_str(d);
    if n < 10 {
        proof {
            assert(ds@ =~= spec_u64_digits(n as nat));
        }
        ds.to_owned()
    } else {
        let mut prefix = u64_to_string(n / 10);
        prefix.append(ds);
        proof {
            assert(prefix@ =~= spec_u64_digits(n as nat));
        }
        prefix
    }
}

/// Powers of ten grow with the exponent.
proof fn lemma_pow10_mono(a: nat, b: nat)
    requires
        a <= b,
    ensures
        pow10(a) <= pow10(b),
    decreases b,
{
    if a < b {
        lemma_pow10_mono(a, (b - 1) as nat);
        lemma_pow10_pos((b - 1) as nat);
    }
}

/// Once the integer part's prefix alone no longer fits a `u64`, the whole
/// string either is malformed or denotes a value above `u64::MAX`: the
/// parse yields 0 either way.
proof fn lemma_fixed_overflow(s: Seq<char>, i: int)
    requires
        0 < i <= dot_index(s),
        all_digits(s.subrange(0, i)),
        digits_val(s.subrange(0, i)) > u64::MAX,
    ensures
        spec_parse_fixed(s) == 0,
{
    lemma_dot_index_range(s);
    let d = dot_index(s);
    if spec_fixed_valid(s) {
        let ip = s.subrange(0, d);
        assert(s.subrange(0, i) =~= ip.subrange(0, i));
        lemma_digits_val_prefix_le(ip, i);
        let frac = if d < s.len() {
            s.subrange(d + 1, s.len() as int)
        } else {
            Seq::<char>::empty()
        };
        let f8 = if frac.len() <= 8 {
            frac
        } else {
            frac.subrange(0, 8)
        };
        assert(all_digits(f8));
        lemma_digits_val_nonneg(f8);
        lemma_pow10_pos((8 - f8.len()) as nat);
        vstd::arithmetic::mul::lemma_mul_nonnegative(digits_val(f8), pow10((8 - f8.len()) as nat));
        assert(digits_val(ip) * FIXED_SCALE >= digits_val(ip)) by (nonlinear_arith)
            requires
                digits_val(ip) >= 0,
                FIXED_SCALE >= 1,
        ;
    }
}

proof fn lemma_pow10_pos(k: nat)
    ensures
        pow10(k) >= 1,
    decreases k,
{
    if k > 0 {
        lemma_pow10_pos((k - 1) as nat);
    }
}

/// The assembled 128-bit value cannot overflow: both parts stay below
/// `2^64 * 10^8`.
proof fn lemma_assemble_fits(int_acc: u64, frac_acc: u64, scale_down: u64)
    requires
        scale_down <= 100_000_000,
    ensures
        0 <= int_acc as int * FIXED_SCALE as int <= u128::MAX,
        0 <= frac_acc as int * scale_down as int <= u128::MAX,
        int_acc as int * FIXED_SCALE as int + frac_acc as int * scale_down as int <= u128::MAX,
{
    vstd::arithmetic::mul::lemma_mul_inequality(
        int_acc as int,
        u64::MAX as int,
        FIXED_SCALE as int,
    );
    vstd::arithmetic::mul::lemma_mul_upper_bound(
        frac_acc as int,
        u64::MAX as int,
        scale_down as int,
        100_000_000,
    );
    vstd::arithmetic::mul::lemma_mul_nonnegative(int_acc as int, FIXED_SCALE as int);
    vstd::arithmetic::mul::lemma_mul_nonnegative(frac_acc as int, scale_down as int);
}

/// Relates the two accumulators of the parsing loops to the denoted value
/// of the whole (by now known valid) string.
proof fn lemma_fixed_value_parts(s: Seq<char>, d: int, taken: int)
    requires
        dot_index(s) == d,
        0 <= d <= s.len(),
        0 <= taken <= 8,
        d < s.len() ==> taken == if s.len() - (d + 1) <= 8 {
            s.len() - (d + 1)
        } else {
            8
        },
        d == s.len() ==> taken == 0,
    ensures
        d < s.len() ==> spec_fixed_value(s) == digits_val(s.subrange(0, d)) * FIXED_SCALE
            + digits_val(s.subrange(d + 1, d + 1 + taken)) * pow10((8 - taken) as nat),
        d == s.len() ==> spec_fixed_value(s) == digits_val(s.subrange(0, d)) * FIXED_SCALE,
{
    let frac = if d < s.len() {
        s.subrange(d + 1, s.len() as int)
    } else {
        Seq::<char>::empty()
    };
    let f8 = if frac.len() <= 8 {
        frac
    } else {
        frac.subrange(0, 8)
    };
    if d < s.len() {
        assert(f8 =~= s.subrange(d + 1, d + 1 + taken));
    } else {
        assert(s.subrange(0, d) =~= s);
        assert(digits_val(f8) == 0);
        vstd::arithmetic::mul::lemma_mul_by_zero_is_zero(pow10((8 - f8.len()) as nat));
    }
}

} // verus!
