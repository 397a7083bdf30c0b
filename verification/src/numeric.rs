//! Fixed-point decimal numbers.
//!
//! Venues quote prices and amounts as decimal strings.  The library holds
//! such a value as a signed count of `10^-8` units in an `i64`, so that
//! equality, ordering and the spread are exact integer operations.  A string
//! is accepted when it matches `['+'|'-'] digits ['.' digits]` with at least
//! one digit in all, at most eight fractional digits, and a value whose unit
//! count fits in an `i64`; anything else is rejected.

use vstd::prelude::*;
use vstd::string::StrSliceExecFns;

verus! {

/// The value of a decimal digit character, or `-1` for any other character.
pub open spec fn digit_value(c: char) -> int {
    match c {
        '0' => 0,
        '1' => 1,
        '2' => 2,
        '3' => 3,
        '4' => 4,
        '5' => 5,
        '6' => 6,
        '7' => 7,
        '8' => 8,
        '9' => 9,
        _ => -1,
    }
}

/// Whether a character is a decimal digit.
pub open spec fn is_digit(c: char) -> bool {
    digit_value(c) >= 0
}

/// Whether every character of a sequence is a decimal digit.
pub open spec fn all_digits(s: Seq<char>) -> bool {
    forall|i: int| 0 <= i < s.len() ==> is_digit(#[trigger] s[i])
}

/// The value of a sequence of decimal digits, most significant first.
pub open spec fn digits_value(s: Seq<char>) -> int
    decreases s.len(),
{
    if s.len() == 0 {
        0
    } else {
        digits_value(s.drop_last()) * 10 + digit_value(s.last())
    }
}

/// `10^k`.
pub open spec fn pow10(k: nat) -> int
    decreases k,
{
    if k == 0 {
        1
    } else {
        10 * pow10((k - 1) as nat)
    }
}

/// The index of the first `'.'` in the sequence, or its length if there is
/// none.
pub open spec fn dot_index(s: Seq<char>) -> int
    decreases s.len(),
{
    if s.len() == 0 {
        0
    } else if s[0] == '.' {
        0
    } else {
        1 + dot_index(s.drop_first())
    }
}

/// Splits an optional leading sign off a number string: whether the value is
/// negated, and the rest.
pub open spec fn spec_sign_split(s: Seq<char>) -> (bool, Seq<char>) {
    if s.len() > 0 && s[0] == '-' {
        (true, s.drop_first())
    } else if s.len() > 0 && s[0] == '+' {
        (false, s.drop_first())
    } else {
        (false, s)
    }
}

/// The digits before the first dot.
pub open spec fn spec_int_part(body: Seq<char>) -> Seq<char> {
    body.take(dot_index(body))
}

/// The digits after the first dot, empty if there is no dot.
pub open spec fn spec_frac_part(body: Seq<char>) -> Seq<char> {
    if dot_index(body) < body.len() {
        body.skip(dot_index(body) + 1)
    } else {
        Seq::empty()
    }
}

/// The unsigned count of `10^-8` units that an unsigned number body denotes.
pub open spec fn spec_units_of(body: Seq<char>) -> int
    recommends
        spec_frac_part(body).len() <= 8,
{
    digits_value(spec_int_part(body)) * 100_000_000 + digits_value(spec_frac_part(body)) * pow10(
        (8 - spec_frac_part(body).len()) as nat,
    )
}

/// Whether an unsigned number body is accepted.
pub open spec fn spec_body_valid(body: Seq<char>) -> bool {
    &&& all_digits(spec_int_part(body))
    &&& all_digits(spec_frac_part(body))
    &&& spec_int_part(body).len() + spec_frac_part(body).len() >= 1
    &&& spec_frac_part(body).len() <= 8
    &&& spec_units_of(body) <= i64::MAX
}

/// The fixed-point value of a number string, if it is accepted.
pub open spec fn spec_parse_fixed(s: Seq<char>) -> Option<i64> {
    let (neg, body) = spec_sign_split(s);
    if spec_body_valid(body) {
        Some(
            (if neg {
                -spec_units_of(body)
            } else {
                spec_units_of(body)
            }) as i64,
        )
    } else {
        None
    }
}

/// The first dot is a dot, nothing before it is one, and if there is no dot
/// the index is the length.
proof fn lemma_dot_index(s: Seq<char>)
    ensures
        0 <= dot_index(s) <= s.len(),
        dot_index(s) < s.len() ==> s[dot_index(s)] == '.',
        forall|j: int| 0 <= j < dot_index(s) ==> s[j] != '.',
    decreases s.len(),
{
    if s.len() > 0 && s[0] != '.' {
        lemma_dot_index(s.drop_first());
        assert forall|j: int| 0 <= j < dot_index(s) implies s[j] != '.' by {
            if j > 0 {
                assert(s.drop_first()[j - 1] != '.');
            }
        }
    }
}

/// A sequence of digits has a non-negative value, below `10^len`.
proof fn lemma_digits_value_bounds(s: Seq<char>)
    requires
        all_digits(s),
    ensures
        0 <= digits_value(s) < pow10(s.len()),
    decreases s.len(),
{
    if s.len() > 0 {
        assert(all_digits(s.drop_last()));
        lemma_digits_value_bounds(s.drop_last());
        assert(is_digit(s.last()));
    }
}

/// Extending a digit string to the right can only increase its value.
proof fn lemma_digits_value_prefix(s: Seq<char>, i: int)
    requires
        all_digits(s),
        0 <= i <= s.len(),
    ensures
        0 <= digits_value(s.take(i)) <= digits_value(s),
    decreases s.len() - i,
{
    assert(all_digits(s.take(i)));
    lemma_digits_value_bounds(s.take(i));
    if i < s.len() {
        lemma_digits_value_prefix(s, i + 1);
        assert(s.take(i + 1).drop_last() =~= s.take(i));
        assert(is_digit(s.take(i + 1).last()));
        assert(digits_value(s.take(i)) <= digits_value(s.take(i + 1)));
    } else {
        assert(s.take(i) =~= s);
    }
}

/// The digit value of a character, or nothing.
fn digit_of(c: char) -> (r: Option<u64>)
    ensures
        r is Some <==> is_digit(c),
        r is Some ==> r->0 == digit_value(c),
{
    match c {
        '0' => Some(0),
        '1' => Some(1),
        '2' => Some(2),
        '3' => Some(3),
        '4' => Some(4),
        '5' => Some(5),
        '6' => Some(6),
        '7' => Some(7),
        '8' => Some(8),
        '9' => Some(9),
        _ => None,
    }
}

/// The concrete values of `10^k` for `k <= 8`.
proof fn lemma_pow10_small()
    ensures
        pow10(0) == 1,
        pow10(1) == 10,
        pow10(2) == 100,
        pow10(3) == 1000,
        pow10(4) == 10000,
        pow10(5) == 100000,
        pow10(6) == 1000000,
        pow10(7) == 10000000,
        pow10(8) == 100000000,
{
    assert(pow10(0) == 1);
    assert(pow10(1) == 10);
    assert(pow10(2) == 100);
    assert(pow10(3) == 1000);
    assert(pow10(4) == 10000);
    assert(pow10(5) == 100000);
    assert(pow10(6) == 1000000);
    assert(pow10(7) == 10000000);
    assert(pow10(8) == 100000000);
}

/// `10^k` for `k <= 8`.
fn pow10_u64(k: usize) -> (r: u64)
    requires
        k <= 8,
    ensures
        r == pow10(k as nat),
        1 <= r <= 100_000_000,
{
    proof {
        lemma_pow10_small();
    }
    match k {
        0 => 1,
        1 => 10,
        2 => 100,
        3 => 1000,
        4 => 10000,
        5 => 100000,
        6 => 1000000,
        7 => 10000000,
        _ => 100000000,
    }
}

/// The character of one decimal digit.
pub open spec fn spec_digit_char(d: int) -> char {
    seq!['0', '1', '2', '3', '4', '5', '6', '7', '8', '9'][d]
}

/// The decimal digits of a non-negative number, most significant first.
pub open spec fn spec_dec_digits(n: int) -> Seq<char>
    recommends
        n >= 0,
    decreases n,
{
    if n < 10 {
        seq![spec_digit_char(if n < 0 {
            0
        } else {
            n
        })]
    } else {
        spec_dec_digits(n / 10).push(spec_digit_char(n % 10))
    }
}

/// The string of one decimal digit.
fn digit_str(d: usize) -> (r: &'static str)
    requires
        d < 10,
    ensures
        r@ == seq![spec_digit_char(d as int)],
{
    proof {
        broadcast use vstd::string::group_string_axioms;

        reveal_strlit("0");
        reveal_strlit("1");
        reveal_strlit("2");
        reveal_strlit("3");
        reveal_strlit("4");
        reveal_strlit("5");
        reveal_strlit("6");
        reveal_strlit("7");
        reveal_strlit("8");
        reveal_strlit("9");
    }
    match d {
        0 => "0",
        1 => "1",
        2 => "2",
        3 => "3",
        4 => "4",
        5 => "5",
        6 => "6",
        7 => "7",
        8 => "8",
        _ => "9",
    }
}

/// Appends the decimal digits of a number to a string.
pub fn append_decimal(out: &mut String, n: usize)
    ensures
        final(out)@ == old(out)@ + spec_dec_digits(n as int),
    decreases n,
{
    if n < 10 {
        out.append(digit_str(n));
    } else {
        proof {
            assert(n / 10 < n) by (nonlinear_arith)
                requires
                    n >= 10,
            ;
        }
        append_decimal(out, n / 10);
        out.append(digit_str(n % 10));
        proof {
            assert(old(out)@ + spec_dec_digits(n as int) =~= old(out)@ + spec_dec_digits(
                n as int / 10,
            ) + seq![spec_digit_char(n as int % 10)]);
        }
    }
}

/// Reads a decimal number string as a signed count of `10^-8` units.
///
/// Accepts `['+'|'-'] digits ['.' digits]` with at least one digit, at most
/// eight fractional digits, and a unit count that fits in an `i64`.
pub fn parse_fixed(s: &str) -> (r: Option<i64>)
    ensures
        r == spec_parse_fixed(s@),
{
    let n = s.unicode_len();
    let ghost view = s@;
    let mut start: usize = 0;
    let mut neg: bool = false;
    if n > 0 {
        let c0 = s.get_char(0);
        if c0 == '-' {
            neg = true;
            start = 1;
        } else if c0 == '+' {
            start = 1;
        }
    }
    let ghost body = view.skip(start as int);
    proof {
        assert(spec_sign_split(view).0 == neg);
        assert(spec_sign_split(view).1 =~= body);
    }

    // Integer part: scan digits until a dot or the end.
    let mut j: usize = start;
    let mut acc: u64 = 0;
    let mut has_dot: bool = false;
    let mut dot_pos: usize = 0;
    while j < n && !has_dot
        invariant
            view == s@,
            spec_sign_split(view).0 == neg,
            spec_sign_split(view).1 == body,
            start <= j <= n,
            n == view.len(),
            body == view.skip(start as int),
            !has_dot ==> forall|k: int|
                start <= k < j ==> is_digit(#[trigger] view[k]) && view[k] != '.',
            !has_dot ==> acc == digits_value(view.subrange(start as int, j as int)),
            has_dot ==> {
                &&& start <= dot_pos < n
                &&& j == dot_pos + 1
                &&& view[dot_pos as int] == '.'
                &&& forall|k: int|
                    start <= k < dot_pos ==> is_digit(#[trigger] view[k]) && view[k] != '.'
                &&& acc == digits_value(view.subrange(start as int, dot_pos as int))
            },
            acc <= i64::MAX as u64,
        decreases n - j,
    {
        let c = s.get_char(j);
        if c == '.' {
            has_dot = true;
            dot_pos = j;
            j = j + 1;
        } else {
            match digit_of(c) {
                None => {
                    proof {
                        // A character that is neither a digit nor a dot sits in
                        // the integer part, so the body is invalid.
                        lemma_dot_index(body);
                        assert(dot_index(body) > j - start) by {
                            if dot_index(body) <= j - start {
                                assert(view[dot_index(body) + start] == body[dot_index(body)]);
                            }
                        }
                        assert(spec_int_part(body)[j - start] == body[j - start]);
                        assert(body[j - start] == view[j as int]);
                        assert(!is_digit(spec_int_part(body)[j - start]));
                        assert(!all_digits(spec_int_part(body)));
                    }
                    return None;
                },
                Some(d) => {
                    if acc > (i64::MAX as u64 - d) / 10 {
                        proof {
                            lemma_dot_index(body);
                            assert(acc * 10 + d > i64::MAX);
                            lemma_overflow_int_part(view, body, start as int, j as int, d as int);
                        }
                        return None;
                    }
                    proof {
                        assert(acc * 10 + d <= i64::MAX);
                    }
                    acc = acc * 10 + d;
                    proof {
                        assert(view.subrange(start as int, j + 1).drop_last() =~= view.subrange(
                            start as int,
                            j as int,
                        ));
                    }
                    j = j + 1;
                },
            }
        }
    }
    let int_end: usize = if has_dot {
        dot_pos
    } else {
        n
    };
    proof {
        // The scanned integer region is exactly the spec's integer part.
        lemma_dot_index(body);
        assert(dot_index(body) == int_end - start) by {
            if has_dot {
                assert(body[dot_pos - start] == view[dot_pos as int]);
                if dot_index(body) < dot_pos - start {
                    assert(view[dot_index(body) + start] == body[dot_index(body)]);
                }
                if dot_index(body) > dot_pos - start {
                    assert(body[dot_pos - start] != '.');
                }
            } else {
                if dot_index(body) < n - start {
                    assert(view[dot_index(body) + start] == body[dot_index(body)]);
                }
            }
        }
        assert(spec_int_part(body) =~= view.subrange(start as int, int_end as int));
        assert(all_digits(spec_int_part(body)));
        assert(acc == digits_value(spec_int_part(body)));
    }

    // Fractional part: everything after the dot must be a digit.
    let frac_len: usize = if has_dot {
        n - dot_pos - 1
    } else {
        0
    };
    proof {
        if has_dot {
            assert(spec_frac_part(body) =~= view.subrange(dot_pos + 1, n as int));
        } else {
            assert(spec_frac_part(body) =~= Seq::<char>::empty());
        }
        assert(spec_frac_part(body).len() == frac_len);
    }
    if frac_len > 8 {
        return None;
    }
    let mut facc: u64 = 0;
    if has_dot {
        let mut k: usize = dot_pos + 1;
        while k < n
            invariant
                view == s@,
                spec_sign_split(view).0 == neg,
                spec_sign_split(view).1 == body,
                dot_pos + 1 <= k <= n,
                n == view.len(),
                spec_frac_part(body) == view.subrange(dot_pos + 1, n as int),
                forall|m: int| dot_pos + 1 <= m < k ==> is_digit(#[trigger] view[m]),
                facc == digits_value(view.subrange(dot_pos + 1, k as int)),
                n - dot_pos - 1 <= 8,
                facc < 100_000_000,
            decreases n - k,
        {
            let c = s.get_char(k);
            match digit_of(c) {
                None => {
                    proof {
                        assert(spec_frac_part(body)[k - dot_pos - 1] == view[k as int]);
                        assert(!is_digit(spec_frac_part(body)[k - dot_pos - 1]));
                        assert(!all_digits(spec_frac_part(body)));
                    }
                    return None;
                },
                Some(d) => {
                    proof {
                        assert(view.subrange(dot_pos + 1, k + 1).drop_last() =~= view.subrange(
                            dot_pos + 1,
                            k as int,
                        ));
                        assert(all_digits(view.subrange(dot_pos + 1, k + 1)));
                        lemma_digits_value_bounds(view.subrange(dot_pos + 1, k + 1));
                        lemma_pow10_le((k + 1 - dot_pos - 1) as nat, 8);
                        lemma_pow10_small();
                    }
                    facc = facc * 10 + d;
                    k = k + 1;
                },
            }
        }
    }
    proof {
        assert(all_digits(spec_frac_part(body)));
        assert(facc == digits_value(spec_frac_part(body)));
    }

    // At least one digit in all.
    let int_len: usize = int_end - start;
    if int_len == 0 && frac_len == 0 {
        return None;
    }

    // Combine: acc * 10^8 + facc * 10^(8 - frac_len), checked against i64::MAX.
    let scale = pow10_u64(8 - frac_len);
    proof {
        lemma_pow10_small();
        lemma_digits_value_bounds(spec_frac_part(body));
        lemma_pow10_mul(spec_frac_part(body).len() as nat, (8 - frac_len) as nat);
        lemma_pow10_le((8 - frac_len) as nat, 8);
        lemma_mul_le_mono(
            digits_value(spec_frac_part(body)),
            pow10(spec_frac_part(body).len() as nat),
            pow10((8 - frac_len) as nat),
        );
        assert(facc * scale <= pow10(8) - scale);
    }
    let scaled_frac: u64 = facc * scale;
    assert(scaled_frac == digits_value(spec_frac_part(body)) * pow10((8 - frac_len) as nat));
    assert(scaled_frac < 100_000_000);
    if acc > i64::MAX as u64 / 100_000_000 {
        proof {
            lemma_overflow_combined(body, acc as int);
        }
        return None;
    }
    proof {
        assert(acc * 100_000_000 <= (i64::MAX as u64 / 100_000_000) * 100_000_000);
    }
    let units: u64 = acc * 100_000_000 + scaled_frac;
    proof {
        assert(units == spec_units_of(body));
    }
    if units > i64::MAX as u64 {
        return None;
    }
    if neg {
        Some(-(units as i64))
    } else {
        Some(units as i64)
    }
}

/// `10^a <= 10^b` when `a <= b`.
proof fn lemma_pow10_le(a: nat, b: nat)
    requires
        a <= b,
    ensures
        0 < pow10(a) <= pow10(b),
    decreases b,
{
    if b > 0 {
        if a == b {
            lemma_pow10_le((a - 1) as nat, (b - 1) as nat);
        } else {
            lemma_pow10_le(a, (b - 1) as nat);
        }
    }
}

/// `x < 10^a ==> x * 10^b <= 10^(a + b) - 10^b`, in the weak form needed
/// here: the scaled fraction stays at or below `10^8` when `a + b <= 8`.
proof fn lemma_pow10_mul(a: nat, b: nat)
    requires
        a + b <= 8,
    ensures
        pow10(a) * pow10(b) <= pow10(8),
    decreases a,
{
    if a == 0 {
        lemma_pow10_le(b, 8);
    } else {
        lemma_pow10_mul((a - 1) as nat, (b + 1) as nat);
        assert(pow10(a) * pow10(b) == pow10((a - 1) as nat) * (10 * pow10(b)))
            by (nonlinear_arith)
            requires
                pow10(a) == 10 * pow10((a - 1) as nat),
        ;
        assert(10 * pow10(b) == pow10((b + 1) as nat));
    }
}

/// `x <= y && 0 <= z ==> x * z <= y * z` for the shapes used above.
proof fn lemma_mul_le_mono(x: int, y: int, z: int)
    requires
        0 <= x < y,
        0 < z,
        y * z <= pow10(8),
    ensures
        x * z <= pow10(8) - z,
{
    assert(x * z <= (y - 1) * z) by (nonlinear_arith)
        requires
            x <= y - 1,
            0 < z,
    ;
    assert((y - 1) * z == y * z - z) by (nonlinear_arith);
}

/// If the integer digits scanned so far already exceed what a final value
/// could carry, the whole body is invalid.
proof fn lemma_overflow_int_part(view: Seq<char>, body: Seq<char>, start: int, j: int, d: int)
    requires
        body == view.skip(start),
        0 <= start <= j < view.len(),
        forall|k: int| start <= k < j ==> is_digit(#[trigger] view[k]) && view[k] != '.',
        is_digit(view[j]),
        view[j] != '.',
        d == digit_value(view[j]),
        digits_value(view.subrange(start, j)) * 10 + d > i64::MAX,
    ensures
        !spec_body_valid(body),
{
    lemma_dot_index(body);
    if spec_body_valid(body) {
        // The scanned digits together with the next one form a prefix of the
        // integer part, whose value bounds the whole from below.
        assert(dot_index(body) >= j + 1 - start) by {
            if dot_index(body) < j + 1 - start {
                assert(body[dot_index(body)] == '.');
                assert(view[dot_index(body) + start] == '.');
            }
        }
        let ip = spec_int_part(body);
        assert(ip.take(j + 1 - start) =~= view.subrange(start, j + 1));
        assert(view.subrange(start, j + 1).drop_last() =~= view.subrange(start, j));
        assert(digits_value(ip.take(j + 1 - start)) == digits_value(view.subrange(start, j)) * 10
            + d);
        lemma_digits_value_prefix(ip, j + 1 - start);
        assert(digits_value(ip) > i64::MAX);
        lemma_digits_value_bounds(spec_frac_part(body));
        lemma_pow10_le(0, (8 - spec_frac_part(body).len()) as nat);
        assert(digits_value(ip) * 100_000_000 >= digits_value(ip)) by (nonlinear_arith)
            requires
                digits_value(ip) >= 0,
        ;
        assert(digits_value(spec_frac_part(body)) * pow10((8 - spec_frac_part(body).len()) as nat)
            >= 0) by (nonlinear_arith)
            requires
                digits_value(spec_frac_part(body)) >= 0,
                pow10((8 - spec_frac_part(body).len()) as nat) > 0,
        ;
        assert(spec_units_of(body) > i64::MAX);
    }
}

/// If the full integer part alone exceeds the unit range, the body is
/// invalid.
proof fn lemma_overflow_combined(body: Seq<char>, acc: int)
    requires
        acc == digits_value(spec_int_part(body)),
        acc > i64::MAX / 100_000_000,
    ensures
        !spec_body_valid(body),
{
    if spec_body_valid(body) {
        assert(acc >= i64::MAX / 100_000_000 + 1);
        assert(acc * 100_000_000 >= (i64::MAX / 100_000_000 + 1) * 100_000_000)
            by (nonlinear_arith)
            requires
                acc >= i64::MAX / 100_000_000 + 1,
        ;
        assert((i64::MAX / 100_000_000 + 1) * 100_000_000 > i64::MAX);
        lemma_digits_value_bounds(spec_frac_part(body));
        lemma_pow10_le(0, (8 - spec_frac_part(body).len()) as nat);
        assert(digits_value(spec_frac_part(body)) * pow10((8 - spec_frac_part(body).len()) as nat)
            >= 0) by (nonlinear_arith)
            requires
                digits_value(spec_frac_part(body)) >= 0,
                pow10((8 - spec_frac_part(body).len()) as nat) > 0,
        ;
        assert(spec_units_of(body) > i64::MAX);
    }
}

} // verus!
