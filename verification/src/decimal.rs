//! Parsing of the exchanges' decimal strings into fixed-point ticks.
//!
//! Prices and amounts arrive as decimal strings such as `"2836.09"`. The
//! book stores them as integer ticks scaled by ten to the eighth, which is
//! fine enough for exchange tick sizes and keeps the book's sort and
//! equality laws exact. A string is accepted when it is `digits` or
//! `digits.digits` with at most eight fractional digits and its scaled
//! value fits in a `u64`; anything else (signs, exponents, not-a-number
//! spellings, empty parts) is rejected.

use vstd::prelude::*;
use vstd::string::StrSliceExecFns;

verus! {

/// Number of fractional decimal digits a tick carries.
pub const TICK_DECIMALS: u64 = 8;

/// Ten to the `n`th.
pub open spec fn pow10(n: nat) -> int
    decreases n,
{
    if n == 0 {
        1
    } else {
        10 * pow10((n - 1) as nat)
    }
}

pub proof fn lemma_pow10_pos(n: nat)
    ensures
        pow10(n) >= 1,
    decreases n,
{
    if n > 0 {
        lemma_pow10_pos((n - 1) as nat);
    }
}

pub proof fn lemma_pow10_adds(a: nat, b: nat)
    ensures
        pow10(a + b) == pow10(a) * pow10(b),
    decreases a,
{
    if a == 0 {
    } else {
        lemma_pow10_adds((a - 1) as nat, b);
        assert(pow10((a - 1) as nat + b) == pow10((a - 1) as nat) * pow10(b));
        assert((10 * pow10((a - 1) as nat)) * pow10(b) == 10 * (pow10((a - 1) as nat) * pow10(
            b,
        ))) by (nonlinear_arith);
    }
}

/// Whether `c` is an ASCII decimal digit.
pub open spec fn is_digit(c: char) -> bool {
    48 <= c as u32 <= 57
}

/// The numeric value of a digit character.
pub open spec fn digit_val(c: char) -> int {
    c as u32 - 48
}

/// All characters of `s` are decimal digits.
pub open spec fn all_digits(s: Seq<char>) -> bool {
    forall|i: int| 0 <= i < s.len() ==> is_digit(s[i])
}

/// The integer spelled by a digit string, most significant digit first.
pub open spec fn digits_val(s: Seq<char>) -> int
    decreases s.len(),
{
    if s.len() == 0 {
        0
    } else {
        digits_val(s.drop_last()) * 10 + digit_val(s.last())
    }
}

pub proof fn lemma_digits_val_bounds(s: Seq<char>)
    requires
        all_digits(s),
    ensures
        0 <= digits_val(s) < pow10(s.len()),
    decreases s.len(),
{
    if s.len() > 0 {
        let t = s.drop_last();
        lemma_digits_val_bounds(t);
        assert(is_digit(s.last()));
        assert(digits_val(t) * 10 <= (pow10(t.len()) - 1) * 10) by (nonlinear_arith)
            requires
                digits_val(t) <= pow10(t.len()) - 1,
        ;
        assert(digits_val(t) * 10 >= 0) by (nonlinear_arith)
            requires
                digits_val(t) >= 0,
        ;
    }
}

pub proof fn lemma_digits_val_concat(a: Seq<char>, b: Seq<char>)
    ensures
        digits_val(a + b) == digits_val(a) * pow10(b.len()) + digits_val(b),
    decreases b.len(),
{
    if b.len() == 0 {
        assert(a + b =~= a);
    } else {
        let t = b.drop_last();
        lemma_digits_val_concat(a, t);
        assert((a + b).drop_last() =~= a + t);
        assert((a + b).last() == b.last());
        assert((digits_val(a) * pow10(t.len()) + digits_val(t)) * 10 == digits_val(a) * (pow10(
            t.len(),
        ) * 10) + digits_val(t) * 10) by (nonlinear_arith);
        assert(pow10(b.len()) == pow10(t.len()) * 10) by {
            lemma_pow10_adds(t.len(), 1);
        }
    }
}

/// A digit string's value never shrinks when more digits are appended.
pub proof fn lemma_digits_val_prefix(a: Seq<char>, b: Seq<char>)
    requires
        all_digits(a),
        all_digits(b),
    ensures
        digits_val(a + b) >= digits_val(a),
{
    lemma_digits_val_concat(a, b);
    lemma_digits_val_bounds(a);
    lemma_digits_val_bounds(b);
    lemma_pow10_pos(b.len());
    assert(digits_val(a) * pow10(b.len()) >= digits_val(a) * 1) by (nonlinear_arith)
        requires
            digits_val(a) >= 0,
            pow10(b.len()) >= 1,
    ;
}

/// Index of the first `.` in `s`, or `s.len()` when there is none.
pub open spec fn dot_pos(s: Seq<char>) -> int
    decreases s.len(),
{
    if s.len() == 0 {
        0
    } else if s.first() == '.' {
        0
    } else {
        1 + dot_pos(s.drop_first())
    }
}

pub proof fn lemma_dot_pos_bounds(s: Seq<char>)
    ensures
        0 <= dot_pos(s) <= s.len(),
        dot_pos(s) < s.len() ==> s[dot_pos(s)] == '.',
        forall|j: int| 0 <= j < dot_pos(s) ==> s[j] != '.',
    decreases s.len(),
{
    if s.len() > 0 && s.first() != '.' {
        let t = s.drop_first();
        lemma_dot_pos_bounds(t);
        assert forall|j: int| 0 <= j < dot_pos(s) implies s[j] != '.' by {
            if j > 0 {
                assert(t[j - 1] != '.');
            }
        }
    }
}

/// What a left-to-right scan learns about the first dot: if no dot stands
/// before `k`, the first dot is at `k` or later, and exactly at `k` when
/// `s[k]` is a dot.
pub proof fn lemma_dot_pos_scan(s: Seq<char>, k: int)
    requires
        0 <= k <= s.len(),
        forall|j: int| 0 <= j < k ==> s[j] != '.',
    ensures
        dot_pos(s) >= k,
        k < s.len() && s[k] == '.' ==> dot_pos(s) == k,
    decreases k,
{
    lemma_dot_pos_bounds(s);
    if k > 0 {
        let t = s.drop_first();
        assert(s.first() != '.');
        assert forall|j: int| 0 <= j < k - 1 implies t[j] != '.' by {
            assert(s[j + 1] != '.');
        }
        lemma_dot_pos_scan(t, k - 1);
        if k < s.len() && s[k] == '.' {
            assert(t[k - 1] == '.');
        }
    }
}

/// The first dot of a concatenation lies where the left part's does,
/// when the left part holds one.
pub proof fn lemma_dot_pos_concat_left(a: Seq<char>, b: Seq<char>)
    requires
        dot_pos(a) < a.len(),
    ensures
        dot_pos(a + b) == dot_pos(a),
{
    lemma_dot_pos_bounds(a);
    assert forall|j: int| 0 <= j < dot_pos(a) implies #[trigger] (a + b)[j] != '.' by {
        assert((a + b)[j] == a[j]);
    }
    assert((a + b)[dot_pos(a)] == a[dot_pos(a)]);
    lemma_dot_pos_scan(a + b, dot_pos(a));
}

/// When the left part of a concatenation holds no dot, the first dot of
/// the whole lies where the right part's does, shifted past the left.
pub proof fn lemma_dot_pos_concat_free(a: Seq<char>, b: Seq<char>)
    requires
        dot_pos(a) == a.len(),
    ensures
        dot_pos(a + b) == a.len() + dot_pos(b),
{
    lemma_dot_pos_bounds(a);
    lemma_dot_pos_bounds(b);
    lemma_dot_pos_bounds(a + b);
    assert forall|j: int| 0 <= j < a.len() + dot_pos(b) implies #[trigger] (a + b)[j]
        != '.' by {
        if j < a.len() {
            assert((a + b)[j] == a[j]);
        } else {
            assert((a + b)[j] == b[j - a.len()]);
        }
    }
    lemma_dot_pos_scan(a + b, a.len() + dot_pos(b));
    if dot_pos(b) < b.len() {
        assert((a + b)[a.len() + dot_pos(b)] == b[dot_pos(b)]);
    }
}

/// The digits before the first dot.
pub open spec fn int_part(s: Seq<char>) -> Seq<char> {
    s.subrange(0, dot_pos(s))
}

/// The digits after the first dot; empty when there is no dot.
pub open spec fn frac_part(s: Seq<char>) -> Seq<char> {
    if dot_pos(s) >= s.len() {
        Seq::empty()
    } else {
        s.subrange(dot_pos(s) + 1, s.len() as int)
    }
}

/// Whether `s` is an accepted decimal spelling: a non-empty integer part,
/// an optional fractional part that is non-empty and at most eight digits
/// when the dot is present, and digits everywhere else.
pub open spec fn dec_valid(s: Seq<char>) -> bool {
    &&& int_part(s).len() >= 1
    &&& all_digits(int_part(s))
    &&& all_digits(frac_part(s))
    &&& dot_pos(s) < s.len() ==> frac_part(s).len() >= 1
    &&& frac_part(s).len() <= TICK_DECIMALS
}

/// The value of `s` in ticks: all its digits read as one integer, scaled
/// up by the fractional digits it did not spell out.
pub open spec fn dec_ticks(s: Seq<char>) -> int {
    digits_val(int_part(s) + frac_part(s)) * pow10((TICK_DECIMALS - frac_part(s).len()) as nat)
}

/// Ten to the `n`th as a machine word, for the final scaling step.
fn pow10_u64(n: u64) -> (r: u64)
    requires
        n <= TICK_DECIMALS,
    ensures
        r == pow10(n as nat),
{
    proof {
        reveal_with_fuel(pow10, 9);
    }
    if n == 0 {
        1
    } else if n == 1 {
        10
    } else if n == 2 {
        100
    } else if n == 3 {
        1000
    } else if n == 4 {
        10000
    } else if n == 5 {
        100000
    } else if n == 6 {
        1000000
    } else if n == 7 {
        10000000
    } else {
        100000000
    }
}

/// Parses a plain digit string into a `u64`: the exact value for every
/// non-empty all-digit string that fits, and nothing otherwise.
pub fn parse_u64_digits(s: &str) -> (r: Option<u64>)
    ensures
        match r {
            Some(v) => s@.len() >= 1 && all_digits(s@) && v == digits_val(s@),
            None => s@.len() == 0 || !all_digits(s@) || digits_val(s@) > u64::MAX,
        },
{
    let n = s.unicode_len();
    if n == 0 {
        return None;
    }
    let mut acc: u64 = 0;
    let mut i: usize = 0;
    while i < n
        invariant
            n == s@.len(),
            0 <= i <= n,
            forall|j: int| 0 <= j < i ==> is_digit(s@[j]),
            acc == digits_val(s@.subrange(0, i as int)),
        decreases n - i,
    {
        let c = s.get_char(i);
        let cv = c as u32;
        if cv < 48 || cv > 57 {
            return None;
        }
        let d = (cv - 48) as u64;
        let na = match acc.checked_mul(10) {
            Some(t) => t.checked_add(d),
            None => None,
        };
        match na {
            Some(t) => {
                proof {
                    let pre = s@.subrange(0, i as int);
                    let ext = s@.subrange(0, i + 1 as int);
                    assert(ext =~= pre.push(s@[i as int]));
                    assert(ext.drop_last() =~= pre);
                    assert(ext.last() == s@[i as int]);
                }
                acc = t;
            },
            None => {
                proof {
                    if all_digits(s@) {
                        let pre = s@.subrange(0, i + 1 as int);
                        let tail = s@.subrange(i + 1 as int, n as int);
                        assert(pre.drop_last() =~= s@.subrange(0, i as int));
                        assert(pre.last() == s@[i as int]);
                        assert(digits_val(pre) > u64::MAX);
                        assert forall|j: int| 0 <= j < pre.len() implies is_digit(
                            #[trigger] pre[j],
                        ) by {
                            assert(pre[j] == s@[j]);
                        }
                        assert forall|j: int| 0 <= j < tail.len() implies is_digit(
                            #[trigger] tail[j],
                        ) by {
                            assert(tail[j] == s@[j + i + 1]);
                        }
                        lemma_digits_val_prefix(pre, tail);
                        assert(s@ =~= pre + tail);
                    }
                }
                return None;
            },
        }
        i = i + 1;
    }
    proof {
        assert(s@.subrange(0, n as int) =~= s@);
    }
    Some(acc)
}

/// A dot at `i` is unacceptable here: either a dot was already seen at
/// `dp`, or the string starts with the dot.
proof fn lemma_parse_reject_dot(s: Seq<char>, i: int, dp: int, n: int)
    requires
        n == s.len(),
        0 <= i < n,
        s[i] == '.',
        dp == n || (0 <= dp < i && s[dp] == '.'),
        forall|j: int| 0 <= j < i && j != dp ==> is_digit(s[j]),
        forall|j: int| 0 <= j < i && j != dp ==> s[j] != '.',
        dp < n || i == 0,
    ensures
        !dec_valid(s),
{
    lemma_dot_pos_bounds(s);
    if dp < n {
        lemma_dot_pos_scan(s, dp);
        assert(dot_pos(s) == dp);
        if dec_valid(s) {
            assert(frac_part(s)[i - dp - 1] == s[i]);
            assert(is_digit(s[i]));
            assert(false);
        }
    } else {
        assert(i == 0);
        lemma_dot_pos_scan(s, 0);
        assert(dot_pos(s) == 0);
        assert(int_part(s).len() == 0);
    }
}

/// A character that is neither a digit nor a dot invalidates the string.
proof fn lemma_parse_reject_char(s: Seq<char>, i: int, dp: int, n: int)
    requires
        n == s.len(),
        0 <= i < n,
        s[i] != '.',
        !is_digit(s[i]),
        dp == n || (0 <= dp < i && s[dp] == '.'),
        forall|j: int| 0 <= j < i && j != dp ==> is_digit(s[j]),
        forall|j: int| 0 <= j < i && j != dp ==> s[j] != '.',
    ensures
        !dec_valid(s),
{
    lemma_dot_pos_bounds(s);
    if dp < n {
        lemma_dot_pos_scan(s, dp);
        assert(dot_pos(s) == dp);
        if dec_valid(s) {
            assert(frac_part(s)[i - dp - 1] == s[i]);
            assert(false);
        }
    } else {
        lemma_dot_pos_scan(s, i);
        assert(dot_pos(s) >= i);
        assert(dot_pos(s) != i);
        if dec_valid(s) {
            assert(int_part(s)[i] == s[i]);
            assert(false);
        }
    }
}

/// When the digits read so far no longer fit in a `u64`, no accepted
/// continuation of the string can fit either.
proof fn lemma_parse_reject_overflow(s: Seq<char>, i: int, dp: int, n: int, acc: int, d: int)
    requires
        n == s.len(),
        0 <= i < n,
        is_digit(s[i]),
        d == digit_val(s[i]),
        acc * 10 + d > u64::MAX,
        dp == n || (0 <= dp < i && s[dp] == '.'),
        forall|j: int| 0 <= j < i && j != dp ==> is_digit(s[j]),
        forall|j: int| 0 <= j < i && j != dp ==> s[j] != '.',
        dp == n ==> acc == digits_val(s.subrange(0, i)),
        dp < n ==> acc == digits_val(s.subrange(0, dp) + s.subrange(dp + 1, i)),
    ensures
        !dec_valid(s) || dec_ticks(s) > u64::MAX,
{
    lemma_dot_pos_bounds(s);
    if !dec_valid(s) {
        return ;
    }
    let combined = int_part(s) + frac_part(s);
    if dp == n {
        // no dot so far: the scanned digits are a prefix of the integer part
        assert forall|j: int| 0 <= j < i + 1 implies #[trigger] s[j] != '.' by {
            if j == i {
                assert(is_digit(s[i]));
            }
        }
        lemma_dot_pos_scan(s, i + 1);
        let p = dot_pos(s);
        let pre = s.subrange(0, i + 1);
        assert(pre.drop_last() =~= s.subrange(0, i));
        assert(pre.last() == s[i]);
        assert(digits_val(pre) == acc * 10 + d);
        assert forall|j: int| 0 <= j < pre.len() implies is_digit(#[trigger] pre[j]) by {
            assert(pre[j] == s[j]);
        }
        let tail = s.subrange(i + 1, p) + frac_part(s);
        assert forall|j: int| 0 <= j < tail.len() implies is_digit(#[trigger] tail[j]) by {
            if j < p - i - 1 {
                assert(tail[j] == int_part(s)[j + i + 1]);
            } else {
                assert(tail[j] == frac_part(s)[j - (p - i - 1)]);
            }
        }
        assert(combined =~= pre + tail);
        lemma_digits_val_prefix(pre, tail);
        assert(digits_val(combined) > u64::MAX);
    } else {
        lemma_dot_pos_scan(s, dp);
        assert(dot_pos(s) == dp);
        let cur = s.subrange(0, dp) + s.subrange(dp + 1, i);
        let newp = s.subrange(0, dp) + s.subrange(dp + 1, i + 1);
        assert(newp.drop_last() =~= cur);
        assert(newp.last() == s[i]);
        assert(digits_val(newp) == acc * 10 + d);
        assert forall|j: int| 0 <= j < newp.len() implies is_digit(#[trigger] newp[j]) by {
            if j < dp {
                assert(newp[j] == s[j]);
            } else {
                assert(newp[j] == s[j + 1]);
            }
        }
        let tail = s.subrange(i + 1, n);
        assert forall|j: int| 0 <= j < tail.len() implies is_digit(#[trigger] tail[j]) by {
            assert(frac_part(s)[j + (i - dp)] == tail[j]);
        }
        assert(combined =~= newp + tail);
        lemma_digits_val_prefix(newp, tail);
        assert(digits_val(combined) > u64::MAX);
    }
    let e = (TICK_DECIMALS - frac_part(s).len()) as nat;
    lemma_pow10_pos(e);
    assert(digits_val(combined) * pow10(e) >= digits_val(combined) * 1) by (nonlinear_arith)
        requires
            digits_val(combined) >= 0,
            pow10(e) >= 1,
    ;
}

/// What a completed scan establishes: with every character a digit except
/// one well-placed dot, the string is accepted and the accumulator holds
/// all its digits; a missing integer or fractional part rejects it.
proof fn lemma_parse_accept(s: Seq<char>, dp: int, n: int, acc: int)
    requires
        n == s.len(),
        dp == n || (0 <= dp < n && s[dp] == '.'),
        forall|j: int| 0 <= j < n && j != dp ==> is_digit(s[j]),
        forall|j: int| 0 <= j < n && j != dp ==> s[j] != '.',
        dp == n ==> acc == digits_val(s),
        dp < n ==> acc == digits_val(s.subrange(0, dp) + s.subrange(dp + 1, n)),
        dp < n ==> n - dp - 1 <= 8,
        dp < n ==> dp >= 1,
    ensures
        n == 0 ==> !dec_valid(s),
        dp < n && dp + 1 == n ==> !dec_valid(s),
        n > 0 && (dp == n || dp + 1 < n) ==> {
            &&& dec_valid(s)
            &&& acc == digits_val(int_part(s) + frac_part(s))
            &&& frac_part(s).len() == if dp < n {
                n - dp - 1
            } else {
                0
            }
        },
{
    lemma_dot_pos_bounds(s);
    if dp == n {
        lemma_dot_pos_scan(s, n);
        assert(dot_pos(s) == n);
        assert(int_part(s) =~= s);
        assert(frac_part(s) =~= Seq::<char>::empty());
        if n > 0 {
            assert(int_part(s) + frac_part(s) =~= s);
        }
    } else {
        lemma_dot_pos_scan(s, dp);
        assert(dot_pos(s) == dp);
        assert(int_part(s) =~= s.subrange(0, dp));
        assert(frac_part(s) =~= s.subrange(dp + 1, n));
        if dp + 1 < n {
            assert(int_part(s) + frac_part(s) =~= s.subrange(0, dp) + s.subrange(dp + 1, n));
        }
    }
}

/// Parses a decimal string into fixed-point ticks. Returns the exact
/// scaled value for every accepted spelling whose value fits in a `u64`,
/// and nothing otherwise.
pub fn parse_decimal_ticks(s: &str) -> (r: Option<u64>)
    ensures
        match r {
            Some(v) => dec_valid(s@) && v == dec_ticks(s@),
            None => !dec_valid(s@) || dec_ticks(s@) > u64::MAX,
        },
{
    let n = s.unicode_len();
    let mut acc: u64 = 0;
    let mut i: usize = 0;
    let mut dp: usize = n;  // position of the dot; n while unseen
    let ghost sv = s@;
    loop
        invariant
            n == sv.len(),
            sv == s@,
            0 <= i <= n,
            dp == n || (dp < i && sv[dp as int] == '.'),
            forall|j: int| 0 <= j < i && j != dp ==> is_digit(sv[j]),
            forall|j: int| 0 <= j < i && j != dp ==> sv[j] != '.',
            dp == n ==> acc == digits_val(sv.subrange(0, i as int)),
            dp < n ==> acc == digits_val(
                sv.subrange(0, dp as int) + sv.subrange(dp + 1, i as int),
            ),
            dp < n ==> i - dp - 1 <= 8,
            dp < n ==> dp >= 1,
        ensures
            i == n,
            dp == n || (dp < n && sv[dp as int] == '.'),
            forall|j: int| 0 <= j < n && j != dp ==> is_digit(sv[j]),
            forall|j: int| 0 <= j < n && j != dp ==> sv[j] != '.',
            dp == n ==> acc == digits_val(sv),
            dp < n ==> acc == digits_val(
                sv.subrange(0, dp as int) + sv.subrange(dp + 1, n as int),
            ),
            dp < n ==> n - dp - 1 <= 8,
            dp < n ==> dp >= 1,
        decreases n - i,
    {
        if i == n {
            proof {
                if dp == n {
                    assert(sv.subrange(0, n as int) =~= sv);
                }
            }
            break;
        }
        let c = s.get_char(i);
        let cv = c as u32;
        if c == '.' {
            if dp < n || i == 0 {
                // a second dot, or a dot with no integer digits before it
                proof {
                    lemma_parse_reject_dot(sv, i as int, dp as int, n as int);
                }
                return None;
            }
            dp = i;
            proof {
                assert(sv.subrange(0, dp as int) + sv.subrange(dp + 1, (dp + 1) as int) =~= sv
                    .subrange(0, dp as int));
            }
        } else if cv < 48 || cv > 57 {
            // not a digit
            proof {
                lemma_parse_reject_char(sv, i as int, dp as int, n as int);
            }
            return None;
        } else {
            if dp < n && i - dp - 1 == 8 {
                // a ninth fractional digit: the spelling is finer than a tick
                proof {
                    lemma_dot_pos_scan(sv, dp as int);
                    assert(frac_part(sv).len() == n - dp - 1 >= 9);
                }
                return None;
            }
            let d = (cv - 48) as u64;
            let na = match acc.checked_mul(10) {
                Some(t) => t.checked_add(d),
                None => None,
            };
            match na {
                Some(t) => {
                    proof {
                        if dp == n {
                            let pre = sv.subrange(0, i as int);
                            let ext = sv.subrange(0, i + 1 as int);
                            assert(ext =~= pre.push(sv[i as int]));
                            assert(ext.drop_last() =~= pre);
                            assert(ext.last() == sv[i as int]);
                            assert(digits_val(ext) == acc * 10 + d);
                        } else {
                            let pre = sv.subrange(0, dp as int) + sv.subrange(dp + 1, i as int);
                            let ext = sv.subrange(0, dp as int) + sv.subrange(
                                dp + 1,
                                i + 1 as int,
                            );
                            assert(ext =~= pre.push(sv[i as int]));
                            assert(ext.drop_last() =~= pre);
                            assert(ext.last() == sv[i as int]);
                            assert(digits_val(ext) == acc * 10 + d);
                        }
                    }
                    acc = t;
                },
                None => {
                    // the digits read so far already exceed the tick range
                    proof {
                        lemma_parse_reject_overflow(sv, i as int, dp as int, n as int, acc as int,
                            digit_val(sv[i as int]));
                    }
                    return None;
                },
            }
        }
        i = i + 1;
    }
    // the whole string is scanned: digits with at most one well-placed dot
    proof {
        lemma_parse_accept(sv, dp as int, n as int, acc as int);
    }
    if n == 0 {
        return None;
    }
    if dp < n && dp + 1 == n {
        // a trailing dot with no fractional digits
        return None;
    }
    let flen: u64 = if dp < n {
        (n - dp - 1) as u64
    } else {
        0
    };
    let scale = pow10_u64(8 - flen);
    match acc.checked_mul(scale) {
        Some(v) => Some(v),
        None => {
            proof {
                lemma_pow10_pos((8 - flen) as nat);
                assert(acc * scale == dec_ticks(sv));
            }
            None
        },
    }
}

} // verus!
