//! Sleep-duration parsing and formatting.
//!
//! A duration string is a decimal number followed by a unit (`ms`, `s`, `m`,
//! `h`, or their long forms). Durations are held in whole milliseconds; the
//! parser truncates below one millisecond, as converting a fractional count
//! to milliseconds does.

use vstd::prelude::*;
use crate::bytes::{bytes_of, dec_bytes, u64_to_dec, vec_extend, vec_slice};
use crate::edits::trim;
use crate::listing::ascii_lower;

verus! {

use vstd::string::StringSliceAdditionalSpecFns;

/// Maximum allowed sleep duration, in milliseconds (30 minutes).
pub const MAX_SLEEP_DURATION_MS: u64 = 30 * 60 * 1000;

/// Saturation bound of the integer part while parsing: any number at least
/// this large is far beyond the allowed maximum for every unit.
pub const INT_SATURATION: u128 = 1_000_000_000_000_000_000_000;

/// Errors of the sleep-duration utilities.
#[derive(Debug)]
pub enum SleepServerError {
    InvalidDuration { duration: Vec<u8> },
    DurationTooLong { duration: Vec<u8>, max_duration: Vec<u8> },
    SleepCancelled { reason: Vec<u8> },
    ResourceNotFound { uri: Vec<u8> },
}

/// An ASCII letter.
pub open spec fn is_ascii_alpha(b: u8) -> bool {
    (65 <= b <= 90) || (97 <= b <= 122)
}

/// An ASCII digit.
pub open spec fn is_digit(b: u8) -> bool {
    48 <= b <= 57
}

/// The index of the first ASCII letter of `s`, when there is one.
pub open spec fn first_alpha(s: Seq<u8>) -> Option<int>
    decreases s.len(),
{
    if s.len() == 0 {
        None
    } else if is_ascii_alpha(s[0]) {
        Some(0)
    } else {
        match first_alpha(s.drop_first()) {
            Some(k) => Some(k + 1),
            None => None,
        }
    }
}

/// The index of the first `.` of `s`, when there is one.
pub open spec fn first_dot(s: Seq<u8>) -> Option<int>
    decreases s.len(),
{
    if s.len() == 0 {
        None
    } else if s[0] == 46 {
        Some(0)
    } else {
        match first_dot(s.drop_first()) {
            Some(k) => Some(k + 1),
            None => None,
        }
    }
}

/// Every byte is an ASCII digit.
pub open spec fn all_digits(s: Seq<u8>) -> bool {
    forall|i: int| 0 <= i < s.len() ==> is_digit(#[trigger] s[i])
}

/// The value of a digit string, left to right, capped at the saturation
/// bound.
pub open spec fn digits_val(s: Seq<u8>) -> nat
    decreases s.len(),
{
    if s.len() == 0 {
        0
    } else {
        let prev = digits_val(s.drop_last());
        let d: nat = if is_digit(s.last()) {
            (s.last() - 48) as nat
        } else {
            0
        };
        let v = prev * 10 + d;
        if v > INT_SATURATION {
            INT_SATURATION as nat
        } else {
            v
        }
    }
}

/// The number body with an optional leading `+` removed.
pub open spec fn num_body(s: Seq<u8>) -> Seq<u8> {
    if s.len() > 0 && s[0] == 43 {
        s.drop_first()
    } else {
        s
    }
}

/// Whether the number part is a plain decimal: optional `+`, digits, an
/// optional dot, digits — with at least one digit overall.
pub open spec fn num_ok(s: Seq<u8>) -> bool {
    let body = num_body(s);
    match first_dot(body) {
        None => body.len() > 0 && all_digits(body),
        Some(d) => {
            let int_part = body.subrange(0, d);
            let frac_part = body.subrange(d + 1, body.len() as int);
            all_digits(int_part) && all_digits(frac_part) && (int_part.len() > 0 || frac_part.len()
                > 0)
        }
    }
}

/// The integer part of the number.
pub open spec fn num_int(s: Seq<u8>) -> nat {
    let body = num_body(s);
    match first_dot(body) {
        None => digits_val(body),
        Some(d) => digits_val(body.subrange(0, d)),
    }
}

/// The fractional digits that contribute (the first 24; anything further is
/// below a millisecond for every unit).
pub open spec fn num_frac_digits(s: Seq<u8>) -> Seq<u8> {
    let body = num_body(s);
    match first_dot(body) {
        None => Seq::<u8>::empty(),
        Some(d) => {
            let frac = body.subrange(d + 1, body.len() as int);
            if frac.len() <= 24 {
                frac
            } else {
                frac.subrange(0, 24)
            }
        }
    }
}

pub proof fn lemma_digits_val_le(s: Seq<u8>)
    ensures
        digits_val(s) <= INT_SATURATION,
    decreases s.len(),
{
    if s.len() > 0 {
        lemma_digits_val_le(s.drop_last());
    }
}

/// Powers of ten.
pub open spec fn pow10(k: nat) -> nat
    decreases k,
{
    if k == 0 {
        1
    } else {
        10 * pow10((k - 1) as nat)
    }
}

/// The milliseconds per unit, when the unit (lowercased) is known.
pub open spec fn unit_factor(unit: Seq<u8>) -> Option<nat> {
    let u = crate::listing::ascii_lower(unit);
    if u == "ms".spec_bytes() || u == "milliseconds".spec_bytes() {
        Some(1 as nat)
    } else if u == "s".spec_bytes() || u == "sec".spec_bytes() || u == "seconds".spec_bytes() {
        Some(1000 as nat)
    } else if u == "m".spec_bytes() || u == "min".spec_bytes() || u == "minutes".spec_bytes() {
        Some(60000 as nat)
    } else if u == "h".spec_bytes() || u == "hr".spec_bytes() || u == "hours".spec_bytes() {
        Some(3600000 as nat)
    } else {
        None
    }
}

/// The parsed milliseconds of a trimmed duration string, split at `k` (the
/// first letter): the number's value scaled by the unit, truncated to whole
/// milliseconds.
pub open spec fn duration_ms(t: Seq<u8>, k: int, factor: nat) -> nat {
    let num = t.subrange(0, k);
    let frac = num_frac_digits(num);
    num_int(num) * factor + (digits_val(frac) * factor) / pow10(frac.len() as nat)
}

/// The outcome of parsing a duration string: the whole milliseconds, or
/// which error the string earns.
pub open spec fn parse_duration_spec(s: Seq<u8>) -> Result<nat, bool> {
    // an Err of true means "too long"; false, "invalid"
    let t = crate::edits::trim_spec(s);
    match first_alpha(t) {
        None => Err(false),
        Some(k) => if k == 0 {
            Err(false)
        } else {
            let num = t.subrange(0, k);
            let unit = t.subrange(k, t.len() as int);
            if !num_ok(num) {
                Err(false)
            } else {
                match unit_factor(unit) {
                    None => Err(false),
                    Some(f) => {
                        let ms = duration_ms(t, k, f);
                        if ms > MAX_SLEEP_DURATION_MS {
                            Err(true)
                        } else {
                            Ok(ms)
                        }
                    }
                }
            }
        },
    }
}

/// Find the first ASCII letter.
fn find_first_alpha(s: &Vec<u8>) -> (r: Option<usize>)
    ensures
        r matches Some(k) ==> first_alpha(s@) == Some(k as int) && k < s@.len(),
        r is None ==> first_alpha(s@) is None,
{
    proof {
        assert(s@.subrange(0, s@.len() as int) =~= s@);
    }
    let mut i: usize = 0;
    while i < s.len()
        invariant
            i <= s.len(),
            first_alpha(s@) == (match first_alpha(s@.subrange(i as int, s@.len() as int)) {
                Some(k) => Some(k + i),
                None => None::<int>,
            }),
        decreases s.len() - i,
    {
        let ghost rest = s@.subrange(i as int, s@.len() as int);
        let b = s[i];
        if b >= 65 && b <= 90 || b >= 97 && b <= 122 {
            assert(first_alpha(rest) == Some(0int));
            return Some(i);
        }
        proof {
            assert(rest.drop_first() =~= s@.subrange(i + 1 as int, s@.len() as int));
        }
        i += 1;
    }
    proof {
        assert(first_alpha(s@.subrange(s@.len() as int, s@.len() as int)) is None);
    }
    None
}

/// Find the first dot.
fn find_first_dot(s: &Vec<u8>) -> (r: Option<usize>)
    ensures
        r matches Some(k) ==> first_dot(s@) == Some(k as int) && k < s@.len(),
        r is None ==> first_dot(s@) is None,
{
    proof {
        assert(s@.subrange(0, s@.len() as int) =~= s@);
    }
    let mut i: usize = 0;
    while i < s.len()
        invariant
            i <= s.len(),
            first_dot(s@) == (match first_dot(s@.subrange(i as int, s@.len() as int)) {
                Some(k) => Some(k + i),
                None => None::<int>,
            }),
        decreases s.len() - i,
    {
        let ghost rest = s@.subrange(i as int, s@.len() as int);
        if s[i] == 46 {
            assert(first_dot(rest) == Some(0int));
            return Some(i);
        }
        proof {
            assert(rest.drop_first() =~= s@.subrange(i + 1 as int, s@.len() as int));
        }
        i += 1;
    }
    proof {
        assert(first_dot(s@.subrange(s@.len() as int, s@.len() as int)) is None);
    }
    None
}

/// Parse a digit string left to right, capped at the saturation bound.
/// `None` when some byte is not a digit.
fn parse_digits(s: &Vec<u8>) -> (r: Option<u128>)
    ensures
        r matches Some(v) ==> all_digits(s@) && v as nat == digits_val(s@),
        r is None ==> !all_digits(s@),
{
    let mut v: u128 = 0;
    let mut i: usize = 0;
    while i < s.len()
        invariant
            i <= s.len(),
            v <= INT_SATURATION,
            v as nat == digits_val(s@.subrange(0, i as int)),
            forall|j: int| 0 <= j < i ==> is_digit(#[trigger] s@[j]),
        decreases s.len() - i,
    {
        let b = s[i];
        if b < 48 || b > 57 {
            assert(!all_digits(s@));
            return None;
        }
        let w = v * 10 + ((b - 48) as u128);
        v = if w > INT_SATURATION {
            INT_SATURATION
        } else {
            w
        };
        proof {
            assert(s@.subrange(0, i + 1 as int).drop_last() =~= s@.subrange(0, i as int));
            assert(s@.subrange(0, i + 1 as int).last() == s@[i as int]);
        }
        i += 1;
    }
    proof {
        assert(s@.subrange(0, s@.len() as int) =~= s@);
    }
    Some(v)
}

fn pow10_exec(k: usize) -> (r: u128)
    requires
        k <= 24,
    ensures
        r as nat == pow10(k as nat),
        r >= 1,
    decreases k,
{
    if k == 0 {
        1
    } else {
        let p = pow10_exec(k - 1);
        proof {
            assert(pow10(((k - 1) as usize) as nat) <= pow10(24)) by {
                lemma_pow10_le(((k - 1) as usize) as nat, 24);
            }
            reveal_with_fuel(pow10, 25);
            assert(pow10(24) == 1_000_000_000_000_000_000_000_000);
        }
        10 * p
    }
}

proof fn lemma_pow10_le(a: nat, b: nat)
    requires
        a <= b,
    ensures
        pow10(a) <= pow10(b),
    decreases b,
{
    if a < b {
        lemma_pow10_le(a, (b - 1) as nat);
        assert(pow10(b) == 10 * pow10((b - 1) as nat));
    }
}

/// Parse a duration string such as `1s`, `500ms`, `2m`, `1h` or `1.5s` into
/// whole milliseconds. A string without a number, with an unknown unit, or
/// with a negative sign is invalid; anything above the 30-minute maximum is
/// rejected as too long.
pub fn parse_duration(duration_str: &Vec<u8>) -> (r: Result<u64, SleepServerError>)
    ensures
        r matches Ok(ms) ==> parse_duration_spec(duration_str@) == Ok::<nat, bool>(ms as nat) && ms
            <= MAX_SLEEP_DURATION_MS,
        r matches Err(e) ==> (parse_duration_spec(duration_str@) matches Err(too_long) && (if too_long {
            e matches SleepServerError::DurationTooLong { duration, max_duration } && duration@
                == crate::edits::trim_spec(duration_str@) && max_duration@
                == format_duration_spec(MAX_SLEEP_DURATION_MS as nat)
        } else {
            e matches SleepServerError::InvalidDuration { duration } && duration@
                == crate::edits::trim_spec(duration_str@)
        })),
{
    let t = trim(duration_str);
    let ghost tv = t@;
    let k = match find_first_alpha(&t) {
        Some(k) => k,
        None => {
            return Err(SleepServerError::InvalidDuration { duration: t });
        }
    };
    if k == 0 {
        return Err(SleepServerError::InvalidDuration { duration: t });
    }
    let num = vec_slice(&t, 0, k);
    let unit = vec_slice(&t, k, t.len());
    // strip an optional leading plus
    let body = if num.len() > 0 && num[0] == 43 {
        let b = vec_slice(&num, 1, num.len());
        proof {
            assert(num@.subrange(1, num@.len() as int) =~= num_body(num@));
        }
        b
    } else {
        num.clone()
    };
    // split the number at its dot, when it has one
    let parsed: Option<(u128, u128, usize)> = match find_first_dot(&body) {
        None => {
            if body.len() == 0 {
                None
            } else {
                match parse_digits(&body) {
                    Some(v) => Some((v, 0, 0)),
                    None => None,
                }
            }
        }
        Some(d) => {
            let int_part = vec_slice(&body, 0, d);
            let frac_full = vec_slice(&body, d + 1, body.len());
            let frac_used_len = if frac_full.len() <= 24 {
                frac_full.len()
            } else {
                24
            };
            let frac_used = vec_slice(&frac_full, 0, frac_used_len);
            proof {
                if frac_full@.len() <= 24 {
                    assert(frac_used@ =~= frac_full@);
                }
            }
            if int_part.len() == 0 && frac_full.len() == 0 {
                None
            } else {
                match parse_digits(&int_part) {
                    Some(iv) => {
                        match parse_digits(&frac_full) {
                            Some(_) => {
                                match parse_digits(&frac_used) {
                                    Some(fv) => Some((iv, fv, frac_used_len)),
                                    None => None,
                                }
                            }
                            None => None,
                        }
                    }
                    None => None,
                }
            }
        }
    };
    let (int_val, frac_val, frac_len) = match parsed {
        Some(p) => p,
        None => {
            proof {
                assert(!num_ok(num@));
            }
            return Err(SleepServerError::InvalidDuration { duration: t });
        }
    };
    proof {
        assert(num_ok(num@));
        assert(int_val as nat == num_int(num@));
        assert(frac_val as nat == digits_val(num_frac_digits(num@)));
        assert(frac_len as nat == num_frac_digits(num@).len());
        assert(frac_len <= 24);
    }
    let unit_lower = ascii_lower_vec(&unit);
    let factor: u64 = if eq_lit(&unit_lower, "ms") || eq_lit(&unit_lower, "milliseconds") {
        1
    } else if eq_lit(&unit_lower, "s") || eq_lit(&unit_lower, "sec") || eq_lit(
        &unit_lower,
        "seconds",
    ) {
        1000
    } else if eq_lit(&unit_lower, "m") || eq_lit(&unit_lower, "min") || eq_lit(
        &unit_lower,
        "minutes",
    ) {
        60000
    } else if eq_lit(&unit_lower, "h") || eq_lit(&unit_lower, "hr") || eq_lit(
        &unit_lower,
        "hours",
    ) {
        3600000
    } else {
        proof {
            assert(unit_factor(unit@) is None);
        }
        return Err(SleepServerError::InvalidDuration { duration: t });
    };
    proof {
        assert(unit_factor(unit@) == Some(factor as nat));
        lemma_digits_val_le(num@.subrange(0, num@.len() as int));
        lemma_digits_val_le(num_frac_digits(num@));
        assert(int_val <= INT_SATURATION) by {
            lemma_digits_val_le(num_body(num@));
            match first_dot(num_body(num@)) {
                Some(d) => lemma_digits_val_le(num_body(num@).subrange(0, d)),
                None => (),
            }
        }
        assert(frac_val <= INT_SATURATION);
    }
    let p10 = pow10_exec(frac_len);
    proof {
        let iv = int_val as int;
        let fv = frac_val as int;
        let f = factor as int;
        assert(iv * f <= 1_000_000_000_000_000_000_000 * 3600000) by (nonlinear_arith)
            requires
                0 <= iv <= 1_000_000_000_000_000_000_000,
                0 <= f <= 3600000,
        ;
        assert(fv * f <= 1_000_000_000_000_000_000_000 * 3600000) by (nonlinear_arith)
            requires
                0 <= fv <= 1_000_000_000_000_000_000_000,
                0 <= f <= 3600000,
        ;
    }
    let ms_wide: u128 = (int_val * (factor as u128)) + (frac_val * (factor as u128)) / p10;
    proof {
        assert(ms_wide as nat == duration_ms(tv, k as int, factor as nat));
    }
    if ms_wide > (MAX_SLEEP_DURATION_MS as u128) {
        return Err(SleepServerError::DurationTooLong {
            duration: t,
            max_duration: format_duration(MAX_SLEEP_DURATION_MS),
        });
    }
    Ok(ms_wide as u64)
}

fn eq_lit(v: &Vec<u8>, s: &str) -> (r: bool)
    ensures
        r == (v@ == s.spec_bytes()),
{
    let lit = bytes_of(s);
    crate::bytes::vec_eq(v, &lit)
}

fn ascii_lower_vec(s: &Vec<u8>) -> (r: Vec<u8>)
    ensures
        r@ == ascii_lower(s@),
{
    let mut r: Vec<u8> = Vec::new();
    let mut i: usize = 0;
    while i < s.len()
        invariant
            i <= s.len(),
            r@ == ascii_lower(s@.subrange(0, i as int)),
        decreases s.len() - i,
    {
        let b = s[i];
        let lb: u8 = if 65 <= b && b <= 90 {
            b + 32
        } else {
            b
        };
        r.push(lb);
        proof {
            assert(r@ =~= ascii_lower(s@.subrange(0, i + 1 as int)));
        }
        i += 1;
    }
    proof {
        assert(s@.subrange(0, s@.len() as int) =~= s@);
    }
    r
}

/// Three-digit zero padding for the millisecond remainder.
pub open spec fn pad3(n: nat) -> Seq<u8> {
    (if n < 10 {
        seq![48u8, 48u8]
    } else if n < 100 {
        seq![48u8]
    } else {
        Seq::<u8>::empty()
    }) + dec_bytes(n)
}

/// The human-readable form of a duration: hour, minute and second parts when
/// present, fractional seconds kept to the millisecond, and `0ms` for
/// nothing at all.
pub open spec fn format_duration_spec(total_ms: nat) -> Seq<u8> {
    if total_ms == 0 {
        "0ms".spec_bytes()
    } else {
        let hours = total_ms / 3600000;
        let minutes = (total_ms % 3600000) / 60000;
        let seconds = (total_ms % 60000) / 1000;
        let millis = total_ms % 1000;
        let parts = (if hours > 0 {
            seq![dec_bytes(hours) + "h".spec_bytes()]
        } else {
            Seq::<Seq<u8>>::empty()
        }) + (if minutes > 0 {
            seq![dec_bytes(minutes) + "m".spec_bytes()]
        } else {
            Seq::<Seq<u8>>::empty()
        }) + (if seconds > 0 {
            if millis > 0 {
                seq![dec_bytes(seconds) + ".".spec_bytes() + pad3(millis) + "s".spec_bytes()]
            } else {
                seq![dec_bytes(seconds) + "s".spec_bytes()]
            }
        } else if millis > 0 {
            seq![dec_bytes(millis) + "ms".spec_bytes()]
        } else {
            Seq::<Seq<u8>>::empty()
        });
        if parts.len() == 0 {
            "0ms".spec_bytes()
        } else {
            crate::bytes::join_by(parts, 32)
        }
    }
}

/// Format a duration in milliseconds as a human-readable string.
pub fn format_duration(total_ms: u64) -> (r: Vec<u8>)
    ensures
        r@ == format_duration_spec(total_ms as nat),
{
    if total_ms == 0 {
        return bytes_of("0ms");
    }
    let hours = total_ms / 3600000;
    let minutes = (total_ms % 3600000) / 60000;
    let seconds = (total_ms % 60000) / 1000;
    let millis = total_ms % 1000;
    let mut parts: Vec<Vec<u8>> = Vec::new();
    if hours > 0 {
        let mut p = u64_to_dec(hours);
        let u = bytes_of("h");
        vec_extend(&mut p, &u);
        parts.push(p);
    }
    if minutes > 0 {
        let mut p = u64_to_dec(minutes);
        let u = bytes_of("m");
        vec_extend(&mut p, &u);
        parts.push(p);
    }
    if seconds > 0 {
        if millis > 0 {
            let mut p = u64_to_dec(seconds);
            let dot = bytes_of(".");
            vec_extend(&mut p, &dot);
            let pad: usize = if millis < 10 {
                2
            } else if millis < 100 {
                1
            } else {
                0
            };
            let mut z: usize = 0;
            while z < pad
                invariant
                    z <= pad,
                    p@ == dec_bytes(seconds as nat) + ".".spec_bytes() + Seq::new(
                        z as nat,
                        |q: int| 48u8,
                    ),
                decreases pad - z,
            {
                p.push(48);
                proof {
                    assert(p@ =~= dec_bytes(seconds as nat) + ".".spec_bytes() + Seq::new(
                        (z + 1) as nat,
                        |q: int| 48u8,
                    ));
                }
                z += 1;
            }
            let d = u64_to_dec(millis);
            vec_extend(&mut p, &d);
            let u = bytes_of("s");
            vec_extend(&mut p, &u);
            proof {
                if millis < 10 {
                    assert(Seq::new(2, |q: int| 48u8) =~= seq![48u8, 48u8]);
                } else if millis < 100 {
                    assert(Seq::new(1, |q: int| 48u8) =~= seq![48u8]);
                } else {
                    assert(Seq::new(0, |q: int| 48u8) =~= Seq::<u8>::empty());
                }
                assert(p@ =~= dec_bytes(seconds as nat) + ".".spec_bytes() + pad3(millis as nat)
                    + "s".spec_bytes());
            }
            parts.push(p);
        } else {
            let mut p = u64_to_dec(seconds);
            let u = bytes_of("s");
            vec_extend(&mut p, &u);
            parts.push(p);
        }
    } else if millis > 0 {
        let mut p = u64_to_dec(millis);
        let u = bytes_of("ms");
        vec_extend(&mut p, &u);
        parts.push(p);
    }
    if parts.len() == 0 {
        bytes_of("0ms")
    } else {
        let r = crate::bytes::join_vec(&parts, 32);
        proof {
            assert(parts@.map_values(|x: Vec<u8>| x@) =~= (if total_ms / 3600000 > 0 {
                seq![dec_bytes((total_ms / 3600000) as nat) + "h".spec_bytes()]
            } else {
                Seq::<Seq<u8>>::empty()
            }) + (if (total_ms % 3600000) / 60000 > 0 {
                seq![dec_bytes(((total_ms % 3600000) / 60000) as nat) + "m".spec_bytes()]
            } else {
                Seq::<Seq<u8>>::empty()
            }) + (if (total_ms % 60000) / 1000 > 0 {
                if total_ms % 1000 > 0 {
                    seq![
                        dec_bytes(((total_ms % 60000) / 1000) as nat) + ".".spec_bytes() + pad3(
                            (total_ms % 1000) as nat,
                        ) + "s".spec_bytes(),
                    ]
                } else {
                    seq![dec_bytes(((total_ms % 60000) / 1000) as nat) + "s".spec_bytes()]
                }
            } else if total_ms % 1000 > 0 {
                seq![dec_bytes((total_ms % 1000) as nat) + "ms".spec_bytes()]
            } else {
                Seq::<Seq<u8>>::empty()
            }));
        }
        r
    }
}

} // verus!
