//! One parsed market order, and the tolerant parser that reads it from a
//! raw dump row.
//!
//! Prices and location identifiers are fixed-point decimals: an integer
//! count of hundredths (two fractional digits). A raw dump row carries them
//! as decimal text; the row parser turns that text into these plain fields.

use vstd::prelude::*;
use crate::text::{
    char_is_alphabetic, eq_ignore_ascii_case, spec_alphabetic, spec_eq_ic, spec_trim, trim,
};

verus! {

/// The largest price (and location identifier) the fixed-point model holds,
/// in hundredths: 10^16, i.e. one hundred trillion whole units. Rows whose
/// numeric fields exceed this are rejected by the parser, which keeps every
/// aggregation step free of overflow.
pub const MAX_CENTS: u64 = 10000000000000000;

/// One market order, as read from a single dump row.
#[derive(Clone, Copy, PartialEq, Eq, Structural, Debug)]
pub struct OrderRow {
    /// Order price in hundredths of a unit.
    pub price: u64,
    /// True for a bid (buy order), false for an ask (sell order).
    pub is_buy_order: bool,
    /// Opaque location identifier, in hundredths (compared, never computed on).
    pub location_id: u64,
    /// Network hops between the order's location and the reference location.
    pub jumps: i32,
    /// Identifier of the traded item type.
    pub type_id: i32,
}

/// Whether an ASCII decimal digit stands at `c`.
pub open spec fn spec_is_digit(c: char) -> bool {
    48 <= c as u32 <= 57
}

/// The numeric value of an ASCII decimal digit.
pub open spec fn spec_digit_val(c: char) -> int {
    c as u32 - 48
}

/// Whether every character of the sequence is an ASCII decimal digit.
pub open spec fn spec_all_digits(s: Seq<char>) -> bool {
    forall|k: int| 0 <= k < s.len() ==> spec_is_digit(s[k])
}

/// The value of a sequence of decimal digits, most significant first.
pub open spec fn spec_digits_val(s: Seq<char>) -> int
    decreases s.len(),
{
    if s.len() == 0 {
        0
    } else {
        spec_digits_val(s.drop_last()) * 10 + spec_digit_val(s.last())
    }
}

pub proof fn lemma_digits_val_nonneg(s: Seq<char>)
    requires
        spec_all_digits(s),
    ensures
        spec_digits_val(s) >= 0,
    decreases s.len(),
{
    if s.len() > 0 {
        lemma_digits_val_nonneg(s.drop_last());
    }
}

/// The value of a digit string never falls below the value of any of its
/// prefixes: appending digits can only grow it.
pub proof fn lemma_digits_val_prefix(s: Seq<char>, k: int)
    requires
        spec_all_digits(s),
        0 <= k <= s.len(),
    ensures
        spec_digits_val(s) >= spec_digits_val(s.take(k)),
    decreases s.len() - k,
{
    if k < s.len() {
        lemma_digits_val_prefix(s, k + 1);
        assert(s.take(k + 1).drop_last() =~= s.take(k));
        assert(s.take(k + 1).last() == s[k]);
        lemma_digits_val_nonneg(s.take(k));
    } else {
        assert(s.take(k) =~= s);
    }
}

/// The index of the first `.` in the sequence, or its length if none occurs.
pub open spec fn spec_find_dot(s: Seq<char>) -> int
    decreases s.len(),
{
    if s.len() == 0 {
        0
    } else if s.first() == '.' {
        0
    } else {
        1 + spec_find_dot(s.drop_first())
    }
}

proof fn lemma_find_dot_at(s: Seq<char>, d: int)
    requires
        0 <= d <= s.len(),
        forall|k: int| 0 <= k < d ==> s[k] != '.',
        d < s.len() ==> s[d] == '.',
    ensures
        spec_find_dot(s) == d,
    decreases d,
{
    if d > 0 {
        lemma_find_dot_at(s.drop_first(), d - 1);
    }
}

/// The contribution of the fraction digits to the value in hundredths: the
/// first two fraction digits scaled, further digits truncated away.
pub open spec fn spec_frac_cents(fp: Seq<char>) -> int {
    if fp.len() == 0 {
        0
    } else if fp.len() == 1 {
        spec_digit_val(fp[0]) * 10
    } else {
        spec_digit_val(fp[0]) * 10 + spec_digit_val(fp[1])
    }
}

/// The value in hundredths of a plain decimal literal, or nothing where the
/// text is not one. The accepted shape: decimal digits with at most one
/// `.`, at least one digit in all, no sign, no exponent. Fraction digits
/// past the second are truncated away (the model keeps two).
pub open spec fn spec_decimal_cents(s: Seq<char>) -> Option<int> {
    let d = spec_find_dot(s);
    if d == s.len() {
        if s.len() > 0 && spec_all_digits(s) {
            Some(spec_digits_val(s) * 100)
        } else {
            None
        }
    } else {
        let ip = s.take(d);
        let fp = s.skip(d + 1);
        if spec_all_digits(ip) && spec_all_digits(fp) && ip.len() + fp.len() > 0 {
            Some(spec_digits_val(ip) * 100 + spec_frac_cents(fp))
        } else {
            None
        }
    }
}

/// A decimal literal's value is never negative: the grammar has no sign.
pub proof fn lemma_decimal_cents_nonneg(s: Seq<char>)
    ensures
        spec_decimal_cents(s) is Some ==> spec_decimal_cents(s).unwrap() >= 0,
{
    let d = spec_find_dot(s);
    if spec_decimal_cents(s) is Some {
        if d == s.len() {
            lemma_digits_val_nonneg(s);
        } else {
            lemma_digits_val_nonneg(s.take(d));
        }
    }
}

/// A successfully parsed field always fits the fixed-point model.
pub proof fn lemma_parse_cents_in_range(s: Seq<char>)
    ensures
        spec_parse_cents(s) is Some ==> spec_parse_cents(s).unwrap() <= MAX_CENTS,
{
    lemma_decimal_cents_nonneg(s);
}

/// The fixed-point value a raw numeric field denotes, or nothing where the
/// field is not a plain decimal literal or its value exceeds the model's
/// capacity of `MAX_CENTS` hundredths.
pub open spec fn spec_parse_cents(s: Seq<char>) -> Option<u64> {
    match spec_decimal_cents(s) {
        Some(v) => if v <= MAX_CENTS {
            Some(v as u64)
        } else {
            None
        },
        None => None,
    }
}

/// Reads the value of the digit run `s[from..to]`, already known to be all
/// digits; reports nothing where the value exceeds `MAX_CENTS`.
#[verifier::loop_isolation(false)]
fn digits_value_capped(s: &str, from: usize, to: usize) -> (r: Option<u64>)
    requires
        0 <= from <= to <= s@.len(),
        spec_all_digits(s@.subrange(from as int, to as int)),
    ensures
        match r {
            Some(v) => v == spec_digits_val(s@.subrange(from as int, to as int)) && v <= MAX_CENTS,
            None => spec_digits_val(s@.subrange(from as int, to as int)) > MAX_CENTS,
        },
{
    let ghost digits = s@.subrange(from as int, to as int);
    let mut acc: u64 = 0;
    let mut k: usize = from;
    while k < to
        invariant
            from <= k <= to <= s@.len(),
            digits == s@.subrange(from as int, to as int),
            spec_all_digits(digits),
            acc == spec_digits_val(digits.take(k - from)),
            acc <= MAX_CENTS,
        decreases to - k,
    {
        let c = s.get_char(k);
        assert(c == digits[k - from]);
        let d = (c as u32) - 48;
        proof {
            assert(digits.take(k - from + 1).drop_last() =~= digits.take(k - from));
            assert(digits.take(k - from + 1).last() == digits[k - from]);
        }
        let next: u64 = acc * 10 + (d as u64);
        if next > MAX_CENTS {
            proof {
                lemma_digits_val_prefix(digits, k - from + 1);
            }
            return None;
        }
        acc = next;
        k = k + 1;
    }
    proof {
        assert(digits.take(to - from) =~= digits);
    }
    Some(acc)
}

/// Reads a raw numeric field as a fixed-point count of hundredths.
#[verifier::loop_isolation(false)]
pub fn parse_cents(s: &str) -> (r: Option<u64>)
    ensures
        r == spec_parse_cents(s@),
{
    let n = s.unicode_len();
    // Find the first dot, checking that everything before it is a digit.
    let mut d: usize = 0;
    while d < n && s.get_char(d) != '.'
        invariant
            0 <= d <= n,
            n == s@.len(),
            forall|k: int| 0 <= k < d ==> s@[k] != '.',
        decreases n - d,
    {
        d = d + 1;
    }
    proof {
        lemma_find_dot_at(s@, d as int);
    }
    // Every character outside the dot must be an ASCII digit.
    let mut k: usize = 0;
    while k < n
        invariant
            0 <= k <= n,
            n == s@.len(),
            forall|m: int| 0 <= m < k && m != d ==> spec_is_digit(s@[m]),
        decreases n - k,
    {
        if k != d {
            let c = s.get_char(k);
            let cu = c as u32;
            if !(48 <= cu && cu <= 57) {
                proof {
                    if d == n {
                        assert(!spec_all_digits(s@));
                    } else {
                        let ip = s@.take(d as int);
                        let fp = s@.skip(d + 1);
                        if (k as int) < d {
                            assert(ip[k as int] == s@[k as int]);
                            assert(!spec_all_digits(ip));
                        } else {
                            assert(fp[k - d - 1] == s@[k as int]);
                            assert(!spec_all_digits(fp));
                        }
                    }
                }
                return None;
            }
        }
        k = k + 1;
    }
    if d == n {
        // No dot: plain digits.
        if n == 0 {
            return None;
        }
        proof {
            assert(spec_all_digits(s@));
            assert(s@.subrange(0, n as int) =~= s@);
        }
        let whole = digits_value_capped(s, 0, n);
        match whole {
            Some(v) => {
                if v <= MAX_CENTS / 100 {
                    Some(v * 100)
                } else {
                    None
                }
            },
            None => None,
        }
    } else {
        let ghost ip = s@.take(d as int);
        let ghost fp = s@.skip(d + 1);
        proof {
            assert(forall|m: int| 0 <= m < ip.len() ==> ip[m] == s@[m]);
            assert(forall|m: int| 0 <= m < fp.len() ==> fp[m] == s@[m + d + 1]);
            assert(spec_all_digits(ip));
            assert(spec_all_digits(fp));
        }
        if n == 1 {
            // The text is a lone dot.
            return None;
        }
        proof {
            assert(ip =~= s@.subrange(0, d as int));
        }
        let whole = digits_value_capped(s, 0, d);
        match whole {
            Some(v) => {
                // First two fraction digits, in hundredths.
                let mut frac: u64 = 0;
                if d + 1 < n {
                    frac = ((s.get_char(d + 1) as u32 - 48) as u64) * 10;
                    assert(s@[d + 1] == fp[0]);
                    if d + 2 < n {
                        frac = frac + (s.get_char(d + 2) as u32 - 48) as u64;
                        assert(s@[d + 2] == fp[1]);
                    }
                }
                assert(frac == spec_frac_cents(fp));
                if v <= (MAX_CENTS - frac) / 100 {
                    proof {
                        lemma_digits_val_nonneg(ip);
                    }
                    Some(v * 100 + frac)
                } else {
                    None
                }
            },
            None => None,
        }
    }
}

/// The signed integer a raw field denotes, or nothing where the text is not
/// an optionally signed run of decimal digits or its value does not fit.
pub open spec fn spec_parse_i32(s: Seq<char>) -> Option<i32> {
    let neg = s.len() > 0 && s[0] == '-';
    let body = if s.len() > 0 && (s[0] == '-' || s[0] == '+') {
        s.drop_first()
    } else {
        s
    };
    if body.len() > 0 && spec_all_digits(body) {
        let v = spec_digits_val(body);
        if neg {
            if -v >= i32::MIN {
                Some((-v) as i32)
            } else {
                None
            }
        } else {
            if v <= i32::MAX {
                Some(v as i32)
            } else {
                None
            }
        }
    } else {
        None
    }
}

/// Reads the value of the digits `s[from..]`, already known to be digits,
/// capped just above the magnitude an `i32` can carry.
#[verifier::loop_isolation(false)]
fn digits_value_i32(s: &str, from: usize) -> (r: Option<u64>)
    requires
        0 <= from <= s@.len(),
        spec_all_digits(s@.skip(from as int)),
    ensures
        match r {
            Some(v) => v == spec_digits_val(s@.skip(from as int)) && v <= 0x8000_0000,
            None => spec_digits_val(s@.skip(from as int)) > 0x8000_0000,
        },
{
    let ghost digits = s@.skip(from as int);
    let n = s.unicode_len();
    let mut acc: u64 = 0;
    let mut k: usize = from;
    while k < n
        invariant
            from <= k <= n,
            n == s@.len(),
            digits == s@.skip(from as int),
            spec_all_digits(digits),
            acc == spec_digits_val(digits.take(k - from)),
            acc <= 0x8000_0000,
        decreases n - k,
    {
        let c = s.get_char(k);
        assert(c == digits[k - from]);
        let d = (c as u32) - 48;
        proof {
            assert(digits.take(k - from + 1).drop_last() =~= digits.take(k - from));
            assert(digits.take(k - from + 1).last() == digits[k - from]);
        }
        let next: u64 = acc * 10 + (d as u64);
        if next > 0x8000_0000 {
            proof {
                lemma_digits_val_prefix(digits, k - from + 1);
            }
            return None;
        }
        acc = next;
        k = k + 1;
    }
    proof {
        assert(digits.take(n - from) =~= digits);
    }
    Some(acc)
}

/// Reads a raw field as a signed integer, as the standard decimal grammar
/// has it: an optional sign, then at least one ASCII digit, fitting `i32`.
#[verifier::loop_isolation(false)]
pub fn parse_i32(s: &str) -> (r: Option<i32>)
    ensures
        r == spec_parse_i32(s@),
{
    let n = s.unicode_len();
    if n == 0 {
        return None;
    }
    let first = s.get_char(0);
    let neg = first == '-';
    let from: usize = if first == '-' || first == '+' {
        1
    } else {
        0
    };
    let ghost body = if s@[0] == '-' || s@[0] == '+' {
        s@.drop_first()
    } else {
        s@
    };
    proof {
        assert(body =~= s@.skip(from as int));
    }
    if from == n {
        // A lone sign.
        return None;
    }
    // Every body character must be an ASCII digit.
    let mut k: usize = from;
    while k < n
        invariant
            from <= k <= n,
            n == s@.len(),
            forall|m: int| from <= m < k ==> spec_is_digit(s@[m]),
        decreases n - k,
    {
        let cu = s.get_char(k) as u32;
        if !(48 <= cu && cu <= 57) {
            proof {
                assert(body[k - from] == s@[k as int]);
                assert(!spec_all_digits(body));
            }
            return None;
        }
        k = k + 1;
    }
    proof {
        assert(forall|m: int| 0 <= m < body.len() ==> body[m] == s@[m + from]);
        assert(spec_all_digits(body));
    }
    match digits_value_i32(s, from) {
        Some(v) => {
            if neg {
                if v <= 0x8000_0000 {
                    Some((-(v as i64)) as i32)
                } else {
                    None
                }
            } else {
                if v <= 0x7fff_ffff {
                    Some(v as i32)
                } else {
                    None
                }
            }
        },
        None => None,
    }
}

/// Whether the first field reads as a header or corrupted line: after
/// trimming, it equals "price" up to ASCII case, or its first character is
/// alphabetic. A best-effort heuristic, preserved exactly, false-positive
/// risk included.
pub open spec fn spec_header_like(field: Seq<char>) -> bool {
    let t = spec_trim(field);
    spec_eq_ic(t, "price"@) || (t.len() > 0 && spec_alphabetic(t[0]))
}

/// Decides whether a first field reads as a header or corrupted line.
pub fn is_header_like(field: &str) -> (r: bool)
    ensures
        r == spec_header_like(field@),
{
    let trimmed = trim(field);
    if eq_ignore_ascii_case(trimmed, "price") {
        return true;
    }
    let t_len = trimmed.unicode_len();
    t_len > 0 && char_is_alphabetic(trimmed.get_char(0))
}

/// The order a raw row of fields denotes, or nothing where the row is
/// rejected. Rules, in order: fewer than fourteen fields reject the row; a
/// header-like first field rejects it; then field 0 must read as a price,
/// field 10 as a location identifier, field 13 and field 2 as integers,
/// any single failure rejecting the whole row. Field 7 sets the buy flag by
/// case-insensitive equality to "true"; it cannot fail.
pub open spec fn spec_parse_row(row: Seq<Seq<char>>) -> Option<OrderRow> {
    if row.len() < 14 {
        None
    } else if spec_header_like(row[0]) {
        None
    } else {
        match spec_parse_cents(row[0]) {
            None => None,
            Some(price) => match spec_parse_cents(row[10]) {
                None => None,
                Some(location_id) => match spec_parse_i32(row[13]) {
                    None => None,
                    Some(jumps) => match spec_parse_i32(row[2]) {
                        None => None,
                        Some(type_id) => Some(
                            OrderRow {
                                price,
                                is_buy_order: spec_eq_ic(row[7], "true"@),
                                location_id,
                                jumps,
                                type_id,
                            },
                        ),
                    },
                },
            },
        }
    }
}

/// Turns one raw row of delimited text fields into a typed order record,
/// or rejects it, exactly as `spec_parse_row` lays down.
pub fn parse_csv_row(row: &Vec<String>) -> (r: Option<OrderRow>)
    ensures
        r == spec_parse_row(row.deep_view()),
{
    let ghost rowv = row.deep_view();
    proof {
        assert(forall|m: int| 0 <= m < row@.len() ==> rowv[m] == row@[m]@);
    }
    if row.len() < 14 {
        return None;
    }
    if is_header_like(row[0].as_str()) {
        return None;
    }
    let price = match parse_cents(row[0].as_str()) {
        Some(v) => v,
        None => {
            return None;
        },
    };
    let location_id = match parse_cents(row[10].as_str()) {
        Some(v) => v,
        None => {
            return None;
        },
    };
    let jumps = match parse_i32(row[13].as_str()) {
        Some(v) => v,
        None => {
            return None;
        },
    };
    let type_id = match parse_i32(row[2].as_str()) {
        Some(v) => v,
        None => {
            return None;
        },
    };
    let is_buy_order = eq_ignore_ascii_case(row[7].as_str(), "true");
    Some(OrderRow { price, is_buy_order, location_id, jumps, type_id })
}

} // verus!
