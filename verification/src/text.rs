//! Decimal rendering and parsing.
//!
//! Timestamps cross the boundary to the external tool as decimal strings
//! ("12.5" seconds) and come back the same way; internally they are integer
//! milliseconds. This module renders a millisecond count as the shortest
//! decimal string and parses a decimal token back into milliseconds,
//! truncating past the third fractional digit.

use vstd::prelude::*;

verus! {

// ---------------------------------------------------------------------------
// Rendering: integers and millisecond counts as decimal strings
// ---------------------------------------------------------------------------

/// The decimal digit character for a value below ten.
pub open spec fn digit_char(d: nat) -> char
    recommends
        d < 10,
{
    if d == 0 { '0' }
    else if d == 1 { '1' }
    else if d == 2 { '2' }
    else if d == 3 { '3' }
    else if d == 4 { '4' }
    else if d == 5 { '5' }
    else if d == 6 { '6' }
    else if d == 7 { '7' }
    else if d == 8 { '8' }
    else { '9' }
}

/// The usual decimal rendering of `n`, without leading zeros.
pub open spec fn dec_str(n: nat) -> Seq<char>
    decreases n,
{
    if n < 10 {
        seq![digit_char(n)]
    } else {
        dec_str(n / 10).push(digit_char(n % 10))
    }
}

/// `n` rendered with at least two digits, zero-padded.
pub open spec fn pad2_str(n: nat) -> Seq<char> {
    if n < 10 {
        seq!['0'] + dec_str(n)
    } else {
        dec_str(n)
    }
}

/// `n` rendered with at least three digits, zero-padded.
pub open spec fn pad3_str(n: nat) -> Seq<char> {
    if n < 10 {
        seq!['0', '0'] + dec_str(n)
    } else if n < 100 {
        seq!['0'] + dec_str(n)
    } else {
        dec_str(n)
    }
}

/// The fractional part of a millisecond count (1 to 999 thousandths),
/// with trailing zeros dropped.
pub open spec fn frac_str(r: nat) -> Seq<char>
    recommends
        0 < r < 1000,
{
    let d1 = r / 100;
    let d2 = (r / 10) % 10;
    let d3 = r % 10;
    if d3 != 0 {
        seq![digit_char(d1), digit_char(d2), digit_char(d3)]
    } else if d2 != 0 {
        seq![digit_char(d1), digit_char(d2)]
    } else {
        seq![digit_char(d1)]
    }
}

/// A millisecond count rendered as decimal seconds: the whole seconds,
/// then, when the count is not whole, a point and the thousandths with
/// trailing zeros dropped. 30000 renders as "30", 12500 as "12.5".
pub open spec fn ms_str(ms: nat) -> Seq<char> {
    let q = ms / 1000;
    let r = ms % 1000;
    if r == 0 {
        dec_str(q)
    } else {
        dec_str(q) + seq!['.'] + frac_str(r)
    }
}

/// One decimal digit as a string slice.
fn digit_str(d: u64) -> (r: &'static str)
    requires
        d < 10,
    ensures
        r@ == seq![digit_char(d as nat)],
{
    proof {
        reveal_strlit("0");
        reveal_strlit("1");
        reveal_strlit("2");
        reveal_strlit("3");
        reveal_strlit("4");
        reveal_strlit("5");
        reveal_strlit("6");
        reveal_strlit("7");
        reveal_strlit("8");
        reveal_strlit("9");
    }
    if d == 0 { "0" }
    else if d == 1 { "1" }
    else if d == 2 { "2" }
    else if d == 3 { "3" }
    else if d == 4 { "4" }
    else if d == 5 { "5" }
    else if d == 6 { "6" }
    else if d == 7 { "7" }
    else if d == 8 { "8" }
    else { "9" }
}

/// Renders `n` in decimal without leading zeros.
pub fn u64_to_string(n: u64) -> (r: String)
    ensures
        r@ == dec_str(n as nat),
    decreases n,
{
    if n < 10 {
        digit_str(n).to_owned()
    } else {
        let mut s = u64_to_string(n / 10);
        s.append(digit_str(n % 10));
        proof {
            assert(dec_str((n / 10) as nat).push(digit_char((n % 10) as nat)) =~= dec_str(
                (n / 10) as nat,
            ) + seq![digit_char((n % 10) as nat)]);
        }
        s
    }
}

/// Renders `n` in decimal, zero-padded to at least two digits.
pub fn u64_to_pad2(n: u64) -> (r: String)
    ensures
        r@ == pad2_str(n as nat),
{
    if n < 10 {
        proof {
            reveal_strlit("0");
        }
        let mut s: String = "0".to_owned();
        s.append(digit_str(n));
        proof {
            assert(s@ =~= pad2_str(n as nat));
        }
        s
    } else {
        u64_to_string(n)
    }
}

/// Renders `n` in decimal, zero-padded to at least three digits.
pub fn u64_to_pad3(n: u64) -> (r: String)
    ensures
        r@ == pad3_str(n as nat),
{
    if n < 10 {
        proof {
            reveal_strlit("00");
        }
        let mut s: String = "00".to_owned();
        s.append(digit_str(n));
        proof {
            assert(s@ =~= pad3_str(n as nat));
        }
        s
    } else if n < 100 {
        proof {
            reveal_strlit("0");
        }
        let mut s: String = "0".to_owned();
        let t = u64_to_string(n);
        s.append(t.as_str());
        proof {
            assert(s@ =~= pad3_str(n as nat));
        }
        s
    } else {
        u64_to_string(n)
    }
}

/// Renders a millisecond count as decimal seconds, per `ms_str`.
pub fn ms_to_string(ms: u64) -> (r: String)
    ensures
        r@ == ms_str(ms as nat),
{
    let q = ms / 1000;
    let r = ms % 1000;
    let mut s = u64_to_string(q);
    if r == 0 {
        s
    } else {
        proof {
            reveal_strlit(".");
        }
        s.append(".");
        let d1 = r / 100;
        let d2 = (r / 10) % 10;
        let d3 = r % 10;
        if d3 != 0 {
            s.append(digit_str(d1));
            s.append(digit_str(d2));
            s.append(digit_str(d3));
        } else if d2 != 0 {
            s.append(digit_str(d1));
            s.append(digit_str(d2));
        } else {
            s.append(digit_str(d1));
        }
        proof {
            assert(s@ =~= ms_str(ms as nat));
        }
        s
    }
}

// ---------------------------------------------------------------------------
// Parsing: decimal tokens to millisecond counts
// ---------------------------------------------------------------------------

/// An ASCII decimal digit.
pub open spec fn is_digit(b: u8) -> bool {
    48 <= b && b <= 57
}

/// Every byte of `s` is a decimal digit.
pub open spec fn all_digits(s: Seq<u8>) -> bool {
    forall|i: int| 0 <= i < s.len() ==> is_digit(#[trigger] s[i])
}

/// The value of a digit string, most significant digit first.
pub open spec fn digits_val(s: Seq<u8>) -> nat
    recommends
        all_digits(s),
    decreases s.len(),
{
    if s.len() == 0 {
        0
    } else {
        (digits_val(s.drop_last()) * 10 + (s.last() - 48)) as nat
    }
}

/// The index of the first occurrence of `b` in `s`, if any.
pub open spec fn find_byte(s: Seq<u8>, b: u8) -> Option<int>
    decreases s.len(),
{
    if s.len() == 0 {
        None
    } else if s[0] == b {
        Some(0)
    } else {
        match find_byte(s.skip(1), b) {
            Some(i) => Some(i + 1),
            None => None,
        }
    }
}

/// The value in thousandths of a fractional digit string: digits past the
/// third are truncated, missing places count as zero.
pub open spec fn frac3(s: Seq<u8>) -> nat
    recommends
        all_digits(s),
{
    let d1: nat = if s.len() > 0 { (s[0] - 48) as nat } else { 0 };
    let d2: nat = if s.len() > 1 { (s[1] - 48) as nat } else { 0 };
    let d3: nat = if s.len() > 2 { (s[2] - 48) as nat } else { 0 };
    d1 * 100 + d2 * 10 + d3
}

/// The millisecond value of a decimal token: an optional integer part, an
/// optional point, an optional fractional part (at least one digit in all),
/// digits only. `None` on anything else, or when the value does not fit.
pub open spec fn parse_ms(tok: Seq<u8>) -> Option<u64> {
    match find_byte(tok, 46) {
        None => {
            if tok.len() > 0 && all_digits(tok) && digits_val(tok) * 1000 <= u64::MAX {
                Some((digits_val(tok) * 1000) as u64)
            } else {
                None
            }
        }
        Some(i) => {
            let ip = tok.take(i);
            let fp = tok.skip(i + 1);
            if ip.len() + fp.len() > 0 && all_digits(ip) && all_digits(fp) && digits_val(ip) * 1000
                + frac3(fp) <= u64::MAX {
                Some((digits_val(ip) * 1000 + frac3(fp)) as u64)
            } else {
                None
            }
        }
    }
}

proof fn lemma_find_byte_none(s: Seq<u8>, b: u8)
    requires
        forall|i: int| 0 <= i < s.len() ==> s[i] != b,
    ensures
        find_byte(s, b) is None,
    decreases s.len(),
{
    if s.len() > 0 {
        lemma_find_byte_none(s.skip(1), b);
    }
}

proof fn lemma_find_byte_at(s: Seq<u8>, b: u8, i: int)
    requires
        0 <= i < s.len(),
        s[i] == b,
        forall|j: int| 0 <= j < i ==> s[j] != b,
    ensures
        find_byte(s, b) == Some(i),
    decreases s.len(),
{
    if i > 0 {
        lemma_find_byte_at(s.skip(1), b, i - 1);
    }
}

/// Finds the first occurrence of `b` in `s[from..to]`.
pub fn find_byte_in(s: &[u8], from: usize, to: usize, b: u8) -> (r: Option<usize>)
    requires
        from <= to <= s@.len(),
    ensures
        match r {
            Some(i) => from <= i < to && find_byte(s@.subrange(from as int, to as int), b) == Some(
                i - from,
            ),
            None => find_byte(s@.subrange(from as int, to as int), b) is None,
        },
{
    let ghost sub = s@.subrange(from as int, to as int);
    let mut i = from;
    while i < to
        invariant
            from <= i <= to <= s@.len(),
            sub == s@.subrange(from as int, to as int),
            forall|j: int| from <= j < i ==> s@[j] != b,
        decreases to - i,
    {
        if s[i] == b {
            proof {
                lemma_find_byte_at(sub, b, i - from);
            }
            return Some(i);
        }
        i = i + 1;
    }
    proof {
        lemma_find_byte_none(sub, b);
    }
    None
}

/// Parses `s[from..to]` as a digit string.
pub fn parse_digits(s: &[u8], from: usize, to: usize) -> (r: Option<u64>)
    requires
        from <= to <= s@.len(),
    ensures
        ({
            let sub = s@.subrange(from as int, to as int);
            match r {
                Some(v) => all_digits(sub) && digits_val(sub) == v,
                None => !(all_digits(sub) && digits_val(sub) <= u64::MAX),
            }
        }),
{
    let ghost sub = s@.subrange(from as int, to as int);
    let mut i = from;
    let mut val: u64 = 0;
    while i < to
        invariant
            from <= i <= to <= s@.len(),
            sub == s@.subrange(from as int, to as int),
            all_digits(s@.subrange(from as int, i as int)),
            val == digits_val(s@.subrange(from as int, i as int)),
        decreases to - i,
    {
        let ghost pre = s@.subrange(from as int, i as int);
        let c = s[i];
        if !(48 <= c && c <= 57) {
            proof {
                assert(!is_digit(sub[i - from]));
            }
            return None;
        }
        let d = (c - 48) as u64;
        if val > (u64::MAX - d) / 10 {
            proof {
                let ext = s@.subrange(from as int, i + 1);
                assert(ext.drop_last() =~= pre);
                assert(digits_val(ext) == val * 10 + d);
                if all_digits(sub) {
                    lemma_digits_val_prefix_le(sub, i + 1 - from);
                    assert(sub.take(i + 1 - from) =~= ext);
                }
                assert(val * 10 + d > u64::MAX) by (nonlinear_arith)
                    requires
                        val > (u64::MAX - d) / 10,
                        d < 10,
                ;
            }
            return None;
        }
        proof {
            assert(val * 10 + d <= u64::MAX) by (nonlinear_arith)
                requires
                    val <= (u64::MAX - d) / 10,
                    d < 10,
            ;
            let ext = s@.subrange(from as int, i + 1);
            assert(ext.drop_last() =~= pre);
            assert(digits_val(ext) == val * 10 + d);
        }
        val = val * 10 + d;
        i = i + 1;
    }
    proof {
        assert(s@.subrange(from as int, i as int) =~= sub);
    }
    Some(val)
}

/// Tests whether `s[from..to]` consists of digits alone.
fn check_digits(s: &[u8], from: usize, to: usize) -> (r: bool)
    requires
        from <= to <= s@.len(),
    ensures
        r == all_digits(s@.subrange(from as int, to as int)),
{
    let ghost sub = s@.subrange(from as int, to as int);
    let mut i = from;
    while i < to
        invariant
            from <= i <= to <= s@.len(),
            sub == s@.subrange(from as int, to as int),
            forall|j: int| from <= j < i ==> is_digit(#[trigger] s@[j]),
        decreases to - i,
    {
        let c = s[i];
        if !(48 <= c && c <= 57) {
            proof {
                assert(!is_digit(sub[i - from]));
            }
            return false;
        }
        i = i + 1;
    }
    true
}

/// The value of a digit-string prefix is at most the value of the whole.
proof fn lemma_digits_val_prefix_le(s: Seq<u8>, k: int)
    requires
        0 <= k <= s.len(),
        all_digits(s),
    ensures
        digits_val(s.take(k)) <= digits_val(s),
    decreases s.len() - k,
{
    if k < s.len() {
        assert(s.take(k + 1).drop_last() =~= s.take(k));
        assert(digits_val(s.take(k + 1)) == digits_val(s.take(k)) * 10 + (s[k] - 48));
        lemma_digits_val_prefix_le(s, k + 1);
    } else {
        assert(s.take(k) =~= s);
    }
}

/// Parses `s[from..to]` as a decimal token, per `parse_ms`.
pub fn parse_ms_range(s: &[u8], from: usize, to: usize) -> (r: Option<u64>)
    requires
        from <= to <= s@.len(),
    ensures
        r == parse_ms(s@.subrange(from as int, to as int)),
{
    let ghost tok = s@.subrange(from as int, to as int);
    match find_byte_in(s, from, to, 46) {
        None => {
            if from == to {
                return None;
            }
            match parse_digits(s, from, to) {
                Some(v) => {
                    if v <= u64::MAX / 1000 {
                        proof {
                            assert(v * 1000 <= u64::MAX) by (nonlinear_arith)
                                requires
                                    v <= u64::MAX / 1000,
                            ;
                        }
                        Some(v * 1000)
                    } else {
                        proof {
                            assert(v * 1000 > u64::MAX) by (nonlinear_arith)
                                requires
                                    v > u64::MAX / 1000,
                            ;
                        }
                        None
                    }
                }
                None => None,
            }
        }
        Some(dot) => {
            let ghost i = dot - from;
            proof {
                assert(tok.take(i) =~= s@.subrange(from as int, dot as int));
                assert(tok.skip(i + 1) =~= s@.subrange(dot + 1, to as int));
            }
            if from == to - 1 && dot == from {
                // the token is a lone point
                return None;
            }
            let iv = match parse_digits(s, from, dot) {
                Some(v) => v,
                None => {
                    return None;
                }
            };
            let fstart = dot + 1;
            if !check_digits(s, fstart, to) {
                return None;
            }
            // value in thousandths from the first three digits
            let d1: u64 = if to - fstart > 0 { (s[fstart] - 48) as u64 } else { 0 };
            let d2: u64 = if to - fstart > 1 { (s[fstart + 1] - 48) as u64 } else { 0 };
            let d3: u64 = if to - fstart > 2 { (s[fstart + 2] - 48) as u64 } else { 0 };
            let fv = d1 * 100 + d2 * 10 + d3;
            proof {
                assert(fv == frac3(tok.skip(i + 1)));
            }
            if iv <= (u64::MAX - fv) / 1000 {
                proof {
                    assert(iv * 1000 + fv <= u64::MAX) by (nonlinear_arith)
                        requires
                            iv <= (u64::MAX - fv) / 1000,
                            fv <= u64::MAX,
                    ;
                }
                Some(iv * 1000 + fv)
            } else {
                proof {
                    assert(iv * 1000 + fv > u64::MAX) by (nonlinear_arith)
                        requires
                            iv > (u64::MAX - fv) / 1000,
                            fv <= u64::MAX,
                    ;
                }
                None
            }
        }
    }
}

/// Parses a whole byte slice as a decimal token.
pub fn parse_ms_bytes(s: &[u8]) -> (r: Option<u64>)
    ensures
        r == parse_ms(s@),
{
    let n = s.len();
    let r = parse_ms_range(s, 0, n);
    proof {
        assert(s@.subrange(0, n as int) =~= s@);
    }
    r
}

} // verus!
