//! Plain-text building blocks for the wire protocol: decimal rendering of
//! integers and decimal parsing of room identifiers.

use vstd::prelude::*;
use vstd::string::StrSliceExecFns;

verus! {

/// Relies on `String::push` from std: appends the given character to the
/// end of the string.
pub assume_specification[ String::push ](s: &mut String, ch: char)
    ensures
        final(s)@ == old(s)@.push(ch),
;

/// The character for one decimal digit value.
pub open spec fn dec_digit_char(d: int) -> char {
    ((48 + d) as u8) as char
}

/// The decimal digit sequence of a non-negative integer, most significant
/// digit first, with no leading zeros (a single `'0'` for zero).
pub open spec fn dec_digits(n: nat) -> Seq<char>
    decreases n,
{
    if n < 10 {
        seq![dec_digit_char(n as int)]
    } else {
        dec_digits(n / 10).push(dec_digit_char((n % 10) as int))
    }
}

/// The decimal rendering of a signed integer: a minus sign for negative
/// values, then the digits of the magnitude.
pub open spec fn dec_int(n: int) -> Seq<char> {
    if n < 0 {
        seq!['-'] + dec_digits((-n) as nat)
    } else {
        dec_digits(n as nat)
    }
}

/// Appends the decimal digits of `n` to `out`.
pub fn push_dec_u128(out: &mut String, n: u128)
    ensures
        final(out)@ == old(out)@ + dec_digits(n as nat),
    decreases n,
{
    if n < 10 {
        out.push((48 + n as u8) as char);
        assert(out@ =~= old(out)@ + dec_digits(n as nat));
    } else {
        push_dec_u128(out, n / 10);
        out.push((48 + (n % 10) as u8) as char);
        assert(out@ =~= old(out)@ + dec_digits(n as nat));
    }
}

/// Appends the decimal rendering of `n` to `out`, with a minus sign when
/// `n` is negative.
pub fn push_dec_i64(out: &mut String, n: i64)
    ensures
        final(out)@ == old(out)@ + dec_int(n as int),
{
    if n < 0 {
        out.push('-');
        let magnitude: u128 = (-(n as i128)) as u128;
        push_dec_u128(out, magnitude);
        assert(out@ =~= old(out)@ + dec_int(n as int));
    } else {
        push_dec_u128(out, n as u128);
    }
}

/// The decimal rendering of `n` as a fresh string.
pub fn i64_to_dec_string(n: i64) -> (r: String)
    ensures
        r@ == dec_int(n as int),
{
    let mut out = String::new();
    push_dec_i64(&mut out, n);
    out
}

/// The characters of `s`, as a vector.
pub fn str_to_chars(s: &str) -> (r: Vec<char>)
    ensures
        r@ == s@,
{
    let n = s.unicode_len();
    let mut r: Vec<char> = Vec::new();
    let mut i: usize = 0;
    while i < n
        invariant
            n == s@.len(),
            i <= n,
            r@ == s@.take(i as int),
        decreases n - i,
    {
        r.push(s.get_char(i));
        i = i + 1;
        assert(r@ =~= s@.take(i as int));
    }
    assert(r@ =~= s@);
    r
}

/// Whether the characters of `v` spell exactly the string `s`.
pub fn chars_eq_str(v: &Vec<char>, s: &str) -> (r: bool)
    ensures
        r == (v@ == s@),
{
    let n = s.unicode_len();
    if v.len() != n {
        return false;
    }
    let mut i: usize = 0;
    while i < n
        invariant
            n == s@.len(),
            v@.len() == n,
            i <= n,
            forall|j: int| 0 <= j < i ==> v@[j] == s@[j],
        decreases n - i,
    {
        if v[i] != s.get_char(i) {
            return false;
        }
        i = i + 1;
    }
    assert(v@ =~= s@);
    true
}

/// Whether `c` is a decimal digit.
pub open spec fn is_dec_digit(c: char) -> bool {
    '0' <= c && c <= '9'
}

/// The numeric value of a decimal digit character.
pub open spec fn digit_val(c: char) -> int {
    c as int - 48
}

/// Whether every character of `s` is a decimal digit.
pub open spec fn all_dec_digits(s: Seq<char>) -> bool {
    forall|i: int| 0 <= i < s.len() ==> is_dec_digit(s[i])
}

/// The integer spelled by a sequence of decimal digit characters, most
/// significant digit first.
pub open spec fn digits_val(s: Seq<char>) -> int
    decreases s.len(),
{
    if s.len() == 0 {
        0
    } else {
        digits_val(s.drop_last()) * 10 + digit_val(s.last())
    }
}

/// What parsing a decimal `i64` means, in the shape `std` gives it: an
/// optional sign, then one or more digits, and the value within range.
pub open spec fn spec_parse_i64(s: Seq<char>) -> Option<int> {
    let digits = if s.len() > 0 && (s[0] == '+' || s[0] == '-') {
        s.drop_first()
    } else {
        s
    };
    let negative = s.len() > 0 && s[0] == '-';
    if digits.len() == 0 || !all_dec_digits(digits) {
        None
    } else {
        let v = if negative {
            -digits_val(digits)
        } else {
            digits_val(digits)
        };
        if -0x8000000000000000 <= v <= 0x7fffffffffffffff {
            Some(v)
        } else {
            None
        }
    }
}

proof fn lemma_digits_val_nonneg(s: Seq<char>)
    requires
        all_dec_digits(s),
    ensures
        digits_val(s) >= 0,
    decreases s.len(),
{
    if s.len() > 0 {
        assert(all_dec_digits(s.drop_last())) by {
            assert(forall|i: int|
                0 <= i < s.len() - 1 ==> s.drop_last()[i] == s[i] && is_dec_digit(s[i]));
        }
        lemma_digits_val_nonneg(s.drop_last());
    }
}

proof fn lemma_digits_val_prefix_le(s: Seq<char>, i: int)
    requires
        all_dec_digits(s),
        0 <= i <= s.len(),
    ensures
        digits_val(s.take(i)) <= digits_val(s),
    decreases s.len() - i,
{
    if i < s.len() {
        lemma_digits_val_prefix_le(s, i + 1);
        assert(s.take(i + 1).drop_last() =~= s.take(i));
        assert(s.take(i + 1).last() == s[i]);
        assert(all_dec_digits(s.take(i))) by {
            assert(forall|j: int| 0 <= j < i ==> s.take(i)[j] == s[j] && is_dec_digit(s[j]));
        }
        lemma_digits_val_nonneg(s.take(i));
        assert(digits_val(s.take(i + 1)) == digits_val(s.take(i)) * 10 + digit_val(s[i]));
        assert(digit_val(s[i]) >= 0);
        assert(digits_val(s.take(i)) * 10 >= digits_val(s.take(i))) by (nonlinear_arith)
            requires digits_val(s.take(i)) >= 0;
    } else {
        assert(s.take(i) =~= s);
    }
}

/// Parses the digit run `v[start..end]` (no sign) as a non-negative value,
/// reporting `None` when a non-digit occurs or the value exceeds `cap`.
fn parse_digits_range(v: &Vec<char>, start: usize, end: usize, cap: u128) -> (r: Option<u128>)
    requires
        start <= end <= v@.len(),
        cap < 0x10000000000000000,
    ensures
        match r {
            Some(val) => {
                &&& end > start
                &&& all_dec_digits(v@.subrange(start as int, end as int))
                &&& val == digits_val(v@.subrange(start as int, end as int))
                &&& val <= cap
            },
            None => {
                let digits = v@.subrange(start as int, end as int);
                end == start || !all_dec_digits(digits) || digits_val(digits) > cap
            },
        },
{
    let ghost digits = v@.subrange(start as int, end as int);
    if start == end {
        return None;
    }
    let mut acc: u128 = 0;
    let mut i: usize = start;
    while i < end
        invariant
            start <= i <= end <= v@.len(),
            digits == v@.subrange(start as int, end as int),
            all_dec_digits(digits.take(i - start)),
            acc == digits_val(digits.take(i - start)),
            acc <= cap,
            cap < 0x10000000000000000,
        decreases end - i,
    {
        let c = v[i];
        if c < '0' || c > '9' {
            assert(digits[i - start] == c);
            assert(!all_dec_digits(digits));
            return None;
        }
        let d: u32 = c as u32 - 48;
        let next: u128 = acc * 10 + d as u128;
        assert(digits.take(i - start + 1).drop_last() =~= digits.take(i - start));
        assert(digits.take(i - start + 1).last() == digits[i - start]);
        assert(next == digits_val(digits.take(i - start + 1)));
        if next > cap {
            proof {
                if all_dec_digits(digits) {
                    lemma_digits_val_prefix_le(digits, i - start + 1);
                    assert(digits_val(digits) > cap);
                }
            }
            return None;
        }
        acc = next;
        i = i + 1;
    }
    assert(digits.take(end - start) =~= digits);
    Some(acc)
}

/// Parses `v[start..end]` as a decimal `i64`, as `std`'s string parse does.
pub fn parse_i64_range(v: &Vec<char>, start: usize, end: usize) -> (r: Option<i64>)
    requires
        start <= end <= v@.len(),
    ensures
        match r {
            Some(val) => spec_parse_i64(v@.subrange(start as int, end as int)) == Some(val as int),
            None => spec_parse_i64(v@.subrange(start as int, end as int)) is None,
        },
{
    let ghost s = v@.subrange(start as int, end as int);
    if start == end {
        return None;
    }
    let c0 = v[start];
    let signed: bool = c0 == '+' || c0 == '-';
    let negative: bool = c0 == '-';
    let dstart: usize = if signed { start + 1 } else { start };
    let ghost digits = if signed { s.drop_first() } else { s };
    assert(digits =~= v@.subrange(dstart as int, end as int));
    let cap: u128 = if negative { 0x8000000000000000 } else { 0x7fffffffffffffff };
    match parse_digits_range(v, dstart, end, cap) {
        Some(val) => {
            if negative {
                let r: i64 = (-(val as i128)) as i64;
                assert(spec_parse_i64(s) == Some(r as int));
                Some(r)
            } else {
                let r: i64 = val as i64;
                assert(spec_parse_i64(s) == Some(r as int));
                Some(r)
            }
        },
        None => {
            proof {
                if digits.len() > 0 && all_dec_digits(digits) {
                    lemma_digits_val_nonneg(digits);
                }
            }
            None
        },
    }
}

/// Parses a full string as a decimal `i64`.
pub fn parse_i64_str(s: &str) -> (r: Option<i64>)
    ensures
        match r {
            Some(val) => spec_parse_i64(s@) == Some(val as int),
            None => spec_parse_i64(s@) is None,
        },
{
    let v = str_to_chars(s);
    let n = v.len();
    let r = parse_i64_range(&v, 0, n);
    assert(v@.subrange(0, n as int) =~= s@);
    r
}

/// What a room-join path parameter means: a bare decimal room number, or,
/// when the text holds a `#`, the same with one trailing discriminator
/// character stripped before parsing.
pub open spec fn spec_parse_room_id(s: Seq<char>) -> Option<int> {
    if s.contains('#') {
        spec_parse_i64(s.drop_last())
    } else {
        spec_parse_i64(s)
    }
}

/// Parses the room identifier of a join request.
pub fn parse_room_id(s: &str) -> (r: Option<i64>)
    ensures
        match r {
            Some(val) => spec_parse_room_id(s@) == Some(val as int),
            None => spec_parse_room_id(s@) is None,
        },
{
    let v = str_to_chars(s);
    let n = v.len();
    let mut has_hash: bool = false;
    let mut i: usize = 0;
    while i < n
        invariant
            n == v@.len(),
            i <= n,
            has_hash == v@.take(i as int).contains('#'),
        decreases n - i,
    {
        if v[i] == '#' {
            has_hash = true;
            assert(v@.take(i as int + 1)[i as int] == '#');
        }
        proof {
            if v@.take(i as int).contains('#') {
                let k = choose|k: int| 0 <= k < i && #[trigger] v@.take(i as int)[k] == '#';
                assert(v@.take(i as int + 1)[k] == '#');
            }
            if !has_hash && v@.take(i as int + 1).contains('#') {
                let k = choose|k: int| 0 <= k < i + 1 && #[trigger] v@.take(i as int + 1)[k] == '#';
                if k < i {
                    assert(v@.take(i as int)[k] == '#');
                }
            }
        }
        i = i + 1;
    }
    assert(v@.take(n as int) =~= v@);
    if has_hash {
        proof {
            let k = choose|k: int| 0 <= k < v@.len() && #[trigger] v@[k] == '#';
        }
        assert(n > 0);
        let r = parse_i64_range(&v, 0, n - 1);
        assert(v@.subrange(0, n as int - 1) =~= s@.drop_last());
        r
    } else {
        let r = parse_i64_range(&v, 0, n);
        assert(v@.subrange(0, n as int) =~= s@);
        r
    }
}

} // verus!

