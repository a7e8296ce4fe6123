//! A parser for the provider's JSON reply, checked against a mathematical
//! reading of the same grammar.
//!
//! The reply format is fixed: one object in the `AggregateResponse` schema.
//! Rather than building a generic JSON tree, the parser reads the body in
//! one pass, dispatching on the field names the schema knows and skipping
//! the values of unknown fields. Every executable function here returns
//! exactly what its specification-level twin computes.

use vstd::prelude::*;
use vstd::string::StrSliceExecFns;

verus! {

/// JSON insignificant whitespace.
pub open spec fn is_ws(c: char) -> bool {
    c == ' ' || c == '\t' || c == '\n' || c == '\r'
}

/// A decimal digit.
pub open spec fn is_digit(c: char) -> bool {
    48 <= (c as u32) <= 57
}

/// The first index at or after `i` that does not hold whitespace.
pub open spec fn skip_ws(s: Seq<char>, i: int) -> int
    decreases s.len() - i when 0 <= i <= s.len()
{
    if i < s.len() && is_ws(s[i]) {
        skip_ws(s, i + 1)
    } else {
        i
    }
}

/// The first index at or after `i` that does not hold a digit.
pub open spec fn scan_digits(s: Seq<char>, i: int) -> int
    decreases s.len() - i when 0 <= i <= s.len()
{
    if i < s.len() && is_digit(s[i]) {
        scan_digits(s, i + 1)
    } else {
        i
    }
}

/// The characters of the input, as a vector the parser can index.
pub fn chars_of(s: &str) -> (r: Vec<char>)
    ensures
        r@ == s@,
{
    let n = s.unicode_len();
    let mut r: Vec<char> = Vec::new();
    let mut i: usize = 0;
    while i < n
        invariant
            i <= n,
            n == s@.len(),
            r@ =~= s@.take(i as int),
        decreases n - i,
    {
        r.push(s.get_char(i));
        proof {
            assert(r@ =~= s@.take(i + 1));
        }
        i += 1;
    }
    proof {
        assert(r@ =~= s@);
    }
    r
}

/// Move `i` past whitespace.
pub(crate) fn ws_to(v: &Vec<char>, i: usize) -> (r: usize)
    requires
        i <= v@.len(),
    ensures
        r == skip_ws(v@, i as int),
        i <= r <= v@.len(),
{
    let n = v.len();
    let mut j = i;
    while j < n && is_ws_exec(v[j])
        invariant
            i <= j <= n,
            n == v@.len(),
            skip_ws(v@, i as int) == skip_ws(v@, j as int),
        decreases n - j,
    {
        j += 1;
    }
    j
}

/// Whitespace test, usable from executable code.
fn is_ws_exec(c: char) -> (r: bool)
    ensures
        r == is_ws(c),
{
    c == ' ' || c == '\t' || c == '\n' || c == '\r'
}

/// Digit test, usable from executable code.
pub(crate) fn is_digit_exec(c: char) -> (r: bool)
    ensures
        r == is_digit(c),
{
    let u = c as u32;
    48 <= u && u <= 57
}

/// Move `i` past digits.
fn digits_to(v: &Vec<char>, i: usize) -> (r: usize)
    requires
        i <= v@.len(),
    ensures
        r == scan_digits(v@, i as int),
        i <= r <= v@.len(),
{
    let n = v.len();
    let mut j = i;
    while j < n && is_digit_exec(v[j])
        invariant
            i <= j <= n,
            n == v@.len(),
            scan_digits(v@, i as int) == scan_digits(v@, j as int),
        decreases n - j,
    {
        j += 1;
    }
    j
}

/// The number token starting at `i`, per the JSON number grammar, and the
/// index just past it; `None` when no well-formed number starts at `i`.
pub open spec fn parse_number(s: Seq<char>, i: int) -> Option<(Seq<char>, int)> {
    if !(0 <= i <= s.len()) {
        None
    } else {
        let i1 = if i < s.len() && s[i] == '-' {
            i + 1
        } else {
            i
        };
        if i1 >= s.len() || !is_digit(s[i1]) {
            None
        } else {
            let i2 = if s[i1] == '0' {
                i1 + 1
            } else {
                scan_digits(s, i1)
            };
            let i3 = if i2 < s.len() && s[i2] == '.' {
                let f = scan_digits(s, i2 + 1);
                if f == i2 + 1 {
                    -1
                } else {
                    f
                }
            } else {
                i2
            };
            if i3 < 0 {
                None
            } else {
                let i4 = if i3 < s.len() && (s[i3] == 'e' || s[i3] == 'E') {
                    let e1 = if i3 + 1 < s.len() && (s[i3 + 1] == '+' || s[i3 + 1] == '-') {
                        i3 + 2
                    } else {
                        i3 + 1
                    };
                    let e2 = scan_digits(s, e1);
                    if e2 == e1 {
                        -1
                    } else {
                        e2
                    }
                } else {
                    i3
                };
                if i4 < 0 {
                    None
                } else {
                    Some((s.subrange(i, i4), i4))
                }
            }
        }
    }
}

/// Read the number token starting at `i`, returning its end, or `None` when
/// the text there is not a number.
pub(crate) fn number_end(v: &Vec<char>, i: usize) -> (r: Option<usize>)
    requires
        i <= v@.len(),
    ensures
        match r {
            Some(j) => parse_number(v@, i as int) matches Some((tok, jj)) && jj == j && i <= j
                <= v@.len() && tok == v@.subrange(i as int, j as int),
            None => parse_number(v@, i as int) is None,
        },
{
    let n = v.len();
    let i1 = if i < n && v[i] == '-' {
        i + 1
    } else {
        i
    };
    if i1 >= n || !is_digit_exec(v[i1]) {
        return None;
    }
    let i2 = if v[i1] == '0' {
        i1 + 1
    } else {
        digits_to(v, i1)
    };
    let i3 = if i2 < n && v[i2] == '.' {
        let f = digits_to(v, i2 + 1);
        if f == i2 + 1 {
            return None;
        }
        f
    } else {
        i2
    };
    let i4 = if i3 < n && (v[i3] == 'e' || v[i3] == 'E') {
        let e1 = if i3 + 1 < n && (v[i3 + 1] == '+' || v[i3 + 1] == '-') {
            i3 + 2
        } else {
            i3 + 1
        };
        let e2 = digits_to(v, e1);
        if e2 == e1 {
            return None;
        }
        e2
    } else {
        i3
    };
    Some(i4)
}

/// The integer denoted by a run of decimal digits.
pub open spec fn digits_val(d: Seq<char>) -> int
    decreases d.len(),
{
    if d.len() == 0 {
        0
    } else {
        digits_val(d.drop_last()) * 10 + ((d.last() as u32) - 48)
    }
}

/// Whether a number token denotes an integer: an optional sign followed by
/// digits only, with no fraction, no exponent, and not negative zero, which
/// denotes a floating-point zero rather than an integer.
pub open spec fn is_int_token(tok: Seq<char>) -> bool {
    &&& tok.len() > 0
    &&& (tok[0] == '-' ==> tok.len() > 1)
    &&& (forall|q: int|
        (if tok[0] == '-' {
            1int
        } else {
            0int
        }) <= q < tok.len() ==> is_digit(tok[q]))
    &&& !(tok[0] == '-' && tok[1] == '0')
}

/// The signed value of an integer token.
pub open spec fn int_token_val(tok: Seq<char>) -> int {
    if tok.len() > 0 && tok[0] == '-' {
        -digits_val(tok.skip(1))
    } else {
        digits_val(tok)
    }
}

/// The `i64` a number token stands for: the token must denote an integer
/// and its value must fit, exactly as the schema's integer fields demand.
pub open spec fn as_i64(tok: Seq<char>) -> Option<i64> {
    if is_int_token(tok) && i64::MIN <= int_token_val(tok) <= i64::MAX {
        Some(int_token_val(tok) as i64)
    } else {
        None
    }
}

/// The `i32` a number token stands for.
pub open spec fn as_i32(tok: Seq<char>) -> Option<i32> {
    match as_i64(tok) {
        Some(x) => if i32::MIN <= x <= i32::MAX {
            Some(x as i32)
        } else {
            None
        },
        None => None,
    }
}

/// Convert the number token in `v[start..end]` to an `i64`, when it denotes
/// an integer in range.
#[verifier::loop_isolation(false)]
pub(crate) fn int_of_token(v: &Vec<char>, start: usize, end: usize) -> (r: Option<i64>)
    requires
        start <= end <= v@.len(),
    ensures
        r == as_i64(v@.subrange(start as int, end as int)),
{
    let ghost tok = v@.subrange(start as int, end as int);
    if start == end {
        return None;
    }
    let neg = v[start] == '-';
    let d0: usize = if neg {
        start + 1
    } else {
        start
    };
    if d0 == end {
        proof {
            assert(!is_int_token(tok));
        }
        return None;
    }
    if neg && v[d0] == '0' {
        proof {
            assert(tok[0] == '-' && tok[1] == '0');
        }
        return None;
    }
    // every remaining character must be a digit
    let mut q = d0;
    while q < end
        invariant
            d0 <= q <= end <= v@.len(),
            start <= d0 <= start + 1,
            d0 == start || d0 == start + 1,
            forall|p: int| d0 <= p < q ==> is_digit(v@[p]),
        decreases end - q,
    {
        if !is_digit_exec(v[q]) {
            proof {
                assert(tok[q - start] == v@[q as int]);
                assert(!is_int_token(tok));
            }
            return None;
        }
        q += 1;
    }
    // accumulate the magnitude, flagging when it leaves u64 range
    let mut acc: u64 = 0;
    let mut ovf = false;
    let mut p = d0;
    while p < end
        invariant
            d0 <= p <= end <= v@.len(),
            start <= d0 <= start + 1,
            forall|j: int| d0 <= j < end ==> is_digit(v@[j]),
            !ovf ==> acc == digits_val(v@.subrange(d0 as int, p as int)),
            ovf ==> digits_val(v@.subrange(d0 as int, p as int)) > u64::MAX,
        decreases end - p,
    {
        let ghost pref = v@.subrange(d0 as int, p as int);
        let ghost next = v@.subrange(d0 as int, p + 1);
        proof {
            assert(next.drop_last() =~= pref);
            assert(next.last() == v@[p as int]);
        }
        proof {
            assert(is_digit(v@[p as int]));
        }
        let d: u64 = (v[p] as u32 - 48) as u64;
        proof {
            assert(d <= 9);
        }
        if ovf {
            proof {
                assert(digits_val(next) == digits_val(pref) * 10 + d);
                assert(digits_val(pref) * 10 >= digits_val(pref)) by {
                    assert(digits_val(pref) > 0);
                }
            }
        } else {
            if acc > (u64::MAX - d) / 10 {
                proof {
                    let m = u64::MAX as int;
                    assert(acc * 10 + d > m) by {
                        assert(acc >= (m - d) / 10 + 1);
                        assert(((m - d) / 10 + 1) * 10 == ((m - d) / 10) * 10 + 10);
                        assert(((m - d) / 10) * 10 > m - d - 10);
                        assert(acc * 10 >= ((m - d) / 10 + 1) * 10) by (nonlinear_arith)
                            requires
                                acc >= (m - d) / 10 + 1,
                        ;
                    }
                    assert(digits_val(next) == digits_val(pref) * 10 + d);
                }
                ovf = true;
            } else {
                proof {
                    assert(acc * 10 + d <= u64::MAX) by {
                        let m = u64::MAX as int;
                        assert(acc <= (m - d) / 10);
                        assert(acc * 10 <= ((m - d) / 10) * 10) by (nonlinear_arith)
                            requires
                                acc <= (m - d) / 10,
                        ;
                        assert(((m - d) / 10) * 10 <= m - d);
                    }
                    assert(digits_val(next) == digits_val(pref) * 10 + d);
                }
                acc = acc * 10 + d;
            }
        }
        p += 1;
    }
    let ghost digs = v@.subrange(d0 as int, end as int);
    proof {
        assert(is_int_token(tok)) by {
            assert(tok.len() > 0);
            assert(forall|j: int|
                (if tok[0] == '-' {
                    1int
                } else {
                    0int
                }) <= j < tok.len() ==> tok[j] == v@[start + j] && is_digit(tok[j]));
        }
        if neg {
            assert(tok.skip(1) =~= digs);
        } else {
            assert(tok =~= digs);
        }
    }
    if ovf {
        proof {
            assert(digits_val(digs) > u64::MAX);
            assert(int_token_val(tok) > i64::MAX || int_token_val(tok) < i64::MIN);
        }
        return None;
    }
    if neg {
        if acc > 9223372036854775808u64 {
            return None;
        } else if acc == 9223372036854775808u64 {
            return Some(i64::MIN);
        } else {
            return Some(-(acc as i64));
        }
    } else {
        if acc > 9223372036854775807u64 {
            return None;
        } else {
            return Some(acc as i64);
        }
    }
}

/// Whether a string's text equals the given literal's.
pub(crate) fn str_eq(a: &String, b: &str) -> (r: bool)
    ensures
        r == (a@ == b@),
{
    let sb = String::from_str(b);
    *a == sb
}

/// The characters `v[start..end]`, as an owned string.
pub(crate) fn token_string(v: &Vec<char>, start: usize, end: usize) -> (r: String)
    requires
        start <= end <= v@.len(),
    ensures
        r@ == v@.subrange(start as int, end as int),
{
    let mut r = String::new();
    let mut q = start;
    while q < end
        invariant
            start <= q <= end <= v@.len(),
            r@ =~= v@.subrange(start as int, q as int),
        decreases end - q,
    {
        push_char(&mut r, v[q]);
        proof {
            assert(r@ =~= v@.subrange(start as int, q + 1));
        }
        q += 1;
    }
    r
}

/// Relies on String::push: appends exactly the one character.
#[verifier::external_body]
pub(crate) fn push_char(s: &mut String, c: char)
    ensures
        final(s)@ == old(s)@.push(c),
{
    s.push(c);
}

/// Relies on char::from_u32: `Some` exactly for Unicode scalar values,
/// holding the character with that value.
#[verifier::external_body]
fn char_from_u32(u: u32) -> (r: Option<char>)
    ensures
        r == (if u < 0xD800 || (0xE000 <= u && u < 0x110000) {
            Some(u as char)
        } else {
            None::<char>
        }),
{
    char::from_u32(u)
}

/// The value of one hexadecimal digit.
pub open spec fn hex_val(c: char) -> Option<u32> {
    let u = c as u32;
    if 48 <= u <= 57 {
        Some((u - 48) as u32)
    } else if 97 <= u <= 102 {
        Some((u - 87) as u32)
    } else if 65 <= u <= 70 {
        Some((u - 55) as u32)
    } else {
        None
    }
}

fn hex_val_exec(c: char) -> (r: Option<u32>)
    ensures
        r == hex_val(c),
{
    let u = c as u32;
    if 48 <= u && u <= 57 {
        Some(u - 48)
    } else if 97 <= u && u <= 102 {
        Some(u - 87)
    } else if 65 <= u && u <= 70 {
        Some(u - 55)
    } else {
        None
    }
}

/// The value of the four hexadecimal digits at `i`.
pub open spec fn hex4(s: Seq<char>, i: int) -> Option<u32> {
    if 0 <= i && i + 4 <= s.len() {
        match (hex_val(s[i]), hex_val(s[i + 1]), hex_val(s[i + 2]), hex_val(s[i + 3])) {
            (Some(h0), Some(h1), Some(h2), Some(h3)) => Some(
                (h0 * 4096 + h1 * 256 + h2 * 16 + h3) as u32,
            ),
            _ => None,
        }
    } else {
        None
    }
}

fn hex4_exec(v: &Vec<char>, i: usize) -> (r: Option<u32>)
    requires
        i <= v@.len(),
    ensures
        r == hex4(v@, i as int),
        r matches Some(u) ==> u <= 0xFFFF,
{
    let n = v.len();
    if n < 4 || i > n - 4 {
        return None;
    }
    let h0 = match hex_val_exec(v[i]) {
        Some(h) => h,
        None => {
            return None;
        },
    };
    let h1 = match hex_val_exec(v[i + 1]) {
        Some(h) => h,
        None => {
            return None;
        },
    };
    let h2 = match hex_val_exec(v[i + 2]) {
        Some(h) => h,
        None => {
            return None;
        },
    };
    let h3 = match hex_val_exec(v[i + 3]) {
        Some(h) => h,
        None => {
            return None;
        },
    };
    Some(h0 * 4096 + h1 * 256 + h2 * 16 + h3)
}

/// The character denoted by the `\u` escape whose first hex digit stands at
/// `i`, and how many characters it used from `i` on: four for one escape, ten
/// when a surrogate pair is spelled as two consecutive escapes.
pub open spec fn u_escape(s: Seq<char>, i: int) -> Option<(char, int)> {
    match hex4(s, i) {
        None => None,
        Some(n1) => {
            if n1 < 0xD800 || 0xE000 <= n1 {
                Some((n1 as char, 4))
            } else if n1 < 0xDC00 {
                if i + 6 <= s.len() && s[i + 4] == '\\' && s[i + 5] == 'u' {
                    match hex4(s, i + 6) {
                        None => None,
                        Some(n2) => {
                            if 0xDC00 <= n2 < 0xE000 {
                                Some(
                                    (
                                        ((0x10000 + (n1 - 0xD800) * 0x400 + (n2
                                            - 0xDC00)) as u32) as char,
                                        10,
                                    ),
                                )
                            } else {
                                None
                            }
                        },
                    }
                } else {
                    None
                }
            } else {
                None
            }
        },
    }
}

fn u_escape_exec(v: &Vec<char>, i: usize) -> (r: Option<(char, usize)>)
    requires
        i <= v@.len(),
    ensures
        match r {
            Some((ch, used)) => u_escape(v@, i as int) == Some((ch, used as int)) && (used == 4
                || used == 10) && i + used <= v@.len(),
            None => u_escape(v@, i as int) is None,
        },
{
    let n = v.len();
    let n1 = match hex4_exec(v, i) {
        Some(u) => u,
        None => {
            return None;
        },
    };
    if n1 < 0xD800 || 0xE000 <= n1 {
        match char_from_u32(n1) {
            Some(ch) => Some((ch, 4)),
            None => {
                proof {
                    assert(false);
                }
                None
            },
        }
    } else if n1 < 0xDC00 {
        if n >= 6 && i <= n - 6 && v[i + 4] == '\\' && v[i + 5] == 'u' {
            let n2 = match hex4_exec(v, i + 6) {
                Some(u) => u,
                None => {
                    return None;
                },
            };
            if 0xDC00 <= n2 && n2 < 0xE000 {
                let code = 0x10000 + (n1 - 0xD800) * 0x400 + (n2 - 0xDC00);
                match char_from_u32(code) {
                    Some(ch) => Some((ch, 10)),
                    None => {
                        proof {
                            assert(false);
                        }
                        None
                    },
                }
            } else {
                None
            }
        } else {
            None
        }
    } else {
        None
    }
}

/// The character a single-letter escape stands for.
pub open spec fn simple_escape(c: char) -> Option<char> {
    if c == '"' {
        Some('"')
    } else if c == '\\' {
        Some('\\')
    } else if c == '/' {
        Some('/')
    } else if c == 'b' {
        Some('\u{0008}')
    } else if c == 'f' {
        Some('\u{000C}')
    } else if c == 'n' {
        Some('\n')
    } else if c == 'r' {
        Some('\r')
    } else if c == 't' {
        Some('\t')
    } else {
        None
    }
}

fn simple_escape_exec(c: char) -> (r: Option<char>)
    ensures
        r == simple_escape(c),
{
    if c == '"' {
        Some('"')
    } else if c == '\\' {
        Some('\\')
    } else if c == '/' {
        Some('/')
    } else if c == 'b' {
        Some('\u{0008}')
    } else if c == 'f' {
        Some('\u{000C}')
    } else if c == 'n' {
        Some('\n')
    } else if c == 'r' {
        Some('\r')
    } else if c == 't' {
        Some('\t')
    } else {
        None
    }
}

/// The decoded content of the string whose opening quote stands just before
/// `i`, and the index just past its closing quote. Control characters must be
/// escaped; a `\u` escape may spell any scalar value, surrogate pairs
/// included.
pub open spec fn parse_string_body(s: Seq<char>, i: int) -> Option<(Seq<char>, int)>
    decreases s.len() - i when 0 <= i <= s.len()
{
    if i >= s.len() {
        None
    } else if s[i] == '"' {
        Some((Seq::empty(), i + 1))
    } else if s[i] == '\\' {
        if i + 1 >= s.len() {
            None
        } else if s[i + 1] == 'u' {
            match u_escape(s, i + 2) {
                None => None,
                Some((ch, used)) => {
                    if 1 <= used && i + 2 + used <= s.len() {
                        match parse_string_body(s, i + 2 + used) {
                            None => None,
                            Some((t, j)) => Some((seq![ch] + t, j)),
                        }
                    } else {
                        None
                    }
                },
            }
        } else {
            match simple_escape(s[i + 1]) {
                None => None,
                Some(ch) => {
                    match parse_string_body(s, i + 2) {
                        None => None,
                        Some((t, j)) => Some((seq![ch] + t, j)),
                    }
                },
            }
        }
    } else if (s[i] as u32) < 0x20 {
        None
    } else {
        match parse_string_body(s, i + 1) {
            None => None,
            Some((t, j)) => Some((seq![s[i]] + t, j)),
        }
    }
}

/// Read a string body starting at `i` (just past the opening quote),
/// returning the decoded content and the index past the closing quote.
#[verifier::loop_isolation(false)]
pub(crate) fn parse_string(v: &Vec<char>, i: usize) -> (r: Option<(String, usize)>)
    requires
        i <= v@.len(),
    ensures
        match r {
            Some((out, j)) => parse_string_body(v@, i as int) == Some((out@, j as int)) && i < j
                <= v@.len(),
            None => parse_string_body(v@, i as int) is None,
        },
{
    let n = v.len();
    let mut acc = String::new();
    let mut j = i;
    loop
        invariant
            i <= j <= n,
            match parse_string_body(v@, j as int) {
                Some((t, e)) => parse_string_body(v@, i as int) == Some((acc@ + t, e)),
                None => parse_string_body(v@, i as int) is None,
            },
        decreases n - j,
    {
        if j >= n {
            return None;
        }
        let c = v[j];
        if c == '"' {
            proof {
                assert(acc@ + Seq::<char>::empty() =~= acc@);
            }
            return Some((acc, j + 1));
        } else if c == '\\' {
            if j + 1 >= n {
                return None;
            }
            let e = v[j + 1];
            if e == 'u' {
                match u_escape_exec(v, j + 2) {
                    None => {
                        return None;
                    },
                    Some((ch, used)) => {
                        proof {
                            match parse_string_body(v@, j + 2 + used) {
                                Some((t, e2)) => {
                                    assert(parse_string_body(v@, j as int) == Some(
                                        (seq![ch] + t, e2),
                                    ));
                                    assert(acc@.push(ch) + t =~= acc@ + (seq![ch] + t));
                                },
                                None => {
                                    assert(parse_string_body(v@, j as int) is None);
                                },
                            }
                        }
                        push_char(&mut acc, ch);
                        j = j + 2 + used;
                    },
                }
            } else {
                match simple_escape_exec(e) {
                    None => {
                        return None;
                    },
                    Some(ch) => {
                        proof {
                            match parse_string_body(v@, j + 2) {
                                Some((t, e2)) => {
                                    assert(parse_string_body(v@, j as int) == Some(
                                        (seq![ch] + t, e2),
                                    ));
                                    assert(acc@.push(ch) + t =~= acc@ + (seq![ch] + t));
                                },
                                None => {
                                    assert(parse_string_body(v@, j as int) is None);
                                },
                            }
                        }
                        push_char(&mut acc, ch);
                        j = j + 2;
                    },
                }
            }
        } else if (c as u32) < 0x20 {
            return None;
        } else {
            proof {
                match parse_string_body(v@, j + 1) {
                    Some((t, e2)) => {
                        assert(parse_string_body(v@, j as int) == Some((seq![c] + t, e2)));
                        assert(acc@.push(c) + t =~= acc@ + (seq![c] + t));
                    },
                    None => {
                        assert(parse_string_body(v@, j as int) is None);
                    },
                }
            }
            push_char(&mut acc, c);
            j = j + 1;
        }
    }
}

/// The index just past the JSON value that starts at or after `i`, for a
/// value the schema does not know: it is validated and discarded. `fuel`
/// bounds the recursion; the parser starts with more than any input can use.
pub open spec fn skip_value(s: Seq<char>, i: int, fuel: nat) -> Option<int>
    decreases fuel,
{
    if fuel == 0 || !(0 <= i <= s.len()) {
        None
    } else {
        let i0 = skip_ws(s, i);
        if !(0 <= i0 < s.len()) {
            None
        } else {
            let c = s[i0];
            if c == '"' {
                match parse_string_body(s, i0 + 1) {
                    None => None,
                    Some((t, j)) => Some(j),
                }
            } else if c == '-' || is_digit(c) {
                match parse_number(s, i0) {
                    None => None,
                    Some((t, j)) => Some(j),
                }
            } else if c == 't' {
                if i0 + 4 <= s.len() && s[i0 + 1] == 'r' && s[i0 + 2] == 'u' && s[i0 + 3] == 'e' {
                    Some(i0 + 4)
                } else {
                    None
                }
            } else if c == 'f' {
                if i0 + 5 <= s.len() && s[i0 + 1] == 'a' && s[i0 + 2] == 'l' && s[i0 + 3] == 's'
                    && s[i0 + 4] == 'e' {
                    Some(i0 + 5)
                } else {
                    None
                }
            } else if c == 'n' {
                if i0 + 4 <= s.len() && s[i0 + 1] == 'u' && s[i0 + 2] == 'l' && s[i0 + 3] == 'l' {
                    Some(i0 + 4)
                } else {
                    None
                }
            } else if c == '{' {
                skip_members(s, i0 + 1, true, (fuel - 1) as nat)
            } else if c == '[' {
                skip_elements(s, i0 + 1, true, (fuel - 1) as nat)
            } else {
                None
            }
        }
    }
}

/// Skip the members of an object whose `{` was just consumed. `allow_close`
/// is true only where `}` may come next, so a trailing comma is refused.
pub open spec fn skip_members(s: Seq<char>, i: int, allow_close: bool, fuel: nat) -> Option<int>
    decreases fuel,
{
    if fuel == 0 || !(0 <= i <= s.len()) {
        None
    } else {
        let i0 = skip_ws(s, i);
        if !(0 <= i0 < s.len()) {
            None
        } else if s[i0] == '}' && allow_close {
            Some(i0 + 1)
        } else if s[i0] == '"' {
            match parse_string_body(s, i0 + 1) {
                None => None,
                Some((k, i1)) => {
                    if !(0 <= i1 <= s.len()) {
                        None
                    } else {
                        let i2 = skip_ws(s, i1);
                        if !(i2 < s.len() && s[i2] == ':') {
                            None
                        } else {
                            match skip_value(s, i2 + 1, (fuel - 1) as nat) {
                                None => None,
                                Some(i3) => {
                                    if !(0 <= i3 <= s.len()) {
                                        None
                                    } else {
                                        let i4 = skip_ws(s, i3);
                                        if i4 < s.len() && s[i4] == ',' {
                                            skip_members(s, i4 + 1, false, (fuel - 1) as nat)
                                        } else if i4 < s.len() && s[i4] == '}' {
                                            Some(i4 + 1)
                                        } else {
                                            None
                                        }
                                    }
                                },
                            }
                        }
                    }
                },
            }
        } else {
            None
        }
    }
}

/// Skip the elements of an array whose `[` was just consumed.
pub open spec fn skip_elements(s: Seq<char>, i: int, allow_close: bool, fuel: nat) -> Option<int>
    decreases fuel,
{
    if fuel == 0 || !(0 <= i <= s.len()) {
        None
    } else {
        let i0 = skip_ws(s, i);
        if !(0 <= i0 < s.len()) {
            None
        } else if s[i0] == ']' && allow_close {
            Some(i0 + 1)
        } else {
            match skip_value(s, i0, (fuel - 1) as nat) {
                None => None,
                Some(i1) => {
                    if !(0 <= i1 <= s.len()) {
                        None
                    } else {
                        let i2 = skip_ws(s, i1);
                        if i2 < s.len() && s[i2] == ',' {
                            skip_elements(s, i2 + 1, false, (fuel - 1) as nat)
                        } else if i2 < s.len() && s[i2] == ']' {
                            Some(i2 + 1)
                        } else {
                            None
                        }
                    }
                },
            }
        }
    }
}

/// Skip one unknown value, as `skip_value` describes.
pub(crate) fn skip_value_exec(v: &Vec<char>, i: usize, fuel: u128) -> (r: Option<usize>)
    requires
        i <= v@.len(),
    ensures
        match r {
            Some(j) => skip_value(v@, i as int, fuel as nat) == Some(j as int) && j <= v@.len(),
            None => skip_value(v@, i as int, fuel as nat) is None,
        },
    decreases fuel,
{
    let n = v.len();
    if fuel == 0 {
        return None;
    }
    let i0 = ws_to(v, i);
    if i0 >= n {
        return None;
    }
    let c = v[i0];
    if c == '"' {
        match parse_string(v, i0 + 1) {
            None => None,
            Some((t, j)) => Some(j),
        }
    } else if c == '-' || is_digit_exec(c) {
        match number_end(v, i0) {
            None => None,
            Some(j) => Some(j),
        }
    } else if c == 't' {
        if n - i0 >= 4 && v[i0 + 1] == 'r' && v[i0 + 2] == 'u' && v[i0 + 3] == 'e' {
            Some(i0 + 4)
        } else {
            None
        }
    } else if c == 'f' {
        if n - i0 >= 5 && v[i0 + 1] == 'a' && v[i0 + 2] == 'l' && v[i0 + 3] == 's' && v[i0 + 4]
            == 'e' {
            Some(i0 + 5)
        } else {
            None
        }
    } else if c == 'n' {
        if n - i0 >= 4 && v[i0 + 1] == 'u' && v[i0 + 2] == 'l' && v[i0 + 3] == 'l' {
            Some(i0 + 4)
        } else {
            None
        }
    } else if c == '{' {
        skip_members_exec(v, i0 + 1, true, fuel - 1)
    } else if c == '[' {
        skip_elements_exec(v, i0 + 1, true, fuel - 1)
    } else {
        None
    }
}

/// Skip an object's members, as `skip_members` describes.
pub(crate) fn skip_members_exec(v: &Vec<char>, i: usize, allow_close: bool, fuel: u128) -> (r:
    Option<usize>)
    requires
        i <= v@.len(),
    ensures
        match r {
            Some(j) => skip_members(v@, i as int, allow_close, fuel as nat) == Some(j as int) && j
                <= v@.len(),
            None => skip_members(v@, i as int, allow_close, fuel as nat) is None,
        },
    decreases fuel,
{
    let n = v.len();
    if fuel == 0 {
        return None;
    }
    let i0 = ws_to(v, i);
    if i0 >= n {
        return None;
    }
    if v[i0] == '}' && allow_close {
        return Some(i0 + 1);
    }
    if v[i0] != '"' {
        return None;
    }
    match parse_string(v, i0 + 1) {
        None => None,
        Some((k, i1)) => {
            let i2 = ws_to(v, i1);
            if !(i2 < n && v[i2] == ':') {
                return None;
            }
            match skip_value_exec(v, i2 + 1, fuel - 1) {
                None => None,
                Some(i3) => {
                    let i4 = ws_to(v, i3);
                    if i4 < n && v[i4] == ',' {
                        skip_members_exec(v, i4 + 1, false, fuel - 1)
                    } else if i4 < n && v[i4] == '}' {
                        Some(i4 + 1)
                    } else {
                        None
                    }
                },
            }
        },
    }
}

/// Skip an array's elements, as `skip_elements` describes.
pub(crate) fn skip_elements_exec(v: &Vec<char>, i: usize, allow_close: bool, fuel: u128) -> (r:
    Option<usize>)
    requires
        i <= v@.len(),
    ensures
        match r {
            Some(j) => skip_elements(v@, i as int, allow_close, fuel as nat) == Some(j as int) && j
                <= v@.len(),
            None => skip_elements(v@, i as int, allow_close, fuel as nat) is None,
        },
    decreases fuel,
{
    let n = v.len();
    if fuel == 0 {
        return None;
    }
    let i0 = ws_to(v, i);
    if i0 >= n {
        return None;
    }
    if v[i0] == ']' && allow_close {
        return Some(i0 + 1);
    }
    match skip_value_exec(v, i0, fuel - 1) {
        None => None,
        Some(i1) => {
            let i2 = ws_to(v, i1);
            if i2 < n && v[i2] == ',' {
                skip_elements_exec(v, i2 + 1, false, fuel - 1)
            } else if i2 < n && v[i2] == ']' {
                Some(i2 + 1)
            } else {
                None
            }
        },
    }
}

/// Convert the number token in `v[start..end]` to an `i32`.
pub(crate) fn int32_of_token(v: &Vec<char>, start: usize, end: usize) -> (r: Option<i32>)
    requires
        start <= end <= v@.len(),
    ensures
        r == as_i32(v@.subrange(start as int, end as int)),
{
    match int_of_token(v, start, end) {
        None => None,
        Some(x) => {
            if x >= -2147483648i64 && x <= 2147483647i64 {
                Some(x as i32)
            } else {
                None
            }
        },
    }
}

} // verus!
