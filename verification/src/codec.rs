//! The JSON wire codec for `Message`: a verified encoder producing the exact
//! wire text, and a verified strict parser for the message objects the
//! protocol defines (`type`, `position`, `timestamp`, `clientId`, in any
//! order, with JSON whitespace, string escapes and integer values). Anything
//! else — other members, non-integer numbers, trailing text — is malformed,
//! and a malformed payload is dropped by the dispatcher, never fatal.

use vstd::prelude::*;

use crate::protocol::{Message, MsgData};

verus! {

// ---------------------------------------------------------------------------
// Scalar character classes
// ---------------------------------------------------------------------------

/// JSON insignificant whitespace.
pub open spec fn is_json_ws(c: char) -> bool {
    c == ' ' || c == '\t' || c == '\n' || c == '\r'
}

/// Decimal digit.
pub open spec fn is_digit(c: char) -> bool {
    '0' as int <= c as int <= '9' as int
}

/// Value of a hexadecimal digit, or -1.
pub open spec fn hex_val(c: char) -> int {
    if '0' as int <= c as int <= '9' as int {
        c as int - '0' as int
    } else if 'a' as int <= c as int <= 'f' as int {
        c as int - 'a' as int + 10
    } else if 'A' as int <= c as int <= 'F' as int {
        c as int - 'A' as int + 10
    } else {
        -1
    }
}

/// A Unicode scalar value: a code point that is not a surrogate.
pub open spec fn is_scalar(v: int) -> bool {
    (0 <= v < 0xD800) || (0xE000 <= v <= 0x10FFFF)
}

// ---------------------------------------------------------------------------
// Spec-level parser
// ---------------------------------------------------------------------------

/// Index of the first non-whitespace character at or after `i`.
pub open spec fn skip_ws(s: Seq<char>, i: int) -> int
    decreases s.len() - i,
{
    if 0 <= i < s.len() && is_json_ws(s[i]) {
        skip_ws(s, i + 1)
    } else {
        i
    }
}

/// Index of the first non-digit character at or after `i`.
pub open spec fn digits_end(s: Seq<char>, i: int) -> int
    decreases s.len() - i,
{
    if 0 <= i < s.len() && is_digit(s[i]) {
        digits_end(s, i + 1)
    } else {
        i
    }
}

pub proof fn lemma_digits_end_bounds(s: Seq<char>, i: int)
    requires
        0 <= i <= s.len(),
    ensures
        i <= digits_end(s, i) <= s.len(),
    decreases s.len() - i,
{
    if i < s.len() && is_digit(s[i]) {
        lemma_digits_end_bounds(s, i + 1);
    }
}

/// Value of the digit run `s[i..j)`, read left to right.
pub open spec fn digits_val(s: Seq<char>, i: int, j: int) -> int
    decreases j - i,
{
    if j <= i {
        0
    } else {
        digits_val(s, i, j - 1) * 10 + (s[j - 1] as int - '0' as int)
    }
}

/// A JSON integer at `i`: an optional minus sign and a digit run without a
/// leading zero, whose value fits in a 64-bit signed integer. Fractions and
/// exponents are not integers and make the payload malformed, as does a value
/// out of range.
pub open spec fn jnum_at(s: Seq<char>, i: int) -> Option<(int, int)> {
    let neg = 0 <= i < s.len() && s[i] == '-';
    let d0 = if neg {
        i + 1
    } else {
        i
    };
    let d1 = digits_end(s, d0);
    if d1 == d0 {
        None
    } else if s[d0] == '0' && d1 > d0 + 1 {
        None
    } else {
        let v = if neg {
            -digits_val(s, d0, d1)
        } else {
            digits_val(s, d0, d1)
        };
        if -0x8000000000000000 <= v <= 0x7FFFFFFFFFFFFFFF {
            Some((v, d1))
        } else {
            None
        }
    }
}

/// The character a simple (single-letter) escape denotes, if any.
pub open spec fn esc_code(c: char) -> Option<char> {
    if c == '"' {
        Some('"')
    } else if c == '\\' {
        Some('\\')
    } else if c == '/' {
        Some('/')
    } else if c == 'b' {
        Some('\u{8}')
    } else if c == 'f' {
        Some('\u{c}')
    } else if c == 'n' {
        Some('\n')
    } else if c == 'r' {
        Some('\r')
    } else if c == 't' {
        Some('\t')
    } else {
        None
    }
}

/// Value of the four hexadecimal digits at `i`, or -1.
pub open spec fn hex4_val(s: Seq<char>, i: int) -> int {
    if 0 <= i && i + 4 <= s.len() && hex_val(s[i]) >= 0 && hex_val(s[i + 1]) >= 0 && hex_val(
        s[i + 2],
    ) >= 0 && hex_val(s[i + 3]) >= 0 {
        hex_val(s[i]) * 0x1000 + hex_val(s[i + 1]) * 0x100 + hex_val(s[i + 2]) * 16 + hex_val(
            s[i + 3],
        )
    } else {
        -1
    }
}

/// One escape sequence starting at `i`, the position after the backslash:
/// the character it denotes and the position after it. A `\u` escape in the
/// surrogate range must be a high surrogate followed by a `\u` low surrogate,
/// together denoting one supplementary character.
pub open spec fn esc_at(s: Seq<char>, i: int) -> Option<(char, int)> {
    if i < 0 || i >= s.len() {
        None
    } else if s[i] == 'u' {
        let v = hex4_val(s, i + 1);
        if v < 0 {
            None
        } else if v < 0xD800 || v >= 0xE000 {
            Some(((v as u32) as char, i + 5))
        } else if v < 0xDC00 {
            if i + 7 <= s.len() && s[i + 5] == '\\' && s[i + 6] == 'u' {
                let w = hex4_val(s, i + 7);
                if 0xDC00 <= w < 0xE000 {
                    Some((((0x10000 + (v - 0xD800) * 0x400 + (w - 0xDC00)) as u32) as char, i + 11))
                } else {
                    None
                }
            } else {
                None
            }
        } else {
            None
        }
    } else {
        match esc_code(s[i]) {
            Some(c) => Some((c, i + 1)),
            None => None,
        }
    }
}

/// The body of a JSON string from `i` (the position after the opening quote)
/// to its closing quote: the denoted characters and the position after the
/// closing quote. Unescaped control characters are malformed.
pub open spec fn jstr_rest(s: Seq<char>, i: int) -> Option<(Seq<char>, int)>
    decreases s.len() - i,
{
    if i < 0 || i >= s.len() {
        None
    } else if s[i] == '"' {
        Some((Seq::empty(), i + 1))
    } else if s[i] == '\\' {
        match esc_at(s, i + 1) {
            Some((c, j)) => if i + 1 < j <= s.len() {
                match jstr_rest(s, j) {
                    Some((rest, k)) => Some((seq![c] + rest, k)),
                    None => None,
                }
            } else {
                None
            },
            None => None,
        }
    } else if (s[i] as int) < 0x20 {
        None
    } else {
        match jstr_rest(s, i + 1) {
            Some((rest, k)) => Some((seq![s[i]] + rest, k)),
            None => None,
        }
    }
}

/// A JSON string at `i` (at the opening quote).
pub open spec fn jstring_at(s: Seq<char>, i: int) -> Option<(Seq<char>, int)> {
    if 0 <= i < s.len() && s[i] == '"' {
        jstr_rest(s, i + 1)
    } else {
        None
    }
}

/// The literal `null` at `i`: the position after it.
pub open spec fn null_at(s: Seq<char>, i: int) -> Option<int> {
    if 0 <= i && i + 4 <= s.len() && s[i] == 'n' && s[i + 1] == 'u' && s[i + 2] == 'l' && s[i + 3]
        == 'l' {
        Some(i + 4)
    } else {
        None
    }
}

proof fn lemma_digits_val_nonneg(s: Seq<char>, i: int, j: int)
    requires
        forall|k: int| i <= k < j ==> is_digit(#[trigger] s[k]),
    ensures
        digits_val(s, i, j) >= 0,
    decreases j - i,
{
    if j > i {
        lemma_digits_val_nonneg(s, i, j - 1);
    }
}

proof fn lemma_digits_end_digits(s: Seq<char>, i: int, k: int)
    requires
        0 <= i <= s.len(),
        i <= k < digits_end(s, i),
    ensures
        is_digit(s[k]),
    decreases s.len() - i,
{
    lemma_digits_end_bounds(s, i);
    if i < s.len() && is_digit(s[i]) {
        if k > i {
            lemma_digits_end_digits(s, i + 1, k);
        }
    }
}

// ---------------------------------------------------------------------------
// Executable whitespace and number scanning
// ---------------------------------------------------------------------------

/// First non-whitespace position at or after `i`.
fn scan_ws(v: &Vec<char>, i: usize) -> (r: usize)
    requires
        i <= v.len(),
    ensures
        r as int == skip_ws(v@, i as int),
        i <= r <= v.len(),
{
    let mut k: usize = i;
    while k < v.len() && (v[k] == ' ' || v[k] == '\t' || v[k] == '\n' || v[k] == '\r')
        invariant
            i <= k <= v.len(),
            skip_ws(v@, i as int) == skip_ws(v@, k as int),
        decreases v.len() - k,
    {
        proof {
            assert(is_json_ws(v@[k as int]));
        }
        k = k + 1;
    }
    proof {
        assert(k == v.len() || !is_json_ws(v@[k as int]));
        assert(skip_ws(v@, k as int) == k as int);
    }
    k
}

/// First non-digit position at or after `i`.
fn scan_digits(v: &Vec<char>, i: usize) -> (r: usize)
    requires
        i <= v.len(),
    ensures
        r as int == digits_end(v@, i as int),
        i <= r <= v.len(),
{
    let mut k: usize = i;
    while k < v.len() && '0' <= v[k] && v[k] <= '9'
        invariant
            i <= k <= v.len(),
            digits_end(v@, i as int) == digits_end(v@, k as int),
        decreases v.len() - k,
    {
        proof {
            assert(is_digit(v@[k as int]));
        }
        k = k + 1;
    }
    proof {
        assert(k == v.len() || !is_digit(v@[k as int]));
        assert(digits_end(v@, k as int) == k as int);
    }
    k
}

/// Parse a JSON integer at `i`, exactly as `jnum_at` describes.
fn parse_jnum(v: &Vec<char>, i: usize) -> (r: Option<(i64, usize)>)
    requires
        i <= v.len(),
    ensures
        match r {
            Some(p) => jnum_at(v@, i as int) == Some((p.0 as int, p.1 as int)) && i < p.1 <= v.len(),
            None => jnum_at(v@, i as int) is None,
        },
{
    let neg = i < v.len() && v[i] == '-';
    let d0: usize = if neg {
        i + 1
    } else {
        i
    };
    let d1 = scan_digits(v, d0);
    if d1 == d0 {
        return None;
    }
    if v[d0] == '0' && d1 > d0 + 1 {
        return None;
    }
    // Accumulate the digit-run value, saturating just above 2^63 so that an
    // out-of-range run is still detected exactly.
    let bound: u128 = 0x8000000000000000;
    let mut acc: u128 = 0;
    let mut k: usize = d0;
    proof {
        lemma_digits_end_digits(v@, d0 as int, d0 as int);
    }
    while k < d1
        invariant
            d0 <= k <= d1 <= v.len(),
            d1 as int == digits_end(v@, d0 as int),
            bound == 0x8000000000000000,
            digits_val(v@, d0 as int, k as int) <= bound ==> acc == digits_val(
                v@,
                d0 as int,
                k as int,
            ),
            digits_val(v@, d0 as int, k as int) > bound ==> acc > bound,
            acc <= bound * 10 + 9,
        decreases d1 - k,
    {
        proof {
            lemma_digits_end_digits(v@, d0 as int, k as int);
            lemma_digits_val_nonneg_all(v@, d0 as int, k as int);
        }
        let u = v[k] as u32;
        let d: u128 = (u - '0' as u32) as u128;
        let ghost dv = digits_val(v@, d0 as int, k as int);
        let ghost dv2 = digits_val(v@, d0 as int, k as int + 1);
        proof {
            assert(dv2 == dv * 10 + (v@[k as int] as int - '0' as int));
        }
        if acc <= bound {
            acc = acc * 10 + d;
        } else {
            proof {
                assert(dv > bound);
                assert(dv * 10 + (v@[k as int] as int - '0' as int) > bound) by (nonlinear_arith)
                    requires
                        dv > bound,
                        bound > 0,
                        v@[k as int] as int - '0' as int >= 0,
                ;
            }
        }
        k = k + 1;
    }
    let ghost dv = digits_val(v@, d0 as int, d1 as int);
    if neg {
        if acc > bound {
            return None;
        }
        let val: i64 = if acc == bound {
            i64::MIN
        } else {
            -((acc as u64) as i64)
        };
        Some((val, d1))
    } else {
        if acc >= bound {
            return None;
        }
        Some(((acc as u64) as i64, d1))
    }
}

// ---------------------------------------------------------------------------
// Trusted character plumbing
// ---------------------------------------------------------------------------

/// Relies on str::chars: the characters of the string, in order.
#[verifier::external_body]
pub(crate) fn chars_vec(s: &str) -> (r: Vec<char>)
    ensures
        r@ == s@,
{
    s.chars().collect()
}

/// Relies on String's FromIterator impl for char: the characters joined back
/// into one string.
#[verifier::external_body]
pub(crate) fn string_from_chars(v: &Vec<char>) -> (r: String)
    ensures
        r@ == v@,
{
    v.iter().collect()
}

/// Relies on char::from_u32: Some exactly for Unicode scalar values (not a
/// surrogate, at most 0x10FFFF), and the character has the given code.
#[verifier::external_body]
fn char_from_u32(val: u32) -> (r: Option<char>)
    ensures
        r == (if is_scalar(val as int) {
            Some(val as char)
        } else {
            None::<char>
        }),
{
    char::from_u32(val)
}

// ---------------------------------------------------------------------------
// Executable string parsing
// ---------------------------------------------------------------------------

/// Value of one hexadecimal digit character.
fn parse_hex_digit(c: char) -> (r: Option<u32>)
    ensures
        match r {
            Some(h) => hex_val(c) == h as int,
            None => hex_val(c) < 0,
        },
{
    let u = c as u32;
    if '0' as u32 <= u && u <= '9' as u32 {
        Some(u - '0' as u32)
    } else if 'a' as u32 <= u && u <= 'f' as u32 {
        Some(u - 'a' as u32 + 10)
    } else if 'A' as u32 <= u && u <= 'F' as u32 {
        Some(u - 'A' as u32 + 10)
    } else {
        None
    }
}

/// Value of the four hexadecimal digits at `i`, exactly as `hex4_val`.
fn parse_hex4(v: &Vec<char>, i: usize) -> (r: Option<u32>)
    requires
        i <= v.len(),
    ensures
        match r {
            Some(h) => hex4_val(v@, i as int) == h as int && h < 0x10000 && i + 4 <= v.len(),
            None => hex4_val(v@, i as int) < 0,
        },
{
    if v.len() - i < 4 {
        return None;
    }
    let h0 = parse_hex_digit(v[i]);
    let h1 = parse_hex_digit(v[i + 1]);
    let h2 = parse_hex_digit(v[i + 2]);
    let h3 = parse_hex_digit(v[i + 3]);
    match (h0, h1, h2, h3) {
        (Some(a), Some(b), Some(c), Some(d)) => Some(a * 0x1000 + b * 0x100 + c * 16 + d),
        _ => None,
    }
}

/// One escape sequence at `i` (after the backslash), exactly as `esc_at`.
fn parse_escape(v: &Vec<char>, i: usize) -> (r: Option<(char, usize)>)
    requires
        i <= v.len(),
    ensures
        match r {
            Some(p) => esc_at(v@, i as int) == Some((p.0, p.1 as int)) && i < p.1 <= v.len(),
            None => esc_at(v@, i as int) is None,
        },
{
    if i >= v.len() {
        return None;
    }
    let c = v[i];
    if c == 'u' {
        match parse_hex4(v, i + 1) {
            None => None,
            Some(val) => {
                if val < 0xD800 || val >= 0xE000 {
                    match char_from_u32(val) {
                        Some(ch) => Some((ch, i + 5)),
                        None => None,  // unreachable: val is a scalar value
                    }
                } else if val < 0xDC00 {
                    if v.len() - i >= 7 && v[i + 5] == '\\' && v[i + 6] == 'u' {
                        match parse_hex4(v, i + 7) {
                            None => None,
                            Some(w) => {
                                if 0xDC00 <= w && w < 0xE000 {
                                    let cp: u32 = 0x10000 + (val - 0xD800) * 0x400 + (w - 0xDC00);
                                    match char_from_u32(cp) {
                                        Some(ch) => Some((ch, i + 11)),
                                        None => None,  // unreachable: cp is a scalar value
                                    }
                                } else {
                                    None
                                }
                            },
                        }
                    } else {
                        None
                    }
                } else {
                    None
                }
            },
        }
    } else {
        let simple: Option<char> = if c == '"' {
            Some('"')
        } else if c == '\\' {
            Some('\\')
        } else if c == '/' {
            Some('/')
        } else if c == 'b' {
            Some('\u{8}')
        } else if c == 'f' {
            Some('\u{c}')
        } else if c == 'n' {
            Some('\n')
        } else if c == 'r' {
            Some('\r')
        } else if c == 't' {
            Some('\t')
        } else {
            None
        };
        match simple {
            Some(ch) => Some((ch, i + 1)),
            None => None,
        }
    }
}

/// The body of a JSON string from `i` to its closing quote, exactly as
/// `jstr_rest`; the denoted characters are appended to `out`.
fn parse_jstr_rest(v: &Vec<char>, i: usize, out: &mut Vec<char>) -> (r: Option<usize>)
    requires
        i <= v.len(),
    ensures
        match r {
            Some(j) => jstr_rest(v@, i as int) matches Some((cs, jj)) && jj == j as int
                && final(out)@ == old(out)@ + cs && i < j <= v.len(),
            None => jstr_rest(v@, i as int) is None,
        },
    decreases v.len() - i,
{
    if i >= v.len() {
        return None;
    }
    let c = v[i];
    if c == '"' {
        proof {
            assert(out@ =~= out@ + Seq::<char>::empty());
        }
        Some(i + 1)
    } else if c == '\\' {
        match parse_escape(v, i + 1) {
            None => None,
            Some((ch, j)) => {
                let ghost pre = out@;
                out.push(ch);
                let r2 = parse_jstr_rest(v, j, out);
                match r2 {
                    None => None,
                    Some(k) => {
                        proof {
                            let (rest, _kk) = jstr_rest(v@, j as int)->0;
                            assert(out@ =~= pre + (seq![ch] + rest));
                        }
                        Some(k)
                    },
                }
            },
        }
    } else if c <= '\u{1f}' {
        proof {
            assert((v@[i as int] as int) < 0x20);
        }
        None
    } else {
        proof {
            assert((v@[i as int] as int) >= 0x20);
        }
        let ghost pre = out@;
        out.push(c);
        let r2 = parse_jstr_rest(v, i + 1, out);
        match r2 {
            None => None,
            Some(k) => {
                proof {
                    let (rest, _kk) = jstr_rest(v@, i as int + 1)->0;
                    assert(out@ =~= pre + (seq![c] + rest));
                }
                Some(k)
            },
        }
    }
}

proof fn lemma_digits_val_nonneg_all(s: Seq<char>, i: int, k: int)
    requires
        0 <= i <= s.len(),
        i <= k <= digits_end(s, i),
    ensures
        digits_val(s, i, k) >= 0,
{
    assert forall|q: int| i <= q < k implies is_digit(#[trigger] s[q]) by {
        lemma_digits_end_digits(s, i, q);
    }
    lemma_digits_val_nonneg(s, i, k);
}


// ---------------------------------------------------------------------------
// Spec-level message objects
// ---------------------------------------------------------------------------

/// The members seen so far while reading one message object.
pub ghost struct PartialMsg {
    pub ty: Option<Seq<char>>,
    pub position: Option<Option<int>>,
    pub timestamp: Option<int>,
    pub client_id: Option<Option<Seq<char>>>,
}

/// No members seen yet.
pub open spec fn empty_partial() -> PartialMsg {
    PartialMsg { ty: None, position: None, timestamp: None, client_id: None }
}

/// One object member at `i` (at the opening quote of its key): the updated
/// record and the position after the value. A key outside the protocol, a
/// repeated key, or a value of the wrong shape is malformed. `position` and
/// `clientId` also accept `null`, meaning absent.
pub open spec fn member_at(s: Seq<char>, i: int, p: PartialMsg) -> Option<(PartialMsg, int)> {
    match jstring_at(s, i) {
        None => None,
        Some((key, j)) => {
            let k = skip_ws(s, j);
            if !(0 <= k < s.len() && s[k] == ':') {
                None
            } else {
                let w = skip_ws(s, k + 1);
                if key == "type"@ {
                    if p.ty is Some {
                        None
                    } else {
                        match jstring_at(s, w) {
                            Some((val, e)) => Some((PartialMsg { ty: Some(val), ..p }, e)),
                            None => None,
                        }
                    }
                } else if key == "timestamp"@ {
                    if p.timestamp is Some {
                        None
                    } else {
                        match jnum_at(s, w) {
                            Some((val, e)) => Some((PartialMsg { timestamp: Some(val), ..p }, e)),
                            None => None,
                        }
                    }
                } else if key == "position"@ {
                    if p.position is Some {
                        None
                    } else {
                        match null_at(s, w) {
                            Some(e) => Some((PartialMsg { position: Some(None), ..p }, e)),
                            None => match jnum_at(s, w) {
                                Some((val, e)) => Some(
                                    (PartialMsg { position: Some(Some(val)), ..p }, e),
                                ),
                                None => None,
                            },
                        }
                    }
                } else if key == "clientId"@ {
                    if p.client_id is Some {
                        None
                    } else {
                        match null_at(s, w) {
                            Some(e) => Some((PartialMsg { client_id: Some(None), ..p }, e)),
                            None => match jstring_at(s, w) {
                                Some((val, e)) => Some(
                                    (PartialMsg { client_id: Some(Some(val)), ..p }, e),
                                ),
                                None => None,
                            },
                        }
                    }
                } else {
                    None
                }
            }
        },
    }
}

/// The members of an object from `i` (at the first key) to the closing
/// brace: the finished record and the position after the brace.
pub open spec fn members_from(s: Seq<char>, i: int, p: PartialMsg) -> Option<(PartialMsg, int)>
    decreases s.len() - i,
{
    match member_at(s, i, p) {
        None => None,
        Some((p2, j)) => {
            let k = skip_ws(s, j);
            if 0 <= k < s.len() && s[k] == ',' {
                let n = skip_ws(s, k + 1);
                if i < n <= s.len() {
                    members_from(s, n, p2)
                } else {
                    None
                }
            } else if 0 <= k < s.len() && s[k] == '}' {
                Some((p2, k + 1))
            } else {
                None
            }
        },
    }
}

/// A finished record makes a message when `type` and `timestamp` are there;
/// an absent or `null` `position` or `clientId` means none.
pub open spec fn finish_partial(p: PartialMsg) -> Option<MsgData> {
    match (p.ty, p.timestamp) {
        (Some(t), Some(ts)) => Some(
            MsgData {
                ty: t,
                position: match p.position {
                    Some(x) => x,
                    None => None,
                },
                timestamp: ts,
                client_id: match p.client_id {
                    Some(x) => x,
                    None => None,
                },
            },
        ),
        _ => None,
    }
}

/// The whole wire text as one message object: whitespace, one object with
/// the protocol's members, whitespace, end of text; anything else is
/// malformed.
pub open spec fn decode_spec(s: Seq<char>) -> Option<MsgData> {
    let i = skip_ws(s, 0);
    if !(0 <= i < s.len() && s[i] == '{') {
        None
    } else {
        let j = skip_ws(s, i + 1);
        let r = if 0 <= j < s.len() && s[j] == '}' {
            Some((empty_partial(), j + 1))
        } else {
            members_from(s, j, empty_partial())
        };
        match r {
            None => None,
            Some((p, k)) => if skip_ws(s, k) == s.len() {
                finish_partial(p)
            } else {
                None
            },
        }
    }
}

// ---------------------------------------------------------------------------
// Executable message parsing
// ---------------------------------------------------------------------------

/// The members seen so far, as runtime values.
struct PartialX {
    ty: Option<Vec<char>>,
    position: Option<Option<i64>>,
    timestamp: Option<i64>,
    client_id: Option<Option<Vec<char>>>,
}

impl PartialX {
    spec fn as_partial(self) -> PartialMsg {
        PartialMsg {
            ty: match self.ty {
                Some(v) => Some(v@),
                None => None,
            },
            position: match self.position {
                Some(Some(x)) => Some(Some(x as int)),
                Some(None) => Some(None),
                None => None,
            },
            timestamp: match self.timestamp {
                Some(x) => Some(x as int),
                None => None,
            },
            client_id: match self.client_id {
                Some(Some(v)) => Some(Some(v@)),
                Some(None) => Some(None),
                None => None,
            },
        }
    }
}

/// Character-for-character comparison with a literal.
fn chars_eq(a: &Vec<char>, s: &str) -> (r: bool)
    ensures
        r == (a@ == s@),
{
    let b = chars_vec(s);
    if a.len() != b.len() {
        return false;
    }
    let mut i: usize = 0;
    while i < a.len()
        invariant
            i <= a.len(),
            a.len() == b.len(),
            b@ == s@,
            forall|q: int| 0 <= q < i ==> a@[q] == b@[q],
        decreases a.len() - i,
    {
        if a[i] != b[i] {
            return false;
        }
        i = i + 1;
    }
    proof {
        assert(a@ =~= b@);
    }
    true
}

/// The literal `null` at `i`, exactly as `null_at`.
fn parse_null(v: &Vec<char>, i: usize) -> (r: Option<usize>)
    requires
        i <= v.len(),
    ensures
        match r {
            Some(j) => null_at(v@, i as int) == Some(j as int) && i < j <= v.len(),
            None => null_at(v@, i as int) is None,
        },
{
    if v.len() - i >= 4 && v[i] == 'n' && v[i + 1] == 'u' && v[i + 2] == 'l' && v[i + 3] == 'l' {
        Some(i + 4)
    } else {
        None
    }
}

/// One object member at `i`, exactly as `member_at`.
fn parse_member(v: &Vec<char>, i: usize, p: &mut PartialX) -> (r: Option<usize>)
    requires
        i <= v.len(),
    ensures
        match r {
            Some(j) => member_at(v@, i as int, old(p).as_partial()) matches Some((p2, jj)) && p2
                == final(p).as_partial() && jj == j as int && i < j <= v.len(),
            None => member_at(v@, i as int, old(p).as_partial()) is None,
        },
{
    if !(i < v.len() && v[i] == '"') {
        return None;
    }
    let mut key: Vec<char> = Vec::new();
    let j = match parse_jstr_rest(v, i + 1, &mut key) {
        None => {
            return None;
        },
        Some(j) => j,
    };
    proof {
        assert(key@ =~= Seq::<char>::empty() + (jstr_rest(v@, i as int + 1)->0).0);
        assert(key@ == (jstring_at(v@, i as int)->0).0);
    }
    let k = scan_ws(v, j);
    if !(k < v.len() && v[k] == ':') {
        return None;
    }
    let w = scan_ws(v, k + 1);
    if chars_eq(&key, "type") {
        if p.ty.is_some() {
            return None;
        }
        if !(w < v.len() && v[w] == '"') {
            return None;
        }
        let mut val: Vec<char> = Vec::new();
        match parse_jstr_rest(v, w + 1, &mut val) {
            None => None,
            Some(e) => {
                proof {
                    assert(val@ =~= Seq::<char>::empty() + (jstr_rest(v@, w as int + 1)->0).0);
                }
                p.ty = Some(val);
                Some(e)
            },
        }
    } else if chars_eq(&key, "timestamp") {
        if p.timestamp.is_some() {
            return None;
        }
        match parse_jnum(v, w) {
            None => None,
            Some((val, e)) => {
                p.timestamp = Some(val);
                Some(e)
            },
        }
    } else if chars_eq(&key, "position") {
        if p.position.is_some() {
            return None;
        }
        match parse_null(v, w) {
            Some(e) => {
                p.position = Some(None);
                Some(e)
            },
            None => match parse_jnum(v, w) {
                None => None,
                Some((val, e)) => {
                    p.position = Some(Some(val));
                    Some(e)
                },
            },
        }
    } else if chars_eq(&key, "clientId") {
        if p.client_id.is_some() {
            return None;
        }
        match parse_null(v, w) {
            Some(e) => {
                p.client_id = Some(None);
                Some(e)
            },
            None => {
                if !(w < v.len() && v[w] == '"') {
                    return None;
                }
                let mut val: Vec<char> = Vec::new();
                match parse_jstr_rest(v, w + 1, &mut val) {
                    None => None,
                    Some(e) => {
                        proof {
                            assert(val@ =~= Seq::<char>::empty() + (jstr_rest(v@, w as int + 1)->0).0);
                        }
                        p.client_id = Some(Some(val));
                        Some(e)
                    },
                }
            },
        }
    } else {
        None
    }
}

/// The members of an object from `i`, exactly as `members_from`.
fn parse_members(v: &Vec<char>, i: usize, p: &mut PartialX) -> (r: Option<usize>)
    requires
        i <= v.len(),
    ensures
        match r {
            Some(j) => members_from(v@, i as int, old(p).as_partial()) matches Some((p2, jj)) && p2
                == final(p).as_partial() && jj == j as int && j <= v.len(),
            None => members_from(v@, i as int, old(p).as_partial()) is None,
        },
    decreases v.len() - i,
{
    match parse_member(v, i, p) {
        None => None,
        Some(j) => {
            let k = scan_ws(v, j);
            if k < v.len() && v[k] == ',' {
                let n = scan_ws(v, k + 1);
                if i < n && n <= v.len() {
                    parse_members(v, n, p)
                } else {
                    None
                }
            } else if k < v.len() && v[k] == '}' {
                Some(k + 1)
            } else {
                None
            }
        },
    }
}

/// Parse one wire text as a message, exactly as `decode_spec`: `Some` for a
/// well-formed message object, `None` for a malformed payload.
pub fn decode_message(text: &str) -> (r: Option<Message>)
    ensures
        match r {
            Some(m) => decode_spec(text@) == Some(m.data()),
            None => decode_spec(text@) is None,
        },
{
    let v = chars_vec(text);
    let i = scan_ws(&v, 0);
    if !(i < v.len() && v[i] == '{') {
        return None;
    }
    let j = scan_ws(&v, i + 1);
    let mut p = PartialX { ty: None, position: None, timestamp: None, client_id: None };
    let end: Option<usize> = if j < v.len() && v[j] == '}' {
        Some(j + 1)
    } else {
        parse_members(&v, j, &mut p)
    };
    match end {
        None => None,
        Some(k) => {
            if scan_ws(&v, k) != v.len() {
                return None;
            }
            let PartialX { ty, position, timestamp, client_id } = p;
            match (ty, timestamp) {
                (Some(t), Some(ts)) => {
                    let msg_type = string_from_chars(&t);
                    let pos: Option<i64> = match position {
                        Some(x) => x,
                        None => None,
                    };
                    let cid_chars: Option<Vec<char>> = match client_id {
                        Some(x) => x,
                        None => None,
                    };
                    let cid: Option<String> = match cid_chars {
                        Some(cv) => Some(string_from_chars(&cv)),
                        None => None,
                    };
                    let m = Message { msg_type, position: pos, timestamp: ts, client_id: cid };
                    Some(m)
                },
                _ => None,
            }
        },
    }
}


// ---------------------------------------------------------------------------
// Spec-level encoder
// ---------------------------------------------------------------------------

/// The decimal digit character for a value below ten.
pub open spec fn digit_char(n: int) -> char {
    if n == 0 {
        '0'
    } else if n == 1 {
        '1'
    } else if n == 2 {
        '2'
    } else if n == 3 {
        '3'
    } else if n == 4 {
        '4'
    } else if n == 5 {
        '5'
    } else if n == 6 {
        '6'
    } else if n == 7 {
        '7'
    } else if n == 8 {
        '8'
    } else {
        '9'
    }
}

/// The lowercase hexadecimal digit character for a value below sixteen.
pub open spec fn hex_digit_char(n: int) -> char {
    if n < 10 {
        digit_char(n)
    } else if n == 10 {
        'a'
    } else if n == 11 {
        'b'
    } else if n == 12 {
        'c'
    } else if n == 13 {
        'd'
    } else if n == 14 {
        'e'
    } else {
        'f'
    }
}

/// Decimal digits of a natural number, most significant first.
pub open spec fn dec_nat(n: nat) -> Seq<char>
    decreases n,
{
    if n < 10 {
        seq![digit_char(n as int)]
    } else {
        dec_nat((n / 10) as nat) + seq![digit_char((n % 10) as int)]
    }
}

/// Decimal form of an integer: a minus sign for a negative value, then the
/// digits of its magnitude.
pub open spec fn dec_int(v: int) -> Seq<char> {
    if v < 0 {
        seq!['-'] + dec_nat((-v) as nat)
    } else {
        dec_nat(v as nat)
    }
}

/// The wire form of one character inside a JSON string: the two-character
/// escapes JSON names, `\u00xx` for the other control characters, and the
/// character itself otherwise.
pub open spec fn esc_char(c: char) -> Seq<char> {
    if c == '"' {
        seq!['\\', '"']
    } else if c == '\\' {
        seq!['\\', '\\']
    } else if c == '\u{8}' {
        seq!['\\', 'b']
    } else if c == '\u{c}' {
        seq!['\\', 'f']
    } else if c == '\n' {
        seq!['\\', 'n']
    } else if c == '\r' {
        seq!['\\', 'r']
    } else if c == '\t' {
        seq!['\\', 't']
    } else if (c as int) < 0x20 {
        seq!['\\', 'u', '0', '0', hex_digit_char(c as int / 16), hex_digit_char(c as int % 16)]
    } else {
        seq![c]
    }
}

/// The escaped wire form of a string body from `i` on.
pub open spec fn esc_seq(s: Seq<char>, i: int) -> Seq<char>
    decreases s.len() - i,
{
    if i < 0 || i >= s.len() {
        Seq::empty()
    } else {
        esc_char(s[i]) + esc_seq(s, i + 1)
    }
}

/// A JSON string: quote, escaped body, quote.
pub open spec fn jstring_enc(s: Seq<char>) -> Seq<char> {
    seq!['"'] + esc_seq(s, 0) + seq!['"']
}

/// The exact wire text of a message: the members in declaration order, with
/// `position` and `clientId` left out when absent, and no whitespace.
pub open spec fn encode_spec(d: MsgData) -> Seq<char> {
    "{\"type\":"@ + jstring_enc(d.ty) + (match d.position {
        Some(p) => ",\"position\":"@ + dec_int(p),
        None => Seq::<char>::empty(),
    }) + ",\"timestamp\":"@ + dec_int(d.timestamp) + (match d.client_id {
        Some(c) => ",\"clientId\":"@ + jstring_enc(c),
        None => Seq::<char>::empty(),
    }) + "}"@
}

// ---------------------------------------------------------------------------
// Executable encoder
// ---------------------------------------------------------------------------

/// Append the characters of a literal.
fn push_lit(out: &mut Vec<char>, s: &str)
    ensures
        final(out)@ == old(out)@ + s@,
{
    let cs = chars_vec(s);
    let mut i: usize = 0;
    while i < cs.len()
        invariant
            i <= cs.len(),
            cs@ == s@,
            out@ == old(out)@ + cs@.take(i as int),
        decreases cs.len() - i,
    {
        out.push(cs[i]);
        i = i + 1;
        proof {
            assert(cs@.take(i as int) =~= cs@.take(i as int - 1) + seq![cs@[i as int - 1]]);
            assert(old(out)@ + cs@.take(i as int) =~= (old(out)@ + cs@.take(i as int - 1)) + seq![
                cs@[i as int - 1],
            ]);
        }
    }
    proof {
        assert(cs@.take(cs@.len() as int) =~= cs@);
    }
}

/// The decimal digit character for a value below ten.
fn digit_char_of(n: u64) -> (c: char)
    requires
        n < 10,
    ensures
        c == digit_char(n as int),
{
    if n == 0 {
        '0'
    } else if n == 1 {
        '1'
    } else if n == 2 {
        '2'
    } else if n == 3 {
        '3'
    } else if n == 4 {
        '4'
    } else if n == 5 {
        '5'
    } else if n == 6 {
        '6'
    } else if n == 7 {
        '7'
    } else if n == 8 {
        '8'
    } else {
        '9'
    }
}

/// The lowercase hexadecimal digit character for a value below sixteen.
fn hex_char_of(n: u32) -> (c: char)
    requires
        n < 16,
    ensures
        c == hex_digit_char(n as int),
{
    if n < 10 {
        digit_char_of(n as u64)
    } else if n == 10 {
        'a'
    } else if n == 11 {
        'b'
    } else if n == 12 {
        'c'
    } else if n == 13 {
        'd'
    } else if n == 14 {
        'e'
    } else {
        'f'
    }
}

/// Append the decimal digits of a natural number.
fn push_dec_u64(out: &mut Vec<char>, n: u64)
    ensures
        final(out)@ == old(out)@ + dec_nat(n as nat),
    decreases n,
{
    if n < 10 {
        out.push(digit_char_of(n));
        proof {
            assert(final(out)@ =~= old(out)@ + dec_nat(n as nat));
        }
    } else {
        push_dec_u64(out, n / 10);
        out.push(digit_char_of(n % 10));
        proof {
            assert(out@ =~= old(out)@ + (dec_nat((n / 10) as nat) + seq![
                digit_char((n % 10) as int),
            ]));
        }
    }
}

/// Append the decimal form of a signed integer.
fn push_dec_i64(out: &mut Vec<char>, n: i64)
    ensures
        final(out)@ == old(out)@ + dec_int(n as int),
{
    if n < 0 {
        out.push('-');
        let mag: u64 = if n == i64::MIN {
            0x8000000000000000
        } else {
            (-n) as u64
        };
        push_dec_u64(out, mag);
        proof {
            assert(mag as nat == (-(n as int)) as nat);
            assert(out@ =~= old(out)@ + (seq!['-'] + dec_nat((-(n as int)) as nat)));
        }
    } else {
        push_dec_u64(out, n as u64);
    }
}

/// Append the escaped wire form of a string body from `i` on.
fn push_escaped(out: &mut Vec<char>, s: &Vec<char>, i: usize)
    ensures
        final(out)@ == old(out)@ + esc_seq(s@, i as int),
    decreases s.len() - i,
{
    if i >= s.len() {
        proof {
            assert(out@ =~= out@ + Seq::<char>::empty());
        }
        return ;
    }
    let c = s[i];
    let ghost pre = out@;
    if c == '"' {
        out.push('\\');
        out.push('"');
    } else if c == '\\' {
        out.push('\\');
        out.push('\\');
    } else if c == '\u{8}' {
        out.push('\\');
        out.push('b');
    } else if c == '\u{c}' {
        out.push('\\');
        out.push('f');
    } else if c == '\n' {
        out.push('\\');
        out.push('n');
    } else if c == '\r' {
        out.push('\\');
        out.push('r');
    } else if c == '\t' {
        out.push('\\');
        out.push('t');
    } else if c <= '\u{1f}' {
        out.push('\\');
        out.push('u');
        out.push('0');
        out.push('0');
        let u = c as u32;
        proof {
            lemma_char_code(c);
            assert(u as int == c as int);
        }
        out.push(hex_char_of(u / 16));
        out.push(hex_char_of(u % 16));
    } else {
        proof {
            assert((s@[i as int] as int) >= 0x20);
        }
        out.push(c);
    }
    proof {
        assert(out@ =~= pre + esc_char(s@[i as int]));
    }
    push_escaped(out, s, i + 1);
    proof {
        assert(out@ =~= pre + (esc_char(s@[i as int]) + esc_seq(s@, i as int + 1)));
    }
}

/// Append a string in its JSON form: quote, escaped body, quote.
fn push_jstring(out: &mut Vec<char>, s: &String)
    ensures
        final(out)@ == old(out)@ + jstring_enc(s@),
{
    let cs = chars_vec(s.as_str());
    out.push('"');
    push_escaped(out, &cs, 0);
    out.push('"');
    proof {
        assert(out@ =~= old(out)@ + (seq!['"'] + esc_seq(s@, 0) + seq!['"']));
    }
}

/// Serialize a message to its exact wire text, as `encode_spec` states it.
/// Serialization is total: it cannot fail for any message.
pub fn encode_message(m: &Message) -> (r: String)
    ensures
        r@ == encode_spec(m.data()),
{
    let mut out: Vec<char> = Vec::new();
    push_lit(&mut out, "{\"type\":");
    push_jstring(&mut out, &m.msg_type);
    let ghost s1 = out@;
    match &m.position {
        Some(p) => {
            push_lit(&mut out, ",\"position\":");
            push_dec_i64(&mut out, *p);
        },
        None => {},
    }
    let ghost s2 = out@;
    proof {
        assert(s2 =~= s1 + (match m.data().position {
            Some(p) => ",\"position\":"@ + dec_int(p),
            None => Seq::<char>::empty(),
        }));
    }
    push_lit(&mut out, ",\"timestamp\":");
    push_dec_i64(&mut out, m.timestamp);
    let ghost s3 = out@;
    proof {
        assert(s3 =~= s2 + (",\"timestamp\":"@ + dec_int(m.data().timestamp)));
    }
    match &m.client_id {
        Some(c) => {
            push_lit(&mut out, ",\"clientId\":");
            push_jstring(&mut out, c);
        },
        None => {},
    }
    let ghost s4 = out@;
    proof {
        assert(s4 =~= s3 + (match m.data().client_id {
            Some(c) => ",\"clientId\":"@ + jstring_enc(c),
            None => Seq::<char>::empty(),
        }));
    }
    push_lit(&mut out, "}");
    proof {
        assert(out@ =~= encode_spec(m.data()));
    }
    string_from_chars(&out)
}


proof fn lemma_char_code(c: char)
    ensures
        c as u32 as int == c as int,
{
}

} // verus!
