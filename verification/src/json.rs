//! Byte-level scanning of JSON wire data.
//!
//! The receiver answers on its JSON control port with one JSON value per
//! request. This module states the grammar of those values as specification
//! functions over byte sequences and proves executable scanners against
//! them. A scanner reports where an element ends, that more input is needed
//! before it is complete, or that it is malformed; it never reads past the
//! element, so unrelated later traffic on the same stream stays untouched.
//!
//! Scope: string contents are plain bytes, which must form valid UTF-8, or
//! one of the short escapes; unicode escapes (`\u`) are rejected. A skipped
//! (untyped) value is checked for balanced brackets and well-formed strings
//! only; typed decoding of the envelope fields is exact.

use vstd::prelude::*;

verus! {

/// Outcome of scanning for an element: the position just past its end, a
/// need for more input before it is complete, or a malformed element.
#[derive(Copy, Clone, PartialEq, Eq, Structural, Debug)]
pub enum Scan {
    Found(usize),
    More,
    Bad,
}

/// Outcome of scanning an integer: its value and end position, a need for
/// more input, or a malformed or out-of-range number.
#[derive(Copy, Clone, PartialEq, Eq, Structural, Debug)]
pub enum IntScan {
    Found(i64, usize),
    More,
    Bad,
}

/// Outcome of scanning a quoted string: its unescaped contents and end
/// position, a need for more input, or a malformed string.
pub ghost enum GStr {
    Found { bytes: Seq<u8>, end: int },
    More,
    Bad,
}

// ---------------------------------------------------------------------------
// Whitespace
// ---------------------------------------------------------------------------

/// JSON insignificant whitespace: space, tab, line feed, carriage return.
pub open spec fn spec_is_ws(b: u8) -> bool {
    b == 0x20 || b == 0x09 || b == 0x0a || b == 0x0d
}

/// The first position at or after `i` holding something besides whitespace.
pub open spec fn spec_skip_ws(s: Seq<u8>, i: int) -> int
    decreases s.len() - i,
{
    if i < s.len() && spec_is_ws(s[i]) {
        spec_skip_ws(s, i + 1)
    } else {
        i
    }
}

pub proof fn lemma_skip_ws_bounds(s: Seq<u8>, i: int)
    requires
        0 <= i <= s.len(),
    ensures
        i <= spec_skip_ws(s, i) <= s.len(),
    decreases s.len() - i,
{
    if i < s.len() && spec_is_ws(s[i]) {
        lemma_skip_ws_bounds(s, i + 1);
    }
}

pub fn skip_ws(s: &[u8], i: usize) -> (r: usize)
    requires
        i <= s@.len(),
    ensures
        i <= r <= s@.len(),
        r as int == spec_skip_ws(s@, i as int),
{
    let mut j = i;
    while j < s.len() && (s[j] == 0x20 || s[j] == 0x09 || s[j] == 0x0a || s[j] == 0x0d)
        invariant
            i <= j <= s@.len(),
            spec_skip_ws(s@, i as int) == spec_skip_ws(s@, j as int),
        decreases s@.len() - j,
    {
        j = j + 1;
    }
    j
}

// ---------------------------------------------------------------------------
// Fixed words: true, false, null
// ---------------------------------------------------------------------------

/// Scans the fixed word `w` at position `i`.
pub open spec fn spec_expect_word(s: Seq<u8>, i: int, w: Seq<u8>) -> Scan
    decreases w.len(),
{
    if w.len() == 0 {
        Scan::Found(i as usize)
    } else if i >= s.len() {
        Scan::More
    } else if s[i] == w[0] {
        spec_expect_word(s, i + 1, w.drop_first())
    } else {
        Scan::Bad
    }
}

pub proof fn lemma_expect_word_bounds(s: Seq<u8>, i: int, w: Seq<u8>)
    requires
        0 <= i <= s.len(),
        s.len() <= usize::MAX,
    ensures
        spec_expect_word(s, i, w) matches Scan::Found(e) ==> e == i + w.len() && i + w.len()
            <= s.len(),
    decreases w.len(),
{
    if w.len() != 0 && i < s.len() && s[i] == w[0] {
        lemma_expect_word_bounds(s, i + 1, w.drop_first());
    }
}

fn expect_word(s: &[u8], i: usize, w: &[u8]) -> (r: Scan)
    requires
        i <= s@.len(),
    ensures
        r == spec_expect_word(s@, i as int, w@),
{
    let n = s.len();
    proof {
        assert(w@.skip(0) =~= w@);
    }
    let mut k: usize = 0;
    loop
        invariant
            k <= w@.len(),
            i + k <= n == s@.len(),
            spec_expect_word(s@, i as int, w@) == spec_expect_word(
                s@,
                i + k,
                w@.skip(k as int),
            ),
        decreases w@.len() - k,
    {
        if k == w.len() {
            proof {
                assert(w@.skip(k as int).len() == 0);
            }
            return Scan::Found(i + k);
        }
        if i + k == s.len() {
            proof {
                assert(w@.skip(k as int).len() > 0);
            }
            return Scan::More;
        }
        if s[i + k] != w[k] {
            proof {
                assert(w@.skip(k as int)[0] == w@[k as int]);
            }
            return Scan::Bad;
        }
        proof {
            assert(w@.skip(k as int)[0] == w@[k as int]);
            assert(w@.skip(k as int).drop_first() =~= w@.skip(k as int + 1));
        }
        k = k + 1;
    }
}

// ---------------------------------------------------------------------------
// Quoted strings
// ---------------------------------------------------------------------------

/// The bytes that may follow a backslash.
pub open spec fn spec_escape_ok(b: u8) -> bool {
    b == 0x22 || b == 0x5c || b == 0x2f || b == 0x62 || b == 0x66 || b == 0x6e || b == 0x72
        || b == 0x74
}

/// The byte an escape stands for.
pub open spec fn spec_escape_byte(b: u8) -> u8 {
    if b == 0x22 {
        0x22
    } else if b == 0x5c {
        0x5c
    } else if b == 0x2f {
        0x2f
    } else if b == 0x62 {
        0x08
    } else if b == 0x66 {
        0x0c
    } else if b == 0x6e {
        0x0a
    } else if b == 0x72 {
        0x0d
    } else {
        0x09
    }
}

/// A plain string content byte: anything besides the quote, the backslash
/// and the control bytes, which must be escaped.
pub open spec fn spec_plain_char(b: u8) -> bool {
    0x20 <= b && b != 0x22 && b != 0x5c
}

/// Scans the body of a quoted string, `i` just inside the opening quote,
/// yielding the unescaped content bytes and the position past the closing
/// quote.
pub open spec fn spec_str_body(s: Seq<u8>, i: int) -> GStr
    decreases s.len() - i,
{
    if i >= s.len() {
        GStr::More
    } else if s[i] == 0x22 {
        GStr::Found { bytes: Seq::empty(), end: i + 1 }
    } else if s[i] == 0x5c {
        if i + 1 >= s.len() {
            GStr::More
        } else if !spec_escape_ok(s[i + 1]) {
            GStr::Bad
        } else {
            match spec_str_body(s, i + 2) {
                GStr::Found { bytes, end } => GStr::Found {
                    bytes: seq![spec_escape_byte(s[i + 1])] + bytes,
                    end,
                },
                GStr::More => GStr::More,
                GStr::Bad => GStr::Bad,
            }
        }
    } else if spec_plain_char(s[i]) {
        match spec_str_body(s, i + 1) {
            GStr::Found { bytes, end } => GStr::Found { bytes: seq![s[i]] + bytes, end },
            GStr::More => GStr::More,
            GStr::Bad => GStr::Bad,
        }
    } else {
        GStr::Bad
    }
}

/// Scans a whole quoted string at `i`, including both quotes. The content
/// bytes must form valid UTF-8, so that they stand for a character
/// sequence.
pub open spec fn spec_parse_string(s: Seq<u8>, i: int) -> GStr {
    if i >= s.len() {
        GStr::More
    } else if s[i] != 0x22 {
        GStr::Bad
    } else {
        match spec_str_body(s, i + 1) {
            GStr::Found { bytes, end } => if vstd::utf8::valid_utf8(bytes) {
                GStr::Found { bytes, end }
            } else {
                GStr::Bad
            },
            GStr::More => GStr::More,
            GStr::Bad => GStr::Bad,
        }
    }
}

pub proof fn lemma_str_body_bounds(s: Seq<u8>, i: int)
    requires
        0 <= i <= s.len(),
    ensures
        spec_str_body(s, i) matches GStr::Found { bytes, end } ==> i < end <= s.len(),
    decreases s.len() - i,
{
    if i < s.len() {
        if s[i] == 0x5c && i + 1 < s.len() && spec_escape_ok(s[i + 1]) {
            lemma_str_body_bounds(s, i + 2);
        } else if s[i] != 0x22 && spec_plain_char(s[i]) {
            lemma_str_body_bounds(s, i + 1);
        }
    }
}

pub proof fn lemma_parse_string_bounds(s: Seq<u8>, i: int)
    requires
        0 <= i <= s.len(),
    ensures
        spec_parse_string(s, i) matches GStr::Found { bytes, end } ==> i < end <= s.len()
            && vstd::utf8::valid_utf8(bytes),
{
    if i < s.len() && s[i] == 0x22 {
        lemma_str_body_bounds(s, i + 1);
    }
}

/// Outcome of the executable string scanner.
#[derive(Debug)]
pub enum StrScan {
    Found(Vec<u8>, usize),
    More,
    Bad,
}

/// Scans a whole quoted string at `i` and returns its unescaped contents.
pub fn parse_string_bytes(s: &[u8], i: usize) -> (r: StrScan)
    requires
        i <= s@.len(),
    ensures
        match r {
            StrScan::Found(bytes, end) => spec_parse_string(s@, i as int) == (GStr::Found {
                bytes: bytes@,
                end: end as int,
            }),
            StrScan::More => spec_parse_string(s@, i as int) is More,
            StrScan::Bad => spec_parse_string(s@, i as int) is Bad,
        },
{
    if i >= s.len() {
        return StrScan::More;
    }
    if s[i] != 0x22 {
        return StrScan::Bad;
    }
    let mut acc: Vec<u8> = Vec::new();
    let mut j = i + 1;
    loop
        invariant
            i + 1 <= j <= s@.len(),
            i < s@.len() && s@[i as int] == 0x22,
            spec_str_body(s@, i as int + 1) == (match spec_str_body(s@, j as int) {
                GStr::Found { bytes, end } => GStr::Found { bytes: acc@ + bytes, end },
                GStr::More => GStr::More,
                GStr::Bad => GStr::Bad,
            }),
        decreases s@.len() - j,
    {
        if j >= s.len() {
            return StrScan::More;
        }
        let b = s[j];
        if b == 0x22 {
            proof {
                assert(acc@ + Seq::<u8>::empty() =~= acc@);
            }
            if !utf8_valid(acc.as_slice()) {
                return StrScan::Bad;
            }
            return StrScan::Found(acc, j + 1);
        }
        if b == 0x5c {
            if j + 1 >= s.len() {
                return StrScan::More;
            }
            let e = s[j + 1];
            let unescaped: u8 = if e == 0x22 {
                0x22
            } else if e == 0x5c {
                0x5c
            } else if e == 0x2f {
                0x2f
            } else if e == 0x62 {
                0x08
            } else if e == 0x66 {
                0x0c
            } else if e == 0x6e {
                0x0a
            } else if e == 0x72 {
                0x0d
            } else if e == 0x74 {
                0x09
            } else {
                return StrScan::Bad;
            };
            proof {
                assert(unescaped == spec_escape_byte(s@[j as int + 1]));
                let sb = spec_str_body(s@, j as int + 2);
                if sb is Found {
                    assert(acc@ + (seq![unescaped] + sb->Found_bytes) =~= acc@.push(unescaped)
                        + sb->Found_bytes);
                }
            }
            acc.push(unescaped);
            j = j + 2;
        } else if 0x20 <= b {
            proof {
                let sb = spec_str_body(s@, j as int + 1);
                if sb is Found {
                    assert(acc@ + (seq![b] + sb->Found_bytes) =~= acc@.push(b)
                        + sb->Found_bytes);
                }
            }
            acc.push(b);
            j = j + 1;
        } else {
            return StrScan::Bad;
        }
    }
}

// ---------------------------------------------------------------------------
// Numeric tokens
// ---------------------------------------------------------------------------

pub open spec fn spec_is_digit(b: u8) -> bool {
    0x30 <= b <= 0x39
}

/// A byte that can occur inside a numeric token.
pub open spec fn spec_is_numbyte(b: u8) -> bool {
    spec_is_digit(b) || b == 0x2d || b == 0x2b || b == 0x2e || b == 0x65 || b == 0x45
}

/// The first position at or after `i` holding no numeric-token byte.
pub open spec fn spec_num_end(s: Seq<u8>, i: int) -> int
    decreases s.len() - i,
{
    if i < s.len() && spec_is_numbyte(s[i]) {
        spec_num_end(s, i + 1)
    } else {
        i
    }
}

pub proof fn lemma_num_end_bounds(s: Seq<u8>, i: int)
    requires
        0 <= i <= s.len(),
    ensures
        i <= spec_num_end(s, i) <= s.len(),
    decreases s.len() - i,
{
    if i < s.len() && spec_is_numbyte(s[i]) {
        lemma_num_end_bounds(s, i + 1);
    }
}

/// Scans a numeric token at `i` coarsely: its maximal run of numeric-token
/// bytes. A token that reaches the end of the input may still grow, so it is
/// not yet complete.
pub open spec fn spec_scan_number(s: Seq<u8>, i: int) -> Scan {
    if spec_num_end(s, i) >= s.len() {
        Scan::More
    } else {
        Scan::Found(spec_num_end(s, i) as usize)
    }
}

fn scan_number(s: &[u8], i: usize) -> (r: Scan)
    requires
        i <= s@.len(),
    ensures
        r == spec_scan_number(s@, i as int),
        r matches Scan::Found(e) ==> i <= e < s@.len(),
{
    let mut j = i;
    while j < s.len() && (0x30 <= s[j] && s[j] <= 0x39 || s[j] == 0x2d || s[j] == 0x2b || s[j]
        == 0x2e || s[j] == 0x65 || s[j] == 0x45)
        invariant
            i <= j <= s@.len(),
            spec_num_end(s@, i as int) == spec_num_end(s@, j as int),
        decreases s@.len() - j,
    {
        j = j + 1;
    }
    if j >= s.len() {
        Scan::More
    } else {
        Scan::Found(j)
    }
}

// ---------------------------------------------------------------------------
// Strict integers
// ---------------------------------------------------------------------------

/// The first position at or after `i` holding no digit.
pub open spec fn spec_digits_end(s: Seq<u8>, i: int) -> int
    decreases s.len() - i,
{
    if i < s.len() && spec_is_digit(s[i]) {
        spec_digits_end(s, i + 1)
    } else {
        i
    }
}

pub proof fn lemma_digits_end_bounds(s: Seq<u8>, i: int)
    requires
        0 <= i <= s.len(),
    ensures
        i <= spec_digits_end(s, i) <= s.len(),
        forall|k: int| i <= k < spec_digits_end(s, i) ==> spec_is_digit(#[trigger] s[k]),
    decreases s.len() - i,
{
    if i < s.len() && spec_is_digit(s[i]) {
        lemma_digits_end_bounds(s, i + 1);
    }
}

/// The value of the digit run `s[i..j)`.
pub open spec fn spec_digits_val(s: Seq<u8>, i: int, j: int) -> int
    decreases j - i,
{
    if i >= j {
        0
    } else {
        spec_digits_val(s, i, j - 1) * 10 + (s[j - 1] - 0x30)
    }
}

pub proof fn lemma_digits_val_nonneg(s: Seq<u8>, i: int, j: int)
    requires
        i <= j,
        forall|m: int| i <= m < j ==> spec_is_digit(#[trigger] s[m]),
    ensures
        spec_digits_val(s, i, j) >= 0,
    decreases j - i,
{
    if i < j {
        lemma_digits_val_nonneg(s, i, j - 1);
        assert(spec_digits_val(s, i, j - 1) * 10 >= 0) by (nonlinear_arith)
            requires
                spec_digits_val(s, i, j - 1) >= 0,
        ;
    }
}

pub proof fn lemma_digits_val_grows(s: Seq<u8>, i: int, k: int, j: int)
    requires
        i <= k <= j,
        forall|m: int| i <= m < j ==> spec_is_digit(#[trigger] s[m]),
    ensures
        spec_digits_val(s, i, k) <= spec_digits_val(s, i, j),
    decreases j - k,
{
    if k < j {
        lemma_digits_val_grows(s, i, k, j - 1);
        lemma_digits_val_nonneg(s, i, j - 1);
        assert(spec_digits_val(s, i, j - 1) * 10 >= spec_digits_val(s, i, j - 1)) by (nonlinear_arith)
            requires
                spec_digits_val(s, i, j - 1) >= 0,
        ;
    }
}

/// Scans a strict JSON integer at `i`: an optional minus sign and a digit
/// run without a leading zero, not followed by a fraction or exponent, whose
/// value fits a 64-bit signed integer. Anything else is malformed.
pub open spec fn spec_parse_int(s: Seq<u8>, i: int) -> IntScan {
    let neg = i < s.len() && s[i] == 0x2d;
    let i0 = if neg {
        i + 1
    } else {
        i
    };
    if i0 >= s.len() {
        IntScan::More
    } else if !spec_is_digit(s[i0]) {
        IntScan::Bad
    } else {
        let j = spec_digits_end(s, i0);
        if j >= s.len() {
            IntScan::More
        } else if s[j] == 0x2e || s[j] == 0x65 || s[j] == 0x45 {
            IntScan::Bad
        } else if s[i0] == 0x30 && j - i0 > 1 {
            IntScan::Bad
        } else {
            let m = spec_digits_val(s, i0, j);
            if neg {
                if m > 0x8000000000000000 {
                    IntScan::Bad
                } else {
                    IntScan::Found((-m) as i64, j as usize)
                }
            } else {
                if m > 0x7fffffffffffffff {
                    IntScan::Bad
                } else {
                    IntScan::Found(m as i64, j as usize)
                }
            }
        }
    }
}

pub proof fn lemma_parse_int_bounds(s: Seq<u8>, i: int)
    requires
        0 <= i <= s.len(),
        s.len() <= usize::MAX,
    ensures
        spec_parse_int(s, i) matches IntScan::Found(v, e) ==> i < e < s.len(),
{
    let neg = i < s.len() && s[i] == 0x2d;
    let i0 = if neg {
        i + 1
    } else {
        i
    };
    if i0 < s.len() && spec_is_digit(s[i0]) {
        lemma_digits_end_bounds(s, i0 + 1);
        assert(spec_digits_end(s, i0) == spec_digits_end(s, i0 + 1));
    }
}

/// Scans a strict integer at `i`.
pub fn parse_int(s: &[u8], i: usize) -> (r: IntScan)
    requires
        i <= s@.len(),
    ensures
        r == spec_parse_int(s@, i as int),
{
    let len = s.len();
    let neg = i < len && s[i] == 0x2d;
    let i0 = if neg {
        i + 1
    } else {
        i
    };
    if i0 >= len {
        return IntScan::More;
    }
    if !(0x30 <= s[i0] && s[i0] <= 0x39) {
        return IntScan::Bad;
    }
    let mut j = i0;
    while j < len && 0x30 <= s[j] && s[j] <= 0x39
        invariant
            i0 <= j <= len,
            len == s@.len(),
            spec_digits_end(s@, i0 as int) == spec_digits_end(s@, j as int),
        decreases s@.len() - j,
    {
        j = j + 1;
    }
    proof {
        lemma_digits_end_bounds(s@, i0 as int);
    }
    if j >= len {
        return IntScan::More;
    }
    if s[j] == 0x2e || s[j] == 0x65 || s[j] == 0x45 {
        return IntScan::Bad;
    }
    if s[i0] == 0x30 && j - i0 > 1 {
        return IntScan::Bad;
    }
    let mut acc: u128 = 0;
    let mut k = i0;
    while k < j
        invariant
            i0 <= k <= j < s@.len(),
            neg == (i < s@.len() && s@[i as int] == 0x2d),
            i0 == i + (if neg { 1int } else { 0int }),
            spec_is_digit(s@[i0 as int]),
            spec_digits_end(s@, i0 as int) == j as int,
            !(s@[j as int] == 0x2e || s@[j as int] == 0x65 || s@[j as int] == 0x45),
            !(s@[i0 as int] == 0x30 && j - i0 > 1),
            forall|m: int| i0 <= m < j ==> spec_is_digit(#[trigger] s@[m]),
            acc == spec_digits_val(s@, i0 as int, k as int),
            acc <= 0xffffffffffffffff,
        decreases j - k,
    {
        let d = s[k] - 0x30;
        let na: u128 = acc * 10 + (d as u128);
        if na > 0xffffffffffffffff {
            proof {
                lemma_digits_val_grows(s@, i0 as int, k as int + 1, j as int);
            }
            return IntScan::Bad;
        }
        acc = na;
        k = k + 1;
    }
    if neg {
        if acc > 0x8000000000000000 {
            IntScan::Bad
        } else if acc == 0x8000000000000000 {
            IntScan::Found(i64::MIN, j)
        } else {
            IntScan::Found(-(acc as i64), j)
        }
    } else {
        if acc > 0x7fffffffffffffff {
            IntScan::Bad
        } else {
            IntScan::Found(acc as i64, j)
        }
    }
}

// ---------------------------------------------------------------------------
// Untyped value spans
// ---------------------------------------------------------------------------

/// Scans to the end of a bracketed or quoted span: `depth` open brackets
/// remain, with the scanner inside a string when `in_str`, just after a
/// backslash when `esc`. The span ends when the outermost bracket closes,
/// or, entered with `depth == 0` inside a string, when that string closes.
pub open spec fn spec_span_end(s: Seq<u8>, i: int, depth: nat, in_str: bool, esc: bool) -> Scan
    decreases s.len() - i,
{
    if i >= s.len() {
        Scan::More
    } else if in_str {
        if esc {
            spec_span_end(s, i + 1, depth, true, false)
        } else if s[i] == 0x5c {
            spec_span_end(s, i + 1, depth, true, true)
        } else if s[i] == 0x22 {
            if depth == 0 {
                Scan::Found((i + 1) as usize)
            } else {
                spec_span_end(s, i + 1, depth, false, false)
            }
        } else {
            spec_span_end(s, i + 1, depth, true, false)
        }
    } else {
        if s[i] == 0x22 {
            spec_span_end(s, i + 1, depth, true, false)
        } else if s[i] == 0x7b || s[i] == 0x5b {
            spec_span_end(s, i + 1, depth + 1, false, false)
        } else if s[i] == 0x7d || s[i] == 0x5d {
            if depth <= 1 {
                Scan::Found((i + 1) as usize)
            } else {
                spec_span_end(s, i + 1, (depth - 1) as nat, false, false)
            }
        } else {
            spec_span_end(s, i + 1, depth, false, false)
        }
    }
}

pub proof fn lemma_span_end_bounds(s: Seq<u8>, i: int, depth: nat, in_str: bool, esc: bool)
    requires
        0 <= i <= s.len(),
        s.len() <= usize::MAX,
    ensures
        spec_span_end(s, i, depth, in_str, esc) matches Scan::Found(e) ==> i < e <= s.len(),
    decreases s.len() - i,
{
    if i < s.len() {
        lemma_span_end_bounds(s, i + 1, depth, true, false);
        lemma_span_end_bounds(s, i + 1, depth, true, true);
        lemma_span_end_bounds(s, i + 1, depth, false, false);
        lemma_span_end_bounds(s, i + 1, depth + 1, false, false);
        if depth > 1 {
            lemma_span_end_bounds(s, i + 1, (depth - 1) as nat, false, false);
        }
    }
}

fn span_end(s: &[u8], i: usize, depth0: u64, in_str0: bool) -> (r: Scan)
    requires
        i <= s@.len(),
    ensures
        r == spec_span_end(s@, i as int, depth0 as nat, in_str0, false),
        r matches Scan::Found(e) ==> i < e <= s@.len(),
{
    let n = s.len();
    proof {
        lemma_span_end_bounds(s@, i as int, depth0 as nat, in_str0, false);
    }
    let mut j = i;
    let mut depth: u128 = depth0 as u128;
    let mut in_str = in_str0;
    let mut esc = false;
    loop
        invariant
            i <= j <= s@.len(),
            n == s@.len(),
            depth <= depth0 as u128 + (j - i),
            !in_str ==> !esc,
            spec_span_end(s@, i as int, depth0 as nat, in_str0, false) == spec_span_end(
                s@,
                j as int,
                depth as nat,
                in_str,
                esc,
            ),
            spec_span_end(s@, i as int, depth0 as nat, in_str0, false) matches Scan::Found(e)
                ==> i < e <= s@.len(),
        decreases s@.len() - j,
    {
        if j >= n {
            return Scan::More;
        }
        let b = s[j];
        if in_str {
            if esc {
                esc = false;
            } else if b == 0x5c {
                esc = true;
            } else if b == 0x22 {
                if depth == 0 {
                    return Scan::Found(j + 1);
                }
                in_str = false;
            }
            j = j + 1;
        } else {
            if b == 0x22 {
                in_str = true;
                j = j + 1;
            } else if b == 0x7b || b == 0x5b {
                depth = depth + 1;
                j = j + 1;
            } else if b == 0x7d || b == 0x5d {
                if depth <= 1 {
                    return Scan::Found(j + 1);
                }
                depth = depth - 1;
                j = j + 1;
            } else {
                j = j + 1;
            }
        }
    }
}

/// Scans one untyped JSON value at `i` (no leading whitespace): a string, a
/// balanced bracketed span, one of the fixed words, or a numeric token.
pub open spec fn spec_skip_value(s: Seq<u8>, i: int) -> Scan {
    if i >= s.len() {
        Scan::More
    } else if s[i] == 0x22 {
        spec_span_end(s, i + 1, 0, true, false)
    } else if s[i] == 0x7b || s[i] == 0x5b {
        spec_span_end(s, i + 1, 1, false, false)
    } else if s[i] == 0x74 {
        spec_expect_word(s, i, seq![0x74u8, 0x72u8, 0x75u8, 0x65u8])
    } else if s[i] == 0x66 {
        spec_expect_word(s, i, seq![0x66u8, 0x61u8, 0x6cu8, 0x73u8, 0x65u8])
    } else if s[i] == 0x6e {
        spec_expect_word(s, i, seq![0x6eu8, 0x75u8, 0x6cu8, 0x6cu8])
    } else if s[i] == 0x2d || spec_is_digit(s[i]) {
        spec_scan_number(s, i)
    } else {
        Scan::Bad
    }
}

pub proof fn lemma_skip_value_bounds(s: Seq<u8>, i: int)
    requires
        0 <= i <= s.len(),
        s.len() <= usize::MAX,
    ensures
        spec_skip_value(s, i) matches Scan::Found(e) ==> i < e <= s.len(),
{
    if i < s.len() {
        lemma_span_end_bounds(s, i + 1, 0, true, false);
        lemma_span_end_bounds(s, i + 1, 1, false, false);
        lemma_expect_word_bounds(s, i, seq![0x74u8, 0x72u8, 0x75u8, 0x65u8]);
        lemma_expect_word_bounds(s, i, seq![0x66u8, 0x61u8, 0x6cu8, 0x73u8, 0x65u8]);
        lemma_expect_word_bounds(s, i, seq![0x6eu8, 0x75u8, 0x6cu8, 0x6cu8]);
        lemma_num_end_bounds(s, i + 1);
        if spec_is_numbyte(s[i]) {
            assert(spec_num_end(s, i) == spec_num_end(s, i + 1));
        }
    }
}

/// Scans one untyped JSON value at `i`.
pub fn skip_value(s: &[u8], i: usize) -> (r: Scan)
    requires
        i <= s@.len(),
    ensures
        r == spec_skip_value(s@, i as int),
        r matches Scan::Found(e) ==> i < e <= s@.len(),
{
    let n = s.len();
    proof {
        lemma_skip_value_bounds(s@, i as int);
    }
    if i >= n {
        return Scan::More;
    }
    let b = s[i];
    if b == 0x22 {
        span_end(s, i + 1, 0, true)
    } else if b == 0x7b || b == 0x5b {
        span_end(s, i + 1, 1, false)
    } else if b == 0x74 {
        let w: [u8; 4] = [0x74, 0x72, 0x75, 0x65];
        proof {
            assert(w@ =~= seq![0x74u8, 0x72u8, 0x75u8, 0x65u8]);
        }
        expect_word(s, i, w.as_slice())
    } else if b == 0x66 {
        let w: [u8; 5] = [0x66, 0x61, 0x6c, 0x73, 0x65];
        proof {
            assert(w@ =~= seq![0x66u8, 0x61u8, 0x6cu8, 0x73u8, 0x65u8]);
        }
        expect_word(s, i, w.as_slice())
    } else if b == 0x6e {
        let w: [u8; 4] = [0x6e, 0x75, 0x6c, 0x6c];
        proof {
            assert(w@ =~= seq![0x6eu8, 0x75u8, 0x6cu8, 0x6cu8]);
        }
        expect_word(s, i, w.as_slice())
    } else if b == 0x2d || 0x30 <= b && b <= 0x39 {
        scan_number(s, i)
    } else {
        Scan::Bad
    }
}

// ---------------------------------------------------------------------------
// Bytes to text
// ---------------------------------------------------------------------------

/// Relies on `String::from_utf8`: bytes that form a valid UTF-8 encoding
/// become the string of the scalars they encode.
#[verifier::external_body]
pub(crate) fn utf8_to_string(b: Vec<u8>) -> (r: String)
    requires
        vstd::utf8::valid_utf8(b@),
    ensures
        r@ == vstd::utf8::decode_utf8(b@),
{
    match String::from_utf8(b) {
        Ok(s) => s,
        Err(_) => String::new(),
    }
}

/// Checks that a byte buffer is a valid UTF-8 encoding, scalar by scalar.
fn utf8_valid(b: &[u8]) -> (r: bool)
    ensures
        r == vstd::utf8::valid_utf8(b@),
{
    let n = b.len();
    proof {
        assert(b@.skip(0) =~= b@);
    }
    let mut k: usize = 0;
    loop
        invariant
            k <= n,
            n == b@.len(),
            vstd::utf8::valid_utf8(b@) == vstd::utf8::valid_utf8(b@.skip(k as int)),
        decreases n - k,
    {
        let ghost rest = b@.skip(k as int);
        if k == n {
            proof {
                assert(rest =~= Seq::<u8>::empty());
            }
            return true;
        }
        proof {
            assert(rest.len() == n - k);
            assert(rest[0] == b@[k as int]);
        }
        let b0 = b[k];
        let width: usize;
        let cp: u32;
        if b0 < 0x80 {
            width = 1;
            cp = b0 as u32;
            proof {
                assert(vstd::utf8::decode_first_codepoint(rest) == (b0 & 0x7f) as u32);
                assert((b0 & 0x7f) == b0) by (bit_vector)
                    requires
                        b0 < 0x80,
                ;
                assert(vstd::utf8::valid_first_scalar(rest));
            }
        } else if 0xc0 <= b0 && b0 <= 0xdf {
            if k + 1 >= n {
                return false;
            }
            let b1 = b[k + 1];
            proof {
                assert(rest[1] == b@[k as int + 1]);
            }
            if !(0x80 <= b1 && b1 <= 0xbf) {
                return false;
            }
            width = 2;
            cp = ((((b0 & 0x1f) as u32) << 6) | ((b1 & 0x3f) as u32)) as u32;
            proof {
                assert(vstd::utf8::decode_first_codepoint(rest) == ((((b0
                    & 0x1f) as u32) << 6) | ((b1 & 0x3f) as u32)));
                assert((((b0 & 0x1f) as u32) << 6) | ((b1 & 0x3f) as u32) <= 0x7ff) by (bit_vector);
            }
            if cp < 0x80 {
                return false;
            }
            proof {
                assert(vstd::utf8::valid_first_scalar(rest));
            }
        } else if 0xe0 <= b0 && b0 <= 0xef {
            if n - k < 3 {
                return false;
            }
            let b1 = b[k + 1];
            let b2 = b[k + 2];
            proof {
                assert(rest[1] == b@[k as int + 1]);
                assert(rest[2] == b@[k as int + 2]);
            }
            if !(0x80 <= b1 && b1 <= 0xbf) || !(0x80 <= b2 && b2 <= 0xbf) {
                return false;
            }
            width = 3;
            cp = ((((b0 & 0x0f) as u32) << 12) | (((b1 & 0x3f) as u32) << 6) | ((b2
                & 0x3f) as u32)) as u32;
            proof {
                assert(vstd::utf8::decode_first_codepoint(rest) == ((((b0
                    & 0x0f) as u32) << 12) | (((b1 & 0x3f) as u32) << 6) | ((b2
                    & 0x3f) as u32)));
            }
            if cp < 0x800 {
                return false;
            }
            if 0xd800 <= cp && cp <= 0xdfff {
                return false;
            }
            proof {
                assert(vstd::utf8::valid_first_scalar(rest));
            }
        } else if 0xf0 <= b0 && b0 <= 0xf7 {
            if n - k < 4 {
                return false;
            }
            let b1 = b[k + 1];
            let b2 = b[k + 2];
            let b3 = b[k + 3];
            proof {
                assert(rest[1] == b@[k as int + 1]);
                assert(rest[2] == b@[k as int + 2]);
                assert(rest[3] == b@[k as int + 3]);
            }
            if !(0x80 <= b1 && b1 <= 0xbf) || !(0x80 <= b2 && b2 <= 0xbf) || !(0x80 <= b3 && b3
                <= 0xbf) {
                return false;
            }
            width = 4;
            cp = ((((b0 & 0x07) as u32) << 18) | (((b1 & 0x3f) as u32) << 12) | (((b2
                & 0x3f) as u32) << 6) | ((b3 & 0x3f) as u32)) as u32;
            proof {
                assert(vstd::utf8::decode_first_codepoint(rest) == ((((b0
                    & 0x07) as u32) << 18) | (((b1 & 0x3f) as u32) << 12) | (((b2
                    & 0x3f) as u32) << 6) | ((b3 & 0x3f) as u32)));
            }
            if !(0x10000 <= cp && cp <= 0x10ffff) {
                return false;
            }
            proof {
                assert(vstd::utf8::valid_first_scalar(rest));
            }
        } else {
            // a continuation byte, or a byte no encoding starts with
            return false;
        }
        proof {
            assert(vstd::utf8::length_of_first_scalar(rest) == width as int);
            assert(vstd::utf8::pop_first_scalar(rest) =~= b@.skip(k as int + width as int));
        }
        k = k + width;
    }
}

} // verus!
