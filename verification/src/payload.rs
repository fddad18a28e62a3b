//! The search process's output payload: an object holding a `results` member
//! with an array of entry objects, each with members `identifier` (string),
//! `title` (string) and `confidence` (number). Members may come in any
//! order; each of the named members appears exactly once; members under
//! other names hold any JSON value and are skipped. The grammar is JSON:
//! the usual whitespace, the string escapes `\" \\ \/ \b \f \n \r \t` and
//! `\uXXXX` (surrogate pairs included), and JSON's number form with no
//! leading zeros, whose text is kept verbatim as the confidence. Anything
//! else — a missing or repeated named member, another value shape where a
//! string or number is named, trailing text — is a decode failure.

use vstd::prelude::*;

verus! {

/// One parsed entry, fields still as the payload's bytes.
pub struct RawEntry {
    pub identifier: Vec<u8>,
    pub title: Vec<u8>,
    pub confidence: Vec<u8>,
}

/// The mathematical value of a parsed entry.
pub struct SpecEntry {
    pub identifier: Seq<u8>,
    pub title: Seq<u8>,
    pub confidence: Seq<u8>,
}

impl View for RawEntry {
    type V = SpecEntry;

    open spec fn view(&self) -> SpecEntry {
        SpecEntry {
            identifier: self.identifier@,
            title: self.title@,
            confidence: self.confidence@,
        }
    }
}

pub open spec fn is_ws(b: u8) -> bool {
    b == 32 || b == 9 || b == 10 || b == 13
}

pub open spec fn is_digit(b: u8) -> bool {
    48 <= b <= 57
}

/// The first position at or after `i` holding no whitespace.
pub open spec fn ws_end(s: Seq<u8>, i: int) -> int
    decreases s.len() - i,
{
    if i < 0 || i >= s.len() {
        i
    } else if is_ws(s[i]) {
        ws_end(s, i + 1)
    } else {
        i
    }
}

/// What one escape character after a backslash stands for.
pub open spec fn unescape(b: u8) -> Option<u8> {
    if b == 34 {
        Some(34u8)
    } else if b == 92 {
        Some(92u8)
    } else if b == 47 {
        Some(47u8)
    } else if b == 98 {
        Some(8u8)
    } else if b == 102 {
        Some(12u8)
    } else if b == 110 {
        Some(10u8)
    } else if b == 114 {
        Some(13u8)
    } else if b == 116 {
        Some(9u8)
    } else {
        None
    }
}

/// The value of one hexadecimal digit.
pub open spec fn hex_val(b: u8) -> Option<int> {
    if 48 <= b <= 57 {
        Some((b - 48) as int)
    } else if 65 <= b <= 70 {
        Some((b - 55) as int)
    } else if 97 <= b <= 102 {
        Some((b - 87) as int)
    } else {
        None
    }
}

/// Four hexadecimal digits starting at `i`, as one number.
pub open spec fn hex4(s: Seq<u8>, i: int) -> Option<int> {
    if 0 <= i && i + 3 < s.len() {
        match (hex_val(s[i]), hex_val(s[i + 1]), hex_val(s[i + 2]), hex_val(s[i + 3])) {
            (Some(a), Some(b), Some(c), Some(d)) => Some(a * 4096 + b * 256 + c * 16 + d),
            _ => None,
        }
    } else {
        None
    }
}

/// The UTF-8 encoding of one code point.
pub open spec fn utf8_enc(cp: int) -> Seq<u8>
    recommends
        0 <= cp <= 0x10FFFF,
{
    if cp < 0x80 {
        seq![cp as u8]
    } else if cp < 0x800 {
        seq![(0xC0 + cp / 64) as u8, (0x80 + cp % 64) as u8]
    } else if cp < 0x10000 {
        seq![(0xE0 + cp / 4096) as u8, (0x80 + (cp / 64) % 64) as u8, (0x80 + cp % 64) as u8]
    } else {
        seq![
            (0xF0 + cp / 262144) as u8,
            (0x80 + (cp / 4096) % 64) as u8,
            (0x80 + (cp / 64) % 64) as u8,
            (0x80 + cp % 64) as u8,
        ]
    }
}

/// A string body starting right after its opening quote: the unescaped
/// content, UTF-8 encoded, and the position after the closing quote.
pub open spec fn string_body(s: Seq<u8>, i: int) -> Option<(Seq<u8>, int)>
    decreases s.len() - i,
{
    if i < 0 || i >= s.len() {
        None
    } else if s[i] == 34 {
        Some((Seq::empty(), i + 1))
    } else if s[i] == 92 {
        if i + 1 < s.len() {
            if s[i + 1] == 117 {
                match hex4(s, i + 2) {
                    None => None,
                    Some(hi) => {
                        if 0xD800 <= hi < 0xDC00 {
                            // a high surrogate must pair with a low one
                            if i + 7 < s.len() && s[i + 6] == 92 && s[i + 7] == 117 {
                                match hex4(s, i + 8) {
                                    Some(lo) => if 0xDC00 <= lo < 0xE000 {
                                        let cp = 0x10000 + (hi - 0xD800) * 1024 + (lo - 0xDC00);
                                        match string_body(s, i + 12) {
                                            Some(p) => Some((utf8_enc(cp) + p.0, p.1)),
                                            None => None,
                                        }
                                    } else {
                                        None
                                    },
                                    None => None,
                                }
                            } else {
                                None
                            }
                        } else if 0xDC00 <= hi < 0xE000 {
                            None
                        } else {
                            match string_body(s, i + 6) {
                                Some(p) => Some((utf8_enc(hi) + p.0, p.1)),
                                None => None,
                            }
                        }
                    },
                }
            } else {
                match unescape(s[i + 1]) {
                    Some(c) => match string_body(s, i + 2) {
                        Some(p) => Some((seq![c] + p.0, p.1)),
                        None => None,
                    },
                    None => None,
                }
            }
        } else {
            None
        }
    } else if s[i] < 32 {
        None
    } else {
        match string_body(s, i + 1) {
            Some(p) => Some((seq![s[i]] + p.0, p.1)),
            None => None,
        }
    }
}

/// The first position at or after `i` holding no digit.
pub open spec fn digits_end(s: Seq<u8>, i: int) -> int
    decreases s.len() - i,
{
    if i < 0 || i >= s.len() {
        i
    } else if is_digit(s[i]) {
        digits_end(s, i + 1)
    } else {
        i
    }
}

/// Digit scanning never moves backwards.
proof fn lemma_digits_end_min(s: Seq<u8>, i: int)
    ensures
        digits_end(s, i) >= i,
    decreases s.len() - i,
{
    if 0 <= i < s.len() && is_digit(s[i]) {
        lemma_digits_end_min(s, i + 1);
    }
}

/// The position after a number starting at `i`, if one starts there.
pub open spec fn number_end(s: Seq<u8>, i: int) -> Option<int> {
    let st = if 0 <= i < s.len() && s[i] == 45 {
        i + 1
    } else {
        i
    };
    if 0 <= st < s.len() && is_digit(s[st]) {
        let j1 = if s[st] == 48 {
            st + 1
        } else {
            digits_end(s, st)
        };
        let j2 = if j1 < s.len() && s[j1] == 46 && j1 + 1 < s.len() && is_digit(s[j1 + 1]) {
            digits_end(s, j1 + 1)
        } else {
            j1
        };
        if j2 < s.len() && (s[j2] == 101 || s[j2] == 69) {
            let k = if j2 + 1 < s.len() && (s[j2 + 1] == 43 || s[j2 + 1] == 45) {
                j2 + 2
            } else {
                j2 + 1
            };
            if k < s.len() && is_digit(s[k]) {
                Some(digits_end(s, k))
            } else {
                None
            }
        } else {
            Some(j2)
        }
    } else {
        None
    }
}

/// The position after one JSON value of any shape starting at `i`; such a
/// value is parsed only to be skipped (an unknown member's value).
pub open spec fn skip_value(s: Seq<u8>, i: int) -> Option<int>
    decreases s.len() - i, 0int,
{
    if i < 0 || i >= s.len() {
        None
    } else if s[i] == 34 {
        match string_body(s, i + 1) {
            Some(p) => Some(p.1),
            None => None,
        }
    } else if s[i] == 45 || is_digit(s[i]) {
        number_end(s, i)
    } else if s[i] == 116 {
        if i + 4 <= s.len() && s[i + 1] == 114 && s[i + 2] == 117 && s[i + 3] == 101 {
            Some(i + 4)
        } else {
            None
        }
    } else if s[i] == 102 {
        if i + 5 <= s.len() && s[i + 1] == 97 && s[i + 2] == 108 && s[i + 3] == 115 && s[i + 4]
            == 101 {
            Some(i + 5)
        } else {
            None
        }
    } else if s[i] == 110 {
        if i + 4 <= s.len() && s[i + 1] == 117 && s[i + 2] == 108 && s[i + 3] == 108 {
            Some(i + 4)
        } else {
            None
        }
    } else if s[i] == 91 {
        let j = ws_end(s, i + 1);
        if i < j <= s.len() {
            skip_array(s, j)
        } else {
            None
        }
    } else if s[i] == 123 {
        let j = ws_end(s, i + 1);
        if i < j <= s.len() {
            skip_object(s, j)
        } else {
            None
        }
    } else {
        None
    }
}

/// The position after the rest of a skipped array, from the first item or
/// the closing bracket (whitespace already skipped).
pub open spec fn skip_array(s: Seq<u8>, i: int) -> Option<int>
    decreases s.len() - i, 1int,
{
    if i < 0 || i >= s.len() {
        None
    } else if s[i] == 93 {
        Some(i + 1)
    } else {
        match skip_value(s, i) {
            None => None,
            Some(j) => {
                let a = ws_end(s, j);
                if a < s.len() && s[a] == 44 {
                    let b = ws_end(s, a + 1);
                    if i < b <= s.len() {
                        skip_array(s, b)
                    } else {
                        None
                    }
                } else if a < s.len() && s[a] == 93 {
                    Some(a + 1)
                } else {
                    None
                }
            },
        }
    }
}

/// The position after the rest of a skipped object, from the first key or
/// the closing brace (whitespace already skipped).
pub open spec fn skip_object(s: Seq<u8>, i: int) -> Option<int>
    decreases s.len() - i, 1int,
{
    if i < 0 || i >= s.len() {
        None
    } else if s[i] == 125 {
        Some(i + 1)
    } else if s[i] == 34 {
        match string_body(s, i + 1) {
            None => None,
            Some(kp) => {
                let a = ws_end(s, kp.1);
                if a < s.len() && s[a] == 58 {
                    let b = ws_end(s, a + 1);
                    if i < b <= s.len() {
                        match skip_value(s, b) {
                            None => None,
                            Some(j) => {
                                let c = ws_end(s, j);
                                if c < s.len() && s[c] == 44 {
                                    let d = ws_end(s, c + 1);
                                    if i < d <= s.len() {
                                        skip_object(s, d)
                                    } else {
                                        None
                                    }
                                } else if c < s.len() && s[c] == 125 {
                                    Some(c + 1)
                                } else {
                                    None
                                }
                            },
                        }
                    } else {
                        None
                    }
                } else {
                    None
                }
            },
        }
    } else {
        None
    }
}

pub open spec fn identifier_key() -> Seq<u8> {
    seq![105u8, 100u8, 101u8, 110u8, 116u8, 105u8, 102u8, 105u8, 101u8, 114u8]
}

pub open spec fn title_key() -> Seq<u8> {
    seq![116u8, 105u8, 116u8, 108u8, 101u8]
}

pub open spec fn confidence_key() -> Seq<u8> {
    seq![99u8, 111u8, 110u8, 102u8, 105u8, 100u8, 101u8, 110u8, 99u8, 101u8]
}

pub open spec fn results_key() -> Seq<u8> {
    seq![114u8, 101u8, 115u8, 117u8, 108u8, 116u8, 115u8]
}

/// Which entry member a key names: 1, 2, 3 for identifier, title,
/// confidence; 0 for anything else.
pub open spec fn key_kind(k: Seq<u8>) -> int {
    if k == identifier_key() {
        1
    } else if k == title_key() {
        2
    } else if k == confidence_key() {
        3
    } else {
        0
    }
}

/// The members of an entry object from the position of an expected key
/// (whitespace already skipped), given the named members already seen; each
/// of the three named keys appears exactly once, and members under other
/// names are skipped whatever value they hold.
pub open spec fn members(
    s: Seq<u8>,
    i: int,
    id: Option<Seq<u8>>,
    ti: Option<Seq<u8>>,
    co: Option<Seq<u8>>,
) -> Option<(SpecEntry, int)>
    decreases s.len() - i,
{
    if i < 0 || i >= s.len() || s[i] != 34 {
        None
    } else {
        match string_body(s, i + 1) {
            None => None,
            Some(kp) => {
                let a = ws_end(s, kp.1);
                if !(a < s.len() && s[a] == 58) {
                    None
                } else {
                    let b = ws_end(s, a + 1);
                    let kind = key_kind(kp.0);
                    let allowed = kind == 0 || (kind == 1 && id is None) || (kind == 2
                        && ti is None) || (kind == 3 && co is None);
                    if !allowed {
                        None
                    } else {
                        let vres: Option<(Seq<u8>, int)> = if kind == 1 || kind == 2 {
                            if b < s.len() && s[b] == 34 {
                                string_body(s, b + 1)
                            } else {
                                None
                            }
                        } else if kind == 3 {
                            match number_end(s, b) {
                                Some(j) => Some((s.subrange(b, j), j)),
                                None => None,
                            }
                        } else {
                            match skip_value(s, b) {
                                Some(j) => Some((Seq::empty(), j)),
                                None => None,
                            }
                        };
                        match vres {
                            None => None,
                            Some(vp) => {
                                let id2 = if kind == 1 {
                                    Some(vp.0)
                                } else {
                                    id
                                };
                                let ti2 = if kind == 2 {
                                    Some(vp.0)
                                } else {
                                    ti
                                };
                                let co2 = if kind == 3 {
                                    Some(vp.0)
                                } else {
                                    co
                                };
                                let c = ws_end(s, vp.1);
                                if c < s.len() && s[c] == 44 {
                                    let nxt = ws_end(s, c + 1);
                                    if i < nxt <= s.len() {
                                        members(s, nxt, id2, ti2, co2)
                                    } else {
                                        None
                                    }
                                } else if c < s.len() && s[c] == 125 {
                                    match (id2, ti2, co2) {
                                        (Some(x), Some(y), Some(z)) => Some(
                                            (
                                                SpecEntry {
                                                    identifier: x,
                                                    title: y,
                                                    confidence: z,
                                                },
                                                c + 1,
                                            ),
                                        ),
                                        _ => None,
                                    }
                                } else {
                                    None
                                }
                            },
                        }
                    }
                }
            },
        }
    }
}

/// The entries of the results array from the position after `[` with
/// whitespace skipped: the parsed entries and the position after `]`.
pub open spec fn entries(s: Seq<u8>, i: int) -> Option<(Seq<SpecEntry>, int)>
    decreases s.len() - i,
{
    if i < 0 || i >= s.len() {
        None
    } else if s[i] == 93 {
        Some((Seq::empty(), i + 1))
    } else if s[i] == 123 {
        match members(s, ws_end(s, i + 1), None, None, None) {
            None => None,
            Some(ep) => {
                let a = ws_end(s, ep.1);
                if a < s.len() && s[a] == 44 {
                    let b = ws_end(s, a + 1);
                    if i < b <= s.len() {
                        match entries(s, b) {
                            Some(rp) => Some((seq![ep.0] + rp.0, rp.1)),
                            None => None,
                        }
                    } else {
                        None
                    }
                } else if a < s.len() && s[a] == 93 {
                    Some((seq![ep.0], a + 1))
                } else {
                    None
                }
            },
        }
    } else {
        None
    }
}

/// The members of the payload's top object from the position of an expected
/// key (whitespace already skipped), given whether `results` was seen: the
/// `results` member holds the entries array and appears exactly once;
/// members under other names are skipped whatever value they hold.
pub open spec fn top_members(s: Seq<u8>, i: int, res: Option<Seq<SpecEntry>>) -> Option<
    (Seq<SpecEntry>, int),
>
    decreases s.len() - i,
{
    if i < 0 || i >= s.len() || s[i] != 34 {
        None
    } else {
        match string_body(s, i + 1) {
            None => None,
            Some(kp) => {
                let a = ws_end(s, kp.1);
                if !(a < s.len() && s[a] == 58) {
                    None
                } else {
                    let b = ws_end(s, a + 1);
                    let vres: Option<(Option<Seq<SpecEntry>>, int)> = if kp.0 == results_key() {
                        if res is Some {
                            None
                        } else if b < s.len() && s[b] == 91 {
                            match entries(s, ws_end(s, b + 1)) {
                                Some(rp) => Some((Some(rp.0), rp.1)),
                                None => None,
                            }
                        } else {
                            None
                        }
                    } else {
                        match skip_value(s, b) {
                            Some(j) => Some((res, j)),
                            None => None,
                        }
                    };
                    match vres {
                        None => None,
                        Some(vp) => {
                            let c = ws_end(s, vp.1);
                            if c < s.len() && s[c] == 44 {
                                let nxt = ws_end(s, c + 1);
                                if i < nxt <= s.len() {
                                    top_members(s, nxt, vp.0)
                                } else {
                                    None
                                }
                            } else if c < s.len() && s[c] == 125 {
                                match vp.0 {
                                    Some(r) => Some((r, c + 1)),
                                    None => None,
                                }
                            } else {
                                None
                            }
                        },
                    }
                }
            },
        }
    }
}

/// The whole payload: `None` where the bytes are not one well-formed
/// payload object, the entries in order otherwise.
pub open spec fn payload_value(s: Seq<u8>) -> Option<Seq<SpecEntry>> {
    let i0 = ws_end(s, 0);
    if !(i0 < s.len() && s[i0] == 123) {
        None
    } else {
        match top_members(s, ws_end(s, i0 + 1), None) {
            None => None,
            Some(rp) => if ws_end(s, rp.1) == s.len() {
                Some(rp.0)
            } else {
                None
            },
        }
    }
}

/// Skip whitespace: the first non-whitespace position at or after `start`.
fn skip_ws(s: &Vec<u8>, start: usize) -> (r: usize)
    requires
        start <= s@.len(),
    ensures
        r as int == ws_end(s@, start as int),
        start <= r <= s@.len(),
{
    let mut i = start;
    while i < s.len() && (s[i] == 32 || s[i] == 9 || s[i] == 10 || s[i] == 13)
        invariant
            start <= i <= s@.len(),
            ws_end(s@, start as int) == ws_end(s@, i as int),
        decreases s@.len() - i,
    {
        i = i + 1;
    }
    i
}

/// The value of one hexadecimal digit.
fn hex_digit_value(b: u8) -> (r: Option<u8>)
    ensures
        match r {
            Some(v) => hex_val(b) == Some(v as int) && v < 16,
            None => hex_val(b) is None,
        },
{
    if 48 <= b && b <= 57 {
        Some(b - 48)
    } else if 65 <= b && b <= 70 {
        Some(b - 55)
    } else if 97 <= b && b <= 102 {
        Some(b - 87)
    } else {
        None
    }
}

/// Parse four hexadecimal digits starting at `start`, as one number.
fn parse_hex4(s: &Vec<u8>, start: usize) -> (r: Option<u32>)
    ensures
        match r {
            Some(h) => hex4(s@, start as int) == Some(h as int) && h < 0x10000,
            None => hex4(s@, start as int) is None,
        },
{
    if start < s.len() && s.len() - start > 3 {
        match (
            hex_digit_value(s[start]),
            hex_digit_value(s[start + 1]),
            hex_digit_value(s[start + 2]),
            hex_digit_value(s[start + 3]),
        ) {
            (Some(a), Some(b), Some(c), Some(d)) => Some(
                (a as u32) * 4096 + (b as u32) * 256 + (c as u32) * 16 + (d as u32),
            ),
            _ => None,
        }
    } else {
        None
    }
}

/// The UTF-8 bytes of one code point, put before the bytes already parsed.
fn prepend_utf8(cp: u32, v: Vec<u8>) -> (r: Vec<u8>)
    requires
        cp <= 0x10FFFF,
    ensures
        r@ == utf8_enc(cp as int) + v@,
{
    let mut v = v;
    let ghost tail = v@;
    if cp < 0x80 {
        v.insert(0, cp as u8);
    } else if cp < 0x800 {
        v.insert(0, (0x80 + cp % 64) as u8);
        v.insert(0, (0xC0 + cp / 64) as u8);
    } else if cp < 0x10000 {
        v.insert(0, (0x80 + cp % 64) as u8);
        v.insert(0, (0x80 + (cp / 64) % 64) as u8);
        v.insert(0, (0xE0 + cp / 4096) as u8);
    } else {
        v.insert(0, (0x80 + cp % 64) as u8);
        v.insert(0, (0x80 + (cp / 64) % 64) as u8);
        v.insert(0, (0x80 + (cp / 4096) % 64) as u8);
        v.insert(0, (0xF0 + cp / 262144) as u8);
    }
    proof {
        assert(v@ =~= utf8_enc(cp as int) + tail);
    }
    v
}

/// Parse a string body from right after its opening quote.
fn parse_string_body(s: &Vec<u8>, start: usize) -> (r: Option<(Vec<u8>, usize)>)
    requires
        start <= s@.len(),
    ensures
        match r {
            Some(p) => string_body(s@, start as int) == Some((p.0@, p.1 as int)) && start < p.1
                <= s@.len(),
            None => string_body(s@, start as int) is None,
        },
    decreases s@.len() - start,
{
    if start >= s.len() {
        return None;
    }
    let b = s[start];
    if b == 34 {
        Some((Vec::new(), start + 1))
    } else if b == 92 {
        if start + 1 < s.len() {
            let e = s[start + 1];
            if e == 117 {
                return match parse_hex4(s, start + 2) {
                    None => None,
                    Some(hi) => {
                        if 0xD800 <= hi && hi < 0xDC00 {
                            if s.len() - start > 7 && s[start + 6] == 92 && s[start + 7] == 117 {
                                match parse_hex4(s, start + 8) {
                                    Some(lo) => if 0xDC00 <= lo && lo < 0xE000 {
                                        let cp: u32 = 0x10000 + (hi - 0xD800) * 1024 + (lo
                                            - 0xDC00);
                                        match parse_string_body(s, start + 12) {
                                            Some((v, j)) => Some((prepend_utf8(cp, v), j)),
                                            None => None,
                                        }
                                    } else {
                                        None
                                    },
                                    None => None,
                                }
                            } else {
                                None
                            }
                        } else if 0xDC00 <= hi && hi < 0xE000 {
                            None
                        } else {
                            match parse_string_body(s, start + 6) {
                                Some((v, j)) => Some((prepend_utf8(hi, v), j)),
                                None => None,
                            }
                        }
                    },
                };
            }
            let dec: Option<u8> = if e == 34 {
                Some(34)
            } else if e == 92 {
                Some(92)
            } else if e == 47 {
                Some(47)
            } else if e == 98 {
                Some(8)
            } else if e == 102 {
                Some(12)
            } else if e == 110 {
                Some(10)
            } else if e == 114 {
                Some(13)
            } else if e == 116 {
                Some(9)
            } else {
                None
            };
            match dec {
                Some(c) => {
                    match parse_string_body(s, start + 2) {
                        Some((mut v, j)) => {
                            v.insert(0, c);
                            proof {
                                assert(v@ =~= seq![c] + v@.subrange(1, v@.len() as int));
                            }
                            Some((v, j))
                        },
                        None => None,
                    }
                },
                None => None,
            }
        } else {
            None
        }
    } else if b < 32 {
        None
    } else {
        match parse_string_body(s, start + 1) {
            Some((mut v, j)) => {
                v.insert(0, b);
                proof {
                    assert(v@ =~= seq![b] + v@.subrange(1, v@.len() as int));
                }
                Some((v, j))
            },
            None => None,
        }
    }
}

/// The first non-digit position at or after `start`.
fn parse_digits(s: &Vec<u8>, start: usize) -> (r: usize)
    requires
        start <= s@.len(),
    ensures
        r as int == digits_end(s@, start as int),
        start <= r <= s@.len(),
{
    let mut i = start;
    while i < s.len() && 48 <= s[i] && s[i] <= 57
        invariant
            start <= i <= s@.len(),
            digits_end(s@, start as int) == digits_end(s@, i as int),
        decreases s@.len() - i,
    {
        i = i + 1;
    }
    i
}

/// Parse a number starting at `start`: the position after it.
fn parse_number(s: &Vec<u8>, start: usize) -> (r: Option<usize>)
    requires
        start <= s@.len(),
    ensures
        match r {
            Some(j) => number_end(s@, start as int) == Some(j as int) && start < j <= s@.len(),
            None => number_end(s@, start as int) is None,
        },
{
    let st = if start < s.len() && s[start] == 45 {
        start + 1
    } else {
        start
    };
    if st < s.len() && 48 <= s[st] && s[st] <= 57 {
        let j1 = if s[st] == 48 {
            st + 1
        } else {
            let j = parse_digits(s, st);
            proof {
                lemma_digits_end_min(s@, st as int + 1);
                assert(digits_end(s@, st as int) == digits_end(s@, st as int + 1));
            }
            j
        };
        let j2 = if j1 < s.len() && s[j1] == 46 && j1 + 1 < s.len() && 48 <= s[j1 + 1] && s[j1
            + 1] <= 57 {
            parse_digits(s, j1 + 1)
        } else {
            j1
        };
        if j2 < s.len() && (s[j2] == 101 || s[j2] == 69) {
            let k = if j2 + 1 < s.len() && (s[j2 + 1] == 43 || s[j2 + 1] == 45) {
                j2 + 2
            } else {
                j2 + 1
            };
            if k < s.len() && 48 <= s[k] && s[k] <= 57 {
                Some(parse_digits(s, k))
            } else {
                None
            }
        } else {
            Some(j2)
        }
    } else {
        None
    }
}

/// Which entry member a parsed key names.
fn key_kind_of(k: &Vec<u8>) -> (r: u8)
    ensures
        r as int == key_kind(k@),
{
    if k.len() == 10 && k[0] == 105 && k[1] == 100 && k[2] == 101 && k[3] == 110 && k[4] == 116
        && k[5] == 105 && k[6] == 102 && k[7] == 105 && k[8] == 101 && k[9] == 114 {
        proof {
            assert(k@ =~= identifier_key());
        }
        1
    } else if k.len() == 5 && k[0] == 116 && k[1] == 105 && k[2] == 116 && k[3] == 108 && k[4]
        == 101 {
        proof {
            assert(k@ =~= title_key());
            assert(k@ != identifier_key());
        }
        2
    } else if k.len() == 10 && k[0] == 99 && k[1] == 111 && k[2] == 110 && k[3] == 102 && k[4]
        == 105 && k[5] == 100 && k[6] == 101 && k[7] == 110 && k[8] == 99 && k[9] == 101 {
        proof {
            assert(k@ =~= confidence_key());
            assert(k@ != identifier_key() && k@ != title_key());
        }
        3
    } else {
        proof {
            if k@ == identifier_key() {
                assert(k@.len() == 10 && k@[0] == 105 && k@[1] == 100 && k@[2] == 101 && k@[3]
                    == 110 && k@[4] == 116 && k@[5] == 105 && k@[6] == 102 && k@[7] == 105
                    && k@[8] == 101 && k@[9] == 114);
            }
            if k@ == title_key() {
                assert(k@.len() == 5 && k@[0] == 116 && k@[1] == 105 && k@[2] == 116 && k@[3]
                    == 108 && k@[4] == 101);
            }
            if k@ == confidence_key() {
                assert(k@.len() == 10 && k@[0] == 99 && k@[1] == 111 && k@[2] == 110 && k@[3]
                    == 102 && k@[4] == 105 && k@[5] == 100 && k@[6] == 101 && k@[7] == 110
                    && k@[8] == 99 && k@[9] == 101);
            }
        }
        0
    }
}

/// Skip one JSON value of any shape starting at `start`.
fn skip_json_value(s: &Vec<u8>, start: usize) -> (r: Option<usize>)
    requires
        start <= s@.len(),
    ensures
        match r {
            Some(j) => skip_value(s@, start as int) == Some(j as int) && j <= s@.len(),
            None => skip_value(s@, start as int) is None,
        },
    decreases s@.len() - start, 0int,
{
    if start >= s.len() {
        return None;
    }
    let b = s[start];
    if b == 34 {
        match parse_string_body(s, start + 1) {
            Some((_, j)) => Some(j),
            None => None,
        }
    } else if b == 45 || (48 <= b && b <= 57) {
        parse_number(s, start)
    } else if b == 116 {
        if s.len() - start >= 4 && s[start + 1] == 114 && s[start + 2] == 117 && s[start + 3]
            == 101 {
            Some(start + 4)
        } else {
            None
        }
    } else if b == 102 {
        if s.len() - start >= 5 && s[start + 1] == 97 && s[start + 2] == 108 && s[start + 3]
            == 115 && s[start + 4] == 101 {
            Some(start + 5)
        } else {
            None
        }
    } else if b == 110 {
        if s.len() - start >= 4 && s[start + 1] == 117 && s[start + 2] == 108 && s[start + 3]
            == 108 {
            Some(start + 4)
        } else {
            None
        }
    } else if b == 91 {
        let j = skip_ws(s, start + 1);
        skip_json_array(s, j)
    } else if b == 123 {
        let j = skip_ws(s, start + 1);
        skip_json_object(s, j)
    } else {
        None
    }
}

/// Skip the rest of an array, from the first item or the closing bracket.
fn skip_json_array(s: &Vec<u8>, start: usize) -> (r: Option<usize>)
    requires
        0 < start <= s@.len(),
    ensures
        match r {
            Some(j) => skip_array(s@, start as int) == Some(j as int) && j <= s@.len(),
            None => skip_array(s@, start as int) is None,
        },
    decreases s@.len() - start, 1int,
{
    if start >= s.len() {
        return None;
    }
    if s[start] == 93 {
        return Some(start + 1);
    }
    match skip_json_value(s, start) {
        None => None,
        Some(j) => {
            let a = skip_ws(s, j);
            if a < s.len() && s[a] == 44 {
                let b = skip_ws(s, a + 1);
                if !(start < b) {
                    return None;
                }
                skip_json_array(s, b)
            } else if a < s.len() && s[a] == 93 {
                Some(a + 1)
            } else {
                None
            }
        },
    }
}

/// Skip the rest of an object, from the first key or the closing brace.
fn skip_json_object(s: &Vec<u8>, start: usize) -> (r: Option<usize>)
    requires
        0 < start <= s@.len(),
    ensures
        match r {
            Some(j) => skip_object(s@, start as int) == Some(j as int) && j <= s@.len(),
            None => skip_object(s@, start as int) is None,
        },
    decreases s@.len() - start, 1int,
{
    if start >= s.len() {
        return None;
    }
    if s[start] == 125 {
        return Some(start + 1);
    }
    if s[start] != 34 {
        return None;
    }
    match parse_string_body(s, start + 1) {
        None => None,
        Some((_, kend)) => {
            let a = skip_ws(s, kend);
            if !(a < s.len() && s[a] == 58) {
                return None;
            }
            let b = skip_ws(s, a + 1);
            if !(start < b) {
                return None;
            }
            match skip_json_value(s, b) {
                None => None,
                Some(j) => {
                    let c = skip_ws(s, j);
                    if c < s.len() && s[c] == 44 {
                        let d = skip_ws(s, c + 1);
                        if !(start < d) {
                            return None;
                        }
                        skip_json_object(s, d)
                    } else if c < s.len() && s[c] == 125 {
                        Some(c + 1)
                    } else {
                        None
                    }
                },
            }
        },
    }
}

pub open spec fn opt_bytes_view(o: Option<Vec<u8>>) -> Option<Seq<u8>> {
    match o {
        Some(v) => Some(v@),
        None => None,
    }
}

/// Parse the members of one entry object from the position of an expected
/// key.
fn parse_members(
    s: &Vec<u8>,
    start: usize,
    id: Option<Vec<u8>>,
    ti: Option<Vec<u8>>,
    co: Option<Vec<u8>>,
) -> (r: Option<(RawEntry, usize)>)
    requires
        start <= s@.len(),
    ensures
        match r {
            Some(p) => members(
                s@,
                start as int,
                opt_bytes_view(id),
                opt_bytes_view(ti),
                opt_bytes_view(co),
            ) == Some((p.0@, p.1 as int)) && p.1 <= s@.len(),
            None => members(
                s@,
                start as int,
                opt_bytes_view(id),
                opt_bytes_view(ti),
                opt_bytes_view(co),
            ) is None,
        },
    decreases s@.len() - start,
{
    if start >= s.len() || s[start] != 34 {
        return None;
    }
    match parse_string_body(s, start + 1) {
        None => None,
        Some((key, kend)) => {
            let a = skip_ws(s, kend);
            if !(a < s.len() && s[a] == 58) {
                return None;
            }
            let b = skip_ws(s, a + 1);
            let kind = key_kind_of(&key);
            let allowed = kind == 0 || (kind == 1 && id.is_none()) || (kind == 2 && ti.is_none())
                || (kind == 3 && co.is_none());
            if !allowed {
                return None;
            }
            let vres: Option<(Vec<u8>, usize)> = if kind == 1 || kind == 2 {
                if b < s.len() && s[b] == 34 {
                    parse_string_body(s, b + 1)
                } else {
                    None
                }
            } else if kind == 3 {
                match parse_number(s, b) {
                    Some(j) => {
                        let piece = vstd::slice::slice_subrange(s.as_slice(), b, j);
                        Some((vstd::slice::slice_to_vec(piece), j))
                    },
                    None => None,
                }
            } else {
                match skip_json_value(s, b) {
                    Some(j) => Some((Vec::new(), j)),
                    None => None,
                }
            };
            match vres {
                None => None,
                Some((val, vend)) => {
                    let (id2, ti2, co2) = if kind == 1 {
                        (Some(val), ti, co)
                    } else if kind == 2 {
                        (id, Some(val), co)
                    } else if kind == 3 {
                        (id, ti, Some(val))
                    } else {
                        (id, ti, co)
                    };
                    let c = skip_ws(s, vend);
                    if c < s.len() && s[c] == 44 {
                        let nxt = skip_ws(s, c + 1);
                        if !(start < nxt) {
                            return None;
                        }
                        parse_members(s, nxt, id2, ti2, co2)
                    } else if c < s.len() && s[c] == 125 {
                        match (id2, ti2, co2) {
                            (Some(x), Some(y), Some(z)) => Some(
                                (RawEntry { identifier: x, title: y, confidence: z }, c + 1),
                            ),
                            _ => None,
                        }
                    } else {
                        None
                    }
                },
            }
        },
    }
}

/// Parse the results array from the position after `[` with whitespace
/// skipped.
fn parse_entries(s: &Vec<u8>, start: usize) -> (r: Option<(Vec<RawEntry>, usize)>)
    requires
        start <= s@.len(),
    ensures
        match r {
            Some(p) => entries(s@, start as int) == Some(
                (p.0@.map_values(|e: RawEntry| e@), p.1 as int),
            ) && p.1 <= s@.len(),
            None => entries(s@, start as int) is None,
        },
    decreases s@.len() - start,
{
    if start >= s.len() {
        return None;
    }
    let b0 = s[start];
    if b0 == 93 {
        let out: Vec<RawEntry> = Vec::new();
        proof {
            assert(out@.map_values(|e: RawEntry| e@) =~= Seq::<SpecEntry>::empty());
        }
        Some((out, start + 1))
    } else if b0 == 123 {
        let m0 = skip_ws(s, start + 1);
        match parse_members(s, m0, None, None, None) {
            None => None,
            Some((entry, eend)) => {
                let a = skip_ws(s, eend);
                if a < s.len() && s[a] == 44 {
                    let b = skip_ws(s, a + 1);
                    if !(start < b) {
                        return None;
                    }
                    match parse_entries(s, b) {
                        Some((mut rest, rend)) => {
                            let ghost ev = entry@;
                            let ghost restv = rest@;
                            rest.insert(0, entry);
                            proof {
                                assert(rest@.map_values(|e: RawEntry| e@) =~= seq![ev]
                                    + restv.map_values(|e: RawEntry| e@));
                            }
                            Some((rest, rend))
                        },
                        None => None,
                    }
                } else if a < s.len() && s[a] == 93 {
                    let ghost ev = entry@;
                    let mut out: Vec<RawEntry> = Vec::new();
                    out.push(entry);
                    proof {
                        assert(out@.map_values(|e: RawEntry| e@) =~= seq![ev]);
                    }
                    Some((out, a + 1))
                } else {
                    None
                }
            },
        }
    } else {
        None
    }
}

/// The entries a maybe-parsed results member stands for.
pub open spec fn opt_entries_view(o: Option<Vec<RawEntry>>) -> Option<Seq<SpecEntry>> {
    match o {
        Some(v) => Some(v@.map_values(|e: RawEntry| e@)),
        None => None,
    }
}

/// Parse the members of the payload's top object from the position of an
/// expected key.
fn parse_top_members(s: &Vec<u8>, start: usize, res: Option<Vec<RawEntry>>) -> (r: Option<
    (Vec<RawEntry>, usize),
>)
    requires
        start <= s@.len(),
    ensures
        match r {
            Some(p) => top_members(s@, start as int, opt_entries_view(res)) == Some(
                (p.0@.map_values(|e: RawEntry| e@), p.1 as int),
            ) && p.1 <= s@.len(),
            None => top_members(s@, start as int, opt_entries_view(res)) is None,
        },
    decreases s@.len() - start,
{
    if start >= s.len() || s[start] != 34 {
        return None;
    }
    match parse_string_body(s, start + 1) {
        None => None,
        Some((key, kend)) => {
            let a = skip_ws(s, kend);
            if !(a < s.len() && s[a] == 58) {
                return None;
            }
            let b = skip_ws(s, a + 1);
            let iskey = key.len() == 7 && key[0] == 114 && key[1] == 101 && key[2] == 115
                && key[3] == 117 && key[4] == 108 && key[5] == 116 && key[6] == 115;
            proof {
                if iskey {
                    assert(key@ =~= results_key());
                } else if key@ == results_key() {
                    assert(key@.len() == 7 && key@[0] == 114 && key@[1] == 101 && key@[2] == 115
                        && key@[3] == 117 && key@[4] == 108 && key@[5] == 116 && key@[6]
                        == 115);
                }
            }
            let vres: Option<(Option<Vec<RawEntry>>, usize)> = if iskey {
                if res.is_some() {
                    None
                } else if b < s.len() && s[b] == 91 {
                    let e0 = skip_ws(s, b + 1);
                    match parse_entries(s, e0) {
                        Some((out, j)) => Some((Some(out), j)),
                        None => None,
                    }
                } else {
                    None
                }
            } else {
                match skip_json_value(s, b) {
                    Some(j) => Some((res, j)),
                    None => None,
                }
            };
            match vres {
                None => None,
                Some((res2, vend)) => {
                    let c = skip_ws(s, vend);
                    if c < s.len() && s[c] == 44 {
                        let nxt = skip_ws(s, c + 1);
                        if !(start < nxt) {
                            return None;
                        }
                        parse_top_members(s, nxt, res2)
                    } else if c < s.len() && s[c] == 125 {
                        match res2 {
                            Some(r) => Some((r, c + 1)),
                            None => None,
                        }
                    } else {
                        None
                    }
                },
            }
        },
    }
}

/// Parse a whole payload: the entries in order, or `None` where the bytes
/// are not one well-formed payload object.
pub fn parse_payload(s: &Vec<u8>) -> (r: Option<Vec<RawEntry>>)
    ensures
        match r {
            Some(v) => payload_value(s@) == Some(v@.map_values(|e: RawEntry| e@)),
            None => payload_value(s@) is None,
        },
{
    let i0 = skip_ws(s, 0);
    if !(i0 < s.len() && s[i0] == 123) {
        return None;
    }
    let i1 = skip_ws(s, i0 + 1);
    match parse_top_members(s, i1, None) {
        None => None,
        Some((out, rend)) => {
            if skip_ws(s, rend) == s.len() {
                Some(out)
            } else {
                None
            }
        },
    }
}

} // verus!
