//! A JSON parser over byte strings, verified against a specification-level
//! grammar (`parse_document`).
//!
//! The provider transmits every response as a JSON document, so the grammar
//! below is part of this library's own logic.  Documents are parsed into
//! [`JsonValue`]; string and number payloads are kept as the raw bytes the
//! document carried (strings with their escapes decoded), and the layers
//! above interpret them.  String contents are byte strings: an unescaped
//! byte at or above `0x20` passes through unvalidated, so a document whose
//! strings hold invalid UTF-8 is deliberately accepted here where a
//! UTF-8-validating parser would reject it; escape sequences are checked in
//! full, and a decoded escape always yields one scalar value's UTF-8 bytes.
//! Nesting of arrays and objects deeper than [`MAX_DEPTH`] is rejected, so
//! parsing runs in bounded stack space.

use vstd::prelude::*;

verus! {

/// Nesting limit for arrays and objects.
pub const MAX_DEPTH: usize = 128;

/// The mathematical model of a parsed JSON document.
pub enum JsonModel {
    Null,
    Boolean(bool),
    /// A number, as the raw token bytes from the document.
    Number(Seq<u8>),
    /// A string, as its decoded (unescaped) UTF-8 bytes.
    Text(Seq<u8>),
    Array(Seq<JsonModel>),
    /// The members of an object, in document order; keys may repeat.
    Object(Seq<(Seq<u8>, JsonModel)>),
}

/// A parsed JSON document.
#[derive(Debug)]
pub enum JsonValue {
    Null,
    Boolean(bool),
    /// A number, as the raw token bytes from the document.
    Number(Vec<u8>),
    /// A string, as its decoded (unescaped) UTF-8 bytes.
    Text(Vec<u8>),
    Array(Vec<JsonValue>),
    /// The members of an object, in document order; keys may repeat.
    Object(Vec<(Vec<u8>, JsonValue)>),
}

/// The models of a sequence of values, element-wise.
pub open spec fn seq_models(vs: Seq<JsonValue>) -> Seq<JsonModel>
    decreases vs,
{
    Seq::new(vs.len(), |i: int| if 0 <= i < vs.len() { vs[i].model() } else { JsonModel::Null })
}

/// The models of a sequence of object members, element-wise.
pub open spec fn seq_member_models(ms: Seq<(Vec<u8>, JsonValue)>) -> Seq<(Seq<u8>, JsonModel)>
    decreases ms,
{
    Seq::new(
        ms.len(),
        |i: int|
            if 0 <= i < ms.len() {
                (ms[i].0@, ms[i].1.model())
            } else {
                (Seq::<u8>::empty(), JsonModel::Null)
            },
    )
}

impl JsonValue {
    /// The abstract model of this value.
    pub open spec fn model(self) -> JsonModel
        decreases self,
    {
        match self {
            JsonValue::Null => JsonModel::Null,
            JsonValue::Boolean(b) => JsonModel::Boolean(b),
            JsonValue::Number(n) => JsonModel::Number(n@),
            JsonValue::Text(t) => JsonModel::Text(t@),
            JsonValue::Array(elems) => JsonModel::Array(seq_models(elems@)),
            JsonValue::Object(members) => JsonModel::Object(seq_member_models(members@)),
        }
    }
}

impl View for JsonValue {
    type V = JsonModel;

    open spec fn view(&self) -> JsonModel {
        self.model()
    }
}

// ===== The grammar =====

/// JSON insignificant whitespace.
pub open spec fn is_json_ws(b: u8) -> bool {
    b == 0x20 || b == 0x09 || b == 0x0a || b == 0x0d
}

/// An ASCII decimal digit.
pub open spec fn is_digit(b: u8) -> bool {
    0x30 <= b <= 0x39
}

/// The first position at or after `pos` holding no whitespace.
pub open spec fn skip_ws(s: Seq<u8>, pos: int) -> int
    decreases s.len() - pos,
        when 0 <= pos <= s.len()
{
    if pos < s.len() && is_json_ws(s[pos]) {
        skip_ws(s, pos + 1)
    } else {
        pos
    }
}

pub proof fn lemma_skip_ws_bounds(s: Seq<u8>, pos: int)
    requires
        0 <= pos <= s.len(),
    ensures
        pos <= skip_ws(s, pos) <= s.len(),
    decreases s.len() - pos,
{
    if pos < s.len() && is_json_ws(s[pos]) {
        lemma_skip_ws_bounds(s, pos + 1);
    }
}

/// The first position at or after `pos` holding no digit.
pub open spec fn skip_digits(s: Seq<u8>, pos: int) -> int
    decreases s.len() - pos,
        when 0 <= pos <= s.len()
{
    if pos < s.len() && is_digit(s[pos]) {
        skip_digits(s, pos + 1)
    } else {
        pos
    }
}

pub proof fn lemma_skip_digits_bounds(s: Seq<u8>, pos: int)
    requires
        0 <= pos <= s.len(),
    ensures
        pos <= skip_digits(s, pos) <= s.len(),
    decreases s.len() - pos,
{
    if pos < s.len() && is_digit(s[pos]) {
        lemma_skip_digits_bounds(s, pos + 1);
    }
}

// ===== Strings =====

/// An ASCII hexadecimal digit.
pub open spec fn is_hex_digit(b: u8) -> bool {
    is_digit(b) || (0x41 <= b <= 0x46) || (0x61 <= b <= 0x66)
}

/// The value of one hexadecimal digit.
pub open spec fn hex_val(b: u8) -> int {
    if is_digit(b) {
        b - 0x30
    } else if 0x41 <= b <= 0x46 {
        b - 0x41 + 10
    } else {
        b - 0x61 + 10
    }
}

/// Whether four hexadecimal digits stand at `pos`.
pub open spec fn hex4_ok(s: Seq<u8>, pos: int) -> bool {
    &&& pos + 4 <= s.len()
    &&& is_hex_digit(s[pos])
    &&& is_hex_digit(s[pos + 1])
    &&& is_hex_digit(s[pos + 2])
    &&& is_hex_digit(s[pos + 3])
}

/// The value of the four hexadecimal digits at `pos`.
pub open spec fn hex4_val(s: Seq<u8>, pos: int) -> int {
    hex_val(s[pos]) * 0x1000 + hex_val(s[pos + 1]) * 0x100 + hex_val(s[pos + 2]) * 0x10 + hex_val(
        s[pos + 3],
    )
}

/// The byte produced by a single-character escape, if the character is one.
pub open spec fn simple_escape(b: u8) -> Option<u8> {
    if b == 0x22 {  // \"
        Some(0x22u8)
    } else if b == 0x5c {  // \\
        Some(0x5cu8)
    } else if b == 0x2f {  // \/
        Some(0x2fu8)
    } else if b == 0x62 {  // \b
        Some(0x08u8)
    } else if b == 0x66 {  // \f
        Some(0x0cu8)
    } else if b == 0x6e {  // \n
        Some(0x0au8)
    } else if b == 0x72 {  // \r
        Some(0x0du8)
    } else if b == 0x74 {  // \t
        Some(0x09u8)
    } else {
        None
    }
}

/// The UTF-8 encoding of the Unicode scalar value `c`.
pub open spec fn utf8_encode_scalar(c: int) -> Seq<u8> {
    if c < 0x80 {
        seq![c as u8]
    } else if c < 0x800 {
        seq![(0xc0 + c / 0x40) as u8, (0x80 + c % 0x40) as u8]
    } else if c < 0x10000 {
        seq![(0xe0 + c / 0x1000) as u8, (0x80 + (c / 0x40) % 0x40) as u8, (0x80 + c % 0x40) as u8]
    } else {
        seq![
            (0xf0 + c / 0x40000) as u8,
            (0x80 + (c / 0x1000) % 0x40) as u8,
            (0x80 + (c / 0x40) % 0x40) as u8,
            (0x80 + c % 0x40) as u8,
        ]
    }
}

/// Parses the body of a string token: `pos` stands just after the opening
/// quote, `acc` holds the bytes decoded so far.  On success, returns the
/// decoded bytes and the position just after the closing quote.
pub open spec fn parse_string_body(s: Seq<u8>, pos: int, acc: Seq<u8>) -> Option<(Seq<u8>, int)>
    decreases s.len() - pos,
        when 0 <= pos <= s.len()
{
    if pos >= s.len() {
        None
    } else if s[pos] == 0x22 {  // closing quote
        Some((acc, pos + 1))
    } else if s[pos] == 0x5c {  // backslash: an escape
        if pos + 1 >= s.len() {
            None
        } else if s[pos + 1] == 0x75 {  // \uXXXX
            if hex4_ok(s, pos + 2) {
                let cp = hex4_val(s, pos + 2);
                if 0xd800 <= cp < 0xdc00 {
                    // A high surrogate: a low surrogate must follow.
                    if pos + 12 <= s.len() && s[pos + 6] == 0x5c && s[pos + 7] == 0x75 && hex4_ok(
                        s,
                        pos + 8,
                    ) && 0xdc00 <= hex4_val(s, pos + 8) < 0xe000 {
                        parse_string_body(
                            s,
                            pos + 12,
                            acc + utf8_encode_scalar(
                                0x10000 + (cp - 0xd800) * 0x400 + (hex4_val(s, pos + 8) - 0xdc00),
                            ),
                        )
                    } else {
                        None
                    }
                } else if 0xdc00 <= cp < 0xe000 {
                    // A lone low surrogate is not a scalar value.
                    None
                } else {
                    parse_string_body(s, pos + 6, acc + utf8_encode_scalar(cp))
                }
            } else {
                None
            }
        } else {
            match simple_escape(s[pos + 1]) {
                Some(b) => parse_string_body(s, pos + 2, acc.push(b)),
                None => None,
            }
        }
    } else if s[pos] >= 0x20 {  // unescaped: control characters are refused
        parse_string_body(s, pos + 1, acc.push(s[pos]))
    } else {
        None
    }
}

pub proof fn lemma_string_body_bounds(s: Seq<u8>, pos: int, acc: Seq<u8>)
    requires
        0 <= pos <= s.len(),
    ensures
        parse_string_body(s, pos, acc) matches Some(r) ==> pos < r.1 <= s.len(),
    decreases s.len() - pos,
{
    if pos >= s.len() {
    } else if s[pos] == 0x22 {
    } else if s[pos] == 0x5c {
        if pos + 1 >= s.len() {
        } else if s[pos + 1] == 0x75 {
            if hex4_ok(s, pos + 2) {
                let cp = hex4_val(s, pos + 2);
                if 0xd800 <= cp < 0xdc00 {
                    if pos + 12 <= s.len() && s[pos + 6] == 0x5c && s[pos + 7] == 0x75 && hex4_ok(
                        s,
                        pos + 8,
                    ) && 0xdc00 <= hex4_val(s, pos + 8) < 0xe000 {
                        lemma_string_body_bounds(
                            s,
                            pos + 12,
                            acc + utf8_encode_scalar(
                                0x10000 + (cp - 0xd800) * 0x400 + (hex4_val(s, pos + 8) - 0xdc00),
                            ),
                        );
                    }
                } else if 0xdc00 <= cp < 0xe000 {
                } else {
                    lemma_string_body_bounds(s, pos + 6, acc + utf8_encode_scalar(cp));
                }
            }
        } else {
            match simple_escape(s[pos + 1]) {
                Some(b) => lemma_string_body_bounds(s, pos + 2, acc.push(b)),
                None => (),
            }
        }
    } else if s[pos] >= 0x20 {
        lemma_string_body_bounds(s, pos + 1, acc.push(s[pos]));
    }
}

// ===== Numbers =====

/// Parses the optional exponent part; `pos` stands just after the mantissa.
/// Returns the position just after the number token.
pub open spec fn number_end_from_exponent(s: Seq<u8>, pos: int) -> Option<int>
    recommends
        0 <= pos <= s.len(),
{
    if pos < s.len() && (s[pos] == 0x65 || s[pos] == 0x45) {  // 'e' | 'E'
        let p1 = if pos + 1 < s.len() && (s[pos + 1] == 0x2b || s[pos + 1] == 0x2d) {
            pos + 2
        } else {
            pos + 1
        };
        let p2 = skip_digits(s, p1);
        if p2 > p1 {
            Some(p2)
        } else {
            None
        }
    } else {
        Some(pos)
    }
}

/// Parses the optional fraction and exponent; `pos` stands just after the
/// integer part.
pub open spec fn number_end_from_fraction(s: Seq<u8>, pos: int) -> Option<int>
    recommends
        0 <= pos <= s.len(),
{
    if pos < s.len() && s[pos] == 0x2e {  // '.'
        let p = skip_digits(s, pos + 1);
        if p > pos + 1 {
            number_end_from_exponent(s, p)
        } else {
            None
        }
    } else {
        number_end_from_exponent(s, pos)
    }
}

/// Parses a number token beginning at `pos` (at the minus sign or the first
/// digit).  Returns the position just after the token.
pub open spec fn parse_number(s: Seq<u8>, pos: int) -> Option<int>
    recommends
        0 <= pos <= s.len(),
{
    let p1 = if pos < s.len() && s[pos] == 0x2d {
        pos + 1
    } else {
        pos
    };
    if p1 < s.len() && is_digit(s[p1]) {
        let p2 = if s[p1] == 0x30 {
            p1 + 1
        } else {
            skip_digits(s, p1)
        };
        number_end_from_fraction(s, p2)
    } else {
        None
    }
}

// ===== Values =====

/// Parses one JSON value.  `pos` may stand on leading whitespace.  `fuel`
/// bounds the number of commas consumed (one unit each), `depth` the nesting
/// of arrays and objects.  On success, returns the value's model and the
/// position just after the value.
pub open spec fn parse_value(s: Seq<u8>, pos: int, fuel: nat, depth: nat) -> Option<
    (JsonModel, int),
>
    decreases fuel, s.len() - pos, 0int,
        when 0 <= pos <= s.len()
{
    let p = {
        proof {
            lemma_skip_ws_bounds(s, pos);
        }
        skip_ws(s, pos)
    };
    if p >= s.len() {
        None
    } else if s[p] == 0x6e {  // 'n'
        if p + 4 <= s.len() && s[p + 1] == 0x75 && s[p + 2] == 0x6c && s[p + 3] == 0x6c {
            Some((JsonModel::Null, p + 4))
        } else {
            None
        }
    } else if s[p] == 0x74 {  // 't'
        if p + 4 <= s.len() && s[p + 1] == 0x72 && s[p + 2] == 0x75 && s[p + 3] == 0x65 {
            Some((JsonModel::Boolean(true), p + 4))
        } else {
            None
        }
    } else if s[p] == 0x66 {  // 'f'
        if p + 5 <= s.len() && s[p + 1] == 0x61 && s[p + 2] == 0x6c && s[p + 3] == 0x73 && s[p + 4]
            == 0x65 {
            Some((JsonModel::Boolean(false), p + 5))
        } else {
            None
        }
    } else if s[p] == 0x22 {  // '"'
        match parse_string_body(s, p + 1, Seq::empty()) {
            Some(r) => Some((JsonModel::Text(r.0), r.1)),
            None => None,
        }
    } else if s[p] == 0x2d || is_digit(s[p]) {
        match parse_number(s, p) {
            Some(end) => Some((JsonModel::Number(s.subrange(p, end)), end)),
            None => None,
        }
    } else if s[p] == 0x5b {  // '['
        if depth == 0 {
            None
        } else {
            let q = skip_ws(s, p + 1);
            if q < s.len() && s[q] == 0x5d {  // ']'
                Some((JsonModel::Array(Seq::empty()), q + 1))
            } else {
                match parse_elements(s, p + 1, fuel, (depth - 1) as nat, Seq::empty()) {
                    Some(r) => Some((JsonModel::Array(r.0), r.1)),
                    None => None,
                }
            }
        }
    } else if s[p] == 0x7b {  // '{'
        if depth == 0 {
            None
        } else {
            let q = skip_ws(s, p + 1);
            if q < s.len() && s[q] == 0x7d {  // '}'
                Some((JsonModel::Object(Seq::empty()), q + 1))
            } else {
                match parse_members(s, p + 1, fuel, (depth - 1) as nat, Seq::empty()) {
                    Some(r) => Some((JsonModel::Object(r.0), r.1)),
                    None => None,
                }
            }
        }
    } else {
        None
    }
}

/// Parses the elements of a non-empty array; `pos` stands just after the
/// opening bracket or a comma.  On success, returns `acc` extended by the
/// elements and the position just after the closing bracket.
pub open spec fn parse_elements(
    s: Seq<u8>,
    pos: int,
    fuel: nat,
    depth: nat,
    acc: Seq<JsonModel>,
) -> Option<(Seq<JsonModel>, int)>
    decreases fuel, s.len() - pos, 1int,
        when 0 <= pos <= s.len()
{
    match parse_value(s, pos, fuel, depth) {
        Some(r) => {
            if !(0 <= r.1 <= s.len()) {
                None
            } else {
                let c = {
                    proof {
                        lemma_skip_ws_bounds(s, r.1);
                    }
                    skip_ws(s, r.1)
                };
                if c < s.len() && s[c] == 0x2c {  // ','
                    if fuel == 0 {
                        None
                    } else {
                        parse_elements(s, c + 1, (fuel - 1) as nat, depth, acc.push(r.0))
                    }
                } else if c < s.len() && s[c] == 0x5d {  // ']'
                    Some((acc.push(r.0), c + 1))
                } else {
                    None
                }
            }
        },
        None => None,
    }
}

/// Parses the members of a non-empty object; `pos` stands just after the
/// opening brace or a comma.  On success, returns `acc` extended by the
/// members and the position just after the closing brace.
pub open spec fn parse_members(
    s: Seq<u8>,
    pos: int,
    fuel: nat,
    depth: nat,
    acc: Seq<(Seq<u8>, JsonModel)>,
) -> Option<(Seq<(Seq<u8>, JsonModel)>, int)>
    decreases fuel, s.len() - pos, 1int,
        when 0 <= pos <= s.len()
{
    let p = {
        proof {
            lemma_skip_ws_bounds(s, pos);
        }
        skip_ws(s, pos)
    };
    if p < s.len() && s[p] == 0x22 {  // '"': the key
        match {
            proof {
                lemma_string_body_bounds(s, p + 1, Seq::empty());
            }
            parse_string_body(s, p + 1, Seq::empty())
        } {
            Some(k) => {
                let c = {
                    proof {
                        lemma_skip_ws_bounds(s, k.1);
                    }
                    skip_ws(s, k.1)
                };
                if c < s.len() && s[c] == 0x3a {  // ':'
                    match parse_value(s, c + 1, fuel, depth) {
                        Some(r) => {
                            if !(0 <= r.1 <= s.len()) {
                                None
                            } else {
                                let c2 = {
                                    proof {
                                        lemma_skip_ws_bounds(s, r.1);
                                    }
                                    skip_ws(s, r.1)
                                };
                                if c2 < s.len() && s[c2] == 0x2c {  // ','
                                    if fuel == 0 {
                                        None
                                    } else {
                                        parse_members(
                                            s,
                                            c2 + 1,
                                            (fuel - 1) as nat,
                                            depth,
                                            acc.push((k.0, r.0)),
                                        )
                                    }
                                } else if c2 < s.len() && s[c2] == 0x7d {  // '}'
                                    Some((acc.push((k.0, r.0)), c2 + 1))
                                } else {
                                    None
                                }
                            }
                        },
                        None => None,
                    }
                } else {
                    None
                }
            },
            None => None,
        }
    } else {
        None
    }
}

/// Parses a whole document: one value, with nothing but whitespace after it.
pub open spec fn parse_document(s: Seq<u8>) -> Option<JsonModel> {
    match parse_value(s, 0, s.len() as nat, MAX_DEPTH as nat) {
        Some(r) => {
            if 0 <= r.1 <= s.len() && skip_ws(s, r.1) == s.len() {
                Some(r.0)
            } else {
                None
            }
        },
        None => None,
    }
}

// ===== The parser =====

pub proof fn lemma_seq_models_push(vs: Seq<JsonValue>, v: JsonValue)
    ensures
        seq_models(vs.push(v)) =~= seq_models(vs).push(v.model()),
{
}

pub proof fn lemma_seq_member_models_push(ms: Seq<(Vec<u8>, JsonValue)>, m: (Vec<u8>, JsonValue))
    ensures
        seq_member_models(ms.push(m)) =~= seq_member_models(ms).push((m.0@, m.1.model())),
{
}

fn skip_ws_exec(s: &[u8], pos: usize) -> (r: usize)
    requires
        pos <= s@.len(),
    ensures
        r as int == skip_ws(s@, pos as int),
        pos <= r <= s@.len(),
{
    let len = s.len();
    let mut cur = pos;
    while cur < len && (s[cur] == 0x20 || s[cur] == 0x09 || s[cur] == 0x0a || s[cur] == 0x0d)
        invariant
            pos <= cur <= len,
            len == s@.len(),
            skip_ws(s@, pos as int) == skip_ws(s@, cur as int),
        decreases s@.len() - cur,
    {
        cur = cur + 1;
    }
    cur
}

pub(crate) fn skip_digits_exec(s: &[u8], pos: usize) -> (r: usize)
    requires
        pos <= s@.len(),
    ensures
        r as int == skip_digits(s@, pos as int),
        pos <= r <= s@.len(),
{
    let len = s.len();
    let mut cur = pos;
    while cur < len && 0x30 <= s[cur] && s[cur] <= 0x39
        invariant
            pos <= cur <= len,
            len == s@.len(),
            skip_digits(s@, pos as int) == skip_digits(s@, cur as int),
        decreases s@.len() - cur,
    {
        cur = cur + 1;
    }
    cur
}

fn is_hex_digit_exec(b: u8) -> (r: bool)
    ensures
        r == is_hex_digit(b),
{
    (0x30 <= b && b <= 0x39) || (0x41 <= b && b <= 0x46) || (0x61 <= b && b <= 0x66)
}

fn hex_val_exec(b: u8) -> (r: u8)
    requires
        is_hex_digit(b),
    ensures
        r as int == hex_val(b),
        r < 16,
{
    if 0x30 <= b && b <= 0x39 {
        b - 0x30
    } else if 0x41 <= b && b <= 0x46 {
        b - 0x41 + 10
    } else {
        b - 0x61 + 10
    }
}

/// Reads the four hexadecimal digits at `pos`.
fn hex4_exec(s: &[u8], pos: usize) -> (r: Option<u32>)
    requires
        pos <= s@.len(),
    ensures
        match r {
            Some(v) => hex4_ok(s@, pos as int) && v as int == hex4_val(s@, pos as int) && v
                < 0x10000,
            None => !hex4_ok(s@, pos as int),
        },
{
    if pos >= s.len() || s.len() - pos < 4 {
        return None;
    }
    if !(is_hex_digit_exec(s[pos]) && is_hex_digit_exec(s[pos + 1]) && is_hex_digit_exec(
        s[pos + 2],
    ) && is_hex_digit_exec(s[pos + 3])) {
        return None;
    }
    let v = (hex_val_exec(s[pos]) as u32) * 0x1000 + (hex_val_exec(s[pos + 1]) as u32) * 0x100 + (
    hex_val_exec(s[pos + 2]) as u32) * 0x10 + (hex_val_exec(s[pos + 3]) as u32);
    Some(v)
}

/// Appends the UTF-8 encoding of the scalar value `c`.
fn push_utf8(out: &mut Vec<u8>, c: u32)
    requires
        c < 0x110000,
    ensures
        final(out)@ == old(out)@ + utf8_encode_scalar(c as int),
{
    if c < 0x80 {
        out.push(c as u8);
    } else if c < 0x800 {
        assert(c / 0x40 < 0x20) by (nonlinear_arith)
            requires
                c < 0x800,
        ;
        out.push((0xc0 + c / 0x40) as u8);
        out.push((0x80 + c % 0x40) as u8);
    } else if c < 0x10000 {
        assert(c / 0x1000 < 0x10 && (c / 0x40) % 0x40 < 0x40) by (nonlinear_arith)
            requires
                c < 0x10000,
        ;
        out.push((0xe0 + c / 0x1000) as u8);
        out.push((0x80 + (c / 0x40) % 0x40) as u8);
        out.push((0x80 + c % 0x40) as u8);
    } else {
        assert(c / 0x40000 < 0x08 && (c / 0x1000) % 0x40 < 0x40 && (c / 0x40) % 0x40 < 0x40)
            by (nonlinear_arith)
            requires
                c < 0x110000,
        ;
        out.push((0xf0 + c / 0x40000) as u8);
        out.push((0x80 + (c / 0x1000) % 0x40) as u8);
        out.push((0x80 + (c / 0x40) % 0x40) as u8);
        out.push((0x80 + c % 0x40) as u8);
    }
    assert(out@ =~= old(out)@ + utf8_encode_scalar(c as int));
}

/// Parses the body of a string token, the opening quote already consumed.
#[verifier::rlimit(50)]
fn parse_text(s: &[u8], pos: usize) -> (r: Option<(Vec<u8>, usize)>)
    requires
        pos <= s@.len(),
    ensures
        ({
            let m = parse_string_body(s@, pos as int, Seq::<u8>::empty());
            match r {
                Some(t) => m == Some((t.0@, t.1 as int)) && pos < t.1 <= s@.len(),
                None => m is None,
            }
        }),
{
    let len = s.len();
    let mut cur = pos;
    let mut acc: Vec<u8> = Vec::new();
    loop
        invariant
            pos <= cur <= len,
            len == s@.len(),
            parse_string_body(s@, pos as int, Seq::<u8>::empty()) == parse_string_body(
                s@,
                cur as int,
                acc@,
            ),
        decreases s@.len() - cur,
    {
        if cur >= len {
            return None;
        }
        let b = s[cur];
        if b == 0x22 {
            return Some((acc, cur + 1));
        } else if b == 0x5c {
            if cur + 1 >= len {
                return None;
            }
            let e = s[cur + 1];
            if e == 0x75 {
                match hex4_exec(s, cur + 2) {
                    Some(cp) => {
                        if 0xd800 <= cp && cp < 0xdc00 {
                            if len - cur >= 12 && s[cur + 6] == 0x5c && s[cur + 7] == 0x75 {
                                match hex4_exec(s, cur + 8) {
                                    Some(low) => {
                                        if 0xdc00 <= low && low < 0xe000 {
                                            let scalar = 0x10000 + (cp - 0xd800) * 0x400 + (low
                                                - 0xdc00);
                                            push_utf8(&mut acc, scalar);
                                            cur = cur + 12;
                                        } else {
                                            return None;
                                        }
                                    },
                                    None => {
                                        return None;
                                    },
                                }
                            } else {
                                return None;
                            }
                        } else if 0xdc00 <= cp && cp < 0xe000 {
                            return None;
                        } else {
                            push_utf8(&mut acc, cp);
                            cur = cur + 6;
                        }
                    },
                    None => {
                        return None;
                    },
                }
            } else {
                let esc = if e == 0x22 {
                    Some(0x22u8)
                } else if e == 0x5c {
                    Some(0x5cu8)
                } else if e == 0x2f {
                    Some(0x2fu8)
                } else if e == 0x62 {
                    Some(0x08u8)
                } else if e == 0x66 {
                    Some(0x0cu8)
                } else if e == 0x6e {
                    Some(0x0au8)
                } else if e == 0x72 {
                    Some(0x0du8)
                } else if e == 0x74 {
                    Some(0x09u8)
                } else {
                    None
                };
                assert(esc == simple_escape(e));
                match esc {
                    Some(x) => {
                        acc.push(x);
                        cur = cur + 2;
                    },
                    None => {
                        return None;
                    },
                }
            }
        } else if b >= 0x20 {
            acc.push(b);
            cur = cur + 1;
        } else {
            return None;
        }
    }
}

fn scan_exponent(s: &[u8], pos: usize) -> (r: Option<usize>)
    requires
        pos <= s@.len(),
    ensures
        match r {
            Some(end) => number_end_from_exponent(s@, pos as int) == Some(end as int) && pos <= end
                <= s@.len(),
            None => number_end_from_exponent(s@, pos as int) is None,
        },
{
    let len = s.len();
    if pos < len && (s[pos] == 0x65 || s[pos] == 0x45) {
        let p1 = if pos + 1 < len && (s[pos + 1] == 0x2b || s[pos + 1] == 0x2d) {
            pos + 2
        } else {
            pos + 1
        };
        let p2 = skip_digits_exec(s, p1);
        if p2 > p1 {
            Some(p2)
        } else {
            None
        }
    } else {
        Some(pos)
    }
}

fn scan_fraction(s: &[u8], pos: usize) -> (r: Option<usize>)
    requires
        pos <= s@.len(),
    ensures
        match r {
            Some(end) => number_end_from_fraction(s@, pos as int) == Some(end as int) && pos <= end
                <= s@.len(),
            None => number_end_from_fraction(s@, pos as int) is None,
        },
{
    let len = s.len();
    if pos < len && s[pos] == 0x2e {
        let p = skip_digits_exec(s, pos + 1);
        if p > pos + 1 {
            scan_exponent(s, p)
        } else {
            None
        }
    } else {
        scan_exponent(s, pos)
    }
}

/// Scans a number token; returns the position just after it.
fn scan_number(s: &[u8], pos: usize) -> (r: Option<usize>)
    requires
        pos <= s@.len(),
    ensures
        match r {
            Some(end) => parse_number(s@, pos as int) == Some(end as int) && pos <= end <= s@.len(),
            None => parse_number(s@, pos as int) is None,
        },
{
    let len = s.len();
    let p1 = if pos < len && s[pos] == 0x2d {
        pos + 1
    } else {
        pos
    };
    if p1 < len && 0x30 <= s[p1] && s[p1] <= 0x39 {
        let p2 = if s[p1] == 0x30 {
            p1 + 1
        } else {
            skip_digits_exec(s, p1)
        };
        scan_fraction(s, p2)
    } else {
        None
    }
}

/// Parses one JSON value beginning at `pos` (leading whitespace allowed).
fn parse_value_exec(s: &[u8], pos: usize, fuel: usize, depth: usize) -> (r: Option<
    (JsonValue, usize),
>)
    requires
        pos <= s@.len(),
    ensures
        ({
            let m = parse_value(s@, pos as int, fuel as nat, depth as nat);
            match r {
                Some(t) => m == Some((t.0@, t.1 as int)) && pos <= t.1 <= s@.len(),
                None => m is None,
            }
        }),
    decreases fuel, s@.len() - pos, 0int,
{
    let len = s.len();
    let p = skip_ws_exec(s, pos);
    if p >= len {
        return None;
    }
    let b = s[p];
    if b == 0x6e {
        if len - p >= 4 && s[p + 1] == 0x75 && s[p + 2] == 0x6c && s[p + 3] == 0x6c {
            Some((JsonValue::Null, p + 4))
        } else {
            None
        }
    } else if b == 0x74 {
        if len - p >= 4 && s[p + 1] == 0x72 && s[p + 2] == 0x75 && s[p + 3] == 0x65 {
            Some((JsonValue::Boolean(true), p + 4))
        } else {
            None
        }
    } else if b == 0x66 {
        if len - p >= 5 && s[p + 1] == 0x61 && s[p + 2] == 0x6c && s[p + 3] == 0x73 && s[p + 4]
            == 0x65 {
            Some((JsonValue::Boolean(false), p + 5))
        } else {
            None
        }
    } else if b == 0x22 {
        match parse_text(s, p + 1) {
            Some(t) => Some((JsonValue::Text(t.0), t.1)),
            None => None,
        }
    } else if b == 0x2d || (0x30 <= b && b <= 0x39) {
        match scan_number(s, p) {
            Some(end) => {
                let tok = vstd::slice::slice_to_vec(vstd::slice::slice_subrange(s, p, end));
                Some((JsonValue::Number(tok), end))
            },
            None => None,
        }
    } else if b == 0x5b {
        if depth == 0 {
            None
        } else {
            let q = skip_ws_exec(s, p + 1);
            if q < len && s[q] == 0x5d {
                assert(seq_models(Seq::<JsonValue>::empty()) =~= Seq::<JsonModel>::empty());
                Some((JsonValue::Array(Vec::new()), q + 1))
            } else {
                match parse_elements_exec(s, p + 1, fuel, depth - 1) {
                    Some(t) => Some((JsonValue::Array(t.0), t.1)),
                    None => None,
                }
            }
        }
    } else if b == 0x7b {
        if depth == 0 {
            None
        } else {
            let q = skip_ws_exec(s, p + 1);
            if q < len && s[q] == 0x7d {
                assert(seq_member_models(Seq::<(Vec<u8>, JsonValue)>::empty()) =~= Seq::<
                    (Seq<u8>, JsonModel),
                >::empty());
                Some((JsonValue::Object(Vec::new()), q + 1))
            } else {
                match parse_members_exec(s, p + 1, fuel, depth - 1) {
                    Some(t) => Some((JsonValue::Object(t.0), t.1)),
                    None => None,
                }
            }
        }
    } else {
        None
    }
}

/// Parses the elements of a non-empty array, the opening bracket consumed.
fn parse_elements_exec(s: &[u8], pos: usize, fuel: usize, depth: usize) -> (r: Option<
    (Vec<JsonValue>, usize),
>)
    requires
        pos <= s@.len(),
    ensures
        ({
            let m = parse_elements(s@, pos as int, fuel as nat, depth as nat, Seq::empty());
            match r {
                Some(t) => m == Some((seq_models(t.0@), t.1 as int)) && pos <= t.1 <= s@.len(),
                None => m is None,
            }
        }),
    decreases fuel, s@.len() - pos, 1int,
{
    let len = s.len();
    let mut cur = pos;
    let mut fuel_cur = fuel;
    let mut acc: Vec<JsonValue> = Vec::new();
    assert(seq_models(acc@) =~= Seq::<JsonModel>::empty());
    loop
        invariant
            pos <= cur <= len,
            len == s@.len(),
            fuel_cur <= fuel,
            fuel_cur == fuel ==> cur == pos,
            parse_elements(s@, pos as int, fuel as nat, depth as nat, Seq::empty())
                == parse_elements(s@, cur as int, fuel_cur as nat, depth as nat, seq_models(acc@)),
        decreases fuel_cur,
    {
        match parse_value_exec(s, cur, fuel_cur, depth) {
            Some(t) => {
                let v = t.0;
                let c = skip_ws_exec(s, t.1);
                if c < len && s[c] == 0x2c {
                    if fuel_cur == 0 {
                        return None;
                    }
                    proof {
                        lemma_seq_models_push(acc@, v);
                    }
                    acc.push(v);
                    cur = c + 1;
                    fuel_cur = fuel_cur - 1;
                } else if c < len && s[c] == 0x5d {
                    proof {
                        lemma_seq_models_push(acc@, v);
                    }
                    acc.push(v);
                    return Some((acc, c + 1));
                } else {
                    return None;
                }
            },
            None => {
                return None;
            },
        }
    }
}

/// Parses the members of a non-empty object, the opening brace consumed.
fn parse_members_exec(s: &[u8], pos: usize, fuel: usize, depth: usize) -> (r: Option<
    (Vec<(Vec<u8>, JsonValue)>, usize),
>)
    requires
        pos <= s@.len(),
    ensures
        ({
            let m = parse_members(s@, pos as int, fuel as nat, depth as nat, Seq::empty());
            match r {
                Some(t) => m == Some((seq_member_models(t.0@), t.1 as int)) && pos <= t.1
                    <= s@.len(),
                None => m is None,
            }
        }),
    decreases fuel, s@.len() - pos, 1int,
{
    let len = s.len();
    let mut cur = pos;
    let mut fuel_cur = fuel;
    let mut acc: Vec<(Vec<u8>, JsonValue)> = Vec::new();
    assert(seq_member_models(acc@) =~= Seq::<(Seq<u8>, JsonModel)>::empty());
    loop
        invariant
            pos <= cur <= len,
            len == s@.len(),
            fuel_cur <= fuel,
            fuel_cur == fuel ==> cur == pos,
            parse_members(s@, pos as int, fuel as nat, depth as nat, Seq::empty())
                == parse_members(
                s@,
                cur as int,
                fuel_cur as nat,
                depth as nat,
                seq_member_models(acc@),
            ),
        decreases fuel_cur,
    {
        let p = skip_ws_exec(s, cur);
        if !(p < len && s[p] == 0x22) {
            return None;
        }
        match parse_text(s, p + 1) {
            Some(k) => {
                let c = skip_ws_exec(s, k.1);
                if !(c < len && s[c] == 0x3a) {
                    return None;
                }
                match parse_value_exec(s, c + 1, fuel_cur, depth) {
                    Some(t) => {
                        let c2 = skip_ws_exec(s, t.1);
                        if c2 < len && s[c2] == 0x2c {
                            if fuel_cur == 0 {
                                return None;
                            }
                            proof {
                                lemma_seq_member_models_push(acc@, (k.0, t.0));
                            }
                            acc.push((k.0, t.0));
                            cur = c2 + 1;
                            fuel_cur = fuel_cur - 1;
                        } else if c2 < len && s[c2] == 0x7d {
                            proof {
                                lemma_seq_member_models_push(acc@, (k.0, t.0));
                            }
                            acc.push((k.0, t.0));
                            return Some((acc, c2 + 1));
                        } else {
                            return None;
                        }
                    },
                    None => {
                        return None;
                    },
                }
            },
            None => {
                return None;
            },
        }
    }
}

/// Parses a JSON document; returns its value, or `None` when the bytes are
/// not a well-formed document.
pub fn parse_json(s: &[u8]) -> (r: Option<JsonValue>)
    ensures
        match r {
            Some(v) => parse_document(s@) == Some(v@),
            None => parse_document(s@) is None,
        },
{
    let len = s.len();
    match parse_value_exec(s, 0, len, MAX_DEPTH) {
        Some(t) => {
            let e = skip_ws_exec(s, t.1);
            if e == len {
                Some(t.0)
            } else {
                None
            }
        },
        None => None,
    }
}

} // verus!
