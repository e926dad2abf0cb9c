//! JSON document model and text codec.
//!
//! The wire protocol exchanges JSON text frames.  `Json` is the document
//! model the protocol types are encoded into; `JsonV` is its mathematical
//! shape, used by every contract.  `write_json` prints a document exactly as
//! the spec-level serializer `ser` describes, and `parse_text` reads text
//! back according to the spec-level parser `parse_doc`.  The two directions
//! are tied together by the round-trip law `lemma_parse_doc_ser`.
//!
//! Numbers within the 64-bit signed integer model are plain values; every
//! other number (fractional, exponent or oversized) is carried losslessly
//! as its lexical text and printed back verbatim.
//! String escapes cover the short forms, four-hex `\uXXXX` scalar values,
//! and surrogate pairs, combined into the supplementary-plane character
//! they stand for.

use vstd::prelude::*;

verus! {

/// A JSON document.
#[derive(Debug)]
pub enum Json {
    Null,
    Bool(bool),
    Int(i64),
    /// A number outside the 64-bit integer model (fractional, exponent or
    /// oversized), carried losslessly as its lexical text.
    Num(String),
    Str(String),
    Arr(Vec<Json>),
    Obj(Vec<(String, Json)>),
}

/// The mathematical shape of a JSON document: what contracts speak about.
#[verifier::ext_equal]
pub enum JsonV {
    Null,
    Bool(bool),
    Int(int),
    Num(Seq<char>),
    Str(Seq<char>),
    Arr(Seq<JsonV>),
    Obj(Seq<(Seq<char>, JsonV)>),
}

impl Json {
    /// The mathematical tree a document stands for.
    pub open spec fn dv(self) -> JsonV
        decreases self, 1int,
    {
        match self {
            Json::Null => JsonV::Null,
            Json::Bool(b) => JsonV::Bool(b),
            Json::Int(i) => JsonV::Int(i as int),
            Json::Num(s) => JsonV::Num(s@),
            Json::Str(s) => JsonV::Str(s@),
            Json::Arr(items) => JsonV::Arr(dv_seq(items@)),
            Json::Obj(fields) => JsonV::Obj(dv_fields(fields@)),
        }
    }
}

/// The trees a sequence of documents stands for.
pub open spec fn dv_seq(items: Seq<Json>) -> Seq<JsonV>
    decreases items, 0int,
{
    if items.len() == 0 {
        Seq::empty()
    } else {
        seq![items[0].dv()] + dv_seq(items.drop_first())
    }
}

/// The key/tree pairs a sequence of document members stands for.
pub open spec fn dv_fields(fields: Seq<(String, Json)>) -> Seq<(Seq<char>, JsonV)>
    decreases fields, 0int,
{
    if fields.len() == 0 {
        Seq::empty()
    } else {
        seq![(fields[0].0@, fields[0].1.dv())] + dv_fields(fields.drop_first())
    }
}

impl View for Json {
    type V = JsonV;

    open spec fn view(&self) -> JsonV {
        self.dv()
    }
}

/// Trees whose integers fit in the 64-bit model: every `Json` view is such.
pub open spec fn wf(v: JsonV) -> bool
    decreases v,
{
    match v {
        JsonV::Null => true,
        JsonV::Bool(_) => true,
        JsonV::Int(i) => i64::MIN <= i <= i64::MAX,
        JsonV::Num(t) => parse_number(t, 0) == Some((JsonV::Num(t), t.len() as int)),
        JsonV::Str(_) => true,
        JsonV::Arr(a) => forall|i: int| 0 <= i < a.len() ==> wf(#[trigger] a[i]),
        JsonV::Obj(o) => forall|i: int| 0 <= i < o.len() ==> wf(#[trigger] o[i].1),
    }
}

/// `dv_seq` is the element-wise view.
pub proof fn lemma_dv_seq(items: Seq<Json>)
    ensures
        dv_seq(items).len() == items.len(),
        forall|i: int| 0 <= i < items.len() ==> dv_seq(items)[i] == (#[trigger] items[i]).dv(),
    decreases items.len(),
{
    if items.len() > 0 {
        lemma_dv_seq(items.drop_first());
        assert forall|i: int| 0 <= i < items.len() implies dv_seq(items)[i] == (
        #[trigger] items[i]).dv() by {
            if i > 0 {
                assert(items.drop_first()[i - 1] == items[i]);
                assert(dv_seq(items)[i] == dv_seq(items.drop_first())[i - 1]);
            }
        }
    }
}

/// `dv_fields` is the member-wise view.
pub proof fn lemma_dv_fields(fields: Seq<(String, Json)>)
    ensures
        dv_fields(fields).len() == fields.len(),
        forall|i: int| 0 <= i < fields.len() ==> dv_fields(fields)[i] == (
        (#[trigger] fields[i]).0@,
        fields[i].1.dv(),
        ),
    decreases fields.len(),
{
    if fields.len() > 0 {
        lemma_dv_fields(fields.drop_first());
        assert forall|i: int| 0 <= i < fields.len() implies dv_fields(fields)[i] == (
        (#[trigger] fields[i]).0@,
        fields[i].1.dv(),
        ) by {
            if i > 0 {
                assert(fields.drop_first()[i - 1] == fields[i]);
                assert(dv_fields(fields)[i] == dv_fields(fields.drop_first())[i - 1]);
            }
        }
    }
}

/// A document's tree has the same variant as the document.
pub proof fn lemma_dv_variant(j: Json)
    ensures
        j.dv() is Null <==> j is Null,
        j.dv() is Bool <==> j is Bool,
        j.dv() is Int <==> j is Int,
        j.dv() is Num <==> j is Num,
        j.dv() is Str <==> j is Str,
        j.dv() is Arr <==> j is Arr,
        j.dv() is Obj <==> j is Obj,
{
    match j {
        Json::Null => {}
        Json::Bool(_) => {}
        Json::Int(_) => {}
        Json::Num(_) => {}
        Json::Str(_) => {}
        Json::Arr(_) => {}
        Json::Obj(_) => {}
    }
}

// ── Spec-level serializer ───────────────────────────────────────────

/// The character for a decimal digit value.
pub open spec fn digit_char(d: int) -> char {
    if d == 0 { '0' }
    else if d == 1 { '1' }
    else if d == 2 { '2' }
    else if d == 3 { '3' }
    else if d == 4 { '4' }
    else if d == 5 { '5' }
    else if d == 6 { '6' }
    else if d == 7 { '7' }
    else if d == 8 { '8' }
    else { '9' }
}

/// The lower-case character for a hexadecimal digit value.
pub open spec fn hex_char(d: int) -> char {
    if d < 10 { digit_char(d) }
    else if d == 10 { 'a' }
    else if d == 11 { 'b' }
    else if d == 12 { 'c' }
    else if d == 13 { 'd' }
    else if d == 14 { 'e' }
    else { 'f' }
}

/// Decimal digits of a non-negative integer, most significant first.
pub open spec fn dec_digits(n: int) -> Seq<char>
    decreases n,
{
    if n < 10 {
        seq![digit_char(n)]
    } else {
        dec_digits(n / 10).push(digit_char(n % 10))
    }
}

/// A JSON integer literal: optional minus sign, then decimal digits.
pub open spec fn ser_int(i: int) -> Seq<char> {
    if i < 0 {
        seq!['-'] + dec_digits(-i)
    } else {
        dec_digits(i)
    }
}

/// How one character is written inside a JSON string literal.
pub open spec fn esc_char(c: char) -> Seq<char> {
    if c == '"' { seq!['\\', '"'] }
    else if c == '\\' { seq!['\\', '\\'] }
    else if c == '\u{08}' { seq!['\\', 'b'] }
    else if c == '\t' { seq!['\\', 't'] }
    else if c == '\n' { seq!['\\', 'n'] }
    else if c == '\u{0c}' { seq!['\\', 'f'] }
    else if c == '\r' { seq!['\\', 'r'] }
    else if (c as u32) < 32 {
        seq!['\\', 'u', '0', '0', hex_char((c as u32) as int / 16), hex_char((c as u32) as int % 16)]
    } else {
        seq![c]
    }
}

/// A string's characters, each escaped as JSON requires.
pub open spec fn esc_str(s: Seq<char>) -> Seq<char>
    decreases s.len(),
{
    if s.len() == 0 {
        Seq::empty()
    } else {
        esc_char(s[0]) + esc_str(s.drop_first())
    }
}

/// The canonical text of a document: no whitespace, as the wire peer writes it.
pub open spec fn ser(v: JsonV) -> Seq<char>
    decreases v, 1int,
{
    match v {
        JsonV::Null => seq!['n', 'u', 'l', 'l'],
        JsonV::Bool(b) => if b {
            seq!['t', 'r', 'u', 'e']
        } else {
            seq!['f', 'a', 'l', 's', 'e']
        },
        JsonV::Int(i) => ser_int(i),
        JsonV::Num(t) => t,
        JsonV::Str(s) => seq!['"'] + esc_str(s) + seq!['"'],
        JsonV::Arr(a) => seq!['['] + ser_items(a) + seq![']'],
        JsonV::Obj(o) => seq!['{'] + ser_fields(o) + seq!['}'],
    }
}

/// Comma-separated document texts.
pub open spec fn ser_items(a: Seq<JsonV>) -> Seq<char>
    decreases a, 0int,
{
    if a.len() == 0 {
        Seq::empty()
    } else if a.len() == 1 {
        ser(a[0])
    } else {
        ser(a[0]) + seq![','] + ser_items(a.drop_first())
    }
}

/// Comma-separated `"key":value` member texts.
pub open spec fn ser_fields(o: Seq<(Seq<char>, JsonV)>) -> Seq<char>
    decreases o, 0int,
{
    if o.len() == 0 {
        Seq::empty()
    } else {
        let head = seq!['"'] + esc_str(o[0].0) + seq!['"', ':'] + ser(o[0].1);
        if o.len() == 1 {
            head
        } else {
            head + seq![','] + ser_fields(o.drop_first())
        }
    }
}

// ── Spec-level parser ───────────────────────────────────────────────

/// JSON whitespace.
pub open spec fn is_ws(c: char) -> bool {
    c == ' ' || c == '\t' || c == '\n' || c == '\r'
}

/// A decimal digit.
pub open spec fn is_digit(c: char) -> bool {
    48 <= c as u32 <= 57
}

pub open spec fn digit_val(c: char) -> int {
    c as u32 - 48
}

/// A hexadecimal digit, either case.
pub open spec fn is_hex(c: char) -> bool {
    is_digit(c) || (97 <= c as u32 <= 102) || (65 <= c as u32 <= 70)
}

pub open spec fn hex_val(c: char) -> int {
    if is_digit(c) {
        digit_val(c)
    } else if 97 <= c as u32 {
        c as u32 - 87
    } else {
        c as u32 - 55
    }
}

/// The first position at or after `i` holding no whitespace.
pub open spec fn skip_ws(s: Seq<char>, i: int) -> int
    decreases s.len() - i,
{
    if 0 <= i < s.len() && is_ws(s[i]) {
        skip_ws(s, i + 1)
    } else {
        i
    }
}

pub proof fn lemma_skip_ws(s: Seq<char>, i: int)
    requires
        0 <= i <= s.len(),
    ensures
        i <= skip_ws(s, i) <= s.len(),
        forall|x: int| i <= x < skip_ws(s, i) ==> is_ws(s[x]),
        skip_ws(s, i) == s.len() || !is_ws(s[skip_ws(s, i)]),
    decreases s.len() - i,
{
    if i < s.len() && is_ws(s[i]) {
        lemma_skip_ws(s, i + 1);
    }
}

/// The end of the digit run starting at `i`.
pub open spec fn scan_digits(s: Seq<char>, i: int) -> int
    decreases s.len() - i,
{
    if 0 <= i < s.len() && is_digit(s[i]) {
        scan_digits(s, i + 1)
    } else {
        i
    }
}

pub proof fn lemma_scan_digits(s: Seq<char>, i: int)
    requires
        0 <= i <= s.len(),
    ensures
        i <= scan_digits(s, i) <= s.len(),
        forall|x: int| i <= x < scan_digits(s, i) ==> is_digit(s[x]),
        scan_digits(s, i) == s.len() || !is_digit(s[scan_digits(s, i)]),
    decreases s.len() - i,
{
    if i < s.len() && is_digit(s[i]) {
        lemma_scan_digits(s, i + 1);
    }
}

/// The value of the digit run `s[i..j)`, most significant first.
pub open spec fn digits_val(s: Seq<char>, i: int, j: int) -> int
    decreases j - i,
{
    if i >= j {
        0
    } else {
        digits_val(s, i, j - 1) * 10 + digit_val(s[j - 1])
    }
}

/// A character that could extend a number lexeme.
pub open spec fn num_cont(c: char) -> bool {
    is_digit(c) || c == '.' || c == 'e' || c == 'E'
}

/// The end of the optional fraction part at `e`: a dot must be followed by
/// at least one digit.
pub open spec fn scan_frac(s: Seq<char>, e: int) -> Option<int> {
    if 0 <= e < s.len() && s[e] == '.' {
        let d = scan_digits(s, e + 1);
        if d <= e + 1 {
            None
        } else {
            Some(d)
        }
    } else {
        Some(e)
    }
}

/// The end of the optional exponent part at `e`: the marker, an optional
/// sign, then at least one digit.
pub open spec fn scan_exp(s: Seq<char>, e: int) -> Option<int> {
    if 0 <= e < s.len() && (s[e] == 'e' || s[e] == 'E') {
        let p = if e + 1 < s.len() && (s[e + 1] == '+' || s[e + 1] == '-') {
            e + 2
        } else {
            e + 1
        };
        let d = scan_digits(s, p);
        if d <= p {
            None
        } else {
            Some(d)
        }
    } else {
        Some(e)
    }
}

/// A JSON number at `i`: optional minus sign, digits, optional fraction and
/// exponent.  A plain integer within the 64-bit model becomes an integer
/// value; every other number keeps its lexical text.
pub open spec fn parse_number(s: Seq<char>, i: int) -> Option<(JsonV, int)> {
    let neg = 0 <= i < s.len() && s[i] == '-';
    let k = if neg { i + 1 } else { i };
    let e1 = scan_digits(s, k);
    if e1 <= k {
        None
    } else {
        match scan_frac(s, e1) {
            None => None,
            Some(e2) => match scan_exp(s, e2) {
                None => None,
                Some(e3) => {
                    if e3 == e1 {
                        let m = digits_val(s, k, e1);
                        let n: int = if neg { -m } else { m };
                        if i64::MIN <= n <= i64::MAX {
                            Some((JsonV::Int(n), e1))
                        } else {
                            Some((JsonV::Num(s.subrange(i, e1)), e1))
                        }
                    } else {
                        Some((JsonV::Num(s.subrange(i, e3)), e3))
                    }
                }
            },
        }
    }
}

/// The body of a string literal from `i` (past the opening quote) up to and
/// including the closing quote: the decoded characters and the position
/// after the closing quote.  Accepted escapes are the short forms, four-hex
/// `\uXXXX` for any scalar value in the basic plane, and surrogate pairs
/// for the supplementary planes; an unpaired surrogate half and raw control
/// characters are refused.
pub open spec fn parse_string_rest(s: Seq<char>, i: int) -> Option<(Seq<char>, int)>
    decreases s.len() - i,
{
    if !(0 <= i < s.len()) {
        None
    } else if s[i] == '"' {
        Some((Seq::empty(), i + 1))
    } else if s[i] == '\\' {
        if i + 1 >= s.len() {
            None
        } else {
            let e = s[i + 1];
            if e == 'u' {
                if i + 6 <= s.len() && is_hex(s[i + 2]) && is_hex(s[i + 3]) && is_hex(s[i + 4])
                    && is_hex(s[i + 5]) {
                    let cp = hex_val(s[i + 2]) * 4096 + hex_val(s[i + 3]) * 256 + hex_val(
                        s[i + 4],
                    ) * 16 + hex_val(s[i + 5]);
                    if cp < 0xD800 || 0xDFFF < cp {
                        let c = ((cp as u32) as char);
                        match parse_string_rest(s, i + 6) {
                            Some((rest, j)) => Some((seq![c] + rest, j)),
                            None => None,
                        }
                    } else if cp <= 0xDBFF {
                        // A high surrogate half: it must be followed by an
                        // escaped low half, the pair standing for one
                        // supplementary-plane character.
                        if i + 12 <= s.len() && s[i + 6] == '\\' && s[i + 7] == 'u' && is_hex(
                            s[i + 8],
                        ) && is_hex(s[i + 9]) && is_hex(s[i + 10]) && is_hex(s[i + 11]) {
                            let lo = hex_val(s[i + 8]) * 4096 + hex_val(s[i + 9]) * 256
                                + hex_val(s[i + 10]) * 16 + hex_val(s[i + 11]);
                            if 0xDC00 <= lo <= 0xDFFF {
                                let c = ((0x10000 + (cp - 0xD800) * 0x400 + (lo - 0xDC00))
                                    as u32) as char;
                                match parse_string_rest(s, i + 12) {
                                    Some((rest, j)) => Some((seq![c] + rest, j)),
                                    None => None,
                                }
                            } else {
                                None
                            }
                        } else {
                            None
                        }
                    } else {
                        None
                    }
                } else {
                    None
                }
            } else {
                match unescape(e) {
                    Some(c) => match parse_string_rest(s, i + 2) {
                        Some((rest, j)) => Some((seq![c] + rest, j)),
                        None => None,
                    },
                    None => None,
                }
            }
        }
    } else if (s[i] as u32) < 32 {
        None
    } else {
        match parse_string_rest(s, i + 1) {
            Some((rest, j)) => Some((seq![s[i]] + rest, j)),
            None => None,
        }
    }
}

/// The character a short escape stands for.
pub open spec fn unescape(e: char) -> Option<char> {
    if e == '"' { Some('"') }
    else if e == '\\' { Some('\\') }
    else if e == '/' { Some('/') }
    else if e == 'b' { Some('\u{08}') }
    else if e == 't' { Some('\t') }
    else if e == 'n' { Some('\n') }
    else if e == 'f' { Some('\u{0c}') }
    else if e == 'r' { Some('\r') }
    else { None }
}

/// A JSON value at `i` (no leading whitespace): the tree and the position
/// just past its text.
pub open spec fn parse_val(s: Seq<char>, i: int) -> Option<(JsonV, int)>
    decreases s.len() - i, 2int,
{
    if !(0 <= i < s.len()) {
        None
    } else {
        let c = s[i];
        if c == 'n' {
            if i + 4 <= s.len() && s[i + 1] == 'u' && s[i + 2] == 'l' && s[i + 3] == 'l' {
                Some((JsonV::Null, i + 4))
            } else {
                None
            }
        } else if c == 't' {
            if i + 4 <= s.len() && s[i + 1] == 'r' && s[i + 2] == 'u' && s[i + 3] == 'e' {
                Some((JsonV::Bool(true), i + 4))
            } else {
                None
            }
        } else if c == 'f' {
            if i + 5 <= s.len() && s[i + 1] == 'a' && s[i + 2] == 'l' && s[i + 3] == 's' && s[i
                + 4] == 'e' {
                Some((JsonV::Bool(false), i + 5))
            } else {
                None
            }
        } else if c == '"' {
            match parse_string_rest(s, i + 1) {
                Some((text, j)) => Some((JsonV::Str(text), j)),
                None => None,
            }
        } else if c == '[' {
            let j = skip_ws(s, i + 1);
            if j < i + 1 || j > s.len() {
                None
            } else if j < s.len() && s[j] == ']' {
                Some((JsonV::Arr(Seq::empty()), j + 1))
            } else {
                match parse_items(s, j) {
                    Some((a, k)) => Some((JsonV::Arr(a), k)),
                    None => None,
                }
            }
        } else if c == '{' {
            let j = skip_ws(s, i + 1);
            if j < i + 1 || j > s.len() {
                None
            } else if j < s.len() && s[j] == '}' {
                Some((JsonV::Obj(Seq::empty()), j + 1))
            } else {
                match parse_members(s, j) {
                    Some((o, k)) => Some((JsonV::Obj(o), k)),
                    None => None,
                }
            }
        } else if c == '-' || is_digit(c) {
            parse_number(s, i)
        } else {
            None
        }
    }
}

/// One or more comma-separated values ending at `]`, starting at `i`.
pub open spec fn parse_items(s: Seq<char>, i: int) -> Option<(Seq<JsonV>, int)>
    decreases s.len() - i, 3int,
{
    match parse_val(s, i) {
        None => None,
        Some((v, j)) => {
            if j <= i || j > s.len() {
                None
            } else {
                let k = skip_ws(s, j);
                if k < j || k > s.len() {
                    None
                } else if k < s.len() && s[k] == ',' {
                    let m = skip_ws(s, k + 1);
                    if m < k + 1 || m > s.len() {
                        None
                    } else {
                        match parse_items(s, m) {
                            Some((rest, e)) => Some((seq![v] + rest, e)),
                            None => None,
                        }
                    }
                } else if k < s.len() && s[k] == ']' {
                    Some((seq![v], k + 1))
                } else {
                    None
                }
            }
        }
    }
}

/// One or more comma-separated `"key":value` members ending at `}`.
pub open spec fn parse_members(s: Seq<char>, i: int) -> Option<(Seq<(Seq<char>, JsonV)>, int)>
    decreases s.len() - i, 3int,
{
    if !(0 <= i < s.len() && s[i] == '"') {
        None
    } else {
        match parse_string_rest(s, i + 1) {
            None => None,
            Some((key, j)) => {
                if j <= i + 1 || j > s.len() {
                    None
                } else {
                    let k = skip_ws(s, j);
                    if k < j || k > s.len() {
                        None
                    } else if k < s.len() && s[k] == ':' {
                        let m = skip_ws(s, k + 1);
                        if m < k + 1 || m > s.len() {
                            None
                        } else {
                            match parse_val(s, m) {
                                None => None,
                                Some((v, e)) => {
                                    if e <= m || e > s.len() {
                                        None
                                    } else {
                                        let f = skip_ws(s, e);
                                        if f < e || f > s.len() {
                                            None
                                        } else if f < s.len() && s[f] == ',' {
                                            let g = skip_ws(s, f + 1);
                                            if g < f + 1 || g > s.len() {
                                                None
                                            } else {
                                                match parse_members(s, g) {
                                                    Some((rest, h)) => Some(
                                                        (seq![(key, v)] + rest, h),
                                                    ),
                                                    None => None,
                                                }
                                            }
                                        } else if f < s.len() && s[f] == '}' {
                                            Some((seq![(key, v)], f + 1))
                                        } else {
                                            None
                                        }
                                    }
                                }
                            }
                        }
                    } else {
                        None
                    }
                }
            }
        }
    }
}

/// A whole text frame: one value, surrounded by optional whitespace.
pub open spec fn parse_doc(s: Seq<char>) -> Option<JsonV> {
    match parse_val(s, skip_ws(s, 0)) {
        Some((v, j)) => if skip_ws(s, j) == s.len() {
            Some(v)
        } else {
            None
        },
        None => None,
    }
}

// ── Executable printer ──────────────────────────────────────────────

/// Relies on `char::from_u32`: `Some` exactly for a Unicode scalar value
/// (not a surrogate half, at most 0x10FFFF), holding the character with
/// that code point.
pub assume_specification[ char::from_u32 ](u: u32) -> (r: Option<char>)
    ensures
        r is Some <==> (u < 0xD800 || (0xDFFF < u && u <= 0x10FFFF)),
        r matches Some(c) ==> c as u32 == u,
;

/// Relies on `String::push`: appends exactly the given character.
#[verifier::external_body]
pub(crate) fn push_char(out: &mut String, c: char)
    ensures
        final (out)@ == old(out)@.push(c),
{
    out.push(c);
}

fn digit_char_exec(d: u8) -> (c: char)
    requires
        d < 10,
    ensures
        c == digit_char(d as int),
{
    if d == 0 { '0' }
    else if d == 1 { '1' }
    else if d == 2 { '2' }
    else if d == 3 { '3' }
    else if d == 4 { '4' }
    else if d == 5 { '5' }
    else if d == 6 { '6' }
    else if d == 7 { '7' }
    else if d == 8 { '8' }
    else { '9' }
}

fn hex_char_exec(d: u8) -> (c: char)
    requires
        d < 16,
    ensures
        c == hex_char(d as int),
{
    if d < 10 { digit_char_exec(d) }
    else if d == 10 { 'a' }
    else if d == 11 { 'b' }
    else if d == 12 { 'c' }
    else if d == 13 { 'd' }
    else if d == 14 { 'e' }
    else { 'f' }
}

fn write_u64(n: u64, out: &mut String)
    ensures
        final (out)@ == old(out)@ + dec_digits(n as int),
    decreases n,
{
    if n < 10 {
        push_char(out, digit_char_exec(n as u8));
    } else {
        write_u64(n / 10, out);
        push_char(out, digit_char_exec((n % 10) as u8));
    }
}

fn write_i64(i: i64, out: &mut String)
    ensures
        final (out)@ == old(out)@ + ser_int(i as int),
{
    if i < 0 {
        push_char(out, '-');
        let m: u64 = if i == i64::MIN {
            9223372036854775808u64
        } else {
            (-i) as u64
        };
        write_u64(m, out);
    } else {
        write_u64(i as u64, out);
    }
}

fn write_escaped_char(c: char, out: &mut String)
    ensures
        final (out)@ == old(out)@ + esc_char(c),
{
    if c == '"' {
        push_char(out, '\\');
        push_char(out, '"');
    } else if c == '\\' {
        push_char(out, '\\');
        push_char(out, '\\');
    } else if c == '\u{08}' {
        push_char(out, '\\');
        push_char(out, 'b');
    } else if c == '\t' {
        push_char(out, '\\');
        push_char(out, 't');
    } else if c == '\n' {
        push_char(out, '\\');
        push_char(out, 'n');
    } else if c == '\u{0c}' {
        push_char(out, '\\');
        push_char(out, 'f');
    } else if c == '\r' {
        push_char(out, '\\');
        push_char(out, 'r');
    } else if (c as u32) < 32 {
        let u: u32 = c as u32;
        push_char(out, '\\');
        push_char(out, 'u');
        push_char(out, '0');
        push_char(out, '0');
        push_char(out, hex_char_exec((u / 16) as u8));
        push_char(out, hex_char_exec((u % 16) as u8));
    } else {
        push_char(out, c);
    }
}

fn write_escaped_from(s: &str, n: usize, i: usize, out: &mut String)
    requires
        n == s@.len(),
        i <= n,
    ensures
        final (out)@ == old(out)@ + esc_str(s@.subrange(i as int, s@.len() as int)),
    decreases n - i,
{
    if i < n {
        let c = s.get_char(i);
        write_escaped_char(c, out);
        write_escaped_from(s, n, i + 1, out);
        proof {
            let tail = s@.subrange(i as int, s@.len() as int);
            assert(tail.drop_first() =~= s@.subrange(i + 1 as int, s@.len() as int));
            assert(tail[0] == s@[i as int]);
        }
    } else {
        proof {
            assert(s@.subrange(i as int, s@.len() as int) =~= Seq::<char>::empty());
        }
    }
}

fn write_string_literal(s: &str, out: &mut String)
    ensures
        final (out)@ == old(out)@ + seq!['"'] + esc_str(s@) + seq!['"'],
{
    push_char(out, '"');
    let n = s.unicode_len();
    write_escaped_from(s, n, 0, out);
    push_char(out, '"');
    proof {
        assert(s@.subrange(0, s@.len() as int) =~= s@);
    }
}

/// Appends the canonical text of `v` to `out`.
pub fn write_json(v: &Json, out: &mut String)
    ensures
        final (out)@ == old(out)@ + ser(v@),
    decreases v, 1int, 0int,
{
    match v {
        Json::Null => {
            push_char(out, 'n');
            push_char(out, 'u');
            push_char(out, 'l');
            push_char(out, 'l');
        }
        Json::Bool(b) => {
            if *b {
                push_char(out, 't');
                push_char(out, 'r');
                push_char(out, 'u');
                push_char(out, 'e');
            } else {
                push_char(out, 'f');
                push_char(out, 'a');
                push_char(out, 'l');
                push_char(out, 's');
                push_char(out, 'e');
            }
        }
        Json::Int(i) => {
            write_i64(*i, out);
        }
        Json::Num(s) => {
            out.append(s.as_str());
        }
        Json::Str(s) => {
            write_string_literal(s.as_str(), out);
        }
        Json::Arr(items) => {
            push_char(out, '[');
            write_items(items, 0, out);
            push_char(out, ']');
            proof {
                assert(items@.subrange(0, items@.len() as int) =~= items@);
            }
        }
        Json::Obj(fields) => {
            push_char(out, '{');
            write_members(fields, 0, out);
            push_char(out, '}');
            proof {
                assert(fields@.subrange(0, fields@.len() as int) =~= fields@);
            }
        }
    }
}

fn write_items(items: &Vec<Json>, i: usize, out: &mut String)
    requires
        i <= items@.len(),
    ensures
        final (out)@ == old(out)@ + ser_items(
            dv_seq(items@.subrange(i as int, items@.len() as int)),
        ),
    decreases items, 0int, items@.len() - i,
{
    if i < items.len() {
        write_json(&items[i], out);
        if i + 1 < items.len() {
            push_char(out, ',');
        }
        write_items(items, i + 1, out);
        proof {
            let sub = items@.subrange(i as int, items@.len() as int);
            assert(sub.drop_first() =~= items@.subrange(i + 1 as int, items@.len() as int));
            assert(sub[0] == items@[i as int]);
            lemma_dv_seq(sub);
            assert(dv_seq(sub).drop_first() =~= dv_seq(sub.drop_first())) by {
                lemma_dv_seq(sub.drop_first());
            }
            assert(dv_seq(sub) == seq![sub[0].dv()] + dv_seq(sub.drop_first()));
        }
    } else {
        proof {
            assert(items@.subrange(i as int, items@.len() as int) =~= Seq::<Json>::empty());
        }
    }
}

fn write_members(fields: &Vec<(String, Json)>, i: usize, out: &mut String)
    requires
        i <= fields@.len(),
    ensures
        final (out)@ == old(out)@ + ser_fields(
            dv_fields(fields@.subrange(i as int, fields@.len() as int)),
        ),
    decreases fields, 0int, fields@.len() - i,
{
    if i < fields.len() {
        write_string_literal(fields[i].0.as_str(), out);
        push_char(out, ':');
        write_json(&fields[i].1, out);
        if i + 1 < fields.len() {
            push_char(out, ',');
        }
        write_members(fields, i + 1, out);
        proof {
            let sub = fields@.subrange(i as int, fields@.len() as int);
            assert(sub.drop_first() =~= fields@.subrange(i + 1 as int, fields@.len() as int));
            assert(sub[0] == fields@[i as int]);
            lemma_dv_fields(sub);
            assert(dv_fields(sub).drop_first() =~= dv_fields(sub.drop_first())) by {
                lemma_dv_fields(sub.drop_first());
            }
            assert(dv_fields(sub) == seq![(sub[0].0@, sub[0].1.dv())] + dv_fields(
                sub.drop_first(),
            ));
        }
    } else {
        proof {
            assert(fields@.subrange(i as int, fields@.len() as int) =~= Seq::<
                (String, Json),
            >::empty());
        }
    }
}

/// The canonical text of a document, exactly as `ser` describes it.
pub fn to_text(v: &Json) -> (s: String)
    ensures
        s@ == ser(v@),
{
    let mut out = String::new();
    write_json(v, &mut out);
    out
}

// ── Executable parser ───────────────────────────────────────────────

fn is_ws_exec(c: char) -> (r: bool)
    ensures
        r == is_ws(c),
{
    c == ' ' || c == '\t' || c == '\n' || c == '\r'
}

fn is_digit_exec(c: char) -> (r: bool)
    ensures
        r == is_digit(c),
{
    let u: u32 = c as u32;
    48 <= u && u <= 57
}

pub(crate) fn is_hex_exec(c: char) -> (r: bool)
    ensures
        r == is_hex(c),
{
    let u: u32 = c as u32;
    (48 <= u && u <= 57) || (97 <= u && u <= 102) || (65 <= u && u <= 70)
}

pub(crate) fn hex_val_exec(c: char) -> (r: u8)
    requires
        is_hex(c),
    ensures
        r as int == hex_val(c),
        r < 16,
{
    let u: u32 = c as u32;
    if 48 <= u && u <= 57 {
        (u - 48) as u8
    } else if 97 <= u {
        (u - 87) as u8
    } else {
        (u - 55) as u8
    }
}

fn unescape_exec(e: char) -> (r: Option<char>)
    ensures
        r == unescape(e),
{
    if e == '"' { Some('"') }
    else if e == '\\' { Some('\\') }
    else if e == '/' { Some('/') }
    else if e == 'b' { Some('\u{08}') }
    else if e == 't' { Some('\t') }
    else if e == 'n' { Some('\n') }
    else if e == 'f' { Some('\u{0c}') }
    else if e == 'r' { Some('\r') }
    else { None }
}

fn skip_ws_exec(s: &Vec<char>, i: usize) -> (r: usize)
    requires
        i <= s@.len(),
    ensures
        r as int == skip_ws(s@, i as int),
        i <= r <= s@.len(),
{
    let mut j: usize = i;
    while j < s.len() && is_ws_exec(s[j])
        invariant
            i <= j <= s@.len(),
            skip_ws(s@, i as int) == skip_ws(s@, j as int),
        decreases s@.len() - j,
    {
        j = j + 1;
    }
    j
}

fn scan_digits_exec(s: &Vec<char>, i: usize) -> (r: usize)
    requires
        i <= s@.len(),
    ensures
        r as int == scan_digits(s@, i as int),
        i <= r <= s@.len(),
{
    let mut j: usize = i;
    while j < s.len() && is_digit_exec(s[j])
        invariant
            i <= j <= s@.len(),
            scan_digits(s@, i as int) == scan_digits(s@, j as int),
        decreases s@.len() - j,
    {
        j = j + 1;
    }
    j
}

/// A digit run's value never shrinks as the run extends to the right.
proof fn lemma_digits_val_mono(s: Seq<char>, k: int, a: int, b: int)
    requires
        k <= a <= b <= s.len(),
        forall|x: int| k <= x < b ==> is_digit(#[trigger] s[x]),
    ensures
        0 <= digits_val(s, k, a) <= digits_val(s, k, b),
    decreases b - k, b - a,
{
    if a == b {
        if k < b {
            lemma_digits_val_mono(s, k, k, b - 1);
        }
    } else {
        lemma_digits_val_mono(s, k, a, b - 1);
        lemma_digits_val_mono(s, k, b - 1, b - 1);
    }
}

fn chars_string(cs: &Vec<char>, lo: usize, hi: usize) -> (r: String)
    requires
        lo <= hi <= cs@.len(),
    ensures
        r@ == cs@.subrange(lo as int, hi as int),
{
    let mut out = String::new();
    let mut i: usize = lo;
    while i < hi
        invariant
            lo <= i <= hi <= cs@.len(),
            out@ == cs@.subrange(lo as int, i as int),
        decreases hi - i,
    {
        push_char(&mut out, cs[i]);
        i = i + 1;
        proof {
            assert(out@ =~= cs@.subrange(lo as int, i as int));
        }
    }
    out
}

fn parse_number_exec(s: &Vec<char>, i: usize) -> (r: Option<(Json, usize)>)
    requires
        i < s@.len(),
    ensures
        match r {
            Some((v, e)) => parse_number(s@, i as int) == Some((v@, e as int)) && i < e
                <= s@.len(),
            None => parse_number(s@, i as int) is None,
        },
{
    let ghost sv = s@;
    let n = s.len();
    let neg: bool = s[i] == '-';
    let k: usize = if neg {
        i + 1
    } else {
        i
    };
    let e1 = scan_digits_exec(s, k);
    if e1 <= k {
        return None;
    }
    proof {
        lemma_scan_digits(sv, k as int);
    }
    let e2: usize = if e1 < n && s[e1] == '.' {
        let d = scan_digits_exec(s, e1 + 1);
        if d <= e1 + 1 {
            proof {
                assert(scan_frac(sv, e1 as int) is None);
            }
            return None;
        }
        d
    } else {
        e1
    };
    proof {
        assert(scan_frac(sv, e1 as int) == Some(e2 as int));
    }
    let e3: usize = if e2 < n && (s[e2] == 'e' || s[e2] == 'E') {
        let p: usize = if e2 + 1 < n && (s[e2 + 1] == '+' || s[e2 + 1] == '-') {
            e2 + 2
        } else {
            e2 + 1
        };
        let d = scan_digits_exec(s, p);
        if d <= p {
            proof {
                assert(scan_exp(sv, e2 as int) is None);
            }
            return None;
        }
        d
    } else {
        e2
    };
    proof {
        assert(scan_exp(sv, e2 as int) == Some(e3 as int));
    }
    if e3 != e1 {
        let text = chars_string(s, i, e3);
        return Some((Json::Num(text), e3));
    }
    let mut acc: u128 = 0;
    let mut idx: usize = k;
    while idx < e1
        invariant
            i < sv.len(),
            neg == (sv[i as int] == '-'),
            k as int == if neg { i as int + 1 } else { i as int },
            k <= idx <= e1 <= sv.len(),
            sv == s@,
            e1 as int == scan_digits(sv, k as int),
            scan_frac(sv, e1 as int) == Some(e1 as int),
            scan_exp(sv, e1 as int) == Some(e1 as int),
            forall|x: int| k <= x < e1 ==> is_digit(#[trigger] sv[x]),
            acc == digits_val(sv, k as int, idx as int),
            acc <= 0x8000_0000_0000_0000u128,
        decreases e1 - idx,
    {
        let d: u32 = (s[idx] as u32) - 48;
        acc = acc * 10 + (d as u128);
        idx = idx + 1;
        if acc > 0x8000_0000_0000_0000u128 {
            proof {
                assert(digits_val(sv, k as int, idx as int) == digits_val(
                    sv,
                    k as int,
                    idx as int - 1,
                ) * 10 + digit_val(sv[idx as int - 1]));
                lemma_digits_val_mono(sv, k as int, idx as int, e1 as int);
            }
            let text = chars_string(s, i, e1);
            return Some((Json::Num(text), e1));
        }
    }
    if neg {
        if acc == 0x8000_0000_0000_0000u128 {
            Some((Json::Int(i64::MIN), e1))
        } else {
            Some((Json::Int(-(acc as i64)), e1))
        }
    } else {
        if acc == 0x8000_0000_0000_0000u128 {
            let text = chars_string(s, i, e1);
            Some((Json::Num(text), e1))
        } else {
            Some((Json::Int(acc as i64), e1))
        }
    }
}

fn parse_string_into(s: &Vec<char>, i: usize, out: &mut String) -> (r: Option<usize>)
    requires
        i <= s@.len(),
    ensures
        match r {
            Some(j) => parse_string_rest(s@, i as int) matches Some((d, jj)) && jj == j as int
                && final (out)@ == old(out)@ + d && i < j <= s@.len(),
            None => parse_string_rest(s@, i as int) is None,
        },
    decreases s@.len() - i,
{
    let n = s.len();
    if i >= n {
        None
    } else {
        let c = s[i];
        if c == '"' {
            Some(i + 1)
        } else if c == '\\' {
            if n - i < 2 {
                None
            } else {
                let e = s[i + 1];
                if e == 'u' {
                    if n - i >= 6 && is_hex_exec(s[i + 2]) && is_hex_exec(s[i + 3])
                        && is_hex_exec(s[i + 4]) && is_hex_exec(s[i + 5]) {
                        let hv: u32 = (hex_val_exec(s[i + 2]) as u32) * 4096 + (hex_val_exec(
                            s[i + 3],
                        ) as u32) * 256 + (hex_val_exec(s[i + 4]) as u32) * 16 + (hex_val_exec(
                            s[i + 5],
                        ) as u32);
                        if hv < 0xD800 || 0xDFFF < hv {
                            let c2: char = match char::from_u32(hv) {
                                Some(c) => c,
                                None => {
                                    return None;
                                }
                            };
                            proof {
                                vstd::utf8::char_u32_cast(c2, hv);
                            }
                            push_char(out, c2);
                            parse_string_into(s, i + 6, out)
                        } else if hv <= 0xDBFF {
                            if n - i >= 12 && s[i + 6] == '\\' && s[i + 7] == 'u'
                                && is_hex_exec(s[i + 8]) && is_hex_exec(s[i + 9])
                                && is_hex_exec(s[i + 10]) && is_hex_exec(s[i + 11]) {
                                let lo: u32 = (hex_val_exec(s[i + 8]) as u32) * 4096
                                    + (hex_val_exec(s[i + 9]) as u32) * 256 + (hex_val_exec(
                                    s[i + 10],
                                ) as u32) * 16 + (hex_val_exec(s[i + 11]) as u32);
                                if 0xDC00 <= lo && lo <= 0xDFFF {
                                    let scalar: u32 = 0x10000 + (hv - 0xD800) * 0x400 + (lo
                                        - 0xDC00);
                                    let c2: char = match char::from_u32(scalar) {
                                        Some(c) => c,
                                        None => {
                                            return None;
                                        }
                                    };
                                    proof {
                                        vstd::utf8::char_u32_cast(c2, scalar);
                                    }
                                    push_char(out, c2);
                                    parse_string_into(s, i + 12, out)
                                } else {
                                    None
                                }
                            } else {
                                None
                            }
                        } else {
                            None
                        }
                    } else {
                        None
                    }
                } else {
                    match unescape_exec(e) {
                        Some(c2) => {
                            push_char(out, c2);
                            parse_string_into(s, i + 2, out)
                        }
                        None => None,
                    }
                }
            }
        } else if (c as u32) < 32 {
            None
        } else {
            push_char(out, c);
            parse_string_into(s, i + 1, out)
        }
    }
}

pub proof fn lemma_dv_seq_push(items: Seq<Json>, x: Json)
    ensures
        dv_seq(items.push(x)) == dv_seq(items).push(x.dv()),
{
    lemma_dv_seq(items.push(x));
    lemma_dv_seq(items);
    assert forall|i: int| 0 <= i < items.len() + 1 implies dv_seq(items.push(x))[i] == dv_seq(
        items,
    ).push(x.dv())[i] by {
        if i < items.len() {
            assert(items.push(x)[i] == items[i]);
        } else {
            assert(items.push(x)[i] == x);
        }
    }
    assert(dv_seq(items.push(x)) =~= dv_seq(items).push(x.dv()));
}

pub proof fn lemma_dv_fields_push(fields: Seq<(String, Json)>, k: String, x: Json)
    ensures
        dv_fields(fields.push((k, x))) == dv_fields(fields).push((k@, x.dv())),
{
    lemma_dv_fields(fields.push((k, x)));
    lemma_dv_fields(fields);
    assert forall|i: int| 0 <= i < fields.len() + 1 implies dv_fields(fields.push((k, x)))[i]
        == dv_fields(fields).push((k@, x.dv()))[i] by {
        if i < fields.len() {
            assert(fields.push((k, x))[i] == fields[i]);
        } else {
            assert(fields.push((k, x))[i] == (k, x));
        }
    }
    assert(dv_fields(fields.push((k, x))) =~= dv_fields(fields).push((k@, x.dv())));
}

fn parse_val_exec(s: &Vec<char>, i: usize) -> (r: Option<(Json, usize)>)
    requires
        i <= s@.len(),
    ensures
        match r {
            Some((v, j)) => parse_val(s@, i as int) == Some((v@, j as int)) && i < j <= s@.len(),
            None => parse_val(s@, i as int) is None,
        },
    decreases s@.len() - i, 2int,
{
    let n = s.len();
    if i >= n {
        None
    } else {
        let c = s[i];
        if c == 'n' {
            if n - i >= 4 && s[i + 1] == 'u' && s[i + 2] == 'l' && s[i + 3] == 'l' {
                Some((Json::Null, i + 4))
            } else {
                None
            }
        } else if c == 't' {
            if n - i >= 4 && s[i + 1] == 'r' && s[i + 2] == 'u' && s[i + 3] == 'e' {
                Some((Json::Bool(true), i + 4))
            } else {
                None
            }
        } else if c == 'f' {
            if n - i >= 5 && s[i + 1] == 'a' && s[i + 2] == 'l' && s[i + 3] == 's' && s[i
                + 4] == 'e' {
                Some((Json::Bool(false), i + 5))
            } else {
                None
            }
        } else if c == '"' {
            let mut text = String::new();
            match parse_string_into(s, i + 1, &mut text) {
                Some(j) => Some((Json::Str(text), j)),
                None => None,
            }
        } else if c == '[' {
            let j = skip_ws_exec(s, i + 1);
            if j < s.len() && s[j] == ']' {
                Some((Json::Arr(Vec::new()), j + 1))
            } else {
                let mut items: Vec<Json> = Vec::new();
                match parse_items_into(s, j, &mut items) {
                    Some(k) => {
                        proof {
                            assert(dv_seq(Seq::<Json>::empty()) =~= Seq::<JsonV>::empty());
                            assert(dv_seq(items@) =~= parse_items(
                                s@,
                                j as int,
                            )->Some_0.0);
                        }
                        Some((Json::Arr(items), k))
                    }
                    None => None,
                }
            }
        } else if c == '{' {
            let j = skip_ws_exec(s, i + 1);
            if j < s.len() && s[j] == '}' {
                Some((Json::Obj(Vec::new()), j + 1))
            } else {
                let mut fields: Vec<(String, Json)> = Vec::new();
                match parse_members_into(s, j, &mut fields) {
                    Some(k) => {
                        proof {
                            assert(dv_fields(Seq::<(String, Json)>::empty()) =~= Seq::<
                                (Seq<char>, JsonV),
                            >::empty());
                            assert(dv_fields(fields@) =~= parse_members(
                                s@,
                                j as int,
                            )->Some_0.0);
                        }
                        Some((Json::Obj(fields), k))
                    }
                    None => None,
                }
            }
        } else if c == '-' || is_digit_exec(c) {
            parse_number_exec(s, i)
        } else {
            None
        }
    }
}

fn parse_items_into(s: &Vec<char>, i: usize, out: &mut Vec<Json>) -> (r: Option<usize>)
    requires
        i <= s@.len(),
    ensures
        match r {
            Some(j) => parse_items(s@, i as int) matches Some((a, jj)) && jj == j as int
                && dv_seq(final (out)@) == dv_seq(old(out)@) + a && i < j <= s@.len(),
            None => parse_items(s@, i as int) is None,
        },
    decreases s@.len() - i, 3int,
{
    match parse_val_exec(s, i) {
        None => None,
        Some((v, j)) => {
            let ghost vv = v@;
            out.push(v);
            proof {
                lemma_dv_seq_push(old(out)@, v);
            }
            let k = skip_ws_exec(s, j);
            if k < s.len() && s[k] == ',' {
                let m = skip_ws_exec(s, k + 1);
                match parse_items_into(s, m, out) {
                    Some(e) => {
                        proof {
                            let a = parse_items(s@, i as int)->Some_0.0;
                            let rest = parse_items(s@, m as int)->Some_0.0;
                            assert(dv_seq(old(out)@).push(vv) + rest =~= dv_seq(old(out)@) + (
                            seq![vv] + rest));
                        }
                        Some(e)
                    }
                    None => None,
                }
            } else if k < s.len() && s[k] == ']' {
                proof {
                    assert(dv_seq(old(out)@).push(vv) =~= dv_seq(old(out)@) + seq![vv]);
                }
                Some(k + 1)
            } else {
                None
            }
        }
    }
}

fn parse_members_into(s: &Vec<char>, i: usize, out: &mut Vec<(String, Json)>) -> (r: Option<
    usize,
>)
    requires
        i <= s@.len(),
    ensures
        match r {
            Some(j) => parse_members(s@, i as int) matches Some((o, jj)) && jj == j as int
                && dv_fields(final (out)@) == dv_fields(old(out)@) + o && i < j <= s@.len(),
            None => parse_members(s@, i as int) is None,
        },
    decreases s@.len() - i, 3int,
{
    let n = s.len();
    if !(i < n && s[i] == '"') {
        None
    } else {
        let mut key = String::new();
        match parse_string_into(s, i + 1, &mut key) {
            None => None,
            Some(j) => {
                let k = skip_ws_exec(s, j);
                if k < s.len() && s[k] == ':' {
                    let m = skip_ws_exec(s, k + 1);
                    match parse_val_exec(s, m) {
                        None => None,
                        Some((v, e)) => {
                            let ghost kv = key@;
                            let ghost vv = v@;
                            out.push((key, v));
                            proof {
                                lemma_dv_fields_push(old(out)@, key, v);
                            }
                            let f = skip_ws_exec(s, e);
                            if f < s.len() && s[f] == ',' {
                                let g = skip_ws_exec(s, f + 1);
                                match parse_members_into(s, g, out) {
                                    Some(h) => {
                                        proof {
                                            let rest = parse_members(s@, g as int)->Some_0.0;
                                            assert(dv_fields(old(out)@).push((kv, vv)) + rest
                                                =~= dv_fields(old(out)@) + (seq![(kv, vv)]
                                                + rest));
                                        }
                                        Some(h)
                                    }
                                    None => None,
                                }
                            } else if f < s.len() && s[f] == '}' {
                                proof {
                                    assert(dv_fields(old(out)@).push((kv, vv)) =~= dv_fields(
                                        old(out)@,
                                    ) + seq![(kv, vv)]);
                                }
                                Some(f + 1)
                            } else {
                                None
                            }
                        }
                    }
                } else {
                    None
                }
            }
        }
    }
}

pub(crate) fn to_char_vec(s: &str) -> (r: Vec<char>)
    ensures
        r@ == s@,
{
    let n = s.unicode_len();
    let mut out: Vec<char> = Vec::new();
    let mut i: usize = 0;
    while i < n
        invariant
            i <= n,
            n == s@.len(),
            out@ == s@.subrange(0, i as int),
        decreases n - i,
    {
        out.push(s.get_char(i));
        i = i + 1;
        proof {
            assert(out@ =~= s@.subrange(0, i as int));
        }
    }
    proof {
        assert(s@.subrange(0, s@.len() as int) =~= s@);
    }
    out
}

/// Reads one text frame, exactly as `parse_doc` describes it.
pub fn parse_text(s: &str) -> (r: Option<Json>)
    ensures
        match r {
            Some(v) => parse_doc(s@) == Some(v@),
            None => parse_doc(s@) is None,
        },
{
    let chars = to_char_vec(s);
    let i = skip_ws_exec(&chars, 0);
    match parse_val_exec(&chars, i) {
        Some((v, j)) => {
            let k = skip_ws_exec(&chars, j);
            if k == chars.len() {
                Some(v)
            } else {
                None
            }
        }
        None => None,
    }
}

// ── Round trip: parsing recovers what the printer wrote ─────────────

proof fn lemma_dec_digits_shape(n: int)
    requires
        n >= 0,
    ensures
        dec_digits(n).len() >= 1,
        forall|x: int| 0 <= x < dec_digits(n).len() ==> is_digit(#[trigger] dec_digits(n)[x]),
        forall|x: int|
            0 <= x < dec_digits(n).len() ==> digit_val(#[trigger] dec_digits(n)[x]) <= 9,
    decreases n,
{
    if n >= 10 {
        lemma_dec_digits_shape(n / 10);
    }
}

/// If `s[i..j)` is a digit run followed by a non-digit (or the end), the
/// scanner stops exactly at `j`.
proof fn lemma_scan_digits_exact(s: Seq<char>, i: int, j: int)
    requires
        0 <= i <= j <= s.len(),
        forall|x: int| i <= x < j ==> is_digit(#[trigger] s[x]),
        j == s.len() || !is_digit(s[j]),
    ensures
        scan_digits(s, i) == j,
    decreases j - i,
{
    if i < j {
        lemma_scan_digits_exact(s, i + 1, j);
    }
}

/// Reading back the digits the printer wrote yields the printed value.
proof fn lemma_digits_val_of_dec(s: Seq<char>, i: int, n: int)
    requires
        n >= 0,
        0 <= i,
        i + dec_digits(n).len() <= s.len(),
        s.subrange(i, i + dec_digits(n).len() as int) == dec_digits(n),
    ensures
        digits_val(s, i, i + dec_digits(n).len() as int) == n,
    decreases n,
{
    let d = dec_digits(n);
    let j = i + d.len() as int;
    assert(s[j - 1] == d[d.len() - 1]);
    if n < 10 {
        assert(digits_val(s, i, j) == digits_val(s, i, j - 1) * 10 + digit_val(s[j - 1]));
        assert(digits_val(s, i, j - 1) == 0);
        assert(digit_val(digit_char(n)) == n);
    } else {
        let dq = dec_digits(n / 10);
        assert(d == dq.push(digit_char(n % 10)));
        assert(s.subrange(i, i + dq.len() as int) =~= dq) by {
            assert forall|x: int| 0 <= x < dq.len() implies s.subrange(
                i,
                i + dq.len() as int,
            )[x] == dq[x] by {
                assert(s[i + x] == s.subrange(i, j)[x]);
                assert(d[x] == dq[x]);
            }
        }
        lemma_digits_val_of_dec(s, i, n / 10);
        assert(digit_val(digit_char(n % 10)) == n % 10);
        assert(digits_val(s, i, j) == digits_val(s, i, j - 1) * 10 + digit_val(s[j - 1]));
    }
}

/// Parsing an integer literal the printer wrote, with nothing following
/// that could extend the lexeme, yields the printed value.
proof fn lemma_parse_int_of_ser(s: Seq<char>, i: int, n: int)
    requires
        i64::MIN <= n <= i64::MAX,
        0 <= i,
        i + ser_int(n).len() <= s.len(),
        s.subrange(i, i + ser_int(n).len() as int) == ser_int(n),
        i + ser_int(n).len() == s.len() || !num_cont(s[i + ser_int(n).len()]),
    ensures
        parse_number(s, i) == Some((JsonV::Int(n), i + ser_int(n).len() as int)),
{
    let t = ser_int(n);
    let j = i + t.len() as int;
    if n < 0 {
        let d = dec_digits(-n);
        lemma_dec_digits_shape(-n);
        assert(s[i] == t[0]);
        assert(t[0] == '-');
        assert(s.subrange(i + 1, j) =~= d) by {
            assert forall|x: int| 0 <= x < d.len() implies s.subrange(i + 1, j)[x] == d[x] by {
                assert(s[i + 1 + x] == s.subrange(i, j)[x + 1]);
                assert(t[x + 1] == d[x]);
            }
        }
        assert forall|x: int| i + 1 <= x < j implies is_digit(#[trigger] s[x]) by {
            assert(s[x] == s.subrange(i + 1, j)[x - i - 1]);
        }
        lemma_scan_digits_exact(s, i + 1, j);
        lemma_digits_val_of_dec(s, i + 1, -n);
        assert(!is_digit('-'));
    } else {
        let d = dec_digits(n);
        assert(s.subrange(i, j) == d);
        assert forall|x: int| i <= x < j implies is_digit(#[trigger] s[x]) by {
            lemma_dec_digits_shape(n);
            assert(s[x] == s.subrange(i, j)[x - i]);
        }
        lemma_dec_digits_shape(n);
        assert(s[i] == d[0]);
        assert(s[i] != '-');
        lemma_scan_digits_exact(s, i, j);
        lemma_digits_val_of_dec(s, i, n);
    }
}

/// Digit scanning inside a window equals scanning the window's text alone,
/// when nothing after the window is a digit.
proof fn lemma_scan_digits_window(s: Seq<char>, t: Seq<char>, i: int, j: int)
    requires
        0 <= i,
        i + t.len() <= s.len(),
        s.subrange(i, i + t.len() as int) == t,
        i + t.len() == s.len() || !is_digit(s[i + t.len()]),
        0 <= j <= t.len(),
    ensures
        scan_digits(s, i + j) == i + scan_digits(t, j),
    decreases t.len() - j,
{
    if j < t.len() {
        assert(s[i + j] == t[j]) by {
            assert(s.subrange(i, i + t.len() as int)[j] == t[j]);
        }
        if is_digit(t[j]) {
            lemma_scan_digits_window(s, t, i, j + 1);
        }
    }
}

/// A digit run's value inside a window equals its value in the window's
/// text alone.
proof fn lemma_digits_val_window(s: Seq<char>, t: Seq<char>, i: int, a: int, b: int)
    requires
        0 <= i,
        i + t.len() <= s.len(),
        s.subrange(i, i + t.len() as int) == t,
        0 <= a <= b <= t.len(),
    ensures
        digits_val(s, i + a, i + b) == digits_val(t, a, b),
    decreases b - a,
{
    if a < b {
        lemma_digits_val_window(s, t, i, a, b - 1);
        assert(s[i + b - 1] == t[b - 1]) by {
            assert(s.subrange(i, i + t.len() as int)[b - 1] == t[b - 1]);
        }
        assert(digits_val(s, i + a, i + b) == digits_val(s, i + a, i + b - 1) * 10 + digit_val(
            s[i + b - 1],
        ));
    }
}

/// Parsing a kept number lexeme in place inside a larger text yields the
/// lexeme again and stops exactly at its end.
proof fn lemma_parse_number_window(s: Seq<char>, i: int, t: Seq<char>)
    requires
        parse_number(t, 0) == Some((JsonV::Num(t), t.len() as int)),
        0 <= i,
        i + t.len() <= s.len(),
        s.subrange(i, i + t.len() as int) == t,
        i + t.len() == s.len() || !num_cont(s[i + t.len()]),
    ensures
        parse_number(s, i) == Some((JsonV::Num(t), i + t.len() as int)),
{
    let el = t.len() as int;
    assert forall|x: int| 0 <= x < el implies s[i + x] == #[trigger] t[x] by {
        assert(s.subrange(i, i + el)[x] == t[x]);
    }
    assert(el >= 1);
    let neg = t[0] == '-';
    assert(s[i] == t[0]);
    let kt: int = if neg {
        1
    } else {
        0
    };
    lemma_scan_digits_window(s, t, i, kt);
    let e1 = scan_digits(t, kt);
    assert(e1 > kt);
    lemma_scan_digits(t, kt);
    assert(e1 <= el);
    // The fraction part aligns.
    let fr = scan_frac(t, e1);
    assert(fr is Some);
    let e2 = fr->0;
    assert(scan_frac(s, i + e1) == Some(i + e2)) by {
        if e1 < el && t[e1] == '.' {
            assert(s[i + e1] == '.');
            lemma_scan_digits_window(s, t, i, e1 + 1);
        } else {
            if e1 < el {
                assert(s[i + e1] == t[e1]);
            }
        }
    }
    assert(e1 <= e2 <= el) by {
        if e1 < el && t[e1] == '.' {
            lemma_scan_digits(t, e1 + 1);
        }
    }
    // The exponent part aligns.
    let ex = scan_exp(t, e2);
    assert(ex is Some);
    let e3 = ex->0;
    assert(scan_exp(s, i + e2) == Some(i + e3)) by {
        if e2 < el && (t[e2] == 'e' || t[e2] == 'E') {
            assert(s[i + e2] == t[e2]);
            if e2 + 1 < el {
                assert(s[i + e2 + 1] == t[e2 + 1]);
                let p: int = if t[e2 + 1] == '+' || t[e2 + 1] == '-' {
                    e2 + 2
                } else {
                    e2 + 1
                };
                lemma_scan_digits_window(s, t, i, p);
            } else {
                // The marker at the last position would leave no digits:
                // the lexeme's own parse would have failed.
                assert(scan_digits(t, e2 + 1) <= e2 + 1) by {
                    lemma_scan_digits(t, e2 + 1);
                }
                assert(false);
            }
        } else {
            if e2 < el {
                assert(s[i + e2] == t[e2]);
            }
        }
    }
    assert(e2 <= e3 <= el) by {
        if e2 < el && (t[e2] == 'e' || t[e2] == 'E') {
            let p: int = if e2 + 1 < el && (t[e2 + 1] == '+' || t[e2 + 1] == '-') {
                e2 + 2
            } else {
                e2 + 1
            };
            lemma_scan_digits(t, p);
        }
    }
    // The classification aligns: the lexeme's own parse kept its text.
    if e3 == e1 {
        lemma_digits_val_window(s, t, i, kt, e1);
        assert(t.subrange(0, e1) == t);
        assert(e1 == el);
        assert(s.subrange(i, i + el) =~= t);
    } else {
        assert(t.subrange(0, e3) == t);
        assert(e3 == el);
        assert(s.subrange(i, i + el) =~= t);
    }
}

pub proof fn lemma_hex_char_val(d: int)
    requires
        0 <= d < 16,
    ensures
        is_hex(hex_char(d)),
        hex_val(hex_char(d)) == d,
        hex_char(d) != '"',
{
}

/// Parsing a string body the printer escaped, up to its closing quote,
/// recovers the original characters.
proof fn lemma_parse_string_of_esc(s: Seq<char>, i: int, t: Seq<char>)
    requires
        0 <= i,
        i + esc_str(t).len() + 1 <= s.len(),
        s.subrange(i, i + esc_str(t).len() as int) == esc_str(t),
        s[i + esc_str(t).len()] == '"',
    ensures
        parse_string_rest(s, i) == Some((t, i + esc_str(t).len() + 1)),
    decreases t.len(),
{
    let et = esc_str(t);
    let j = i + et.len() as int;
    if t.len() == 0 {
        assert(s[i] == '"');
    } else {
        let c = t[0];
        let rest = t.drop_first();
        let ec = esc_char(c);
        let er = esc_str(rest);
        assert(et == ec + er);
        assert forall|x: int| 0 <= x < et.len() implies s[i + x] == #[trigger] et[x] by {
            assert(s.subrange(i, j)[x] == et[x]);
        }
        assert forall|x: int| 0 <= x < er.len() implies s.subrange(i + ec.len(), j)[x] == (
        #[trigger] er[x]) by {
            assert(s.subrange(i + ec.len() as int, j)[x] == s[i + ec.len() + x]);
            assert(et[ec.len() + x] == er[x]);
            assert(s[i + (ec.len() + x)] == et[ec.len() + x]);
        }
        assert(s.subrange(i + ec.len(), j) =~= er);
        lemma_parse_string_of_esc(s, i + ec.len() as int, rest);
        assert(t =~= seq![c] + rest);
        if c == '"' {
            assert(et[0] == '\\' && et[1] == '"');
            assert(s[i + 0] == et[0] && s[i + 1] == et[1]);
        } else if c == '\\' {
            assert(et[0] == '\\' && et[1] == '\\');
            assert(s[i + 0] == et[0] && s[i + 1] == et[1]);
        } else if c == '\u{08}' || c == '\t' || c == '\n' || c == '\u{0c}' || c == '\r' {
            assert(et[0] == '\\');
            assert(s[i + 0] == et[0] && s[i + 1] == et[1]);
        } else if (c as u32) < 32 {
            let u = (c as u32) as int;
            assert(et[0] == '\\' && et[1] == 'u' && et[2] == '0' && et[3] == '0');
            assert(et[4] == hex_char(u / 16) && et[5] == hex_char(u % 16));
            assert(s[i + 0] == et[0] && s[i + 1] == et[1] && s[i + 2] == et[2] && s[i + 3]
                == et[3] && s[i + 4] == et[4] && s[i + 5] == et[5]);
            lemma_hex_char_val(u / 16);
            lemma_hex_char_val(u % 16);
            assert(is_hex('0') && hex_val('0') == 0);
            assert(hex_val(s[i + 2]) * 4096 + hex_val(s[i + 3]) * 256 + hex_val(s[i + 4]) * 16
                + hex_val(s[i + 5]) == u);
            assert(0 <= u < 32);
            vstd::utf8::char_u32_cast(c, u as u32);
            assert((u as u32) as char == c);
            assert(s[i] != '"');
        } else {
            assert(et[0] == c);
            assert(s[i + 0] == et[0]);
            assert(!((s[i] as u32) < 32));
        }
    }
}

/// Character-by-character reading of an established subrange equality.
proof fn lemma_seg(s: Seq<char>, i: int, t: Seq<char>)
    requires
        0 <= i,
        i + t.len() <= s.len(),
        s.subrange(i, i + t.len() as int) == t,
    ensures
        forall|x: int| 0 <= x < t.len() ==> s[i + x] == #[trigger] t[x],
{
    assert forall|x: int| 0 <= x < t.len() implies s[i + x] == #[trigger] t[x] by {
        assert(s.subrange(i, i + t.len() as int)[x] == t[x]);
    }
}

/// A subrange of an established segment is the matching subrange of its text.
proof fn lemma_seg_sub(s: Seq<char>, i: int, t: Seq<char>, lo: int, hi: int)
    requires
        0 <= i,
        i + t.len() <= s.len(),
        s.subrange(i, i + t.len() as int) == t,
        0 <= lo <= hi <= t.len(),
    ensures
        s.subrange(i + lo, i + hi) == t.subrange(lo, hi),
{
    lemma_seg(s, i, t);
    assert forall|x: int| 0 <= x < hi - lo implies s.subrange(i + lo, i + hi)[x] == t.subrange(
        lo,
        hi,
    )[x] by {
        assert(s[i + (lo + x)] == t[lo + x]);
    }
    assert(s.subrange(i + lo, i + hi) =~= t.subrange(lo, hi));
}

/// The first character of a printed value: never whitespace, never a closer.
proof fn lemma_ser_head(v: JsonV)
    requires
        wf(v),
    ensures
        ser(v).len() >= 1,
        !is_ws(ser(v)[0]),
        ser(v)[0] != ']',
        ser(v)[0] != '}',
        ser(v)[0] != ',',
        ser(v)[0] != ':',
        ser(v)[0] != '"' || v is Str,
        v is Int || v is Num ==> ser(v)[0] == '-' || is_digit(ser(v)[0]),
{
    match v {
        JsonV::Int(n) => {
            if n >= 0 {
                lemma_dec_digits_shape(n);
                assert(is_digit(ser(v)[0]));
            } else {
                lemma_dec_digits_shape(-n);
                assert(ser(v)[0] == '-');
            }
        }
        JsonV::Num(tx) => {
            assert(tx.len() >= 1);
            if tx[0] != '-' {
                assert(scan_digits(tx, 0) > 0);
                assert(is_digit(tx[0]));
            }
        }
        _ => {}
    }
}

/// Parsing what the printer wrote for `v`, in place inside a larger text,
/// yields `v` and stops exactly at the end of its text.
#[verifier::rlimit(100)]
proof fn lemma_parse_val_of_ser(s: Seq<char>, i: int, v: JsonV)
    requires
        wf(v),
        0 <= i,
        i + ser(v).len() <= s.len(),
        s.subrange(i, i + ser(v).len() as int) == ser(v),
        i + ser(v).len() == s.len() || !num_cont(s[i + ser(v).len()]),
    ensures
        parse_val(s, i) == Some((v, i + ser(v).len() as int)),
    decreases v, 1int,
{
    let t = ser(v);
    let j = i + t.len() as int;
    lemma_seg(s, i, t);
    match v {
        JsonV::Null => {
            assert(s[i + 0] == t[0] && s[i + 1] == t[1] && s[i + 2] == t[2] && s[i + 3] == t[3]);
            assert(parse_val(s, i) == Some((v, j)));
        }
        JsonV::Bool(b) => {
            if b {
                assert(s[i + 0] == t[0] && s[i + 1] == t[1] && s[i + 2] == t[2] && s[i + 3]
                    == t[3]);
            } else {
                assert(s[i + 0] == t[0] && s[i + 1] == t[1] && s[i + 2] == t[2] && s[i + 3]
                    == t[3] && s[i + 4] == t[4]);
            }
        }
        JsonV::Int(n) => {
            lemma_ser_head(v);
            assert(s[i + 0] == t[0]);
            lemma_parse_int_of_ser(s, i, n);
            if n >= 0 {
                lemma_dec_digits_shape(n);
                assert(is_digit(s[i]));
            }
            assert(parse_val(s, i) == Some((v, j)));
        }
        JsonV::Num(tx) => {
            lemma_ser_head(v);
            assert(s[i + 0] == t[0]);
            lemma_parse_number_window(s, i, tx);
            assert(parse_val(s, i) == Some((v, j)));
        }
        JsonV::Str(text) => {
            let et = esc_str(text);
            assert(t == seq!['"'] + et + seq!['"']);
            assert(s[i + 0] == t[0] && t[0] == '"');
            assert(s.subrange(i + 1, i + 1 + et.len() as int) =~= et) by {
                lemma_seg_sub(s, i, t, 1, 1 + et.len() as int);
                assert(t.subrange(1, 1 + et.len() as int) =~= et);
            }
            assert(s[i + (1 + et.len())] == t[1 + et.len() as int]);
            assert(t[1 + et.len() as int] == '"');
            lemma_parse_string_of_esc(s, i + 1, text);
            assert(parse_val(s, i) == Some((v, j)));
        }
        JsonV::Arr(a) => {
            let body = ser_items(a);
            assert(t == seq!['['] + body + seq![']']);
            assert(s[i + 0] == t[0] && t[0] == '[');
            assert(s[i + (1 + body.len())] == t[1 + body.len() as int]);
            assert(t[1 + body.len() as int] == ']');
            if a.len() == 0 {
                assert(body.len() == 0);
                assert(s[i + 1] == ']');
                assert(skip_ws(s, i + 1) == i + 1);
                assert(a =~= Seq::<JsonV>::empty());
            } else {
                let v0 = a[0];
                assert(wf(v0));
                lemma_ser_head(v0);
                assert(body[0] == ser(v0)[0]) by {
                    if a.len() == 1 {
                    } else {
                        assert(body == ser(v0) + (seq![','] + ser_items(a.drop_first())));
                    }
                }
                assert(s[i + 1] == t[1]);
                assert(t[1] == body[0]);
                assert(skip_ws(s, i + 1) == i + 1);
                assert(s[i + 1] != ']');
                assert(s.subrange(i + 1, i + 1 + body.len() as int) =~= body) by {
                    lemma_seg_sub(s, i, t, 1, 1 + body.len() as int);
                    assert(t.subrange(1, 1 + body.len() as int) =~= body);
                }
                lemma_parse_items_of_ser(s, i + 1, a);
            }
            assert(parse_val(s, i) == Some((v, j)));
        }
        JsonV::Obj(o) => {
            let body = ser_fields(o);
            assert(t == seq!['{'] + body + seq!['}']);
            assert(s[i + 0] == t[0] && t[0] == '{');
            assert(s[i + (1 + body.len())] == t[1 + body.len() as int]);
            assert(t[1 + body.len() as int] == '}');
            if o.len() == 0 {
                assert(body.len() == 0);
                assert(s[i + 1] == '}');
                assert(skip_ws(s, i + 1) == i + 1);
                assert(o =~= Seq::<(Seq<char>, JsonV)>::empty());
            } else {
                assert(body[0] == '"') by {
                    let head = seq!['"'] + esc_str(o[0].0) + seq!['"', ':'] + ser(o[0].1);
                    if o.len() == 1 {
                        assert(body == head);
                    } else {
                        assert(body == head + (seq![','] + ser_fields(o.drop_first())));
                    }
                }
                assert(s[i + 1] == t[1]);
                assert(t[1] == body[0]);
                assert(skip_ws(s, i + 1) == i + 1);
                assert(s[i + 1] != '}');
                assert(s.subrange(i + 1, i + 1 + body.len() as int) =~= body) by {
                    lemma_seg_sub(s, i, t, 1, 1 + body.len() as int);
                    assert(t.subrange(1, 1 + body.len() as int) =~= body);
                }
                lemma_parse_members_of_ser(s, i + 1, o);
            }
            assert(parse_val(s, i) == Some((v, j)));
        }
    }
}

/// Parsing a printed, non-empty item list followed by `]` yields the items.
proof fn lemma_parse_items_of_ser(s: Seq<char>, i: int, a: Seq<JsonV>)
    requires
        a.len() >= 1,
        forall|x: int| 0 <= x < a.len() ==> wf(#[trigger] a[x]),
        0 <= i,
        i + ser_items(a).len() + 1 <= s.len(),
        s.subrange(i, i + ser_items(a).len() as int) == ser_items(a),
        s[i + ser_items(a).len()] == ']',
    ensures
        parse_items(s, i) == Some((a, i + ser_items(a).len() + 1)),
    decreases a, 0int,
{
    let t = ser_items(a);
    let v0 = a[0];
    let t0 = ser(v0);
    lemma_seg(s, i, t);
    lemma_ser_head(v0);
    if a.len() == 1 {
        assert(t == t0);
        lemma_parse_val_of_ser(s, i, v0);
        assert(skip_ws(s, i + t0.len()) == i + t0.len());
        assert(a =~= seq![v0]);
    } else {
        let rest = a.drop_first();
        let tr = ser_items(rest);
        assert(t == t0 + (seq![','] + tr));
        assert(s.subrange(i, i + t0.len() as int) =~= t0) by {
            lemma_seg_sub(s, i, t, 0, t0.len() as int);
            assert(t.subrange(0, t0.len() as int) =~= t0);
        }
        assert(s[i + t0.len()] == t[t0.len() as int]);
        assert(t[t0.len() as int] == ',');
        lemma_parse_val_of_ser(s, i, v0);
        let k = i + t0.len() as int;
        assert(skip_ws(s, k) == k);
        assert(s.subrange(k + 1, i + t.len() as int) =~= tr) by {
            lemma_seg_sub(s, i, t, t0.len() as int + 1, t.len() as int);
            assert(t.subrange(t0.len() as int + 1, t.len() as int) =~= tr);
        }
        assert(forall|x: int| 0 <= x < rest.len() ==> wf(#[trigger] rest[x]));
        assert(rest[0] == a[1]);
        lemma_ser_head(rest[0]);
        assert(tr[0] == ser(rest[0])[0]) by {
            if rest.len() > 1 {
                assert(tr == ser(rest[0]) + (seq![','] + ser_items(rest.drop_first())));
            }
        }
        assert(s[k + 1] == t[t0.len() as int + 1]);
        assert(t[t0.len() as int + 1] == tr[0]);
        assert(skip_ws(s, k + 1) == k + 1);
        lemma_parse_items_of_ser(s, k + 1, rest);
        assert(a =~= seq![v0] + rest);
    }
}

/// Parsing a printed, non-empty member list followed by `}` yields the members.
proof fn lemma_parse_members_of_ser(s: Seq<char>, i: int, o: Seq<(Seq<char>, JsonV)>)
    requires
        o.len() >= 1,
        forall|x: int| 0 <= x < o.len() ==> wf(#[trigger] o[x].1),
        0 <= i,
        i + ser_fields(o).len() + 1 <= s.len(),
        s.subrange(i, i + ser_fields(o).len() as int) == ser_fields(o),
        s[i + ser_fields(o).len()] == '}',
    ensures
        parse_members(s, i) == Some((o, i + ser_fields(o).len() + 1)),
    decreases o, 0int,
{
    let t = ser_fields(o);
    let key = o[0].0;
    let v0 = o[0].1;
    let ek = esc_str(key);
    let t0 = ser(v0);
    let head = seq!['"'] + ek + seq!['"', ':'] + t0;
    lemma_seg(s, i, t);
    lemma_ser_head(v0);
    if o.len() == 1 {
        assert(t == head);
    } else {
        assert(t == head + (seq![','] + ser_fields(o.drop_first())));
    }
    assert(s[i + 0] == t[0]);
    assert(t[0] == '"');
    // The key string literal.
    assert(s.subrange(i + 1, i + 1 + ek.len() as int) =~= ek) by {
        lemma_seg_sub(s, i, t, 1, 1 + ek.len() as int);
        assert(t.subrange(1, 1 + ek.len() as int) =~= ek);
    }
    assert(s[i + (1 + ek.len())] == t[1 + ek.len() as int]);
    assert(t[1 + ek.len() as int] == '"');
    lemma_parse_string_of_esc(s, i + 1, key);
    let j = i + 1 + ek.len() as int + 1;
    assert(parse_string_rest(s, i + 1) == Some((key, j)));
    // The colon, then the value.
    assert(s[i + (2 + ek.len())] == t[2 + ek.len() as int]);
    assert(t[2 + ek.len() as int] == ':');
    assert(skip_ws(s, j) == j);
    let m = j + 1;
    assert(s.subrange(m, m + t0.len() as int) =~= t0) by {
        lemma_seg_sub(s, i, t, 3 + ek.len() as int, 3 + ek.len() as int + t0.len() as int);
        assert(t.subrange(3 + ek.len() as int, 3 + ek.len() as int + t0.len() as int) =~= t0);
    }
    assert(s[m + 0] == t[3 + ek.len() as int]);
    assert(t[3 + ek.len() as int] == t0[0]);
    assert(skip_ws(s, m) == m);
    let e = m + t0.len() as int;
    if o.len() == 1 {
        assert(e == i + t.len());
        assert(s[e] == '}');
        lemma_parse_val_of_ser(s, m, v0);
        assert(skip_ws(s, e) == e);
        assert(o =~= seq![(key, v0)]);
    } else {
        let rest = o.drop_first();
        let tr = ser_fields(rest);
        assert(s[e] == t[head.len() as int]);
        assert(t[head.len() as int] == ',');
        lemma_parse_val_of_ser(s, m, v0);
        assert(skip_ws(s, e) == e);
        assert(s.subrange(e + 1, i + t.len() as int) =~= tr) by {
            lemma_seg_sub(s, i, t, head.len() as int + 1, t.len() as int);
            assert(t.subrange(head.len() as int + 1, t.len() as int) =~= tr);
        }
        assert(forall|x: int| 0 <= x < rest.len() ==> wf(#[trigger] rest[x].1));
        assert(rest[0] == o[1]);
        assert(tr[0] == '"') by {
            let head2 = seq!['"'] + esc_str(rest[0].0) + seq!['"', ':'] + ser(rest[0].1);
            if rest.len() == 1 {
                assert(tr == head2);
            } else {
                assert(tr == head2 + (seq![','] + ser_fields(rest.drop_first())));
            }
        }
        assert(s[e + 1] == t[head.len() as int + 1]);
        assert(t[head.len() as int + 1] == tr[0]);
        assert(skip_ws(s, e + 1) == e + 1);
        lemma_parse_members_of_ser(s, e + 1, rest);
        assert(o =~= seq![(key, v0)] + rest);
    }
}

/// Round trip: the parser recovers exactly what the printer wrote.
pub proof fn lemma_parse_doc_ser(v: JsonV)
    requires
        wf(v),
    ensures
        parse_doc(ser(v)) == Some(v),
{
    let s = ser(v);
    assert(s.subrange(0, s.len() as int) =~= s);
    lemma_ser_head(v);
    assert(skip_ws(s, 0) == 0);
    lemma_parse_val_of_ser(s, 0, v);
    assert(skip_ws(s, s.len() as int) == s.len());
}

} // verus!
