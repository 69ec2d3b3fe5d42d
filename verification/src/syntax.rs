//! The textual document grammar.
//!
//! A document is the usual key-tagged data notation: objects `{"k": v, ...}`,
//! arrays `[v, ...]`, quoted strings with the eight short escapes and
//! `\uXXXX` (surrogate pairs included), numbers with optional sign, fraction
//! and exponent, and the words `true`, `false` and `null`, with spaces, tabs
//! and line ends between tokens.
//!
//! The grammar is defined once, as the spec-level descent `sp_document`, and
//! the executable reader `read_document` is proved to return exactly what the
//! spec descent denotes. A raw value is held as a [`Json`]; what a node
//! document means for the tree is the next layer's business.

use vstd::prelude::*;

verus! {

broadcast use vstd::utf8::char_is_scalar, vstd::utf8::char_u32_cast;

/// A raw value of the document notation. Numbers keep their numeral text.
#[derive(Debug, PartialEq)]
pub enum Json {
    Null,
    Bool(bool),
    Num(String),
    Str(String),
    Arr(Vec<Json>),
    Obj(Vec<(String, Json)>),
}

/// The mathematical shape of a raw value.
pub enum JsonV {
    Null,
    Bool(bool),
    Num(Seq<char>),
    Str(Seq<char>),
    Arr(Seq<JsonV>),
    Obj(Seq<(Seq<char>, JsonV)>),
}

/// Shape of a raw value, element by element and entry by entry.
pub open spec fn json_shape(j: Json) -> JsonV
    decreases j,
{
    match j {
        Json::Null => JsonV::Null,
        Json::Bool(b) => JsonV::Bool(b),
        Json::Num(t) => JsonV::Num(t@),
        Json::Str(t) => JsonV::Str(t@),
        Json::Arr(items) => JsonV::Arr(shapes_of(items@)),
        Json::Obj(entries) => JsonV::Obj(entries_of(entries@)),
    }
}

impl View for Json {
    type V = JsonV;

    open spec fn view(&self) -> JsonV {
        json_shape(*self)
    }
}

/// The blank characters that may stand between tokens.
pub open spec fn is_ws_char(c: char) -> bool {
    c == ' ' || c == '\n' || c == '\r' || c == '\t'
}

/// A decimal digit.
pub open spec fn is_digit_char(c: char) -> bool {
    '0' as u32 <= c as u32 <= '9' as u32
}

/// A hexadecimal digit.
pub open spec fn is_hex_char(c: char) -> bool {
    ('0' as u32 <= c as u32 <= '9' as u32)
    || ('a' as u32 <= c as u32 <= 'f' as u32)
    || ('A' as u32 <= c as u32 <= 'F' as u32)
}

/// The value of a hexadecimal digit.
pub open spec fn hex_val(c: char) -> int {
    if '0' as u32 <= c as u32 <= '9' as u32 {
        c as u32 - '0' as u32
    } else if 'a' as u32 <= c as u32 <= 'f' as u32 {
        c as u32 - 'a' as u32 + 10
    } else {
        c as u32 - 'A' as u32 + 10
    }
}

/// What a short escape character stands for, or `None` if it is not one.
pub open spec fn esc_char(c: char) -> Option<char> {
    if c == '"' {
        Option::Some('"')
    } else if c == '\\' {
        Option::Some('\\')
    } else if c == '/' {
        Option::Some('/')
    } else if c == 'b' {
        Option::Some('\u{08}')
    } else if c == 'f' {
        Option::Some('\u{0C}')
    } else if c == 'n' {
        Option::Some('\n')
    } else if c == 'r' {
        Option::Some('\r')
    } else if c == 't' {
        Option::Some('\t')
    } else {
        Option::None
    }
}

/// Value of the four hexadecimal digits at `i`, if they are there.
pub open spec fn hex_quad(s: Seq<char>, i: int) -> Option<int> {
    if 0 <= i && i + 4 <= s.len() && is_hex_char(s[i]) && is_hex_char(s[i + 1]) && is_hex_char(
        s[i + 2],
    ) && is_hex_char(s[i + 3]) {
        Option::Some(
            hex_val(s[i]) * 0x1000 + hex_val(s[i + 1]) * 0x100 + hex_val(s[i + 2]) * 0x10 + hex_val(
                s[i + 3],
            ),
        )
    } else {
        Option::None
    }
}

/// First position at or after `i` that does not hold a blank character.
pub open spec fn sp_ws(s: Seq<char>, i: int) -> int
    decreases s.len() - i,
{
    if 0 <= i < s.len() && is_ws_char(s[i]) {
        sp_ws(s, i + 1)
    } else {
        i
    }
}

/// First position at or after `i` that does not hold a digit.
pub open spec fn sp_digits(s: Seq<char>, i: int) -> int
    decreases s.len() - i,
{
    if 0 <= i < s.len() && is_digit_char(s[i]) {
        sp_digits(s, i + 1)
    } else {
        i
    }
}

/// The character that the escape at `i` (which must hold the backslash)
/// stands for, and the position after the escape. A high surrogate must pair
/// with a low one; a lone surrogate is no character.
pub open spec fn sp_escape(s: Seq<char>, i: int) -> Option<(char, int)> {
    if !(0 <= i && i + 1 < s.len() && s[i] == '\\') {
        Option::None
    } else if s[i + 1] == 'u' {
        match hex_quad(s, i + 2) {
            Option::None => Option::None,
            Option::Some(c1) => {
                if 0xD800 <= c1 < 0xDC00 {
                    if i + 8 <= s.len() && s[i + 6] == '\\' && s[i + 7] == 'u' {
                        match hex_quad(s, i + 8) {
                            Option::None => Option::None,
                            Option::Some(c2) => {
                                if 0xDC00 <= c2 < 0xE000 {
                                    let code = 0x10000 + (c1 - 0xD800) * 0x400 + (c2 - 0xDC00);
                                    Option::Some(((code as u32) as char, i + 12))
                                } else {
                                    Option::None
                                }
                            },
                        }
                    } else {
                        Option::None
                    }
                } else if 0xDC00 <= c1 < 0xE000 {
                    Option::None
                } else {
                    Option::Some(((c1 as u32) as char, i + 6))
                }
            },
        }
    } else {
        match esc_char(s[i + 1]) {
            Option::None => Option::None,
            Option::Some(c) => Option::Some((c, i + 2)),
        }
    }
}

/// The rest of a quoted string from `i`, which stands just after the opening
/// quote: the characters denoted up to the closing quote, and the position
/// after it. `None` on an unterminated string, a bad escape, a lone
/// surrogate, or a bare control character.
pub open spec fn sp_string(s: Seq<char>, i: int) -> Option<(Seq<char>, int)>
    decreases span_left(s, i),
{
    if !(0 <= i < s.len()) {
        Option::None
    } else if s[i] == '"' {
        Option::Some((Seq::empty(), i + 1))
    } else if s[i] == '\\' {
        match sp_escape(s, i) {
            Option::None => Option::None,
            Option::Some((c, k)) => match sp_string(s, after(i, k)) {
                Option::None => Option::None,
                Option::Some((rest, j)) => Option::Some((seq![c] + rest, j)),
            },
        }
    } else if (s[i] as u32) < 0x20 {
        Option::None
    } else {
        match sp_string(s, i + 1) {
            Option::None => Option::None,
            Option::Some((rest, j)) => Option::Some((seq![s[i]] + rest, j)),
        }
    }
}

/// The numeral starting at `i`: its text and the position after it. The
/// numeral is read greedily and must have a digit, no leading zero, and a
/// digit after any fraction point or exponent mark.
pub open spec fn sp_number(s: Seq<char>, i: int) -> Option<(Seq<char>, int)> {
    let j0 = if 0 <= i < s.len() && s[i] == '-' {
        i + 1
    } else {
        i
    };
    if !(0 <= j0 < s.len() && is_digit_char(s[j0])) {
        Option::None
    } else {
        let j1 = if s[j0] == '0' {
            j0 + 1
        } else {
            sp_digits(s, j0)
        };
        if j1 < s.len() && is_digit_char(s[j1]) {
            Option::None
        } else {
            let j2 = if j1 < s.len() && s[j1] == '.' {
                let d = sp_digits(s, j1 + 1);
                if d == j1 + 1 {
                    -1
                } else {
                    d
                }
            } else {
                j1
            };
            if j2 < 0 {
                Option::None
            } else {
                let j3 = if j2 < s.len() && (s[j2] == 'e' || s[j2] == 'E') {
                    let k = if j2 + 1 < s.len() && (s[j2 + 1] == '+' || s[j2 + 1] == '-') {
                        j2 + 2
                    } else {
                        j2 + 1
                    };
                    let d = sp_digits(s, k);
                    if d == k {
                        -1
                    } else {
                        d
                    }
                } else {
                    j2
                };
                if j3 < 0 {
                    Option::None
                } else {
                    Option::Some((s.subrange(i, j3), j3))
                }
            }
        }
    }
}

/// How much text is left from position `i` on: the measure by which the
/// descent comes down.
pub open spec fn span_left(s: Seq<char>, i: int) -> int {
    if i <= s.len() {
        s.len() - i
    } else {
        0
    }
}

/// Where the descent goes on after a sub-parse that began at `i` returned
/// position `j`. Every sub-parse in fact returns a position past its start,
/// so the clamp never alters a defined parse; it makes the descent's
/// rightward movement plain.
pub open spec fn after(i: int, j: int) -> int {
    if j > i {
        j
    } else {
        i + 1
    }
}

/// The value whose first character stands at `i`, and the position after it.
pub open spec fn sp_value(s: Seq<char>, i: int) -> Option<(JsonV, int)>
    decreases span_left(s, i), 0int,
{
    if !(0 <= i < s.len()) {
        Option::None
    } else if s[i] == '{' {
        let j = sp_ws(s, i + 1);
        if j < s.len() && s[j] == '}' {
            Option::Some((JsonV::Obj(Seq::empty()), j + 1))
        } else {
            match sp_members(s, after(i, j)) {
                Option::None => Option::None,
                Option::Some((entries, k)) => if k < s.len() && s[k] == '}' {
                    Option::Some((JsonV::Obj(entries), k + 1))
                } else {
                    Option::None
                },
            }
        }
    } else if s[i] == '[' {
        let j = sp_ws(s, i + 1);
        if j < s.len() && s[j] == ']' {
            Option::Some((JsonV::Arr(Seq::empty()), j + 1))
        } else {
            match sp_elements(s, after(i, j)) {
                Option::None => Option::None,
                Option::Some((items, k)) => if k < s.len() && s[k] == ']' {
                    Option::Some((JsonV::Arr(items), k + 1))
                } else {
                    Option::None
                },
            }
        }
    } else if s[i] == '"' {
        match sp_string(s, i + 1) {
            Option::None => Option::None,
            Option::Some((text, j)) => Option::Some((JsonV::Str(text), j)),
        }
    } else if s[i] == 't' {
        if i + 4 <= s.len() && s[i + 1] == 'r' && s[i + 2] == 'u' && s[i + 3] == 'e' {
            Option::Some((JsonV::Bool(true), i + 4))
        } else {
            Option::None
        }
    } else if s[i] == 'f' {
        if i + 5 <= s.len() && s[i + 1] == 'a' && s[i + 2] == 'l' && s[i + 3] == 's' && s[i + 4]
            == 'e' {
            Option::Some((JsonV::Bool(false), i + 5))
        } else {
            Option::None
        }
    } else if s[i] == 'n' {
        if i + 4 <= s.len() && s[i + 1] == 'u' && s[i + 2] == 'l' && s[i + 3] == 'l' {
            Option::Some((JsonV::Null, i + 4))
        } else {
            Option::None
        }
    } else if s[i] == '-' || is_digit_char(s[i]) {
        match sp_number(s, i) {
            Option::None => Option::None,
            Option::Some((text, j)) => Option::Some((JsonV::Num(text), j)),
        }
    } else {
        Option::None
    }
}

/// Shapes of a row of raw values.
pub open spec fn shapes_of(items: Seq<Json>) -> Seq<JsonV>
    decreases items,
{
    Seq::new(
        items.len(),
        |k: int| if 0 <= k < items.len() {
            json_shape(items[k])
        } else {
            arbitrary()
        },
    )
}

/// Shapes of a row of keyed raw values.
pub open spec fn entries_of(es: Seq<(String, Json)>) -> Seq<(Seq<char>, JsonV)>
    decreases es,
{
    Seq::new(
        es.len(),
        |k: int| if 0 <= k < es.len() {
            (es[k].0@, json_shape(es[k].1))
        } else {
            arbitrary()
        },
    )
}

/// The comma-separated values from `i` on, and the position after the blanks
/// that follow the last of them (where `]` is expected).
pub open spec fn sp_elements(s: Seq<char>, i: int) -> Option<(Seq<JsonV>, int)>
    decreases span_left(s, i), 1int,
{
    if !(0 <= i < s.len()) {
        Option::None
    } else {
        match sp_value(s, i) {
        Option::None => Option::None,
        Option::Some((v, j1)) => {
            let j2 = sp_ws(s, j1);
            if j2 < s.len() && s[j2] == ',' {
                let j3 = sp_ws(s, j2 + 1);
                match sp_elements(s, after(i, j3)) {
                    Option::None => Option::None,
                    Option::Some((rest, j4)) => Option::Some((seq![v] + rest, j4)),
                }
            } else {
                Option::Some((seq![v], j2))
            }
        },
        }
    }
}

/// The comma-separated `"key": value` entries from `i` on (which must hold
/// the opening quote of the first key), and the position after the blanks
/// that follow the last of them (where `}` is expected).
pub open spec fn sp_members(s: Seq<char>, i: int) -> Option<(Seq<(Seq<char>, JsonV)>, int)>
    decreases span_left(s, i), 1int,
{
    if !(0 <= i < s.len() && s[i] == '"') {
        Option::None
    } else {
        match sp_string(s, i + 1) {
            Option::None => Option::None,
            Option::Some((key, j1)) => {
                let j2 = sp_ws(s, j1);
                if !(j2 < s.len() && s[j2] == ':') {
                    Option::None
                } else {
                    let j3 = sp_ws(s, j2 + 1);
                    match sp_value(s, after(i, j3)) {
                        Option::None => Option::None,
                        Option::Some((v, j4)) => {
                            let j5 = sp_ws(s, j4);
                            if j5 < s.len() && s[j5] == ',' {
                                let j6 = sp_ws(s, j5 + 1);
                                match sp_members(s, after(i, j6)) {
                                    Option::None => Option::None,
                                    Option::Some((rest, j7)) => Option::Some(
                                        (seq![(key, v)] + rest, j7),
                                    ),
                                }
                            } else {
                                Option::Some((seq![(key, v)], j5))
                            }
                        },
                    }
                }
            },
        }
    }
}

/// The one value that a whole document denotes: blanks, one value, blanks,
/// and nothing further. `None` when the text is not well-formed.
pub open spec fn sp_document(s: Seq<char>) -> Option<JsonV> {
    match sp_value(s, sp_ws(s, 0)) {
        Option::None => Option::None,
        Option::Some((v, j)) => if sp_ws(s, j) == s.len() {
            Option::Some(v)
        } else {
            Option::None
        },
    }
}

/// Relies on std's `String::push`: it appends exactly the given character.
#[verifier::external_body]
fn push_char(s: &mut String, c: char)
    ensures
        final(s)@ == old(s)@.push(c),
{
    s.push(c);
}

/// Relies on std's `char::from_u32`: it returns `Some` exactly on Unicode
/// scalar values (outside the surrogate range and at most 0x10FFFF), and the
/// character returned has the given value.
#[verifier::external_body]
fn char_from_u32(v: u32) -> (r: Option<char>)
    ensures
        r is Some <==> (v < 0xD800 || (0xDFFF < v && v <= 0x10FFFF)),
        r matches Some(c) ==> c as u32 == v,
{
    char::from_u32(v)
}

fn ws_char(c: char) -> (b: bool)
    ensures
        b == is_ws_char(c),
{
    c == ' ' || c == '\n' || c == '\r' || c == '\t'
}

fn digit_char(c: char) -> (b: bool)
    ensures
        b == is_digit_char(c),
{
    let u = c as u32;
    '0' as u32 <= u && u <= '9' as u32
}

fn hex_char(c: char) -> (b: bool)
    ensures
        b == is_hex_char(c),
{
    let u = c as u32;
    ('0' as u32 <= u && u <= '9' as u32) || ('a' as u32 <= u && u <= 'f' as u32) || ('A' as u32
        <= u && u <= 'F' as u32)
}

fn hex_digit_val(c: char) -> (v: u32)
    requires
        is_hex_char(c),
    ensures
        v as int == hex_val(c),
{
    let u = c as u32;
    if '0' as u32 <= u && u <= '9' as u32 {
        u - '0' as u32
    } else if 'a' as u32 <= u && u <= 'f' as u32 {
        u - 'a' as u32 + 10
    } else {
        u - 'A' as u32 + 10
    }
}

fn unescape(c: char) -> (r: Option<char>)
    ensures
        r == esc_char(c),
{
    if c == '"' {
        Some('"')
    } else if c == '\\' {
        Some('\\')
    } else if c == '/' {
        Some('/')
    } else if c == 'b' {
        Some('\u{08}')
    } else if c == 'f' {
        Some('\u{0C}')
    } else if c == 'n' {
        Some('\n')
    } else if c == 'r' {
        Some('\r')
    } else if c == 't' {
        Some('\t')
    } else {
        None
    }
}

/// Skips blanks from `i` on.
fn skip_ws(s: &Vec<char>, i: usize) -> (j: usize)
    requires
        i <= s@.len(),
    ensures
        j as int == sp_ws(s@, i as int),
        i <= j <= s@.len(),
{
    let mut j = i;
    while j < s.len() && ws_char(s[j])
        invariant
            i <= j <= s@.len(),
            sp_ws(s@, i as int) == sp_ws(s@, j as int),
        decreases s@.len() - j,
    {
        j = j + 1;
    }
    j
}

/// Skips digits from `i` on.
fn scan_digits(s: &Vec<char>, i: usize) -> (j: usize)
    requires
        i <= s@.len(),
    ensures
        j as int == sp_digits(s@, i as int),
        i <= j <= s@.len(),
{
    let mut j = i;
    while j < s.len() && digit_char(s[j])
        invariant
            i <= j <= s@.len(),
            sp_digits(s@, i as int) == sp_digits(s@, j as int),
        decreases s@.len() - j,
    {
        j = j + 1;
    }
    j
}

/// Reads the four hexadecimal digits at `k`, if they are there.
fn read_hex4(s: &Vec<char>, k: usize) -> (r: Option<u32>)
    ensures
        r is Some <==> hex_quad(s@, k as int) is Some,
        r matches Some(v) ==> hex_quad(s@, k as int) == Some(v as int) && v < 0x10000,
{
    if k <= s.len() && s.len() - k >= 4 && hex_char(s[k]) && hex_char(s[k + 1]) && hex_char(
        s[k + 2],
    ) && hex_char(s[k + 3]) {
        let v = hex_digit_val(s[k]) * 0x1000 + hex_digit_val(s[k + 1]) * 0x100 + hex_digit_val(
            s[k + 2],
        ) * 0x10 + hex_digit_val(s[k + 3]);
        Some(v)
    } else {
        None
    }
}

/// Reads the escape at `cur`, which holds the backslash.
fn read_escape(s: &Vec<char>, cur: usize) -> (r: Option<(char, usize)>)
    requires
        cur < s@.len(),
    ensures
        r is None ==> sp_escape(s@, cur as int) is None,
        r matches Some(p) ==> sp_escape(s@, cur as int) == Some((p.0, p.1 as int)) && cur < p.1
            <= s@.len(),
{
    if !(s.len() - cur >= 2 && s[cur] == '\\') {
        return None;
    }
    let e = s[cur + 1];
    if e == 'u' {
        match read_hex4(s, cur + 2) {
            None => None,
            Some(c1) => {
                if 0xD800 <= c1 && c1 < 0xDC00 {
                    if s.len() - cur >= 8 && s[cur + 6] == '\\' && s[cur + 7] == 'u' {
                        match read_hex4(s, cur + 8) {
                            None => None,
                            Some(c2) => {
                                if 0xDC00 <= c2 && c2 < 0xE000 {
                                    let code = 0x10000 + (c1 - 0xD800) * 0x400 + (c2 - 0xDC00);
                                    match char_from_u32(code) {
                                        Some(ch) => {
                                            proof {
                                                vstd::utf8::char_u32_cast(ch, code);
                                            }
                                            Some((ch, cur + 12))
                                        },
                                        None => {
                                            proof {
                                                assert(false);
                                            }
                                            None
                                        },
                                    }
                                } else {
                                    None
                                }
                            },
                        }
                    } else {
                        None
                    }
                } else if 0xDC00 <= c1 && c1 < 0xE000 {
                    None
                } else {
                    match char_from_u32(c1) {
                        Some(ch) => {
                            proof {
                                vstd::utf8::char_u32_cast(ch, c1);
                            }
                            Some((ch, cur + 6))
                        },
                        None => {
                            proof {
                                assert(false);
                            }
                            None
                        },
                    }
                }
            },
        }
    } else {
        match unescape(e) {
            None => None,
            Some(ch) => Some((ch, cur + 2)),
        }
    }
}

/// Reads the rest of a quoted string; `i` stands just after the opening
/// quote.
fn read_string(s: &Vec<char>, i: usize) -> (r: Option<(String, usize)>)
    requires
        i <= s@.len(),
    ensures
        r is None ==> sp_string(s@, i as int) is None,
        r matches Some(p) ==> sp_string(s@, i as int) == Some((p.0@, p.1 as int)) && i < p.1
            <= s@.len(),
{
    let mut acc = String::new();
    let mut cur = i;
    proof {
        match sp_string(s@, i as int) {
            Option::Some((rest, j)) => {
                assert(acc@ + rest =~= rest);
            },
            Option::None => {},
        }
    }
    loop
        invariant
            i <= cur <= s@.len(),
            match sp_string(s@, cur as int) {
                Option::None => sp_string(s@, i as int) is None,
                Option::Some((rest, j)) => sp_string(s@, i as int) == Some((acc@ + rest, j)),
            },
        decreases s@.len() - cur,
    {
        if cur >= s.len() {
            return None;
        }
        let c = s[cur];
        if c == '"' {
            proof {
                assert(acc@ + Seq::<char>::empty() =~= acc@);
            }
            return Some((acc, cur + 1));
        } else if c == '\\' {
            match read_escape(s, cur) {
                None => {
                    return None;
                },
                Some((ch, k)) => {
                    let ghost prev = acc@;
                    push_char(&mut acc, ch);
                    proof {
                        assert(after(cur as int, k as int) == k as int);
                        lemma_shift(prev, ch, sp_string(s@, k as int));
                    }
                    cur = k;
                },
            }
        } else if (c as u32) < 0x20 {
            return None;
        } else {
            let ghost prev = acc@;
            push_char(&mut acc, c);
            proof {
                lemma_shift(prev, c, sp_string(s@, cur + 1));
            }
            cur = cur + 1;
        }
    }
}

/// One character read moves the accumulated text one step: what the loop of
/// [`read_string`] keeps rests on this regrouping.
proof fn lemma_shift(prev: Seq<char>, c: char, tail: Option<(Seq<char>, int)>)
    ensures
        tail matches Some(p) ==> prev + (seq![c] + p.0) =~= prev.push(c) + p.0,
{
}

/// Copies the characters of `s` between `from` and `to` into fresh text.
fn copy_range(s: &Vec<char>, from: usize, to: usize) -> (t: String)
    requires
        from <= to <= s@.len(),
    ensures
        t@ == s@.subrange(from as int, to as int),
{
    let mut t = String::new();
    let mut k = from;
    while k < to
        invariant
            from <= k <= to <= s@.len(),
            t@ =~= s@.subrange(from as int, k as int),
        decreases to - k,
    {
        let ghost prev = t@;
        push_char(&mut t, s[k]);
        proof {
            assert(prev.push(s@[k as int]) =~= s@.subrange(from as int, k + 1 as int));
        }
        k = k + 1;
    }
    proof {
        assert(t@ =~= s@.subrange(from as int, to as int));
    }
    t
}

/// Reads the numeral starting at `i`.
fn read_number(s: &Vec<char>, i: usize) -> (r: Option<(String, usize)>)
    requires
        i <= s@.len(),
    ensures
        r is None ==> sp_number(s@, i as int) is None,
        r matches Some(p) ==> sp_number(s@, i as int) == Some((p.0@, p.1 as int)) && i < p.1
            <= s@.len(),
{
    let j0 = if i < s.len() && s[i] == '-' {
        i + 1
    } else {
        i
    };
    if !(j0 < s.len() && digit_char(s[j0])) {
        return None;
    }
    let j1 = if s[j0] == '0' {
        j0 + 1
    } else {
        scan_digits(s, j0)
    };
    if j1 < s.len() && digit_char(s[j1]) {
        return None;
    }
    let j2 = if j1 < s.len() && s[j1] == '.' {
        let d = scan_digits(s, j1 + 1);
        if d == j1 + 1 {
            return None;
        }
        d
    } else {
        j1
    };
    let j3 = if j2 < s.len() && (s[j2] == 'e' || s[j2] == 'E') {
        let k = if j2 + 1 < s.len() && (s[j2 + 1] == '+' || s[j2 + 1] == '-') {
            j2 + 2
        } else {
            j2 + 1
        };
        let d = scan_digits(s, k);
        if d == k {
            return None;
        }
        d
    } else {
        j2
    };
    let text = copy_range(s, i, j3);
    Some((text, j3))
}

/// Reads the value whose first character stands at `i`.
fn read_value(s: &Vec<char>, i: usize) -> (r: Option<(Json, usize)>)
    requires
        i <= s@.len(),
    ensures
        r is None ==> sp_value(s@, i as int) is None,
        r matches Some(p) ==> sp_value(s@, i as int) == Some((p.0@, p.1 as int)) && i < p.1
            <= s@.len(),
    decreases span_left(s@, i as int), 0int,
{
    if i >= s.len() {
        return None;
    }
    let c = s[i];
    if c == '{' {
        let j = skip_ws(s, i + 1);
        if j < s.len() && s[j] == '}' {
            let out: Vec<(String, Json)> = Vec::new();
            proof {
                assert(entries_of(out@) =~= Seq::<(Seq<char>, JsonV)>::empty());
            }
            return Some((Json::Obj(out), j + 1));
        }
        match read_members(s, j) {
            None => None,
            Some((entries, k)) => {
                if k < s.len() && s[k] == '}' {
                    Some((Json::Obj(entries), k + 1))
                } else {
                    None
                }
            },
        }
    } else if c == '[' {
        let j = skip_ws(s, i + 1);
        if j < s.len() && s[j] == ']' {
            let out: Vec<Json> = Vec::new();
            proof {
                assert(shapes_of(out@) =~= Seq::<JsonV>::empty());
            }
            return Some((Json::Arr(out), j + 1));
        }
        match read_elements(s, j) {
            None => None,
            Some((items, k)) => {
                if k < s.len() && s[k] == ']' {
                    Some((Json::Arr(items), k + 1))
                } else {
                    None
                }
            },
        }
    } else if c == '"' {
        match read_string(s, i + 1) {
            None => None,
            Some((text, j)) => Some((Json::Str(text), j)),
        }
    } else if c == 't' {
        if s.len() - i >= 4 && s[i + 1] == 'r' && s[i + 2] == 'u' && s[i + 3] == 'e' {
            Some((Json::Bool(true), i + 4))
        } else {
            None
        }
    } else if c == 'f' {
        if s.len() - i >= 5 && s[i + 1] == 'a' && s[i + 2] == 'l' && s[i + 3] == 's' && s[i + 4]
            == 'e' {
            Some((Json::Bool(false), i + 5))
        } else {
            None
        }
    } else if c == 'n' {
        if s.len() - i >= 4 && s[i + 1] == 'u' && s[i + 2] == 'l' && s[i + 3] == 'l' {
            Some((Json::Null, i + 4))
        } else {
            None
        }
    } else if c == '-' || digit_char(c) {
        match read_number(s, i) {
            None => None,
            Some((text, j)) => Some((Json::Num(text), j)),
        }
    } else {
        None
    }
}

/// Reads the comma-separated values from `i` on.
fn read_elements(s: &Vec<char>, i: usize) -> (r: Option<(Vec<Json>, usize)>)
    requires
        i <= s@.len(),
    ensures
        r is None ==> sp_elements(s@, i as int) is None,
        r matches Some(p) ==> sp_elements(s@, i as int) == Some((shapes_of(p.0@), p.1 as int)) && i
            < p.1 <= s@.len(),
    decreases span_left(s@, i as int), 1int,
{
    match read_value(s, i) {
        None => None,
        Some((v, j1)) => {
            let j2 = skip_ws(s, j1);
            if j2 < s.len() && s[j2] == ',' {
                let j3 = skip_ws(s, j2 + 1);
                match read_elements(s, j3) {
                    None => None,
                    Some((rest, j4)) => {
                        let ghost restv = rest@;
                        let mut out = rest;
                        out.insert(0, v);
                        proof {
                            assert(shapes_of(out@) =~= seq![v@] + shapes_of(restv));
                        }
                        Some((out, j4))
                    },
                }
            } else {
                let out = vec![v];
                proof {
                    assert(shapes_of(out@) =~= seq![v@]);
                }
                Some((out, j2))
            }
        },
    }
}

/// Reads the comma-separated `"key": value` entries from `i` on.
fn read_members(s: &Vec<char>, i: usize) -> (r: Option<(Vec<(String, Json)>, usize)>)
    requires
        i <= s@.len(),
    ensures
        r is None ==> sp_members(s@, i as int) is None,
        r matches Some(p) ==> sp_members(s@, i as int) == Some((entries_of(p.0@), p.1 as int)) && i
            < p.1 <= s@.len(),
    decreases span_left(s@, i as int), 1int,
{
    if !(i < s.len() && s[i] == '"') {
        return None;
    }
    match read_string(s, i + 1) {
        None => None,
        Some((key, j1)) => {
            let j2 = skip_ws(s, j1);
            if !(j2 < s.len() && s[j2] == ':') {
                return None;
            }
            let j3 = skip_ws(s, j2 + 1);
            match read_value(s, j3) {
                None => None,
                Some((v, j4)) => {
                    let j5 = skip_ws(s, j4);
                    if j5 < s.len() && s[j5] == ',' {
                        let j6 = skip_ws(s, j5 + 1);
                        match read_members(s, j6) {
                            None => None,
                            Some((rest, j7)) => {
                                let ghost restv = rest@;
                                let mut out = rest;
                                out.insert(0, (key, v));
                                proof {
                                    assert(entries_of(out@) =~= seq![(key@, v@)] + entries_of(
                                        restv,
                                    ));
                                }
                                Some((out, j7))
                            },
                        }
                    } else {
                        let out = vec![(key, v)];
                        proof {
                            assert(entries_of(out@) =~= seq![(key@, v@)]);
                        }
                        Some((out, j5))
                    }
                },
            }
        },
    }
}

/// The characters of a text, one by one.
fn chars_of(text: &str) -> (r: Vec<char>)
    ensures
        r@ == text@,
{
    let n = text.unicode_len();
    let mut v: Vec<char> = Vec::new();
    let mut k: usize = 0;
    while k < n
        invariant
            n == text@.len(),
            k <= n,
            v@ =~= text@.subrange(0, k as int),
        decreases n - k,
    {
        let c = text.get_char(k);
        v.push(c);
        proof {
            assert(v@ =~= text@.subrange(0, k + 1 as int));
        }
        k = k + 1;
    }
    proof {
        assert(text@.subrange(0, n as int) =~= text@);
    }
    v
}

/// Reads a whole document: one value and nothing further. `None` when the
/// text is not well-formed.
pub fn read_document(text: &str) -> (r: Option<Json>)
    ensures
        r is None <==> sp_document(text@) is None,
        r matches Some(v) ==> sp_document(text@) == Some(v@),
{
    let chars = chars_of(text);
    let i = skip_ws(&chars, 0);
    match read_value(&chars, i) {
        None => None,
        Some((v, j)) => {
            let k = skip_ws(&chars, j);
            if k == chars.len() {
                Some(v)
            } else {
                None
            }
        },
    }
}

} // verus!
