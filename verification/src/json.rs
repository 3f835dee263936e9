//! The configuration file format and the token envelope.
//!
//! The configuration is stored as one JSON object with exactly the string
//! fields `url` and `token`; every request carries the JSON object
//! `{"token":"<value>"}` as its body. Both texts are produced and read here,
//! character by character: the spec functions state the grammar, and the
//! executable encoder and parser are proved against them.

use vstd::prelude::*;
use crate::config::{Config, default_config, default_url};
use crate::errors::ClientError;
use crate::text::{chars_to_string, to_chars};

verus! {

// ---------------------------------------------------------------------------
// Escaping of string bodies
// ---------------------------------------------------------------------------

/// The lower-case hexadecimal digit of `d`.
pub open spec fn hex_char(d: int) -> char {
    if d == 0 {
        '0'
    } else if d == 1 {
        '1'
    } else if d == 2 {
        '2'
    } else if d == 3 {
        '3'
    } else if d == 4 {
        '4'
    } else if d == 5 {
        '5'
    } else if d == 6 {
        '6'
    } else if d == 7 {
        '7'
    } else if d == 8 {
        '8'
    } else if d == 9 {
        '9'
    } else if d == 10 {
        'a'
    } else if d == 11 {
        'b'
    } else if d == 12 {
        'c'
    } else if d == 13 {
        'd'
    } else if d == 14 {
        'e'
    } else {
        'f'
    }
}

/// The value of `c` as a hexadecimal digit, or -1.
pub open spec fn hex_val(c: char) -> int {
    let u = c as u32;
    if 0x30 <= u && u <= 0x39 {
        u - 0x30
    } else if 0x61 <= u && u <= 0x66 {
        u - 0x61 + 10
    } else if 0x41 <= u && u <= 0x46 {
        u - 0x41 + 10
    } else {
        -1
    }
}

/// How one character stands inside a JSON string: itself, a two-character
/// escape, or `\u00..` for the other control characters.
pub open spec fn esc_char(c: char) -> Seq<char> {
    let u = c as u32 as int;
    if c == '"' {
        seq!['\\', '"']
    } else if c == '\\' {
        seq!['\\', '\\']
    } else if u == 0x08 {
        seq!['\\', 'b']
    } else if u == 0x09 {
        seq!['\\', 't']
    } else if u == 0x0a {
        seq!['\\', 'n']
    } else if u == 0x0c {
        seq!['\\', 'f']
    } else if u == 0x0d {
        seq!['\\', 'r']
    } else if u < 0x20 {
        seq!['\\', 'u', '0', '0', hex_char(u / 16), hex_char(u % 16)]
    } else {
        seq![c]
    }
}

/// How a whole string body stands inside a JSON string.
pub open spec fn esc(s: Seq<char>) -> Seq<char>
    decreases s.len(),
{
    if s.len() == 0 {
        Seq::<char>::empty()
    } else {
        esc_char(s[0]) + esc(s.drop_first())
    }
}

/// Escaping one character more appends that character's escape.
pub proof fn lemma_esc_push(s: Seq<char>, c: char)
    ensures
        esc(s.push(c)) == esc(s) + esc_char(c),
    decreases s.len(),
{
    if s.len() == 0 {
        assert(s.push(c)[0] == c);
        assert(s.push(c).drop_first() =~= Seq::<char>::empty());
        assert(esc(s.push(c)) == esc_char(c) + esc(Seq::<char>::empty()));
        assert(esc(Seq::<char>::empty()) == Seq::<char>::empty());
        assert(esc(s) == Seq::<char>::empty());
        assert(esc(s.push(c)) =~= esc(s) + esc_char(c));
    } else {
        assert(s.push(c)[0] == s[0]);
        assert(s.push(c).drop_first() =~= s.drop_first().push(c));
        lemma_esc_push(s.drop_first(), c);
        assert(esc(s.push(c)) =~= esc(s) + esc_char(c));
    }
}

/// The lower-case hexadecimal digit of `d`.
pub fn hex_char_of(d: u8) -> (r: char)
    requires
        d < 16,
    ensures
        r == hex_char(d as int),
{
    if d == 0 {
        '0'
    } else if d == 1 {
        '1'
    } else if d == 2 {
        '2'
    } else if d == 3 {
        '3'
    } else if d == 4 {
        '4'
    } else if d == 5 {
        '5'
    } else if d == 6 {
        '6'
    } else if d == 7 {
        '7'
    } else if d == 8 {
        '8'
    } else if d == 9 {
        '9'
    } else if d == 10 {
        'a'
    } else if d == 11 {
        'b'
    } else if d == 12 {
        'c'
    } else if d == 13 {
        'd'
    } else if d == 14 {
        'e'
    } else {
        'f'
    }
}

/// Appends the escape of one character.
fn esc_char_into(out: &mut Vec<char>, c: char)
    ensures
        final(out)@ == old(out)@ + esc_char(c),
{
    let u = c as u32;
    if c == '"' {
        out.push('\\');
        out.push('"');
    } else if c == '\\' {
        out.push('\\');
        out.push('\\');
    } else if u == 0x08 {
        out.push('\\');
        out.push('b');
    } else if u == 0x09 {
        out.push('\\');
        out.push('t');
    } else if u == 0x0a {
        out.push('\\');
        out.push('n');
    } else if u == 0x0c {
        out.push('\\');
        out.push('f');
    } else if u == 0x0d {
        out.push('\\');
        out.push('r');
    } else if u < 0x20 {
        out.push('\\');
        out.push('u');
        out.push('0');
        out.push('0');
        out.push(hex_char_of((u / 16) as u8));
        out.push(hex_char_of((u % 16) as u8));
    } else {
        out.push(c);
    }
    proof {
        assert(out@ =~= old(out)@ + esc_char(c));
    }
}

/// Appends the escape of a whole string body.
fn esc_into(out: &mut Vec<char>, v: &Vec<char>)
    ensures
        final(out)@ == old(out)@ + esc(v@),
{
    let n = v.len();
    let mut i: usize = 0;
    proof {
        assert(out@ =~= old(out)@ + esc(v@.subrange(0, 0)));
    }
    while i < n
        invariant
            i <= n,
            n == v@.len(),
            out@ == old(out)@ + esc(v@.subrange(0, i as int)),
        decreases n - i,
    {
        esc_char_into(out, v[i]);
        i = i + 1;
        proof {
            assert(v@.subrange(0, i - 1).push(v@[i - 1]) =~= v@.subrange(0, i as int));
            lemma_esc_push(v@.subrange(0, i - 1), v@[i - 1]);
            assert(out@ =~= old(out)@ + esc(v@.subrange(0, i as int)));
        }
    }
    proof {
        assert(v@.subrange(0, n as int) =~= v@);
    }
}

// ---------------------------------------------------------------------------
// The two documents
// ---------------------------------------------------------------------------

/// The characters of the field name `url`.
pub open spec fn url_key() -> Seq<char> {
    seq!['u', 'r', 'l']
}

/// The characters of the field name `token`.
pub open spec fn token_key() -> Seq<char> {
    seq!['t', 'o', 'k', 'e', 'n']
}

/// The text the client writes a configuration as:
/// `{"url":"<url>","token":"<token>"}`, with both values escaped.
pub open spec fn config_json(url: Seq<char>, token: Seq<char>) -> Seq<char> {
    seq!['{', '"', 'u', 'r', 'l', '"', ':', '"'] + esc(url) + seq![
        '"',
        ',',
        '"',
        't',
        'o',
        'k',
        'e',
        'n',
        '"',
        ':',
        '"',
    ] + esc(token) + seq!['"', '}']
}

/// The body of every administrative request: `{"token":"<token>"}`.
pub open spec fn token_envelope(t: Seq<char>) -> Seq<char> {
    seq!['{', '"', 't', 'o', 'k', 'e', 'n', '"', ':', '"'] + esc(t) + seq!['"', '}']
}

/// Writes a configuration as its file text.
pub fn encode_config(c: &Config) -> (r: String)
    ensures
        r@ == config_json(c.url@, c.token@),
{
    let mut out: Vec<char> = Vec::new();
    out.push('{');
    out.push('"');
    out.push('u');
    out.push('r');
    out.push('l');
    out.push('"');
    out.push(':');
    out.push('"');
    let uc = to_chars(c.url.as_str());
    esc_into(&mut out, &uc);
    out.push('"');
    out.push(',');
    out.push('"');
    out.push('t');
    out.push('o');
    out.push('k');
    out.push('e');
    out.push('n');
    out.push('"');
    out.push(':');
    out.push('"');
    let tc = to_chars(c.token.as_str());
    esc_into(&mut out, &tc);
    out.push('"');
    out.push('}');
    proof {
        assert(out@ =~= config_json(c.url@, c.token@));
    }
    chars_to_string(&out)
}

/// The body sent with a request that carries `token`.
pub fn encode_token_body(token: &str) -> (r: String)
    ensures
        r@ == token_envelope(token@),
{
    let mut out: Vec<char> = Vec::new();
    out.push('{');
    out.push('"');
    out.push('t');
    out.push('o');
    out.push('k');
    out.push('e');
    out.push('n');
    out.push('"');
    out.push(':');
    out.push('"');
    let tc = to_chars(token);
    esc_into(&mut out, &tc);
    out.push('"');
    out.push('}');
    proof {
        assert(out@ =~= token_envelope(token@));
    }
    chars_to_string(&out)
}

/// The file text a first run writes: the default configuration, encoded.
pub fn default_config_json() -> (r: String)
    ensures
        r@ == config_json(default_url(), Seq::<char>::empty()),
{
    let c = default_config();
    encode_config(&c)
}

// ---------------------------------------------------------------------------
// Parsing
// ---------------------------------------------------------------------------

/// The whitespace JSON allows between tokens.
pub open spec fn is_json_ws(c: char) -> bool {
    c == ' ' || c == '\t' || c == '\n' || c == '\r'
}

/// The first position at or after `i` that does not hold JSON whitespace.
pub open spec fn skip_ws(s: Seq<char>, i: int) -> int
    decreases s.len() - i,
{
    if 0 <= i && i < s.len() && is_json_ws(s[i]) {
        skip_ws(s, i + 1)
    } else {
        i
    }
}

/// The value of the four hexadecimal digits at `i`, or -1.
pub open spec fn hex4(s: Seq<char>, i: int) -> int {
    if 0 <= i && i + 4 <= s.len() && hex_val(s[i]) >= 0 && hex_val(s[i + 1]) >= 0 && hex_val(
        s[i + 2],
    ) >= 0 && hex_val(s[i + 3]) >= 0 {
        hex_val(s[i]) * 0x1000 + hex_val(s[i + 1]) * 0x100 + hex_val(s[i + 2]) * 0x10 + hex_val(
            s[i + 3],
        )
    } else {
        -1
    }
}

/// The character an escape stands for, with the position after it. `i` is
/// the position after the backslash. A `\u` escape carrying a high surrogate
/// must be followed by one carrying a low surrogate; the pair is one
/// character.
pub open spec fn parse_escape(s: Seq<char>, i: int) -> Option<(char, int)> {
    if 0 <= i && i < s.len() {
        let c = s[i];
        if c == '"' {
            Some(('"', i + 1))
        } else if c == '\\' {
            Some(('\\', i + 1))
        } else if c == '/' {
            Some(('/', i + 1))
        } else if c == 'b' {
            Some(('\u{8}', i + 1))
        } else if c == 'f' {
            Some(('\u{c}', i + 1))
        } else if c == 'n' {
            Some(('\n', i + 1))
        } else if c == 'r' {
            Some(('\r', i + 1))
        } else if c == 't' {
            Some(('\t', i + 1))
        } else if c == 'u' {
            let h = hex4(s, i + 1);
            if h < 0 {
                None
            } else if 0xd800 <= h && h < 0xdc00 {
                if i + 7 <= s.len() && s[i + 5] == '\\' && s[i + 6] == 'u' {
                    let h2 = hex4(s, i + 7);
                    if 0xdc00 <= h2 && h2 < 0xe000 {
                        let cp = 0x10000 + (h - 0xd800) * 0x400 + (h2 - 0xdc00);
                        Some(((cp as u32) as char, i + 11))
                    } else {
                        None
                    }
                } else {
                    None
                }
            } else if 0xdc00 <= h && h < 0xe000 {
                None
            } else {
                Some(((h as u32) as char, i + 5))
            }
        } else {
            None
        }
    } else {
        None
    }
}

/// The characters of a string body read from `i` up to its closing quote,
/// appended to `acc`, with the position after the quote.
pub open spec fn parse_string_body(s: Seq<char>, i: int, acc: Seq<char>) -> Option<
    (Seq<char>, int),
>
    decreases s.len() - i,
{
    if 0 <= i && i < s.len() {
        let c = s[i];
        if c == '"' {
            Some((acc, i + 1))
        } else if c == '\\' {
            match parse_escape(s, i + 1) {
                Some((d, j)) => if i + 1 < j && j <= s.len() {
                    parse_string_body(s, j, acc.push(d))
                } else {
                    None
                },
                None => None,
            }
        } else if (c as u32) < 0x20 {
            None
        } else {
            parse_string_body(s, i + 1, acc.push(c))
        }
    } else {
        None
    }
}

/// One `"key": "value"` member starting at the opening quote of its key,
/// with the position after the value's closing quote.
pub open spec fn parse_member(s: Seq<char>, i: int) -> Option<(Seq<char>, Seq<char>, int)> {
    if 0 <= i && i < s.len() && s[i] == '"' {
        match parse_string_body(s, i + 1, Seq::<char>::empty()) {
            Some((key, j)) => {
                let j1 = skip_ws(s, j);
                if j1 < s.len() && s[j1] == ':' {
                    let j2 = skip_ws(s, j1 + 1);
                    if j2 < s.len() && s[j2] == '"' {
                        match parse_string_body(s, j2 + 1, Seq::<char>::empty()) {
                            Some((val, k)) => Some((key, val, k)),
                            None => None,
                        }
                    } else {
                        None
                    }
                } else {
                    None
                }
            },
            None => None,
        }
    } else {
        None
    }
}

/// The whole configuration document: an object holding exactly a `url`
/// member and a `token` member, in either order, and nothing else. The
/// result is the pair (url value, token value).
pub open spec fn parse_config_doc(s: Seq<char>) -> Option<(Seq<char>, Seq<char>)> {
    let i0 = skip_ws(s, 0);
    if i0 < s.len() && s[i0] == '{' {
        let i1 = skip_ws(s, i0 + 1);
        match parse_member(s, i1) {
            Some((k1, v1, j)) => {
                let j1 = skip_ws(s, j);
                if j1 < s.len() && s[j1] == ',' {
                    let j2 = skip_ws(s, j1 + 1);
                    match parse_member(s, j2) {
                        Some((k2, v2, k)) => {
                            let k1p = skip_ws(s, k);
                            if k1p < s.len() && s[k1p] == '}' && skip_ws(s, k1p + 1) == s.len() {
                                if k1 == url_key() && k2 == token_key() {
                                    Some((v1, v2))
                                } else if k1 == token_key() && k2 == url_key() {
                                    Some((v2, v1))
                                } else {
                                    None
                                }
                            } else {
                                None
                            }
                        },
                        None => None,
                    }
                } else {
                    None
                }
            },
            None => None,
        }
    } else {
        None
    }
}

/// Whether `c` is JSON whitespace.
fn json_ws(c: char) -> (r: bool)
    ensures
        r == is_json_ws(c),
{
    c == ' ' || c == '\t' || c == '\n' || c == '\r'
}

/// Skips JSON whitespace.
fn skip_ws_exec(v: &Vec<char>, i: usize) -> (r: usize)
    requires
        i <= v.len(),
    ensures
        i <= r <= v.len(),
        r as int == skip_ws(v@, i as int),
{
    let mut cur: usize = i;
    while cur < v.len() && json_ws(v[cur])
        invariant
            i <= cur <= v.len(),
            skip_ws(v@, i as int) == skip_ws(v@, cur as int),
        decreases v.len() - cur,
    {
        cur = cur + 1;
    }
    cur
}

/// The value of `c` as a hexadecimal digit.
fn hex_val_exec(c: char) -> (r: Option<u8>)
    ensures
        r matches Some(d) ==> hex_val(c) == d as int && d < 16,
        r is None ==> hex_val(c) == -1,
{
    let u = c as u32;
    if 0x30 <= u && u <= 0x39 {
        Some((u - 0x30) as u8)
    } else if 0x61 <= u && u <= 0x66 {
        Some((u - 0x61 + 10) as u8)
    } else if 0x41 <= u && u <= 0x46 {
        Some((u - 0x41 + 10) as u8)
    } else {
        None
    }
}

/// The value of the four hexadecimal digits at `i`.
fn hex4_exec(v: &Vec<char>, i: usize) -> (r: Option<u32>)
    requires
        i <= v.len(),
    ensures
        r matches Some(h) ==> hex4(v@, i as int) == h as int && h < 0x10000 && i + 4 <= v.len(),
        r is None ==> hex4(v@, i as int) == -1,
{
    if v.len() < 4 || i > v.len() - 4 {
        return None;
    }
    let d0 = match hex_val_exec(v[i]) {
        Some(d) => d,
        None => {
            return None;
        },
    };
    let d1 = match hex_val_exec(v[i + 1]) {
        Some(d) => d,
        None => {
            return None;
        },
    };
    let d2 = match hex_val_exec(v[i + 2]) {
        Some(d) => d,
        None => {
            return None;
        },
    };
    let d3 = match hex_val_exec(v[i + 3]) {
        Some(d) => d,
        None => {
            return None;
        },
    };
    Some((d0 as u32) * 0x1000 + (d1 as u32) * 0x100 + (d2 as u32) * 0x10 + (d3 as u32))
}

/// Relies on `char::from_u32`: the result is `Some(c)` with `c as u32 == u`
/// exactly when `u` is a Unicode scalar value, that is not a surrogate and
/// at most 0x10FFFF.
#[verifier::external_body]
fn char_from_u32(u: u32) -> (r: Option<char>)
    ensures
        r is Some <==> (u < 0xd800 || (0xe000 <= u && u <= 0x10ffff)),
        r matches Some(c) ==> c as u32 == u,
{
    char::from_u32(u)
}

/// Reads one escape, `i` standing after the backslash.
fn parse_escape_exec(v: &Vec<char>, i: usize) -> (r: Option<(char, usize)>)
    requires
        i <= v.len(),
    ensures
        r matches Some((c, j)) ==> parse_escape(v@, i as int) == Some((c, j as int)) && i < j
            && j <= v.len(),
        r is None ==> parse_escape(v@, i as int) is None,
{
    if i >= v.len() {
        return None;
    }
    let c = v[i];
    if c == '"' {
        Some(('"', i + 1))
    } else if c == '\\' {
        Some(('\\', i + 1))
    } else if c == '/' {
        Some(('/', i + 1))
    } else if c == 'b' {
        Some(('\u{8}', i + 1))
    } else if c == 'f' {
        Some(('\u{c}', i + 1))
    } else if c == 'n' {
        Some(('\n', i + 1))
    } else if c == 'r' {
        Some(('\r', i + 1))
    } else if c == 't' {
        Some(('\t', i + 1))
    } else if c == 'u' {
        let h = match hex4_exec(v, i + 1) {
            Some(h) => h,
            None => {
                return None;
            },
        };
        if 0xd800 <= h && h < 0xdc00 {
            if v.len() >= 7 && i <= v.len() - 7 && v[i + 5] == '\\' && v[i + 6] == 'u' {
                let h2 = match hex4_exec(v, i + 7) {
                    Some(h2) => h2,
                    None => {
                        return None;
                    },
                };
                if 0xdc00 <= h2 && h2 < 0xe000 {
                    let cp: u32 = 0x10000 + (h - 0xd800) * 0x400 + (h2 - 0xdc00);
                    match char_from_u32(cp) {
                        Some(ch) => {
                            proof {
                                vstd::utf8::char_u32_cast(ch, cp);
                            }
                            Some((ch, i + 11))
                        },
                        None => {
                            proof {
                                assert(false);
                            }
                            None
                        },
                    }
                } else {
                    None
                }
            } else {
                None
            }
        } else if 0xdc00 <= h && h < 0xe000 {
            None
        } else {
            match char_from_u32(h) {
                Some(ch) => {
                    proof {
                        vstd::utf8::char_u32_cast(ch, h);
                    }
                    Some((ch, i + 5))
                },
                None => {
                    proof {
                        assert(false);
                    }
                    None
                },
            }
        }
    } else {
        None
    }
}

/// Reads a string body from `i` up to its closing quote.
fn parse_string_body_exec(v: &Vec<char>, i: usize) -> (r: Option<(Vec<char>, usize)>)
    requires
        i <= v.len(),
    ensures
        r matches Some((cs, j)) ==> parse_string_body(v@, i as int, Seq::<char>::empty()) == Some(
            (cs@, j as int),
        ) && i < j && j <= v.len(),
        r is None ==> parse_string_body(v@, i as int, Seq::<char>::empty()) is None,
{
    let mut acc: Vec<char> = Vec::new();
    let mut cur: usize = i;
    proof {
        assert(acc@ =~= Seq::<char>::empty());
    }
    loop
        invariant
            i <= cur <= v.len(),
            parse_string_body(v@, i as int, Seq::<char>::empty()) == parse_string_body(
                v@,
                cur as int,
                acc@,
            ),
        decreases v.len() - cur,
    {
        if cur >= v.len() {
            return None;
        }
        let c = v[cur];
        if c == '"' {
            return Some((acc, cur + 1));
        } else if c == '\\' {
            match parse_escape_exec(v, cur + 1) {
                Some((d, j)) => {
                    acc.push(d);
                    cur = j;
                },
                None => {
                    return None;
                },
            }
        } else if (c as u32) < 0x20 {
            return None;
        } else {
            acc.push(c);
            cur = cur + 1;
        }
    }
}

/// Reads one `"key": "value"` member starting at the opening quote of its key.
fn parse_member_exec(v: &Vec<char>, i: usize) -> (r: Option<(Vec<char>, Vec<char>, usize)>)
    requires
        i <= v.len(),
    ensures
        r matches Some((key, val, k)) ==> parse_member(v@, i as int) == Some(
            (key@, val@, k as int),
        ) && i < k && k <= v.len(),
        r is None ==> parse_member(v@, i as int) is None,
{
    if i >= v.len() || v[i] != '"' {
        return None;
    }
    let (key, j) = match parse_string_body_exec(v, i + 1) {
        Some(p) => p,
        None => {
            return None;
        },
    };
    let j1 = skip_ws_exec(v, j);
    if j1 >= v.len() || v[j1] != ':' {
        return None;
    }
    let j2 = skip_ws_exec(v, j1 + 1);
    if j2 >= v.len() || v[j2] != '"' {
        return None;
    }
    let (val, k) = match parse_string_body_exec(v, j2 + 1) {
        Some(p) => p,
        None => {
            return None;
        },
    };
    Some((key, val, k))
}

/// Reads a whole configuration document.
fn parse_config_doc_exec(v: &Vec<char>) -> (r: Option<(Vec<char>, Vec<char>)>)
    ensures
        r matches Some((u, t)) ==> parse_config_doc(v@) == Some((u@, t@)),
        r is None ==> parse_config_doc(v@) is None,
{
    let i0 = skip_ws_exec(v, 0);
    if i0 >= v.len() || v[i0] != '{' {
        return None;
    }
    let i1 = skip_ws_exec(v, i0 + 1);
    let (k1, v1, j) = match parse_member_exec(v, i1) {
        Some(m) => m,
        None => {
            return None;
        },
    };
    let j1 = skip_ws_exec(v, j);
    if j1 >= v.len() || v[j1] != ',' {
        return None;
    }
    let j2 = skip_ws_exec(v, j1 + 1);
    let (k2, v2, k) = match parse_member_exec(v, j2) {
        Some(m) => m,
        None => {
            return None;
        },
    };
    let k1p = skip_ws_exec(v, k);
    if k1p >= v.len() || v[k1p] != '}' {
        return None;
    }
    if skip_ws_exec(v, k1p + 1) != v.len() {
        return None;
    }
    let mut uk: Vec<char> = Vec::new();
    uk.push('u');
    uk.push('r');
    uk.push('l');
    let mut tk: Vec<char> = Vec::new();
    tk.push('t');
    tk.push('o');
    tk.push('k');
    tk.push('e');
    tk.push('n');
    proof {
        assert(uk@ =~= url_key());
        assert(tk@ =~= token_key());
    }
    let k1_is_url = crate::text::chars_eq(&k1, &uk);
    let k1_is_token = crate::text::chars_eq(&k1, &tk);
    let k2_is_url = crate::text::chars_eq(&k2, &uk);
    let k2_is_token = crate::text::chars_eq(&k2, &tk);
    if k1_is_url && k2_is_token {
        Some((v1, v2))
    } else if k1_is_token && k2_is_url {
        Some((v2, v1))
    } else {
        None
    }
}

// ---------------------------------------------------------------------------
// The encoder's output always parses back
// ---------------------------------------------------------------------------

proof fn lemma_hex_val_char(d: int)
    requires
        0 <= d < 16,
    ensures
        hex_val(hex_char(d)) == d,
{
}

/// Escaping touches none of a sequence without quotes, backslashes and
/// control characters.
proof fn lemma_esc_plain(t: Seq<char>)
    requires
        forall|k: int|
            0 <= k < t.len() ==> t[k] != '"' && t[k] != '\\' && (t[k] as u32) >= 0x20,
    ensures
        esc(t) == t,
    decreases t.len(),
{
    if t.len() == 0 {
        assert(esc(t) =~= t);
    } else {
        assert(esc_char(t[0]) == seq![t[0]]);
        lemma_esc_plain(t.drop_first());
        assert(seq![t[0]] + t.drop_first() =~= t);
    }
}

/// One consumed character of the body: what remains still parses and extends
/// the accumulator.
proof fn lemma_parse_esc_body_step(s: Seq<char>, i: int, t: Seq<char>, acc: Seq<char>, w: int)
    requires
        t.len() > 0,
        esc_char(t[0]).len() == w,
        0 <= i,
        i + esc(t).len() + 1 <= s.len(),
        s.subrange(i, i + esc(t).len() + 1) == esc(t) + seq!['"'],
        parse_string_body(s, i, acc) == parse_string_body(s, i + w, acc.push(t[0])),
    ensures
        parse_string_body(s, i, acc) == Some((acc + t, i + esc(t).len() + 1)),
    decreases t.len(), 0int,
{
    let c = t[0];
    let t1 = t.drop_first();
    let e = esc_char(c);
    assert(esc(t) == e + esc(t1));
    assert(esc(t) + seq!['"'] =~= e + (esc(t1) + seq!['"']));
    assert(s.subrange(i + w, i + esc(t).len() + 1) =~= esc(t1) + seq!['"']) by {
        assert forall|k: int| 0 <= k < esc(t1).len() + 1 implies s.subrange(
            i + w,
            i + esc(t).len() + 1,
        )[k] == (esc(t1) + seq!['"'])[k] by {
            assert(s.subrange(i + w, i + esc(t).len() + 1)[k] == s[i + w + k]);
            assert(s[i + w + k] == s.subrange(i, i + esc(t).len() + 1)[w + k]);
            assert((e + (esc(t1) + seq!['"']))[w + k] == (esc(t1) + seq!['"'])[k]);
        };
    };
    lemma_parse_esc_body(s, i + w, t1, acc.push(c));
    assert(acc.push(c) + t1 =~= acc + t);
}

/// An escaped body followed by its closing quote parses back to the body.
proof fn lemma_parse_esc_body(s: Seq<char>, i: int, t: Seq<char>, acc: Seq<char>)
    requires
        0 <= i,
        i + esc(t).len() + 1 <= s.len(),
        s.subrange(i, i + esc(t).len() + 1) == esc(t) + seq!['"'],
    ensures
        parse_string_body(s, i, acc) == Some((acc + t, i + esc(t).len() + 1)),
    decreases t.len(), 1int,
{
    if t.len() == 0 {
        assert(esc(t) == Seq::<char>::empty());
        assert(s[i] == s.subrange(i, i + 1)[0]);
        assert(s.subrange(i, i + 1) =~= esc(t) + seq!['"']);
        assert(s[i] == '"');
        assert(parse_string_body(s, i, acc) == Some((acc, i + 1)));
        assert(acc + t =~= acc);
    } else {
        let c = t[0];
        let e = esc_char(c);
        let u = c as u32 as int;
        assert(esc(t) == e + esc(t.drop_first()));
        let st = s.subrange(i, i + esc(t).len() + 1);
        assert(st == esc(t) + seq!['"']);
        assert(st[0] == s[i]);
        if c == '"' || c == '\\' || (u == 0x08 || u == 0x09 || u == 0x0a || u == 0x0c || u
            == 0x0d) {
            assert(e.len() == 2);
            assert(st[1] == s[i + 1]);
            assert(s[i] == e[0] && s[i + 1] == e[1]);
            vstd::utf8::char_u32_cast(c, c as u32);
            assert(parse_escape(s, i + 1) == Some((c, i + 2)));
            lemma_parse_esc_body_step(s, i, t, acc, 2);
        } else if u < 0x20 {
            assert(e.len() == 6);
            assert(st[1] == s[i + 1] && st[2] == s[i + 2] && st[3] == s[i + 3] && st[4] == s[i
                + 4] && st[5] == s[i + 5]);
            assert(s[i] == e[0] && s[i + 1] == e[1] && s[i + 2] == e[2] && s[i + 3] == e[3] && s[i
                + 4] == e[4] && s[i + 5] == e[5]);
            assert(s[i] == '\\' && s[i + 1] == 'u' && s[i + 2] == '0' && s[i + 3] == '0' && s[i
                + 4] == hex_char(u / 16) && s[i + 5] == hex_char(u % 16));
            lemma_hex_val_char(u / 16);
            lemma_hex_val_char(u % 16);
            assert(hex4(s, i + 2) == u);
            vstd::utf8::char_u32_cast(c, c as u32);
            assert(parse_escape(s, i + 1) == Some((c, i + 6)));
            lemma_parse_esc_body_step(s, i, t, acc, 6);
        } else {
            assert(e.len() == 1);
            assert(s[i] == e[0]);
            assert(s[i] == c);
            assert(parse_string_body(s, i, acc) == parse_string_body(s, i + 1, acc.push(c)));
            lemma_parse_esc_body_step(s, i, t, acc, 1);
        }
    }
}

/// Writing a configuration and reading the text back always yields the same
/// URL and token: the encoder and the parser agree on the file format, for
/// every configuration — the freshly written default one included.
#[verifier::rlimit(100)]
pub proof fn lemma_config_json_round_trip(url: Seq<char>, token: Seq<char>)
    ensures
        parse_config_doc(config_json(url, token)) == Some((url, token)),
{
    let a = seq!['{', '"', 'u', 'r', 'l', '"', ':', '"'];
    let b = seq!['"', ',', '"', 't', 'o', 'k', 'e', 'n', '"', ':', '"'];
    let z = seq!['"', '}'];
    let eu = esc(url);
    let et = esc(token);
    let s = config_json(url, token);
    let n = eu.len() as int;
    let m = et.len() as int;
    assert(s == a + eu + b + et + z);
    assert(s.len() == 21 + n + m);
    assert(forall|k: int| 0 <= k < 8 ==> #[trigger] s[k] == a[k]);
    assert(forall|k: int| 0 <= k < n ==> #[trigger] s[8 + k] == eu[k]);
    assert(forall|k: int| 0 <= k < 11 ==> #[trigger] s[8 + n + k] == b[k]);
    assert(forall|k: int| 0 <= k < m ==> #[trigger] s[19 + n + k] == et[k]);
    assert(forall|k: int| 0 <= k < 2 ==> #[trigger] s[19 + n + m + k] == z[k]);

    assert(forall|k: int|
        0 <= k < url_key().len() ==> url_key()[k] != '"' && url_key()[k] != '\\' && (
        url_key()[k] as u32) >= 0x20);
    lemma_esc_plain(url_key());
    assert(forall|k: int|
        0 <= k < token_key().len() ==> token_key()[k] != '"' && token_key()[k] != '\\' && (
        token_key()[k] as u32) >= 0x20);
    lemma_esc_plain(token_key());

    // the opening brace and the key of the first member
    assert(s[0] == '{' && !is_json_ws('{'));
    assert(skip_ws(s, 0) == 0);
    assert(s[1] == '"' && !is_json_ws('"'));
    assert(skip_ws(s, 1) == 1);
    assert(s.subrange(2, 6) =~= esc(url_key()) + seq!['"']);
    lemma_parse_esc_body(s, 2, url_key(), Seq::<char>::empty());
    assert(Seq::<char>::empty() + url_key() =~= url_key());
    // the colon and the first value
    assert(s[6] == ':' && !is_json_ws(':'));
    assert(skip_ws(s, 6) == 6);
    assert(s[7] == '"');
    assert(skip_ws(s, 7) == 7);
    assert(s.subrange(8, 9 + n) =~= eu + seq!['"']) by {
        assert(forall|k: int| 0 <= k < n ==> #[trigger] s.subrange(8, 9 + n)[k] == s[8 + k]);
        assert(s.subrange(8, 9 + n)[n] == s[8 + n]);
        assert(s[8 + n] == b[0]);
    };
    lemma_parse_esc_body(s, 8, url, Seq::<char>::empty());
    assert(Seq::<char>::empty() + url =~= url);
    assert(parse_member(s, 1) == Some((url_key(), url, 9 + n)));
    // the comma and the key of the second member
    assert(s[9 + n] == b[1] && b[1] == ',' && !is_json_ws(','));
    assert(skip_ws(s, 9 + n) == 9 + n);
    assert(s[10 + n] == b[2] && b[2] == '"');
    assert(skip_ws(s, 10 + n) == 10 + n);
    assert(s.subrange(11 + n, 17 + n) =~= esc(token_key()) + seq!['"']) by {
        assert(forall|k: int|
            0 <= k < 6 ==> #[trigger] s.subrange(11 + n, 17 + n)[k] == s[11 + n + k]);
    };
    lemma_parse_esc_body(s, 11 + n, token_key(), Seq::<char>::empty());
    assert(Seq::<char>::empty() + token_key() =~= token_key());
    // the colon and the second value
    assert(s[17 + n] == b[9] && b[9] == ':');
    assert(skip_ws(s, 17 + n) == 17 + n);
    assert(s[18 + n] == b[10] && b[10] == '"');
    assert(skip_ws(s, 18 + n) == 18 + n);
    assert(s.subrange(19 + n, 20 + n + m) =~= et + seq!['"']) by {
        assert(forall|k: int|
            0 <= k < m ==> #[trigger] s.subrange(19 + n, 20 + n + m)[k] == s[19 + n + k]);
        assert(s.subrange(19 + n, 20 + n + m)[m] == s[19 + n + m]);
        assert(s[19 + n + m] == z[0]);
    };
    lemma_parse_esc_body(s, 19 + n, token, Seq::<char>::empty());
    assert(Seq::<char>::empty() + token =~= token);
    assert(parse_member(s, 10 + n) == Some((token_key(), token, 20 + n + m)));
    // the closing brace ends the document
    assert(s[20 + n + m] == z[1] && z[1] == '}');
    assert(skip_ws(s, 20 + n + m) == 20 + n + m);
    assert(skip_ws(s, 21 + n + m) == s.len());
    assert(url_key() != token_key());
}

/// Reads a configuration from its file text. The text must be exactly one
/// configuration document whose `url` value is non-empty — a loaded
/// configuration always has a URL; anything else is a parse error. The token
/// is taken as the file has it, byte for byte.
pub fn parse_config(s: &str) -> (r: Result<Config, ClientError>)
    ensures
        r matches Ok(c) ==> parse_config_doc(s@) == Some((c.url@, c.token@)) && c.url@.len() > 0,
        r matches Err(e) ==> e == ClientError::ConfigParse && match parse_config_doc(s@) {
            Some((u, t)) => u.len() == 0,
            None => true,
        },
{
    let v = to_chars(s);
    match parse_config_doc_exec(&v) {
        Some((u, t)) => {
            if u.len() == 0 {
                Err(ClientError::ConfigParse)
            } else {
                Ok(Config { url: chars_to_string(&u), token: chars_to_string(&t) })
            }
        },
        None => Err(ClientError::ConfigParse),
    }
}

} // verus!
