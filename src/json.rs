//! Reading JSON text: string literals, numbers, literals, arrays and
//! objects, with whitespace between tokens. What a value holds is kept only
//! as far as messages need it: a string, a list of strings, or some other
//! well-formed value.
use vstd::prelude::*;

use crate::codec::{escape, escape_char, hex_digit, list_rest, quoted, quoted_list};
use crate::message::strings_view;
use crate::text::push_char;

verus! {

pub open spec fn is_hex(c: char) -> bool {
    (48 <= (c as u32) && (c as u32) <= 57) || (65 <= (c as u32) && (c as u32) <= 70) || (97 <= (
    c as u32) && (c as u32) <= 102)
}

pub open spec fn hex_val(c: char) -> int {
    if (c as u32) <= 57 {
        c as u32 - 48
    } else if (c as u32) <= 70 {
        c as u32 - 55
    } else {
        c as u32 - 87
    }
}

/// Four hexadecimal digits stand at `t[i..i + 4]`.
pub open spec fn is_hex4(t: Seq<char>, i: int) -> bool {
    is_hex(t[i]) && is_hex(t[i + 1]) && is_hex(t[i + 2]) && is_hex(t[i + 3])
}

/// The number that the four hexadecimal digits at `t[i..i + 4]` spell.
pub open spec fn hex4(t: Seq<char>, i: int) -> int {
    hex_val(t[i]) * 4096 + hex_val(t[i + 1]) * 256 + hex_val(t[i + 2]) * 16 + hex_val(t[i + 3])
}

/// The first character of a string literal's body, read back: the character
/// and how many characters of `t` its escape takes. A `\u` escape of a high
/// surrogate must be followed by one of a low surrogate; the pair stands for
/// one character.
#[verifier::opaque]
pub open spec fn decode_char(t: Seq<char>) -> Option<(char, int)> {
    if t.len() == 0 || t[0] == '"' {
        None
    } else if t[0] != '\\' {
        if (t[0] as u32) >= 32 {
            Some((t[0], 1))
        } else {
            None
        }
    } else if t.len() < 2 {
        None
    } else if t[1] == '"' {
        Some(('"', 2))
    } else if t[1] == '\\' {
        Some(('\\', 2))
    } else if t[1] == '/' {
        Some(('/', 2))
    } else if t[1] == 'b' {
        Some(('\u{8}', 2))
    } else if t[1] == 'f' {
        Some(('\u{c}', 2))
    } else if t[1] == 'n' {
        Some(('\n', 2))
    } else if t[1] == 'r' {
        Some(('\r', 2))
    } else if t[1] == 't' {
        Some(('\t', 2))
    } else if t[1] == 'u' && t.len() >= 6 && is_hex4(t, 2) {
        let v = hex4(t, 2);
        if 0xD800 <= v && v < 0xDC00 {
            if t.len() >= 12 && t[6] == '\\' && t[7] == 'u' && is_hex4(t, 8) && 0xDC00 <= hex4(t, 8)
                && hex4(t, 8) < 0xE000 {
                Some((((0x10000 + (v - 0xD800) * 1024 + (hex4(t, 8) - 0xDC00)) as u32) as char, 12))
            } else {
                None
            }
        } else if 0xDC00 <= v && v < 0xE000 {
            None
        } else {
            Some(((v as u32) as char, 6))
        }
    } else {
        None
    }
}

/// A string literal's body read back up to its closing quote: the string and
/// how many characters of `t` it takes, the closing quote included.
pub open spec fn parse_body(t: Seq<char>) -> Option<(Seq<char>, int)>
    decreases t.len(),
{
    if t.len() == 0 {
        None
    } else if t[0] == '"' {
        Some((seq![], 1))
    } else {
        match decode_char(t) {
            Some((c, n)) => if 0 < n <= t.len() {
                match parse_body(t.skip(n)) {
                    Some((v, m)) => Some((seq![c] + v, n + m)),
                    None => None,
                }
            } else {
                None
            },
            None => None,
        }
    }
}

/// A string literal at the start of `t`, read back: the string and the
/// literal's length.
pub open spec fn parse_quoted(t: Seq<char>) -> Option<(Seq<char>, int)> {
    if t.len() > 0 && t[0] == '"' {
        match parse_body(t.skip(1)) {
            Some((v, m)) => Some((v, m + 1)),
            None => None,
        }
    } else {
        None
    }
}

pub proof fn lemma_decode_char(c: char, r: Seq<char>)
    ensures
        decode_char(escape_char(c) + r) == Some((c, escape_char(c).len() as int)),
        escape_char(c).len() > 0,
        escape_char(c)[0] != '"',
{
    reveal(decode_char);
    let t = escape_char(c) + r;
    if (c as u32) < 32 && !(c == '\u{8}' || c == '\t' || c == '\n' || c == '\u{c}' || c == '\r') {
        let v = c as u32;
        assert(t[4] == hex_digit(v / 16));
        assert(t[5] == hex_digit(v % 16));
        assert(v / 16 < 2);
        assert(hex_val(t[4]) == v / 16);
        assert(hex_val(t[5]) == v % 16);
        assert(hex4(t, 2) == v);
        assert((v as char) == c);
    }
}

pub proof fn lemma_parse_body(v: Seq<char>, r: Seq<char>)
    ensures
        parse_body(escape(v) + seq!['"'] + r) == Some((v, escape(v).len() + 1 as int)),
    decreases v.len(),
{
    let t = escape(v) + seq!['"'] + r;
    if v.len() == 0 {
        assert(escape(v) =~= seq![]);
        assert(t[0] == '"');
    } else {
        let c = v[0];
        let rest = escape(v.skip(1)) + seq!['"'] + r;
        assert(t =~= escape_char(c) + rest);
        lemma_decode_char(c, rest);
        let n = escape_char(c).len() as int;
        assert(t.skip(n) =~= rest);
        lemma_parse_body(v.skip(1), r);
        assert(seq![c] + v.skip(1) =~= v);
    }
}

/// Reading a string literal written for `v` gives `v` back.
pub proof fn lemma_parse_quoted(v: Seq<char>, r: Seq<char>)
    ensures
        parse_quoted(quoted(v) + r) == Some((v, quoted(v).len() as int)),
{
    let t = quoted(v) + r;
    assert(t.skip(1) =~= escape(v) + seq!['"'] + r);
    lemma_parse_body(v, r);
}

/// Relies on `char::from_u32`: the character of a Unicode scalar value, and
/// nothing for a surrogate or a value past the last code point.
#[verifier::external_body]
fn char_from_u32(v: u32) -> (r: Option<char>)
    ensures
        r is Some <==> (v < 0xD800 || (0xE000 <= v && v <= 0x10FFFF)),
        r is Some ==> r->0 as u32 == v,
{
    char::from_u32(v)
}

/// Whether `lit` stands in `t` at position `i`.
pub(crate) fn starts_at(t: &Vec<char>, i: usize, lit: &str) -> (r: bool)
    requires
        i <= t@.len(),
    ensures
        r == (lit@.len() <= t@.len() - i && t@.skip(i as int).take(lit@.len() as int) == lit@),
{
    let n = lit.unicode_len();
    let len = t.len();
    if n > len - i {
        return false;
    }
    let mut k: usize = 0;
    while k < n
        invariant
            len == t@.len(),
            n == lit@.len(),
            i + n <= t@.len(),
            k <= n,
            forall|j: int| 0 <= j < k ==> t@[i + j] == lit@[j],
        decreases n - k,
    {
        assert(i + k < t@.len());
        if t[i + k] != lit.get_char(k) {
            assert(t@.skip(i as int).take(n as int)[k as int] != lit@[k as int]);
            return false;
        }
        k = k + 1;
    }
    assert(t@.skip(i as int).take(n as int) =~= lit@);
    true
}

fn is_hex_char(c: char) -> (r: bool)
    ensures
        r == is_hex(c),
{
    let v = c as u32;
    (48 <= v && v <= 57) || (65 <= v && v <= 70) || (97 <= v && v <= 102)
}

fn hex_char_value(c: char) -> (r: u32)
    requires
        is_hex(c),
    ensures
        r == hex_val(c),
        r < 16,
{
    let v = c as u32;
    if v <= 57 {
        v - 48
    } else if v <= 70 {
        v - 55
    } else {
        v - 87
    }
}

/// The four hexadecimal digits at `t[i..i + 4]`, if they are such.
fn hex4_at(t: &Vec<char>, i: usize) -> (r: Option<u32>)
    requires
        i + 4 <= t@.len(),
    ensures
        r is Some <==> is_hex4(t@, i as int),
        r is Some ==> r->0 == hex4(t@, i as int) && r->0 < 0x10000,
{
    let len = t.len();
    if is_hex_char(t[i]) && is_hex_char(t[i + 1]) && is_hex_char(t[i + 2]) && is_hex_char(
        t[i + 3],
    ) {
        let a = hex_char_value(t[i]);
        let b = hex_char_value(t[i + 1]);
        let c = hex_char_value(t[i + 2]);
        let d = hex_char_value(t[i + 3]);
        Some(a * 4096 + b * 256 + c * 16 + d)
    } else {
        None
    }
}

/// The character whose escape starts at position `k` of `t`, and its length.
fn decode_char_at(t: &Vec<char>, k: usize) -> (r: Option<(char, usize)>)
    requires
        k <= t@.len(),
    ensures
        match r {
            Some((c, n)) => decode_char(t@.skip(k as int)) == Some((c, n as int)) && 0 < n <= t@.len()
                - k,
            None => decode_char(t@.skip(k as int)) is None,
        },
{
    proof {
        reveal(decode_char);
    }
    let ghost u = t@.skip(k as int);
    let len = t.len();
    if k >= len {
        return None;
    }
    let c0 = t[k];
    assert(u[0] == c0);
    if c0 == '"' {
        return None;
    }
    if c0 != '\\' {
        if (c0 as u32) >= 32 {
            return Some((c0, 1));
        } else {
            return None;
        }
    }
    if len - k < 2 {
        return None;
    }
    let c1 = t[k + 1];
    assert(u[1] == c1);
    if c1 == '"' {
        Some(('"', 2))
    } else if c1 == '\\' {
        Some(('\\', 2))
    } else if c1 == '/' {
        Some(('/', 2))
    } else if c1 == 'b' {
        Some(('\u{8}', 2))
    } else if c1 == 'f' {
        Some(('\u{c}', 2))
    } else if c1 == 'n' {
        Some(('\n', 2))
    } else if c1 == 'r' {
        Some(('\r', 2))
    } else if c1 == 't' {
        Some(('\t', 2))
    } else if c1 == 'u' && len - k >= 6 {
        assert(forall|j: int| 0 <= j < len - k ==> u[j] == t@[k + j]);
        let v = match hex4_at(t, k + 2) {
            Some(v) => v,
            None => {
                assert(!is_hex4(u, 2));
                return None;
            },
        };
        assert(hex4(u, 2) == v);
        if 0xD800 <= v && v < 0xDC00 {
            if len - k >= 12 && t[k + 6] == '\\' && t[k + 7] == 'u' {
                match hex4_at(t, k + 8) {
                    Some(w) => {
                        assert(hex4(u, 8) == w && is_hex4(u, 8));
                        if 0xDC00 <= w && w < 0xE000 {
                            let code = 0x10000 + (v - 0xD800) * 1024 + (w - 0xDC00);
                            match char_from_u32(code) {
                                Some(c) => {
                                    proof {
                                        vstd::utf8::char_u32_cast(c, c as u32);
                                    }
                                    Some((c, 12))
                                },
                                None => None,
                            }
                        } else {
                            None
                        }
                    },
                    None => {
                        assert(!is_hex4(u, 8));
                        None
                    },
                }
            } else {
                None
            }
        } else if 0xDC00 <= v && v < 0xE000 {
            None
        } else {
            match char_from_u32(v) {
                Some(c) => {
                    proof {
                        vstd::utf8::char_u32_cast(c, c as u32);
                    }
                    Some((c, 6))
                },
                None => None,
            }
        }
    } else {
        None
    }
}

/// `r` read after `acc`, which took `off` characters.
pub open spec fn after<T>(acc: Seq<T>, off: int, r: Option<(Seq<T>, int)>) -> Option<(Seq<T>, int)> {
    match r {
        Some((v, m)) => Some((acc + v, off + m)),
        None => None,
    }
}

/// The string literal at position `i` of `t`, and the position after it.
pub(crate) fn parse_string_at(t: &Vec<char>, i: usize) -> (r: Option<(String, usize)>)
    requires
        i <= t@.len(),
    ensures
        match r {
            Some((v, j)) => parse_quoted(t@.skip(i as int)) == Some((v@, j - i)) && i < j <= t@.len(),
            None => parse_quoted(t@.skip(i as int)) is None,
        },
{
    if i >= t.len() || t[i] != '"' {
        return None;
    }
    let ghost whole = t@.skip(i as int);
    assert(whole.skip(1) =~= t@.skip(i + 1));
    let mut acc = String::new();
    let mut k: usize = i + 1;
    assert(after(acc@, 0, parse_body(t@.skip(k as int))) == parse_body(t@.skip(k as int))) by {
        if parse_body(t@.skip(k as int)) is Some {
            assert(acc@ + parse_body(t@.skip(k as int)).unwrap().0 =~= parse_body(
                t@.skip(k as int),
            ).unwrap().0);
        }
    }
    while k < t.len()
        invariant
            i + 1 <= k <= t@.len(),
            whole == t@.skip(i as int),
            whole[0] == '"',
            parse_body(whole.skip(1)) == after(acc@, k - (i + 1), parse_body(t@.skip(k as int))),
        decreases t@.len() - k,
    {
        let ghost u = t@.skip(k as int);
        if t[k] == '"' {
            assert(u[0] == '"');
            assert(acc@ + seq![] =~= acc@);
            return Some((acc, k + 1));
        }
        assert(u[0] != '"');
        match decode_char_at(t, k) {
            None => {
                return None;
            },
            Some((c, n)) => {
                let ghost old_acc = acc@;
                push_char(&mut acc, c);
                assert(u.skip(n as int) =~= t@.skip(k + n));
                proof {
                    if parse_body(t@.skip(k + n)) is Some {
                        let (v, m) = parse_body(t@.skip(k + n)).unwrap();
                        assert(old_acc + (seq![c] + v) =~= acc@ + v);
                    }
                }
                k = k + n;
            },
        }
    }
    assert(t@.skip(k as int).len() == 0);
    None
}

pub open spec fn is_ws(c: char) -> bool {
    c == ' ' || c == '\t' || c == '\n' || c == '\r'
}

/// How many whitespace characters open `t`.
pub open spec fn ws_len(t: Seq<char>) -> int
    decreases t.len(),
{
    if t.len() > 0 && is_ws(t[0]) {
        1 + ws_len(t.skip(1))
    } else {
        0
    }
}

pub open spec fn is_digit(c: char) -> bool {
    48 <= (c as u32) && (c as u32) <= 57
}

/// How many decimal digits open `t`.
pub open spec fn digits_len(t: Seq<char>) -> int
    decreases t.len(),
{
    if t.len() > 0 && is_digit(t[0]) {
        1 + digits_len(t.skip(1))
    } else {
        0
    }
}

/// The integer part of a number: a lone `0`, or digits.
pub open spec fn int_len(t: Seq<char>) -> int {
    if t.len() > 0 && t[0] == '0' {
        1
    } else {
        digits_len(t)
    }
}

/// The fraction of a number, if any: a point and at least one digit.
pub open spec fn frac_len(t: Seq<char>) -> Option<int> {
    if t.len() > 0 && t[0] == '.' {
        if digits_len(t.skip(1)) > 0 {
            Some(1 + digits_len(t.skip(1)))
        } else {
            None
        }
    } else {
        Some(0)
    }
}

/// The exponent of a number, if any: `e` or `E`, a sign or none, digits.
pub open spec fn exp_len(t: Seq<char>) -> Option<int> {
    if t.len() > 0 && (t[0] == 'e' || t[0] == 'E') {
        let s: int = if t.len() > 1 && (t[1] == '+' || t[1] == '-') {
            1
        } else {
            0
        };
        if digits_len(t.skip(1 + s)) > 0 {
            Some(1 + s + digits_len(t.skip(1 + s)))
        } else {
            None
        }
    } else {
        Some(0)
    }
}

/// The length of the number that opens `t`, if one does.
pub open spec fn number_len(t: Seq<char>) -> Option<int> {
    let a: int = if t.len() > 0 && t[0] == '-' {
        1
    } else {
        0
    };
    let b = int_len(t.skip(a));
    if b == 0 {
        None
    } else {
        match frac_len(t.skip(a + b)) {
            Some(f) => match exp_len(t.skip(a + b + f)) {
                Some(e) => Some(a + b + f + e),
                None => None,
            },
            None => None,
        }
    }
}

pub open spec fn starts_with(s: Seq<char>, p: Seq<char>) -> bool {
    p.len() <= s.len() && s.take(p.len() as int) == p
}

/// The length of the literal or number that opens `u`, if one does.
pub open spec fn scalar_len(u: Seq<char>) -> Option<int> {
    if starts_with(u, "true"@) {
        Some("true"@.len() as int)
    } else if starts_with(u, "false"@) {
        Some("false"@.len() as int)
    } else if starts_with(u, "null"@) {
        Some("null"@.len() as int)
    } else if u.len() > 0 && (u[0] == '-' || is_digit(u[0])) {
        number_len(u)
    } else {
        None
    }
}

/// What a JSON value holds, as far as messages read it.
pub ghost enum Shape {
    Str(Seq<char>),
    StrList(Seq<Seq<char>>),
    /// Any other well-formed value: a number, a literal, an object, or an
    /// array with an item that is not a string.
    Other,
}

/// The strings that an array item adds to a list of strings.
pub open spec fn item_strs(v: Shape) -> Option<Seq<Seq<char>>> {
    match v {
        Shape::Str(s) => Some(seq![s]),
        _ => None,
    }
}

pub open spec fn join_strs(a: Option<Seq<Seq<char>>>, b: Option<Seq<Seq<char>>>) -> Option<
    Seq<Seq<char>>,
> {
    match (a, b) {
        (Some(x), Some(y)) => Some(x + y),
        _ => None,
    }
}

/// The value that opens `t` after whitespace: what it holds and how many
/// characters it takes.
pub open spec fn value(t: Seq<char>) -> Option<(Shape, int)>
    decreases t.len(), 0nat,
{
    let w = ws_len(t);
    if 0 <= w < t.len() {
        let u = t.skip(w);
        if u[0] == '"' {
            match parse_quoted(u) {
                Some((s, n)) => Some((Shape::Str(s), w + n)),
                None => None,
            }
        } else if u[0] == '[' {
            match array(u.skip(1)) {
                Some((o, n)) => Some(
                    (
                        match o {
                            Some(xs) => Shape::StrList(xs),
                            None => Shape::Other,
                        },
                        w + 1 + n,
                    ),
                ),
                None => None,
            }
        } else if u[0] == '{' {
            match object(u.skip(1)) {
                Some((ms, n)) => Some((Shape::Other, w + 1 + n)),
                None => None,
            }
        } else {
            match scalar_len(u) {
                Some(n) => Some((Shape::Other, w + n)),
                None => None,
            }
        }
    } else {
        None
    }
}

/// An array after its `[`: its strings if every item is a string, and how
/// many characters it takes up to its `]`.
pub open spec fn array(t: Seq<char>) -> Option<(Option<Seq<Seq<char>>>, int)>
    decreases t.len(), 2nat,
{
    let w = ws_len(t);
    if 0 <= w < t.len() && t[w] == ']' {
        Some((Some(seq![]), w + 1))
    } else {
        elements(t)
    }
}

/// The items of a non-empty array, from its first item to its `]`.
pub open spec fn elements(t: Seq<char>) -> Option<(Option<Seq<Seq<char>>>, int)>
    decreases t.len(), 1nat,
{
    match value(t) {
        Some((v, n)) => if 0 < n <= t.len() {
            let r = t.skip(n);
            let w = ws_len(r);
            if 0 <= w < r.len() {
                if r[w] == ']' {
                    Some((item_strs(v), n + w + 1))
                } else if r[w] == ',' {
                    match elements(r.skip(w + 1)) {
                        Some((o, m)) => Some((join_strs(item_strs(v), o), n + w + 1 + m)),
                        None => None,
                    }
                } else {
                    None
                }
            } else {
                None
            }
        } else {
            None
        },
        None => None,
    }
}

/// An object after its `{`: its members in order, and how many characters
/// it takes up to its `}`.
pub open spec fn object(t: Seq<char>) -> Option<(Seq<(Seq<char>, Shape)>, int)>
    decreases t.len(), 2nat,
{
    let w = ws_len(t);
    if 0 <= w < t.len() && t[w] == '}' {
        Some((seq![], w + 1))
    } else {
        members(t)
    }
}

/// One member after whitespace: its key and value, and how many characters
/// it takes up to the end of the value.
pub open spec fn member(t: Seq<char>) -> Option<((Seq<char>, Shape), int)>
    decreases t.len(), 0nat,
{
    let w = ws_len(t);
    if 0 <= w <= t.len() {
        match parse_quoted(t.skip(w)) {
            Some((k, a)) => if 0 < a && w + a <= t.len() {
                let r = t.skip(w + a);
                let w2 = ws_len(r);
                if 0 <= w2 < r.len() && r[w2] == ':' {
                    let q = w + a + w2 + 1;
                    match value(t.skip(q)) {
                        Some((v, n)) => if 0 < n && q + n <= t.len() {
                            Some(((k, v), q + n))
                        } else {
                            None
                        },
                        None => None,
                    }
                } else {
                    None
                }
            } else {
                None
            },
            None => None,
        }
    } else {
        None
    }
}

/// The members of a non-empty object, from its first key to its `}`.
pub open spec fn members(t: Seq<char>) -> Option<(Seq<(Seq<char>, Shape)>, int)>
    decreases t.len(), 1nat,
{
    match member(t) {
        Some((e, q)) => if 0 < q <= t.len() {
            let r = t.skip(q);
            let w = ws_len(r);
            if 0 <= w < r.len() {
                if r[w] == '}' {
                    Some((seq![e], q + w + 1))
                } else if r[w] == ',' {
                    match members(r.skip(w + 1)) {
                        Some((ms, m)) => Some((seq![e] + ms, q + w + 1 + m)),
                        None => None,
                    }
                } else {
                    None
                }
            } else {
                None
            }
        } else {
            None
        },
        None => None,
    }
}

/// A whole text that is one JSON object, whitespace around it allowed: its
/// members in order.
#[verifier::opaque]
pub open spec fn document(t: Seq<char>) -> Option<Seq<(Seq<char>, Shape)>> {
    let w = ws_len(t);
    if 0 <= w < t.len() && t[w] == '{' {
        match object(t.skip(w + 1)) {
            Some((ms, n)) => if 0 <= n && w + 1 + n <= t.len() && ws_len(t.skip(w + 1 + n))
                == t.len() - (w + 1 + n) {
                Some(ms)
            } else {
                None
            },
            None => None,
        }
    } else {
        None
    }
}

/// A JSON value as messages read it.
#[derive(Debug, PartialEq, Eq)]
pub enum JsonValue {
    Str(String),
    StrList(Vec<String>),
    Other,
}

impl View for JsonValue {
    type V = Shape;

    open spec fn view(&self) -> Shape {
        match self {
            JsonValue::Str(s) => Shape::Str(s@),
            JsonValue::StrList(v) => Shape::StrList(strings_view(v@)),
            JsonValue::Other => Shape::Other,
        }
    }
}

pub open spec fn members_view(v: Seq<(String, JsonValue)>) -> Seq<(Seq<char>, Shape)> {
    v.map_values(|p: (String, JsonValue)| (p.0@, p.1@))
}

pub open spec fn strs_view(o: Option<Vec<String>>) -> Option<Seq<Seq<char>>> {
    match o {
        Some(v) => Some(strings_view(v@)),
        None => None,
    }
}

/// The position after the whitespace at position `i` of `t`.
fn skip_ws(t: &Vec<char>, i: usize) -> (j: usize)
    requires
        i <= t@.len(),
    ensures
        i <= j <= t@.len(),
        j - i == ws_len(t@.skip(i as int)),
{
    let mut k = i;
    assert(t@.skip(i as int) =~= t@.skip(k as int));
    while k < t.len() && (t[k] == ' ' || t[k] == '\t' || t[k] == '\n' || t[k] == '\r')
        invariant
            i <= k <= t@.len(),
            ws_len(t@.skip(i as int)) == (k - i) + ws_len(t@.skip(k as int)),
        decreases t@.len() - k,
    {
        assert(t@.skip(k as int)[0] == t@[k as int]);
        assert(t@.skip(k as int).skip(1) =~= t@.skip(k + 1));
        k = k + 1;
    }
    if k < t.len() {
        assert(t@.skip(k as int)[0] == t@[k as int]);
    }
    k
}

/// How many digits stand at position `i` of `t`.
fn count_digits(t: &Vec<char>, i: usize) -> (n: usize)
    requires
        i <= t@.len(),
    ensures
        i + n <= t@.len(),
        n == digits_len(t@.skip(i as int)),
{
    let mut k = i;
    assert(t@.skip(i as int) =~= t@.skip(k as int));
    while k < t.len() && 48 <= (t[k] as u32) && (t[k] as u32) <= 57
        invariant
            i <= k <= t@.len(),
            digits_len(t@.skip(i as int)) == (k - i) + digits_len(t@.skip(k as int)),
        decreases t@.len() - k,
    {
        assert(t@.skip(k as int)[0] == t@[k as int]);
        assert(t@.skip(k as int).skip(1) =~= t@.skip(k + 1));
        k = k + 1;
    }
    if k < t.len() {
        assert(t@.skip(k as int)[0] == t@[k as int]);
    }
    k - i
}

fn is_digit_char(c: char) -> (r: bool)
    ensures
        r == is_digit(c),
{
    let v = c as u32;
    48 <= v && v <= 57
}

/// The length of the fraction at position `q` of `t`, as `frac_len` says.
fn frac_at(t: &Vec<char>, q: usize) -> (r: Option<usize>)
    requires
        q <= t@.len(),
    ensures
        match r {
            Some(f) => frac_len(t@.skip(q as int)) == Some(f as int) && q + f <= t@.len(),
            None => frac_len(t@.skip(q as int)) is None,
        },
{
    let ghost x = t@.skip(q as int);
    if q < t.len() && t[q] == '.' {
        assert(x[0] == t@[q as int]);
        assert(x.skip(1) =~= t@.skip(q + 1));
        let d = count_digits(t, q + 1);
        if d == 0 {
            None
        } else {
            Some(1 + d)
        }
    } else {
        assert(q < t@.len() ==> x[0] == t@[q as int]);
        Some(0)
    }
}

/// The length of the exponent at position `e0` of `t`, as `exp_len` says.
fn exp_at(t: &Vec<char>, e0: usize) -> (r: Option<usize>)
    requires
        e0 <= t@.len(),
    ensures
        match r {
            Some(e) => exp_len(t@.skip(e0 as int)) == Some(e as int) && e0 + e <= t@.len(),
            None => exp_len(t@.skip(e0 as int)) is None,
        },
{
    let ghost x = t@.skip(e0 as int);
    let len = t.len();
    assert(e0 < len ==> x[0] == t@[e0 as int]);
    assert(e0 + 1 < len ==> x[1] == t@[e0 + 1]);
    if e0 < len && (t[e0] == 'e' || t[e0] == 'E') {
        let sg: usize = if e0 + 1 < len && (t[e0 + 1] == '+' || t[e0 + 1] == '-') {
            1
        } else {
            0
        };
        assert(x.skip(1 + sg) =~= t@.skip(e0 + 1 + sg));
        let d = count_digits(t, e0 + 1 + sg);
        if d == 0 {
            None
        } else {
            Some(1 + sg + d)
        }
    } else {
        Some(0)
    }
}

/// The length of the number at position `i` of `t`, if one stands there.
#[verifier::rlimit(80)]
fn number_at(t: &Vec<char>, i: usize) -> (r: Option<usize>)
    requires
        i <= t@.len(),
    ensures
        match r {
            Some(n) => number_len(t@.skip(i as int)) == Some(n as int) && 0 < n && i + n
                <= t@.len(),
            None => number_len(t@.skip(i as int)) is None,
        },
{
    let ghost s = t@.skip(i as int);
    let len = t.len();
    let a: usize = if i < len && t[i] == '-' {
        1
    } else {
        0
    };
    assert(i < len ==> s[0] == t@[i as int]);
    let p = i + a;
    assert(s.skip(a as int) =~= t@.skip(p as int));
    assert(p < len ==> t@.skip(p as int)[0] == t@[p as int]);
    let b: usize = if p < len && t[p] == '0' {
        1
    } else {
        count_digits(t, p)
    };
    assert(b == int_len(s.skip(a as int)));
    if b == 0 {
        return None;
    }
    let q = p + b;
    assert(s.skip(a + b) =~= t@.skip(q as int));
    let f = match frac_at(t, q) {
        Some(f) => f,
        None => {
            return None;
        },
    };
    let e0 = q + f;
    assert(s.skip(a + b + f) =~= t@.skip(e0 as int));
    let e = match exp_at(t, e0) {
        Some(e) => e,
        None => {
            return None;
        },
    };
    Some(a + b + f + e)
}

/// The length of the literal or number at position `p` of `t`.
fn scalar_at(t: &Vec<char>, p: usize) -> (r: Option<usize>)
    requires
        p <= t@.len(),
    ensures
        match r {
            Some(n) => scalar_len(t@.skip(p as int)) == Some(n as int) && 0 < n && p + n
                <= t@.len(),
            None => scalar_len(t@.skip(p as int)) is None,
        },
{
    proof {
        reveal_strlit("true");
        reveal_strlit("false");
        reveal_strlit("null");
    }
    if starts_at(t, p, "true") {
        Some("true".unicode_len())
    } else if starts_at(t, p, "false") {
        Some("false".unicode_len())
    } else if starts_at(t, p, "null") {
        Some("null".unicode_len())
    } else if p < t.len() && (t[p] == '-' || is_digit_char(t[p])) {
        assert(t@.skip(p as int)[0] == t@[p as int]);
        number_at(t, p)
    } else {
        assert(p < t@.len() ==> t@.skip(p as int)[0] == t@[p as int]);
        None
    }
}

/// The value at position `i` of `t`, after whitespace, and the position
/// after it.
#[verifier::rlimit(100)]
fn value_at(t: &Vec<char>, i: usize) -> (r: Option<(JsonValue, usize)>)
    requires
        i <= t@.len(),
    ensures
        match r {
            Some((v, j)) => value(t@.skip(i as int)) == Some((v@, j - i)) && i < j <= t@.len(),
            None => value(t@.skip(i as int)) is None,
        },
    decreases t@.len() - i, 0nat,
{
    let ghost s = t@.skip(i as int);
    let p = skip_ws(t, i);
    if p >= t.len() {
        return None;
    }
    let ghost u = s.skip(p - i);
    assert(u =~= t@.skip(p as int));
    assert(u[0] == t@[p as int]);
    let ghost w = ws_len(s);
    assert(w == p - i && 0 <= w < s.len());
    let c = t[p];
    if c == '"' {
        match parse_string_at(t, p) {
            Some((v, j)) => {
                assert(value(s) == Some((Shape::Str(v@), w + (j - p))));
                Some((JsonValue::Str(v), j))
            },
            None => {
                assert(value(s) is None);
                None
            },
        }
    } else if c == '[' {
        assert(u.skip(1) =~= t@.skip(p + 1));
        match array_at(t, p + 1) {
            Some((o, j)) => {
                let ghost so = strs_view(o);
                let v = match o {
                    Some(xs) => JsonValue::StrList(xs),
                    None => JsonValue::Other,
                };
                assert(v@ == match so {
                    Some(xs) => Shape::StrList(xs),
                    None => Shape::Other,
                });
                assert(value(s) == Some((v@, w + 1 + (j - (p + 1)))));
                Some((v, j))
            },
            None => {
                assert(value(s) is None);
                None
            },
        }
    } else if c == '{' {
        assert(u.skip(1) =~= t@.skip(p + 1));
        match object_at(t, p + 1) {
            Some((_, j)) => {
                assert(value(s) == Some((Shape::Other, w + 1 + (j - (p + 1)))));
                Some((JsonValue::Other, j))
            },
            None => {
                assert(value(s) is None);
                None
            },
        }
    } else {
        match scalar_at(t, p) {
            Some(n) => {
                assert(value(s) == Some((Shape::Other, w + n)));
                Some((JsonValue::Other, p + n))
            },
            None => {
                assert(value(s) is None);
                None
            },
        }
    }
}

/// The array whose `[` stands just before position `i` of `t`: its strings
/// if all items are strings, and the position after its `]`.
fn array_at(t: &Vec<char>, i: usize) -> (r: Option<(Option<Vec<String>>, usize)>)
    requires
        i <= t@.len(),
    ensures
        match r {
            Some((o, j)) => array(t@.skip(i as int)) == Some((strs_view(o), j - i)) && i < j
                <= t@.len(),
            None => array(t@.skip(i as int)) is None,
        },
    decreases t@.len() - i, 2nat,
{
    let p = skip_ws(t, i);
    if p < t.len() && t[p] == ']' {
        assert(t@.skip(i as int)[p - i] == t@[p as int]);
        let empty: Vec<String> = Vec::new();
        assert(strings_view(empty@) =~= seq![]);
        return Some((Some(empty), p + 1));
    }
    proof {
        if p < t@.len() {
            assert(t@.skip(i as int)[p - i] == t@[p as int]);
        }
    }
    elements_at(t, i)
}

pub open spec fn after_strs(
    acc: Option<Seq<Seq<char>>>,
    off: int,
    r: Option<(Option<Seq<Seq<char>>>, int)>,
) -> Option<(Option<Seq<Seq<char>>>, int)> {
    match r {
        Some((o, m)) => Some((join_strs(acc, o), off + m)),
        None => None,
    }
}

/// Adds an array item to the strings read so far.
fn join_item(acc: Option<Vec<String>>, v: JsonValue) -> (r: Option<Vec<String>>)
    ensures
        strs_view(r) == join_strs(strs_view(acc), item_strs(v@)),
{
    match (acc, v) {
        (Some(mut xs), JsonValue::Str(s)) => {
            let ghost before = strings_view(xs@);
            xs.push(s);
            assert(strings_view(xs@) =~= before + seq![s@]);
            Some(xs)
        },
        _ => None,
    }
}

/// The items of a non-empty array from position `i` of `t` to its `]`.
fn elements_at(t: &Vec<char>, i: usize) -> (r: Option<(Option<Vec<String>>, usize)>)
    requires
        i <= t@.len(),
    ensures
        match r {
            Some((o, j)) => elements(t@.skip(i as int)) == Some((strs_view(o), j - i)) && i < j
                <= t@.len(),
            None => elements(t@.skip(i as int)) is None,
        },
    decreases t@.len() - i, 1nat,
{
    let mut acc: Option<Vec<String>> = Some(Vec::new());
    let mut k = i;
    proof {
        assert(strs_view(acc) == Some(Seq::<Seq<char>>::empty())) by {
            assert(strings_view(acc->0@) =~= seq![]);
        }
        if elements(t@.skip(i as int)) is Some {
            let (o, m) = elements(t@.skip(i as int)).unwrap();
            if o is Some {
                assert(seq![] + o->0 =~= o->0);
            }
        }
    }
    while k < t.len()
        invariant
            i <= k <= t@.len(),
            elements(t@.skip(i as int)) == after_strs(
                strs_view(acc),
                k - i,
                elements(t@.skip(k as int)),
            ),
        decreases t@.len() - k,
    {
        let ghost u = t@.skip(k as int);
        let (v, j) = match value_at(t, k) {
            Some(p) => p,
            None => {
                return None;
            },
        };
        let p = skip_ws(t, j);
        assert(u.skip(j - k) =~= t@.skip(j as int));
        if p >= t.len() {
            return None;
        }
        assert(t@.skip(j as int)[p - j] == t@[p as int]);
        let ghost item = item_strs(v@);
        let ghost before = strs_view(acc);
        if t[p] == ']' {
            let joined = join_item(acc, v);
            proof {
                match (before, item) {
                    (Some(x), Some(y)) => {
                        assert(x + y =~= x + y);
                    },
                    _ => {},
                }
            }
            return Some((joined, p + 1));
        }
        if t[p] != ',' {
            return None;
        }
        acc = join_item(acc, v);
        assert(t@.skip(j as int).skip(p - j + 1) =~= t@.skip(p + 1));
        proof {
            if elements(t@.skip(p + 1)) is Some {
                let (o, m) = elements(t@.skip(p + 1)).unwrap();
                match (before, item, o) {
                    (Some(x), Some(y), Some(z)) => {
                        assert(x + (y + z) =~= (x + y) + z);
                    },
                    _ => {},
                }
            }
        }
        k = p + 1;
    }
    assert(t@.skip(k as int).len() == 0);
    None
}

/// The object whose `{` stands just before position `i` of `t`: its members,
/// and the position after its `}`.
fn object_at(t: &Vec<char>, i: usize) -> (r: Option<(Vec<(String, JsonValue)>, usize)>)
    requires
        i <= t@.len(),
    ensures
        match r {
            Some((ms, j)) => object(t@.skip(i as int)) == Some((members_view(ms@), j - i)) && i < j
                <= t@.len(),
            None => object(t@.skip(i as int)) is None,
        },
    decreases t@.len() - i, 2nat,
{
    let p = skip_ws(t, i);
    if p < t.len() && t[p] == '}' {
        assert(t@.skip(i as int)[p - i] == t@[p as int]);
        let empty: Vec<(String, JsonValue)> = Vec::new();
        assert(members_view(empty@) =~= seq![]);
        return Some((empty, p + 1));
    }
    proof {
        if p < t@.len() {
            assert(t@.skip(i as int)[p - i] == t@[p as int]);
        }
    }
    members_at(t, i)
}

/// One member at position `k` of `t`, and the position after its value.
fn member_at(t: &Vec<char>, k: usize) -> (r: Option<((String, JsonValue), usize)>)
    requires
        k <= t@.len(),
    ensures
        match r {
            Some((e, j)) => member(t@.skip(k as int)) == Some(((e.0@, e.1@), j - k)) && k < j
                <= t@.len(),
            None => member(t@.skip(k as int)) is None,
        },
    decreases t@.len() - k, 0nat,
{
    let ghost u = t@.skip(k as int);
    let p0 = skip_ws(t, k);
    assert(u.skip(p0 - k) =~= t@.skip(p0 as int));
    let (key, a) = match parse_string_at(t, p0) {
        Some(x) => x,
        None => {
            return None;
        },
    };
    let p1 = skip_ws(t, a);
    assert(u.skip(a - k) =~= t@.skip(a as int));
    if p1 >= t.len() || t[p1] != ':' {
        proof {
            if p1 < t@.len() {
                assert(t@.skip(a as int)[p1 - a] == t@[p1 as int]);
            }
        }
        return None;
    }
    assert(t@.skip(a as int)[p1 - a] == t@[p1 as int]);
    assert(u.skip(p1 + 1 - k) =~= t@.skip(p1 + 1));
    match value_at(t, p1 + 1) {
        Some((v, j)) => Some(((key, v), j)),
        None => None,
    }
}

/// The members of a non-empty object from position `i` of `t` to its `}`.
fn members_at(t: &Vec<char>, i: usize) -> (r: Option<(Vec<(String, JsonValue)>, usize)>)
    requires
        i <= t@.len(),
    ensures
        match r {
            Some((ms, j)) => members(t@.skip(i as int)) == Some((members_view(ms@), j - i)) && i
                < j <= t@.len(),
            None => members(t@.skip(i as int)) is None,
        },
    decreases t@.len() - i, 1nat,
{
    let mut acc: Vec<(String, JsonValue)> = Vec::new();
    let mut k = i;
    proof {
        assert(members_view(acc@) =~= seq![]);
        if members(t@.skip(i as int)) is Some {
            let (ms, m) = members(t@.skip(i as int)).unwrap();
            assert(seq![] + ms =~= ms);
        }
    }
    while k < t.len()
        invariant
            i <= k <= t@.len(),
            members(t@.skip(i as int)) == after(
                members_view(acc@),
                k - i,
                members(t@.skip(k as int)),
            ),
        decreases t@.len() - k,
    {
        let ghost u = t@.skip(k as int);
        let (e, j) = match member_at(t, k) {
            Some(x) => x,
            None => {
                return None;
            },
        };
        assert(u.skip(j - k) =~= t@.skip(j as int));
        let p2 = skip_ws(t, j);
        if p2 >= t.len() {
            return None;
        }
        assert(t@.skip(j as int)[p2 - j] == t@[p2 as int]);
        let ghost before = members_view(acc@);
        let ghost entry = (e.0@, e.1@);
        let c = t[p2];
        if c != '}' && c != ',' {
            return None;
        }
        acc.push(e);
        assert(members_view(acc@) =~= before + seq![entry]);
        if c == '}' {
            return Some((acc, p2 + 1));
        }
        assert(t@.skip(j as int).skip(p2 - j + 1) =~= t@.skip(p2 + 1));
        proof {
            if members(t@.skip(p2 + 1)) is Some {
                let (ms, m) = members(t@.skip(p2 + 1)).unwrap();
                assert(before + (seq![entry] + ms) =~= (before + seq![entry]) + ms);
            }
        }
        k = p2 + 1;
    }
    assert(t@.skip(k as int).len() == 0);
    None
}

/// The members of the object that the whole of `t` is, if it is one.
pub(crate) fn document_at(t: &Vec<char>) -> (r: Option<Vec<(String, JsonValue)>>)
    ensures
        match r {
            Some(ms) => document(t@) == Some(members_view(ms@)),
            None => document(t@) is None,
        },
{
    proof {
        reveal(document);
    }
    assert(t@.skip(0) =~= t@);
    let p = skip_ws(t, 0);
    if p >= t.len() || t[p] != '{' {
        return None;
    }
    assert(t@.skip(p + 1) =~= t@.skip(p + 1));
    let (ms, j) = match object_at(t, p + 1) {
        Some(x) => x,
        None => {
            return None;
        },
    };
    let q = skip_ws(t, j);
    if q == t.len() {
        Some(ms)
    } else {
        None
    }
}

proof fn lemma_ws_zero(t: Seq<char>)
    requires
        t.len() > 0,
        !is_ws(t[0]),
    ensures
        ws_len(t) == 0,
        t.skip(0) == t,
{
    assert(t.skip(0) =~= t);
}

/// A string literal reads back as that string.
pub proof fn lemma_value_quoted(v: Seq<char>, r: Seq<char>)
    ensures
        value(quoted(v) + r) == Some((Shape::Str(v), quoted(v).len() as int)),
{
    let t = quoted(v) + r;
    assert(t[0] == '"');
    lemma_ws_zero(t);
    lemma_parse_quoted(v, r);
}

proof fn lemma_elements_list(x: Seq<char>, ys: Seq<Seq<char>>, r: Seq<char>)
    ensures
        elements(quoted(x) + list_rest(ys) + r) == Some(
            (Some(seq![x] + ys), quoted(x).len() + list_rest(ys).len() as int),
        ),
    decreases ys.len(),
{
    let rest = list_rest(ys) + r;
    let t = quoted(x) + rest;
    assert(quoted(x) + list_rest(ys) + r =~= t);
    lemma_value_quoted(x, rest);
    let n = quoted(x).len() as int;
    assert(t.skip(n) =~= rest);
    if ys.len() == 0 {
        assert(rest[0] == ']');
        lemma_ws_zero(rest);
        assert(seq![x] + ys =~= seq![x]);
    } else {
        assert(rest[0] == ',');
        lemma_ws_zero(rest);
        let y = ys[0];
        let more = list_rest(ys.skip(1));
        assert(rest.skip(1) =~= quoted(y) + more + r);
        lemma_elements_list(y, ys.skip(1), r);
        assert(seq![x] + (seq![y] + ys.skip(1)) =~= seq![x] + ys);
    }
}

/// A list of string literals reads back as those strings, in order.
pub proof fn lemma_value_list(xs: Seq<Seq<char>>, r: Seq<char>)
    ensures
        value(quoted_list(xs) + r) == Some((Shape::StrList(xs), quoted_list(xs).len() as int)),
{
    let t = quoted_list(xs) + r;
    assert(t[0] == '[');
    lemma_ws_zero(t);
    let u = t.skip(1);
    if xs.len() == 0 {
        assert(u[0] == ']');
        lemma_ws_zero(u);
        assert(xs =~= seq![]);
    } else {
        assert(u =~= quoted(xs[0]) + list_rest(xs.skip(1)) + r);
        assert(u[0] == '"');
        lemma_ws_zero(u);
        lemma_elements_list(xs[0], xs.skip(1), r);
        assert(seq![xs[0]] + xs.skip(1) =~= xs);
    }
}

} // verus!
