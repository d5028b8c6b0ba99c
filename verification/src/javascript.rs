//! JavaScript values: their JavaScript source text, and how they are read back
//! from the text that a browser engine reports.

use vstd::prelude::*;
use crate::text::{chars_of, string_from_chars, push_str};
use crate::number_text::{bigfloat_overflows, bigfloat_readable_chars};

verus! {

/// A number as the decimal arithmetic of `num_bigfloat` writes it.
#[derive(Clone, Debug)]
pub struct JsNumber {
    text: String,
}

/// A JavaScript value.
#[derive(Debug)]
pub enum JsValue {
    Array(Vec<JsValue>),
    Boolean(bool),
    Null,
    Number(JsNumber),
    /// The entries of an object; no key occurs twice.
    Object(Vec<(String, JsValue)>),
    String(String),
    Undefined,
    /// A value that fits none of the other kinds, held as the text that
    /// represents it.
    Other(String),
}

/// The mathematical model of a `JsValue`.
pub enum JsData {
    Array(Seq<JsData>),
    Boolean(bool),
    Null,
    Number(Seq<char>),
    Object(Seq<(Seq<char>, JsData)>),
    String(Seq<char>),
    Undefined,
    Other(Seq<char>),
}

impl View for JsNumber {
    type V = Seq<char>;

    closed spec fn view(&self) -> Seq<char> {
        self.text@
    }
}

/// The model of a value.
pub open spec fn data_of(v: JsValue) -> JsData
    decreases v,
{
    match v {
        JsValue::Array(a) => JsData::Array(
            Seq::new(
                a@.len(),
                |i: int|
                    if 0 <= i < a@.len() {
                        data_of(a@[i])
                    } else {
                        JsData::Null
                    },
            ),
        ),
        JsValue::Boolean(b) => JsData::Boolean(b),
        JsValue::Null => JsData::Null,
        JsValue::Number(n) => JsData::Number(n@),
        JsValue::Object(o) => JsData::Object(
            Seq::new(
                o@.len(),
                |i: int|
                    if 0 <= i < o@.len() {
                        (o@[i].0@, data_of(o@[i].1))
                    } else {
                        (Seq::empty(), JsData::Null)
                    },
            ),
        ),
        JsValue::String(s) => JsData::String(s@),
        JsValue::Undefined => JsData::Undefined,
        JsValue::Other(s) => JsData::Other(s@),
    }
}

impl View for JsValue {
    type V = JsData;

    open spec fn view(&self) -> JsData {
        data_of(*self)
    }
}

/// Characters that stand for themselves inside a JavaScript string literal.
pub open spec fn is_plain_char(c: char) -> bool {
    ||| c == ' '
    ||| c == '\t'
    ||| ('0' <= c && c <= '9')
    ||| ('a' <= c && c <= 'z')
    ||| ('A' <= c && c <= 'Z')
    ||| c == '@'
    ||| c == '*'
    ||| c == '_'
    ||| c == '+'
    ||| c == '-'
    ||| c == '.'
    ||| c == '/'
}

/// Line terminators of JavaScript source text.
pub open spec fn is_line_terminator(c: char) -> bool {
    c == '\n' || c == '\r' || c == '\u{2028}' || c == '\u{2029}'
}

/// How one character is written inside a single-quoted JavaScript string
/// literal.
pub open spec fn escape_char(c: char) -> Seq<char> {
    if is_plain_char(c) {
        seq![c]
    } else if c == '\n' {
        seq!['\\', 'n']
    } else if c == '\r' {
        seq!['\\', 'r']
    } else if c == '\u{2028}' {
        seq!['\\', 'u', '2', '0', '2', '8']
    } else if c == '\u{2029}' {
        seq!['\\', 'u', '2', '0', '2', '9']
    } else {
        seq!['\\', c]
    }
}

/// How a string is written inside a single-quoted JavaScript string literal.
pub open spec fn escaped(s: Seq<char>) -> Seq<char>
    decreases s.len(),
{
    if s.len() == 0 {
        seq![]
    } else {
        escape_char(s[0]) + escaped(s.skip(1))
    }
}

/// The value of a hexadecimal digit.
pub open spec fn hex_value(c: char) -> Option<int> {
    if '0' <= c && c <= '9' {
        Some(c as int - '0' as int)
    } else if 'a' <= c && c <= 'f' {
        Some(c as int - 'a' as int + 10)
    } else if 'A' <= c && c <= 'F' {
        Some(c as int - 'A' as int + 10)
    } else {
        None
    }
}

/// The character that a one-character escape sequence `\d` stands for.
pub open spec fn single_escape_value(d: char) -> char {
    if d == 'b' {
        '\u{8}'
    } else if d == 'f' {
        '\u{c}'
    } else if d == 'n' {
        '\n'
    } else if d == 'r' {
        '\r'
    } else if d == 't' {
        '\t'
    } else if d == 'v' {
        '\u{b}'
    } else {
        d
    }
}

/// Prepends `c` to a decoded string.
pub open spec fn prepend(c: char, rest: Option<Seq<char>>) -> Option<Seq<char>> {
    match rest {
        Some(r) => Some(seq![c] + r),
        None => None,
    }
}

/// The string that the body `lit` of a single-quoted JavaScript string literal
/// stands for, as ECMAScript defines it; `None` where `lit` is not such a body.
/// Legacy octal escapes and `\x` escapes are not covered (`None`).
pub open spec fn js_literal_value(lit: Seq<char>) -> Option<Seq<char>>
    decreases lit.len(),
{
    if lit.len() == 0 {
        Some(seq![])
    } else if lit[0] == '\\' {
        if lit.len() < 2 {
            None
        } else {
            let d = lit[1];
            if d == '\r' && lit.len() >= 3 && lit[2] == '\n' {
                js_literal_value(lit.skip(3))
            } else if is_line_terminator(d) {
                js_literal_value(lit.skip(2))
            } else if d == 'u' {
                if lit.len() >= 6 && hex_value(lit[2]) is Some && hex_value(lit[3]) is Some
                    && hex_value(lit[4]) is Some && hex_value(lit[5]) is Some {
                    let code = hex_value(lit[2])->0 * 4096 + hex_value(lit[3])->0 * 256
                        + hex_value(lit[4])->0 * 16 + hex_value(lit[5])->0;
                    if 0xD800 <= code && code <= 0xDFFF {
                        None
                    } else {
                        prepend(code as char, js_literal_value(lit.skip(6)))
                    }
                } else {
                    None
                }
            } else if d == 'x' || ('0' <= d && d <= '9') {
                None
            } else {
                prepend(single_escape_value(d), js_literal_value(lit.skip(2)))
            }
        }
    } else if lit[0] == '\'' || lit[0] == '\n' || lit[0] == '\r' {
        None
    } else {
        prepend(lit[0], js_literal_value(lit.skip(1)))
    }
}

/// Escaping the characters of a string one by one: the escaped form of a
/// concatenation is the concatenation of the escaped forms.
pub proof fn lemma_escaped_concat(a: Seq<char>, b: Seq<char>)
    ensures
        escaped(a + b) == escaped(a) + escaped(b),
    decreases a.len(),
{
    if a.len() == 0 {
        assert(a + b == b);
    } else {
        assert((a + b).skip(1) == a.skip(1) + b);
        lemma_escaped_concat(a.skip(1), b);
        assert((a + b)[0] == a[0]);
    }
}

/// The text that escaping writes for one character, followed by any text,
/// decodes to that character followed by what the rest decodes to.
proof fn lemma_decode_escape_char(c: char, rest: Seq<char>)
    ensures
        js_literal_value(escape_char(c) + rest) == prepend(c, js_literal_value(rest)),
{
    let t = escape_char(c) + rest;
    if is_plain_char(c) {
        assert(t.skip(1) == rest);
    } else if c == '\n' || c == '\r' {
        assert(t.skip(2) == rest);
    } else if c == '\u{2028}' || c == '\u{2029}' {
        assert(t.skip(6) == rest);
        assert(hex_value('2') == Some(2int));
        assert(hex_value('0') == Some(0int));
        assert(hex_value('8') == Some(8int));
        assert(hex_value('9') == Some(9int));
        assert((0x2028int as char) == '\u{2028}');
        assert((0x2029int as char) == '\u{2029}');
    } else {
        assert(t.skip(2) == rest);
    }
}

/// A string written by `escaped` between single quotes is a JavaScript string
/// literal that stands for exactly that string.
pub proof fn law_escaped_literal_round_trip(s: Seq<char>)
    ensures
        js_literal_value(escaped(s)) == Some(s),
    decreases s.len(),
{
    if s.len() == 0 {
    } else {
        law_escaped_literal_round_trip(s.skip(1));
        lemma_decode_escape_char(s[0], escaped(s.skip(1)));
        assert(seq![s[0]] + s.skip(1) == s);
    }
}

/// Whether `c` stands for itself inside a JavaScript string literal.
fn is_plain(c: char) -> (r: bool)
    ensures
        r == is_plain_char(c),
{
    c == ' ' || c == '\t' || ('0' <= c && c <= '9') || ('a' <= c && c <= 'z') || ('A' <= c && c
        <= 'Z') || c == '@' || c == '*' || c == '_' || c == '+' || c == '-' || c == '.' || c
        == '/'
}

/// Appends how `c` is written inside a JavaScript string literal.
fn push_escaped_char(out: &mut Vec<char>, c: char)
    ensures
        final(out)@ == old(out)@ + escape_char(c),
{
    if is_plain(c) {
        out.push(c);
    } else if c == '\n' {
        out.push('\\');
        out.push('n');
    } else if c == '\r' {
        out.push('\\');
        out.push('r');
    } else if c == '\u{2028}' {
        out.push('\\');
        out.push('u');
        out.push('2');
        out.push('0');
        out.push('2');
        out.push('8');
    } else if c == '\u{2029}' {
        out.push('\\');
        out.push('u');
        out.push('2');
        out.push('0');
        out.push('2');
        out.push('9');
    } else {
        out.push('\\');
        out.push(c);
    }
}

/// Appends the escaped form of the characters `cs`.
fn push_escaped(out: &mut Vec<char>, cs: &Vec<char>)
    ensures
        final(out)@ == old(out)@ + escaped(cs@),
{
    let mut i: usize = 0;
    while i < cs.len()
        invariant
            i <= cs.len(),
            out@ == old(out)@ + escaped(cs@.subrange(0, i as int)),
        decreases cs.len() - i,
    {
        let c = cs[i];
        proof {
            lemma_escaped_concat(cs@.subrange(0, i as int), seq![c]);
            assert(cs@.subrange(0, i + 1) == cs@.subrange(0, i as int) + seq![c]);
            assert(seq![c].skip(1) == Seq::<char>::empty());
            assert(escaped(seq![c]) == escape_char(c) + escaped(Seq::<char>::empty()));
        }
        push_escaped_char(out, c);
        i = i + 1;
    }
    assert(cs@.subrange(0, cs.len() as int) == cs@);
}

/// Escapes `string` so that, put between single quotes, it is a JavaScript
/// string literal that stands for `string` (see `law_escaped_literal_round_trip`).
pub fn escape_string(string: &str) -> (r: String)
    ensures
        r@ == escaped(string@),
{
    let cs = chars_of(string);
    let mut out: Vec<char> = Vec::new();
    push_escaped(&mut out, &cs);
    string_from_chars(&out)
}

/// `"true"` or `"false"`.
pub open spec fn bool_text(b: bool) -> Seq<char> {
    if b {
        seq!['t', 'r', 'u', 'e']
    } else {
        seq!['f', 'a', 'l', 's', 'e']
    }
}

/// `"null"`.
pub open spec fn null_text() -> Seq<char> {
    seq!['n', 'u', 'l', 'l']
}

/// `"undefined"`.
pub open spec fn undefined_text() -> Seq<char> {
    seq!['u', 'n', 'd', 'e', 'f', 'i', 'n', 'e', 'd']
}

/// The JavaScript source text of a value.
/// Arrays are written as `[a,b,c]`; object entries as `"key":value`, one after
/// the other with no separator, keys written as they are; strings as
/// single-quoted literals; other values as the text they hold.
pub open spec fn js_text(d: JsData) -> Seq<char>
    decreases d,
{
    match d {
        JsData::Array(a) => seq!['['] + list_text(a) + seq![']'],
        JsData::Boolean(b) => bool_text(b),
        JsData::Null => null_text(),
        JsData::Number(t) => t,
        JsData::Object(o) => seq!['{'] + entries_text(o) + seq!['}'],
        JsData::String(s) => seq!['\''] + escaped(s) + seq!['\''],
        JsData::Undefined => undefined_text(),
        JsData::Other(code) => code,
    }
}

/// The texts of the elements of an array, separated by commas.
pub open spec fn list_text(a: Seq<JsData>) -> Seq<char>
    decreases a,
{
    if a.len() == 0 {
        seq![]
    } else if a.len() == 1 {
        js_text(a[0])
    } else {
        list_text(a.subrange(0, a.len() - 1)) + seq![','] + js_text(a[a.len() - 1])
    }
}

/// The texts of the entries of an object, one after the other.
pub open spec fn entries_text(o: Seq<(Seq<char>, JsData)>) -> Seq<char>
    decreases o,
{
    if o.len() == 0 {
        seq![]
    } else {
        entries_text(o.subrange(0, o.len() - 1)) + seq!['"'] + o[o.len() - 1].0 + seq!['"', ':']
            + js_text(o[o.len() - 1].1)
    }
}

/// Appends the characters of `b` as `true` or `false`.
fn push_bool(out: &mut Vec<char>, b: bool)
    ensures
        final(out)@ == old(out)@ + bool_text(b),
{
    if b {
        out.push('t');
        out.push('r');
        out.push('u');
        out.push('e');
    } else {
        out.push('f');
        out.push('a');
        out.push('l');
        out.push('s');
        out.push('e');
    }
}

proof fn lemma_array_element_decreases(v: JsValue, i: int)
    requires
        v is Array,
        0 <= i < v->Array_0@.len(),
    ensures
        decreases_to!(v => v->Array_0@[i]),
{
    let a = v->Array_0;
    assert(decreases_to!(v => a));
    assert(decreases_to!(a => a@));
    assert(decreases_to!(a@ => a@[i]));
}

proof fn lemma_object_value_decreases(v: JsValue, i: int)
    requires
        v is Object,
        0 <= i < v->Object_0@.len(),
    ensures
        decreases_to!(v => v->Object_0@[i].1),
{
    let o = v->Object_0;
    assert(decreases_to!(v => o));
    assert(decreases_to!(o => o@));
    assert(decreases_to!(o@ => o@[i]));
    assert(decreases_to!(o@[i] => o@[i].1));
}

/// Appends the JavaScript source text of `v`.
fn push_js(v: &JsValue, out: &mut Vec<char>)
    ensures
        final(out)@ == old(out)@ + js_text(v@),
    decreases v,
{
    match v {
        JsValue::Array(a) => {
            let ghost d = match v@ {
                JsData::Array(x) => x,
                _ => Seq::empty(),
            };
            assert(v@ == JsData::Array(d));
            out.push('[');
            let ghost start = out@;
            let mut i: usize = 0;
            while i < a.len()
                invariant
                    i <= a.len(),
                    *v == JsValue::Array(*a),
                    d.len() == a@.len(),
                    forall|j: int| 0 <= j < a@.len() ==> #[trigger] d[j] == data_of(a@[j]),
                    out@ == start + list_text(d.subrange(0, i as int)),
                decreases a.len() - i,
            {
                assert(d.subrange(0, i + 1).subrange(0, i as int) == d.subrange(0, i as int));
                if i > 0 {
                    out.push(',');
                }
                proof {
                    if i == 0 {
                        assert(d.subrange(0, 0) == Seq::<JsData>::empty());
                    }
                    lemma_array_element_decreases(*v, i as int);
                }
                push_js(&a[i], out);
                i = i + 1;
            }
            assert(d.subrange(0, a.len() as int) == d);
            out.push(']');
        },
        JsValue::Boolean(b) => {
            push_bool(out, *b);
        },
        JsValue::Null => {
            out.push('n');
            out.push('u');
            out.push('l');
            out.push('l');
        },
        JsValue::Number(n) => {
            push_str(out, n.text.as_str());
        },
        JsValue::Object(o) => {
            let ghost d = match v@ {
                JsData::Object(x) => x,
                _ => Seq::empty(),
            };
            assert(v@ == JsData::Object(d));
            out.push('{');
            let ghost start = out@;
            let mut i: usize = 0;
            while i < o.len()
                invariant
                    i <= o.len(),
                    *v == JsValue::Object(*o),
                    d.len() == o@.len(),
                    forall|j: int|
                        0 <= j < o@.len() ==> #[trigger] d[j] == (o@[j].0@, data_of(o@[j].1)),
                    out@ == start + entries_text(d.subrange(0, i as int)),
                decreases o.len() - i,
            {
                assert(d.subrange(0, i + 1).subrange(0, i as int) == d.subrange(0, i as int));
                let entry = &o[i];
                out.push('"');
                push_str(out, entry.0.as_str());
                out.push('"');
                out.push(':');
                proof {
                    lemma_object_value_decreases(*v, i as int);
                }
                push_js(&entry.1, out);
                i = i + 1;
            }
            assert(d.subrange(0, o.len() as int) == d);
            out.push('}');
        },
        JsValue::String(s) => {
            out.push('\'');
            let cs = chars_of(s.as_str());
            push_escaped(out, &cs);
            out.push('\'');
        },
        JsValue::Undefined => {
            out.push('u');
            out.push('n');
            out.push('d');
            out.push('e');
            out.push('f');
            out.push('i');
            out.push('n');
            out.push('e');
            out.push('d');
        },
        JsValue::Other(code) => {
            push_str(out, code.as_str());
        },
    }
}

impl JsValue {
    /// The JavaScript source text of this value: strings become single-quoted
    /// string literals, arrays `[..]` with comma-separated elements.
    pub fn to_string(&self) -> (r: String)
        ensures
            r@ == js_text(self@),
    {
        let mut out: Vec<char> = Vec::new();
        push_js(self, &mut out);
        string_from_chars(&out)
    }

    /// The string of a `JsValue::String`; for any other value, its JavaScript
    /// source text.
    pub fn to_string_unenclosed(&self) -> (r: String)
        ensures
            r@ == (match self@ {
                JsData::String(s) => s,
                other => js_text(other),
            }),
    {
        match self {
            JsValue::String(s) => s.clone(),
            other => other.to_string(),
        }
    }
}

/// The text that `num_bigfloat` writes (with `Display`) for the number that
/// `BigFloat::parse` reads from `s`; `None` where it reads no number.
pub uninterp spec fn bigfloat_text(s: Seq<char>) -> Option<Seq<char>>;

/// `'0'` to `'9'`.
pub open spec fn is_ascii_digit(c: char) -> bool {
    '0' <= c && c <= '9'
}

/// A text on which `BigFloat::parse` does not overflow its exponent; see
/// `bigfloat_overflows`.
pub open spec fn bigfloat_readable(s: Seq<char>) -> bool {
    !bigfloat_overflows(s)
}

/// Reads a number with `BigFloat::parse` and writes it back out with
/// `BigFloat`'s `Display`. The result is the named `bigfloat_text` of the
/// input; the parser of `num_bigfloat` accepts every text that starts with an
/// ASCII digit, or with `-` and an ASCII digit. On a text where the parser
/// overflows its exponent it panics, so such texts are left out.
#[verifier::external_body]
fn parse_bigfloat(s: &str) -> (r: Option<String>)
    requires
        bigfloat_readable(s@),
    ensures
        r matches Some(t) ==> bigfloat_text(s@) == Some(t@),
        r is None ==> bigfloat_text(s@) is None,
        s@.len() > 0 && is_ascii_digit(s@[0]) ==> r is Some,
        s@.len() > 1 && s@[0] == '-' && is_ascii_digit(s@[1]) ==> r is Some,
{
    num_bigfloat::BigFloat::parse(s).map(|n| n.to_string())
}

impl JsNumber {
    /// The number that `s` writes in decimal notation, as `num_bigfloat`
    /// reads it; `None` where it reads no number. A text that starts with a
    /// digit, or with `-` and a digit, is always read. A text on which the
    /// parser would overflow its exponent (see `bigfloat_overflows`) is left
    /// out.
    pub fn parse(s: &str) -> (r: Option<JsNumber>)
        requires
            bigfloat_readable(s@),
        ensures
            r matches Some(n) ==> bigfloat_text(s@) == Some(n@),
            r is None ==> bigfloat_text(s@) is None,
            s@.len() > 0 && is_ascii_digit(s@[0]) ==> r is Some,
            s@.len() > 1 && s@[0] == '-' && is_ascii_digit(s@[1]) ==> r is Some,
    {
        match parse_bigfloat(s) {
            Some(text) => Some(JsNumber { text }),
            None => None,
        }
    }

    /// The text of this number.
    pub fn text(&self) -> (r: String)
        ensures
            r@ == self@,
    {
        self.text.clone()
    }
}

/// The parts of `s` between the occurrences of `sep`, as `str::split` gives
/// them.
pub open spec fn split_on(s: Seq<char>, sep: char) -> Seq<Seq<char>>
    decreases s.len(),
{
    if s.len() == 0 {
        seq![seq![]]
    } else {
        let p = split_on(s.subrange(0, s.len() - 1), sep);
        if s[s.len() - 1] == sep {
            p.push(seq![])
        } else {
            p.update(p.len() - 1, p[p.len() - 1].push(s[s.len() - 1]))
        }
    }
}

/// Splitting gives at least one part, and no part is longer than the text.
pub proof fn lemma_split_on_parts(s: Seq<char>, sep: char)
    ensures
        split_on(s, sep).len() >= 1,
        forall|i: int| 0 <= i < split_on(s, sep).len() ==> #[trigger] split_on(s, sep)[i].len() <= s.len(),
    decreases s.len(),
{
    if s.len() > 0 {
        lemma_split_on_parts(s.subrange(0, s.len() - 1), sep);
    }
}

/// The index of the first occurrence of `c` in `s`.
pub open spec fn first_index(s: Seq<char>, c: char) -> Option<int>
    decreases s.len(),
{
    if s.len() == 0 {
        None
    } else if s[0] == c {
        Some(0)
    } else {
        match first_index(s.skip(1), c) {
            Some(k) => Some(k + 1),
            None => None,
        }
    }
}

pub(crate) proof fn lemma_first_index(s: Seq<char>, c: char)
    ensures
        first_index(s, c) matches Some(k) ==> 0 <= k < s.len() && s[k] == c && forall|j: int|
            0 <= j < k ==> s[j] != c,
        first_index(s, c) is None ==> forall|j: int| 0 <= j < s.len() ==> s[j] != c,
    decreases s.len(),
{
    if s.len() > 0 {
        lemma_first_index(s.skip(1), c);
        if s[0] != c {
            assert forall|j: int| 1 <= j < s.len() implies s[j] == s.skip(1)[j - 1] by {}
        }
    }
}

/// The parts before and after the first occurrence of `sep`, as
/// `str::split_once` gives them.
pub open spec fn split_once(s: Seq<char>, sep: char) -> Option<(Seq<char>, Seq<char>)> {
    match first_index(s, sep) {
        Some(k) => Some((s.subrange(0, k), s.subrange(k + 1, s.len() as int))),
        None => None,
    }
}

/// Where the entries hold key `k`; keys occur once.
pub open spec fn has_key(es: Seq<(Seq<char>, JsData)>, k: Seq<char>) -> bool {
    exists|i: int| 0 <= i < es.len() && es[i].0 == k
}

/// The entries after setting key `k` to `d`: the entry of that key is replaced
/// where there is one, otherwise the new entry goes at the end.
pub open spec fn object_insert(es: Seq<(Seq<char>, JsData)>, k: Seq<char>, d: JsData) -> Seq<
    (Seq<char>, JsData),
> {
    if has_key(es, k) {
        es.update(choose|i: int| 0 <= i < es.len() && es[i].0 == k, (k, d))
    } else {
        es.push((k, d))
    }
}

/// No key occurs twice.
pub open spec fn unique_keys(es: Seq<(Seq<char>, JsData)>) -> bool {
    forall|i: int, j: int| 0 <= i < j < es.len() ==> es[i].0 != es[j].0
}

/// The entries of an object read from its parts, in order; parts without a
/// `:` are left out.
pub open spec fn object_entries(parts: Seq<Option<(Seq<char>, JsData)>>) -> Seq<
    (Seq<char>, JsData),
>
    decreases parts.len(),
{
    if parts.len() == 0 {
        seq![]
    } else {
        let es = object_entries(parts.subrange(0, parts.len() - 1));
        match parts[parts.len() - 1] {
            Some((k, d)) => object_insert(es, k, d),
            None => es,
        }
    }
}

/// `"unable to parse number: "` followed by `s`.
pub open spec fn number_error_text(s: Seq<char>) -> Seq<char> {
    "unable to parse number: "@ + s
}

/// What `JsValue::from_string` gives for the text `s`, as the model of a
/// value; `None` where it cannot read `s`: a lone `"` at any depth, where
/// taking the inner text would panic, or a number that `bigfloat_readable`
/// leaves out, on which the number parser would overflow.
/// - the empty text is `Other("")`;
/// - a text that starts with a digit is a number (as `num_bigfloat` reads it);
/// - `null`, `undefined`, `true`, `false` are those values;
/// - `"..."` is the string between the quotes, taken as it is;
/// - `[...]` is an array of the parts between commas, each read in turn;
/// - `{...}` is an object of the parts between commas that hold a `:`, the
///   key being the text before the first `:` and the value the rest, read in
///   turn; a later key replaces an earlier equal one;
/// - anything else is `Other` with the text.
pub open spec fn js_parse(s: Seq<char>) -> Option<JsData>
    decreases s.len(), 1nat,
{
    let n = s.len();
    if n == 0 {
        Some(JsData::Other(seq![]))
    } else if is_ascii_digit(s[0]) {
        if bigfloat_readable(s) {
            Some(
                match bigfloat_text(s) {
                    Some(t) => JsData::Number(t),
                    None => JsData::Other(number_error_text(s)),
                },
            )
        } else {
            None
        }
    } else if s == null_text() {
        Some(JsData::Null)
    } else if s == undefined_text() {
        Some(JsData::Undefined)
    } else if s == bool_text(true) {
        Some(JsData::Boolean(true))
    } else if s == bool_text(false) {
        Some(JsData::Boolean(false))
    } else if s[0] == '"' && s[n - 1] == '"' {
        if n < 2 {
            None
        } else {
            Some(JsData::String(s.subrange(1, n - 1)))
        }
    } else if s[0] == '[' && s[n - 1] == ']' {
        if n < 2 {
            None
        } else {
            let vals = array_items(s);
            if forall|i: int| 0 <= i < vals.len() ==> #[trigger] vals[i] is Some {
                Some(JsData::Array(Seq::new(vals.len(), |i: int| vals[i]->0)))
            } else {
                None
            }
        }
    } else if s[0] == '{' && s[n - 1] == '}' {
        if n < 2 {
            None
        } else {
            let vals = object_items(s);
            if forall|i: int| 0 <= i < vals.len() ==> #[trigger] vals[i] is Some {
                Some(
                    JsData::Object(object_entries(Seq::new(vals.len(), |i: int| vals[i]->0))),
                )
            } else {
                None
            }
        }
    } else {
        Some(JsData::Other(s))
    }
}

/// The parts between the commas inside the brackets of `s`, each read in turn.
pub open spec fn array_parts(s: Seq<char>) -> Seq<Seq<char>> {
    split_on(s.subrange(1, s.len() - 1), ',')
}

/// The elements of the array text `s` (`[...]`), each `None` where it cannot
/// be read.
pub open spec fn array_items(s: Seq<char>) -> Seq<Option<JsData>>
    decreases s.len(), 0nat,
{
    let parts = array_parts(s);
    Seq::new(
        parts.len(),
        |i: int|
            if 0 <= i < parts.len() && parts[i].len() < s.len() {
                js_parse(parts[i])
            } else {
                None
            },
    )
}

/// The entries of the object text `s` (`{...}`): for each part between commas,
/// `Some(None)` where it holds no `:`, `Some(Some((key, value)))` where it does,
/// `None` where its value cannot be read.
pub open spec fn object_items(s: Seq<char>) -> Seq<Option<Option<(Seq<char>, JsData)>>>
    decreases s.len(), 0nat,
{
    let parts = array_parts(s);
    Seq::new(
        parts.len(),
        |i: int|
            if 0 <= i < parts.len() {
                match split_once(parts[i], ':') {
                    Some((k, v)) => if v.len() < s.len() {
                        match js_parse(v) {
                            Some(d) => Some(Some((k, d))),
                            None => None,
                        }
                    } else {
                        None
                    },
                    None => Some(None),
                }
            } else {
                None
            },
    )
}

/// Every object in the value, at any depth, holds each key once, as the map
/// of entries of a JavaScript object does.
pub open spec fn keys_unique(d: JsData) -> bool
    decreases d,
{
    match d {
        JsData::Array(a) => forall|i: int| 0 <= i < a.len() ==> keys_unique(#[trigger] a[i]),
        JsData::Object(o) => unique_keys(o) && forall|i: int|
            0 <= i < o.len() ==> keys_unique(#[trigger] o[i].1),
        _ => true,
    }
}

/// Setting a key keeps the keys unique, and the values well keyed.
proof fn lemma_object_insert_keys(es: Seq<(Seq<char>, JsData)>, k: Seq<char>, d: JsData)
    requires
        unique_keys(es),
        forall|i: int| 0 <= i < es.len() ==> keys_unique(#[trigger] es[i].1),
        keys_unique(d),
    ensures
        unique_keys(object_insert(es, k, d)),
        forall|i: int|
            0 <= i < object_insert(es, k, d).len() ==> keys_unique(
                #[trigger] object_insert(es, k, d)[i].1,
            ),
{
    let r = object_insert(es, k, d);
    if has_key(es, k) {
        let c = choose|i: int| 0 <= i < es.len() && es[i].0 == k;
        assert(r == es.update(c, (k, d)));
        assert forall|a: int, b: int| 0 <= a < b < r.len() implies r[a].0 != r[b].0 by {
            assert(es[a].0 != es[b].0);
        }
        assert forall|i: int| 0 <= i < r.len() implies keys_unique(#[trigger] r[i].1) by {
            if i != c {
                assert(r[i] == es[i]);
            }
        }
    } else {
        assert(r == es.push((k, d)));
        assert forall|a: int, b: int| 0 <= a < b < r.len() implies r[a].0 != r[b].0 by {
            if b == es.len() {
                assert(es[a].0 != k);
            } else {
                assert(es[a].0 != es[b].0);
            }
        }
        assert forall|i: int| 0 <= i < r.len() implies keys_unique(#[trigger] r[i].1) by {
            if i < es.len() {
                assert(r[i] == es[i]);
            }
        }
    }
}

/// The entries read from object parts hold each key once, and their values
/// are well keyed where the values of the parts are.
pub proof fn lemma_object_entries_keys(parts: Seq<Option<(Seq<char>, JsData)>>)
    requires
        forall|i: int|
            0 <= i < parts.len() && (#[trigger] parts[i]) is Some ==> keys_unique((parts[i]->0).1),
    ensures
        unique_keys(object_entries(parts)),
        forall|i: int|
            0 <= i < object_entries(parts).len() ==> keys_unique(
                #[trigger] object_entries(parts)[i].1,
            ),
    decreases parts.len(),
{
    if parts.len() > 0 {
        let init = parts.subrange(0, parts.len() - 1);
        assert forall|i: int| 0 <= i < init.len() && (#[trigger] init[i]) is Some implies keys_unique(
            (init[i]->0).1,
        ) by {
            assert(init[i] == parts[i]);
        }
        lemma_object_entries_keys(init);
        match parts[parts.len() - 1] {
            Some((k, d)) => {
                lemma_object_insert_keys(object_entries(init), k, d);
            },
            None => {},
        }
    }
}

/// Setting key `k` to `d` keeps the keys unique, holds `k` and every key held
/// before, and every entry is the new one (for `k`) or an entry from before.
proof fn lemma_object_insert_content(es: Seq<(Seq<char>, JsData)>, k: Seq<char>, d: JsData)
    requires
        unique_keys(es),
    ensures
        unique_keys(object_insert(es, k, d)),
        has_key(object_insert(es, k, d), k),
        forall|x: Seq<char>| has_key(es, x) ==> has_key(object_insert(es, k, d), x),
        forall|j: int|
            0 <= j < object_insert(es, k, d).len() ==> (#[trigger] object_insert(es, k, d)[j]).0
                == k ==> object_insert(es, k, d)[j] == (k, d),
        forall|j: int|
            0 <= j < object_insert(es, k, d).len() && (#[trigger] object_insert(es, k, d)[j]).0
                != k ==> 0 <= j < es.len() && es[j] == object_insert(es, k, d)[j],
{
    let r = object_insert(es, k, d);
    if has_key(es, k) {
        let c = choose|i: int| 0 <= i < es.len() && es[i].0 == k;
        assert(r == es.update(c, (k, d)));
        assert forall|a: int, b: int| 0 <= a < b < r.len() implies r[a].0 != r[b].0 by {
            assert(es[a].0 != es[b].0);
        }
        assert(r[c].0 == k);
        assert forall|x: Seq<char>| has_key(es, x) implies has_key(r, x) by {
            let i = choose|i: int| 0 <= i < es.len() && es[i].0 == x;
            if i == c {
                assert(r[c].0 == x);
            } else {
                assert(r[i] == es[i]);
            }
        }
        assert forall|j: int| 0 <= j < r.len() && (#[trigger] r[j]).0 == k implies r[j] == (k, d) by {
            if j != c {
                assert(es[j].0 == k);
                if j < c {
                    assert(es[j].0 != es[c].0);
                } else {
                    assert(es[c].0 != es[j].0);
                }
            }
        }
    } else {
        assert(r == es.push((k, d)));
        assert forall|a: int, b: int| 0 <= a < b < r.len() implies r[a].0 != r[b].0 by {
            if b == es.len() {
                assert(es[a].0 != k);
            } else {
                assert(es[a].0 != es[b].0);
            }
        }
        assert(r[es.len() as int].0 == k);
        assert forall|x: Seq<char>| has_key(es, x) implies has_key(r, x) by {
            let i = choose|i: int| 0 <= i < es.len() && es[i].0 == x;
            assert(r[i] == es[i]);
        }
        assert forall|j: int| 0 <= j < r.len() && (#[trigger] r[j]).0 == k implies r[j] == (k, d) by {
            if j < es.len() {
                assert(r[j] == es[j]);
            }
        }
    }
}

/// The entries read from object parts hold each key once; every key of a part
/// is a key of the entries; and every entry is that of the last part with its
/// key.
pub proof fn lemma_object_entries_content(parts: Seq<Option<(Seq<char>, JsData)>>)
    ensures
        unique_keys(object_entries(parts)),
        forall|i: int|
            0 <= i < parts.len() && (#[trigger] parts[i]) is Some ==> has_key(
                object_entries(parts),
                (parts[i]->0).0,
            ),
        forall|j: int|
            0 <= j < object_entries(parts).len() ==> exists|i: int|
                0 <= i < parts.len() && #[trigger] parts[i] == Some(
                    (#[trigger] object_entries(parts)[j]),
                ) && forall|i2: int|
                    i < i2 < parts.len() && (#[trigger] parts[i2]) is Some ==> (parts[i2]->0).0
                        != object_entries(parts)[j].0,
    decreases parts.len(),
{
    if parts.len() > 0 {
        let n = parts.len() - 1;
        let init = parts.subrange(0, n);
        lemma_object_entries_content(init);
        let ei = object_entries(init);
        let es = object_entries(parts);
        assert forall|i: int| 0 <= i < n implies init[i] == parts[i] by {}
        match parts[n] {
            None => {
                assert(es == ei);
                assert forall|j: int| 0 <= j < es.len() implies exists|i: int|
                    0 <= i < parts.len() && #[trigger] parts[i] == Some((#[trigger] es[j]))
                        && forall|i2: int|
                        i < i2 < parts.len() && (#[trigger] parts[i2]) is Some ==> (
                        parts[i2]->0).0 != es[j].0 by {
                    let i = choose|i: int|
                        0 <= i < init.len() && #[trigger] init[i] == Some((#[trigger] ei[j]))
                            && forall|i2: int|
                            i < i2 < init.len() && (#[trigger] init[i2]) is Some ==> (
                            init[i2]->0).0 != ei[j].0;
                    assert(parts[i] == Some(es[j]));
                    assert forall|i2: int|
                        i < i2 < parts.len() && (#[trigger] parts[i2]) is Some implies (
                        parts[i2]->0).0 != es[j].0 by {
                        assert(init[i2] == parts[i2]);
                    }
                }
            },
            Some((k, d)) => {
                lemma_object_insert_content(ei, k, d);
                assert(es == object_insert(ei, k, d));
                assert forall|i: int|
                    0 <= i < parts.len() && (#[trigger] parts[i]) is Some implies has_key(
                    es,
                    (parts[i]->0).0,
                ) by {
                    if i < n {
                        assert(init[i] == parts[i]);
                    }
                }
                assert forall|j: int| 0 <= j < es.len() implies exists|i: int|
                    0 <= i < parts.len() && #[trigger] parts[i] == Some((#[trigger] es[j]))
                        && forall|i2: int|
                        i < i2 < parts.len() && (#[trigger] parts[i2]) is Some ==> (
                        parts[i2]->0).0 != es[j].0 by {
                    if es[j].0 == k {
                        assert(es[j] == (k, d));
                        assert(parts[n] == Some(es[j]));
                    } else {
                        assert(ei[j] == es[j]);
                        let i = choose|i: int|
                            0 <= i < init.len() && #[trigger] init[i] == Some((#[trigger] ei[j]))
                                && forall|i2: int|
                                i < i2 < init.len() && (#[trigger] init[i2]) is Some ==> (
                                init[i2]->0).0 != ei[j].0;
                        assert(parts[i] == Some(es[j]));
                        assert forall|i2: int|
                            i < i2 < parts.len() && (#[trigger] parts[i2]) is Some implies (
                            parts[i2]->0).0 != es[j].0 by {
                            if i2 < n {
                                assert(init[i2] == parts[i2]);
                            }
                        }
                    }
                }
            },
        }
    }
}

/// Every object that `JsValue::from_string` reads holds each key once, at
/// any depth.
pub proof fn law_read_values_have_unique_keys(s: Seq<char>)
    ensures
        js_parse(s) matches Some(d) ==> keys_unique(d),
    decreases s.len(),
{
    let n = s.len();
    if n == 0 || is_ascii_digit(s[0]) || s == null_text() || s == undefined_text() || s
        == bool_text(true) || s == bool_text(false) || (s[0] == '"' && s[n - 1] == '"') {
    } else if s[0] == '[' && s[n - 1] == ']' && n >= 2 {
        let vals = array_items(s);
        let parts = array_parts(s);
        if forall|i: int| 0 <= i < vals.len() ==> #[trigger] vals[i] is Some {
            let items = Seq::new(vals.len(), |i: int| vals[i]->0);
            assert forall|i: int| 0 <= i < items.len() implies keys_unique(#[trigger] items[i]) by {
                assert(vals[i] is Some);
                assert(parts[i].len() < s.len());
                law_read_values_have_unique_keys(parts[i]);
            }
            assert(js_parse(s) == Some(JsData::Array(items)));
        }
    } else if s[0] == '{' && s[n - 1] == '}' && n >= 2 {
        let vals = object_items(s);
        let parts = array_parts(s);
        if forall|i: int| 0 <= i < vals.len() ==> #[trigger] vals[i] is Some {
            let entries = Seq::new(vals.len(), |i: int| vals[i]->0);
            assert forall|i: int|
                0 <= i < entries.len() && (#[trigger] entries[i]) is Some implies keys_unique(
                (entries[i]->0).1,
            ) by {
                assert(vals[i] is Some);
                let (k, v) = split_once(parts[i], ':')->0;
                assert(v.len() < s.len());
                law_read_values_have_unique_keys(v);
            }
            lemma_object_entries_keys(entries);
            assert(js_parse(s) == Some(JsData::Object(object_entries(entries))));
        }
    }
}

/// The empty array is written `[]`.
pub proof fn law_empty_array_text()
    ensures
        js_text(JsData::Array(Seq::empty())) == seq!['[', ']'],
{
    assert(seq!['['] + Seq::<char>::empty() + seq![']'] =~= seq!['[', ']']);
}

/// An array of one value is written as the full text of that value between
/// brackets; an array inside an array keeps its own brackets.
pub proof fn law_single_element_array_text(e: JsData)
    ensures
        js_text(JsData::Array(seq![e])) == seq!['['] + js_text(e) + seq![']'],
{
    assert(seq![e][0] == e);
}

/// The texts of the elements of two non-empty lists, joined by a comma, are
/// the text of the joined list.
proof fn lemma_list_text_concat(a: Seq<JsData>, b: Seq<JsData>)
    requires
        a.len() > 0,
        b.len() > 0,
    ensures
        list_text(a + b) == list_text(a) + seq![','] + list_text(b),
    decreases b.len(),
{
    let ab = a + b;
    if b.len() == 1 {
        assert(ab.subrange(0, ab.len() - 1) =~= a);
        assert(ab[ab.len() - 1] == b[0]);
    } else {
        let init = b.subrange(0, b.len() - 1);
        lemma_list_text_concat(a, init);
        assert(ab.subrange(0, ab.len() - 1) =~= a + init);
        assert(ab[ab.len() - 1] == b[b.len() - 1]);
        assert(list_text(b) == list_text(init) + seq![','] + js_text(b[b.len() - 1]));
        assert(list_text(a + init) + seq![','] + js_text(b[b.len() - 1]) =~= list_text(a)
            + seq![','] + (list_text(init) + seq![','] + js_text(b[b.len() - 1])));
    }
}

/// The text of an array made of two non-empty parts is the text of the first
/// part without its closing bracket, a comma, and the text of the second part
/// without its opening bracket. With `law_single_element_array_text` this
/// gives the text of every non-empty array from the texts of its elements.
pub proof fn law_array_text_concat(a: Seq<JsData>, b: Seq<JsData>)
    requires
        a.len() > 0,
        b.len() > 0,
    ensures
        ({
            let ta = js_text(JsData::Array(a));
            let tb = js_text(JsData::Array(b));
            js_text(JsData::Array(a + b)) == ta.subrange(0, ta.len() - 1) + seq![','] + tb.subrange(
                1,
                tb.len() as int,
            )
        }),
{
    lemma_list_text_concat(a, b);
    let ta = js_text(JsData::Array(a));
    let tb = js_text(JsData::Array(b));
    assert(ta.subrange(0, ta.len() - 1) =~= seq!['['] + list_text(a));
    assert(tb.subrange(1, tb.len() as int) =~= list_text(b) + seq![']']);
    assert(js_text(JsData::Array(a + b)) =~= seq!['['] + list_text(a) + seq![','] + (list_text(b)
        + seq![']']));
}

/// Every text that starts with a decimal digit `0` to `9` and that the number
/// reader reads without overflowing reads as the number the reader makes of
/// it.
pub proof fn law_digit_text_reads_as_number(s: Seq<char>, t: Seq<char>)
    requires
        s.len() > 0,
        '0' <= s[0] && s[0] <= '9',
        bigfloat_readable(s),
        bigfloat_text(s) == Some(t),
    ensures
        js_parse(s) == Some(JsData::Number(t)),
{
}

/// Every text of two characters or more between double quotes reads as the
/// string of the characters between them, taken as they are; only a lone `"`
/// is refused.
pub proof fn law_quoted_text_reads_as_string(s: Seq<char>)
    requires
        s.len() >= 1,
        s[0] == '"',
        s[s.len() - 1] == '"',
    ensures
        s.len() >= 2 ==> js_parse(s) == Some(JsData::String(s.subrange(1, s.len() - 1))),
        s.len() == 1 ==> js_parse(s) is None,
{
    assert(s != null_text());
    assert(s != undefined_text());
    assert(s != bool_text(true));
    assert(s != bool_text(false));
}

/// A value that is written as a word: a boolean, `null` or `undefined`.
pub open spec fn is_word_value(d: JsData) -> bool {
    d is Boolean || d is Null || d is Undefined
}

/// A text without the separator splits into itself alone.
proof fn lemma_split_on_no_sep(t: Seq<char>, sep: char)
    requires
        forall|i: int| 0 <= i < t.len() ==> t[i] != sep,
    ensures
        split_on(t, sep) == seq![t],
    decreases t.len(),
{
    if t.len() == 0 {
        assert(t =~= Seq::<char>::empty());
    } else {
        let init = t.subrange(0, t.len() - 1);
        lemma_split_on_no_sep(init, sep);
        assert(init.push(t[t.len() - 1]) =~= t);
        assert(seq![init].update(0, init.push(t[t.len() - 1])) =~= seq![t]);
    }
}

/// Splitting `p`, the separator and a text `t` without it gives the parts of
/// `p` and then `t`.
proof fn lemma_split_on_append(p: Seq<char>, t: Seq<char>, sep: char)
    requires
        forall|i: int| 0 <= i < t.len() ==> t[i] != sep,
    ensures
        split_on(p + seq![sep] + t, sep) == split_on(p, sep).push(t),
    decreases t.len(),
{
    let whole = p + seq![sep] + t;
    if t.len() == 0 {
        assert(whole.subrange(0, whole.len() - 1) =~= p);
        assert(t =~= Seq::<char>::empty());
    } else {
        let init = t.subrange(0, t.len() - 1);
        lemma_split_on_append(p, init, sep);
        assert(whole.subrange(0, whole.len() - 1) =~= p + seq![sep] + init);
        assert(init.push(t[t.len() - 1]) =~= t);
        let q = split_on(p, sep).push(init);
        assert(q.update(q.len() - 1, q[q.len() - 1].push(whole[whole.len() - 1])) =~= split_on(
            p,
            sep,
        ).push(t));
    }
}

/// The text of a word value holds no comma.
proof fn lemma_word_text_no_comma(d: JsData)
    requires
        is_word_value(d),
    ensures
        forall|i: int| 0 <= i < js_text(d).len() ==> js_text(d)[i] != ',',
{
}

/// The text of a word value reads back as that value.
proof fn lemma_word_read_back(d: JsData)
    requires
        is_word_value(d),
    ensures
        js_parse(js_text(d)) == Some(d),
{
    let t = js_text(d);
    if d is Null {
        assert(t == null_text());
    } else if d is Undefined {
        assert(t == undefined_text());
        assert(t != null_text());
    } else if d == JsData::Boolean(true) {
        assert(t == bool_text(true));
        assert(t != null_text());
        assert(t != undefined_text());
    } else {
        assert(t == bool_text(false));
        assert(t != null_text());
        assert(t != undefined_text());
        assert(t != bool_text(true));
    }
}

/// The elements of a list of word values split apart at the commas.
proof fn lemma_list_text_split(a: Seq<JsData>)
    requires
        a.len() > 0,
        forall|i: int| 0 <= i < a.len() ==> is_word_value(#[trigger] a[i]),
    ensures
        split_on(list_text(a), ',') == Seq::new(a.len(), |i: int| js_text(a[i])),
    decreases a.len(),
{
    lemma_word_text_no_comma(a[a.len() - 1]);
    if a.len() == 1 {
        lemma_split_on_no_sep(js_text(a[0]), ',');
        assert(seq![js_text(a[0])] =~= Seq::new(a.len(), |i: int| js_text(a[i])));
    } else {
        let init = a.subrange(0, a.len() - 1);
        assert forall|i: int| 0 <= i < init.len() implies is_word_value(#[trigger] init[i]) by {
            assert(init[i] == a[i]);
        }
        lemma_list_text_split(init);
        lemma_split_on_append(list_text(init), js_text(a[a.len() - 1]), ',');
        assert(Seq::new(init.len(), |i: int| js_text(init[i])).push(js_text(a[a.len() - 1]))
            =~= Seq::new(a.len(), |i: int| js_text(a[i])));
    }
}

/// What `to_string` writes for a boolean, `null` or `undefined`, or for a
/// non-empty array of them, `from_string` reads back as the same value. (The
/// empty array is written `[]`, which reads back as an array holding one
/// empty `Other`.)
pub proof fn law_word_values_read_back(d: JsData)
    requires
        is_word_value(d) || (d matches JsData::Array(a) && a.len() > 0 && forall|i: int|
            0 <= i < a.len() ==> is_word_value(#[trigger] a[i])),
    ensures
        js_parse(js_text(d)) == Some(d),
{
    if is_word_value(d) {
        lemma_word_read_back(d);
    } else {
        let a = d->Array_0;
        let s = js_text(d);
        let n = s.len();
        assert(s == seq!['['] + list_text(a) + seq![']']);
        assert(s.subrange(1, n - 1) == list_text(a));
        lemma_list_text_split(a);
        let parts = array_parts(s);
        let vals = array_items(s);
        assert(parts == Seq::new(a.len(), |i: int| js_text(a[i])));
        lemma_split_on_parts(s.subrange(1, n - 1), ',');
        assert forall|i: int| 0 <= i < vals.len() implies #[trigger] vals[i] == Some(a[i]) by {
            assert(parts[i] == js_text(a[i]));
            lemma_word_read_back(a[i]);
        }
        assert(Seq::new(vals.len(), |i: int| vals[i]->0) =~= a);
        assert(s[0] == '[');
        assert(!is_ascii_digit(s[0]));
        assert(s != null_text());
        assert(s != undefined_text());
        assert(s != bool_text(true));
        assert(s != bool_text(false));
    }
}

/// The model of the entries of an object.
pub open spec fn entries_view(es: Seq<(String, JsValue)>) -> Seq<(Seq<char>, JsData)> {
    Seq::new(es.len(), |i: int| (es[i].0@, data_of(es[i].1)))
}

pub(crate) proof fn lemma_object_view(o: Vec<(String, JsValue)>)
    ensures
        JsValue::Object(o)@ == JsData::Object(entries_view(o@)),
{
    let d = JsValue::Object(o)@->Object_0;
    assert(d =~= entries_view(o@));
}

pub(crate) proof fn lemma_array_view(a: Vec<JsValue>)
    ensures
        JsValue::Array(a)@ == JsData::Array(Seq::new(a@.len(), |i: int| data_of(a@[i]))),
{
    let d = JsValue::Array(a)@->Array_0;
    assert(d =~= Seq::new(a@.len(), |i: int| data_of(a@[i])));
}

/// The characters `cs[lo..hi]`.
fn copy_range(cs: &Vec<char>, lo: usize, hi: usize) -> (r: Vec<char>)
    requires
        lo <= hi <= cs.len(),
    ensures
        r@ == cs@.subrange(lo as int, hi as int),
{
    let mut r: Vec<char> = Vec::new();
    let mut i: usize = lo;
    while i < hi
        invariant
            lo <= i <= hi <= cs.len(),
            r@ == cs@.subrange(lo as int, i as int),
        decreases hi - i,
    {
        r.push(cs[i]);
        i = i + 1;
        assert(r@ =~= cs@.subrange(lo as int, i as int));
    }
    r
}

/// Whether `cs` and `lit` hold the same characters.
fn same_chars(cs: &Vec<char>, lit: &Vec<char>) -> (r: bool)
    ensures
        r == (cs@ == lit@),
{
    if cs.len() != lit.len() {
        return false;
    }
    let mut i: usize = 0;
    while i < cs.len()
        invariant
            i <= cs.len(),
            cs.len() == lit.len(),
            forall|j: int| 0 <= j < i ==> cs@[j] == lit@[j],
        decreases cs.len() - i,
    {
        if cs[i] != lit[i] {
            return false;
        }
        i = i + 1;
    }
    assert(cs@ =~= lit@);
    true
}

/// The characters of `null`.
fn null_chars() -> (r: Vec<char>)
    ensures
        r@ == null_text(),
{
    let mut r: Vec<char> = Vec::new();
    push_js(&JsValue::Null, &mut r);
    r
}

/// The characters of `undefined`.
fn undefined_chars() -> (r: Vec<char>)
    ensures
        r@ == undefined_text(),
{
    let mut r: Vec<char> = Vec::new();
    push_js(&JsValue::Undefined, &mut r);
    r
}

/// The characters of `true` or `false`.
fn bool_chars(b: bool) -> (r: Vec<char>)
    ensures
        r@ == bool_text(b),
{
    let mut r: Vec<char> = Vec::new();
    push_bool(&mut r, b);
    r
}

/// Splits `cs` at each `sep`, as `str::split` does.
fn split_chars(cs: &Vec<char>, sep: char) -> (r: Vec<Vec<char>>)
    ensures
        r@.len() == split_on(cs@, sep).len(),
        forall|j: int| 0 <= j < r@.len() ==> #[trigger] r@[j]@ == split_on(cs@, sep)[j],
{
    let mut parts: Vec<Vec<char>> = Vec::new();
    let mut cur: Vec<char> = Vec::new();
    let mut i: usize = 0;
    while i < cs.len()
        invariant
            i <= cs.len(),
            split_on(cs@.subrange(0, i as int), sep).len() == parts@.len() + 1,
            forall|j: int|
                0 <= j < parts@.len() ==> #[trigger] parts@[j]@ == split_on(
                    cs@.subrange(0, i as int),
                    sep,
                )[j],
            cur@ == split_on(cs@.subrange(0, i as int), sep)[parts@.len() as int],
        decreases cs.len() - i,
    {
        let c = cs[i];
        let ghost before = cs@.subrange(0, i as int);
        assert(cs@.subrange(0, i + 1).subrange(0, i as int) == before);
        assert(cs@.subrange(0, i + 1)[i as int] == c);
        if c == sep {
            parts.push(cur);
            cur = Vec::new();
        } else {
            cur.push(c);
        }
        i = i + 1;
    }
    assert(cs@.subrange(0, cs.len() as int) == cs@);
    parts.push(cur);
    parts
}

/// The index of the first `c` in `cs`.
fn find_char(cs: &Vec<char>, c: char) -> (r: Option<usize>)
    ensures
        r matches Some(k) ==> first_index(cs@, c) == Some(k as int),
        r is None ==> first_index(cs@, c) is None,
{
    let mut i: usize = 0;
    while i < cs.len()
        invariant
            i <= cs.len(),
            forall|j: int| 0 <= j < i ==> cs@[j] != c,
        decreases cs.len() - i,
    {
        if cs[i] == c {
            proof {
                lemma_first_index(cs@, c);
                match first_index(cs@, c) {
                    Some(k) => {
                        if k < i {
                            assert(cs@[k] != c);
                        } else if k > i {
                            assert(cs@[i as int] != c);
                        }
                    },
                    None => {
                        assert(cs@[i as int] != c);
                    },
                }
            }
            return Some(i);
        }
        i = i + 1;
    }
    proof {
        lemma_first_index(cs@, c);
        if first_index(cs@, c) is Some {
            assert(cs@[first_index(cs@, c)->0] != c);
        }
    }
    None
}

/// Sets key `k` of the entries `es` to `v`, replacing the entry of that key
/// where there is one.
pub(crate) fn insert_entry(es: &mut Vec<(String, JsValue)>, k: String, v: JsValue)
    requires
        unique_keys(entries_view(old(es)@)),
    ensures
        entries_view(final(es)@) == object_insert(entries_view(old(es)@), k@, v@),
        unique_keys(entries_view(final(es)@)),
{
    let ghost old_view = entries_view(es@);
    let mut i: usize = 0;
    while i < es.len()
        invariant
            i <= es.len(),
            es@ == old(es)@,
            old_view == entries_view(es@),
            unique_keys(old_view),
            forall|j: int| 0 <= j < i ==> es@[j].0@ != k@,
        decreases es.len() - i,
    {
        if es[i].0 == k {
            proof {
                assert(old_view[i as int].0 == k@);
                assert(has_key(old_view, k@));
                let c = choose|c: int| 0 <= c < old_view.len() && old_view[c].0 == k@;
                if c < i {
                    assert(old_view[c].0 != old_view[i as int].0);
                } else if c > i {
                    assert(old_view[i as int].0 != old_view[c].0);
                }
            }
            let ghost vd = v@;
            es.set(i, (k, v));
            assert(entries_view(es@) =~= old_view.update(i as int, (k@, vd)));
            assert forall|a: int, b: int|
                0 <= a < b < entries_view(es@).len() implies entries_view(es@)[a].0
                != entries_view(es@)[b].0 by {
                assert(old_view[a].0 != old_view[b].0);
            }
            return ;
        }
        i = i + 1;
    }
    proof {
        assert(!has_key(old_view, k@));
    }
    let ghost vd = v@;
    let ghost kv = k@;
    es.push((k, v));
    assert(entries_view(es@) =~= old_view.push((kv, vd)));
    assert forall|a: int, b: int|
        0 <= a < b < entries_view(es@).len() implies entries_view(es@)[a].0 != entries_view(
        es@,
    )[b].0 by {
        if b == old_view.len() {
            assert(old_view[a].0 != kv);
        } else {
            assert(old_view[a].0 != old_view[b].0);
        }
    }
}

/// Reads the value that `cs` writes; see `js_parse`.
fn parse_chars(cs: &Vec<char>) -> (r: JsValue)
    requires
        js_parse(cs@) is Some,
    ensures
        r@ == js_parse(cs@)->0,
        cs@.len() > 0 && '0' <= cs@[0] && cs@[0] <= '9' ==> bigfloat_text(cs@) is Some,
    decreases cs@.len(),
{
    let n = cs.len();
    if n == 0 {
        return JsValue::Other(String::new());
    }
    if '0' <= cs[0] && cs[0] <= '9' {
        let text = string_from_chars(cs);
        assert(bigfloat_readable(text@));
        return match parse_bigfloat(text.as_str()) {
            Some(t) => JsValue::Number(JsNumber { text: t }),
            None => {
                let mut out: Vec<char> = Vec::new();
                push_str(&mut out, "unable to parse number: ");
                push_str(&mut out, text.as_str());
                JsValue::Other(string_from_chars(&out))
            },
        };
    }
    if same_chars(cs, &null_chars()) {
        return JsValue::Null;
    }
    if same_chars(cs, &undefined_chars()) {
        return JsValue::Undefined;
    }
    if same_chars(cs, &bool_chars(true)) {
        return JsValue::Boolean(true);
    }
    if same_chars(cs, &bool_chars(false)) {
        return JsValue::Boolean(false);
    }
    if cs[0] == '"' && cs[n - 1] == '"' {
        let inner = copy_range(cs, 1, n - 1);
        return JsValue::String(string_from_chars(&inner));
    }
    if cs[0] == '[' && cs[n - 1] == ']' {
        let inner = copy_range(cs, 1, n - 1);
        let parts = split_chars(&inner, ',');
        proof {
            lemma_split_on_parts(inner@, ',');
        }
        let ghost sparts = array_parts(cs@);
        let ghost vals = array_items(cs@);
        assert(forall|i: int| 0 <= i < vals.len() ==> #[trigger] vals[i] is Some);
        let mut items: Vec<JsValue> = Vec::new();
        let mut i: usize = 0;
        while i < parts.len()
            invariant
                i <= parts.len(),
                n == cs@.len(),
                n >= 2,
                parts@.len() == sparts.len(),
                vals.len() == sparts.len(),
                forall|j: int| 0 <= j < parts@.len() ==> #[trigger] parts@[j]@ == sparts[j],
                forall|j: int| 0 <= j < sparts.len() ==> #[trigger] sparts[j].len() <= n - 2,
                forall|j: int| 0 <= j < vals.len() ==> #[trigger] vals[j] is Some,
                vals == array_items(cs@),
                sparts == array_parts(cs@),
                items@.len() == i,
                forall|j: int| 0 <= j < i ==> #[trigger] data_of(items@[j]) == vals[j]->0,
            decreases parts.len() - i,
        {
            assert(vals[i as int] is Some);
            let item = parse_chars(&parts[i]);
            items.push(item);
            i = i + 1;
        }
        proof {
            lemma_array_view(items);
            assert(Seq::new(items@.len(), |i: int| data_of(items@[i])) =~= Seq::new(
                vals.len(),
                |i: int| vals[i]->0,
            ));
        }
        return JsValue::Array(items);
    }
    if cs[0] == '{' && cs[n - 1] == '}' {
        let inner = copy_range(cs, 1, n - 1);
        let parts = split_chars(&inner, ',');
        proof {
            lemma_split_on_parts(inner@, ',');
        }
        let ghost sparts = array_parts(cs@);
        let ghost vals = object_items(cs@);
        assert(forall|i: int| 0 <= i < vals.len() ==> #[trigger] vals[i] is Some);
        let ghost opts = Seq::new(vals.len(), |i: int| vals[i]->0);
        let mut entries: Vec<(String, JsValue)> = Vec::new();
        let mut i: usize = 0;
        while i < parts.len()
            invariant
                i <= parts.len(),
                n == cs@.len(),
                n >= 2,
                parts@.len() == sparts.len(),
                vals.len() == sparts.len(),
                opts.len() == vals.len(),
                forall|j: int| 0 <= j < opts.len() ==> #[trigger] opts[j] == vals[j]->0,
                forall|j: int| 0 <= j < parts@.len() ==> #[trigger] parts@[j]@ == sparts[j],
                forall|j: int| 0 <= j < sparts.len() ==> #[trigger] sparts[j].len() <= n - 2,
                forall|j: int| 0 <= j < vals.len() ==> #[trigger] vals[j] is Some,
                vals == object_items(cs@),
                sparts == array_parts(cs@),
                unique_keys(entries_view(entries@)),
                entries_view(entries@) == object_entries(opts.subrange(0, i as int)),
            decreases parts.len() - i,
        {
            let part = &parts[i];
            assert(opts.subrange(0, i + 1).subrange(0, i as int) == opts.subrange(0, i as int));
            assert(opts.subrange(0, i + 1)[i as int] == opts[i as int]);
            proof {
                lemma_first_index(part@, ':');
            }
            match find_char(part, ':') {
                Some(k) => {
                    let key = copy_range(part, 0, k);
                    let value_text = copy_range(part, k + 1, part.len());
                    assert(vals[i as int] is Some);
                    let value = parse_chars(&value_text);
                    let key_string = string_from_chars(&key);
                    insert_entry(&mut entries, key_string, value);
                },
                None => {},
            }
            i = i + 1;
        }
        assert(opts.subrange(0, parts.len() as int) == opts);
        proof {
            lemma_object_view(entries);
        }
        return JsValue::Object(entries);
    }
    JsValue::Other(string_from_chars(cs))
}

/// Whether `parse_chars` can read `cs`.
fn readable_chars(cs: &Vec<char>) -> (r: bool)
    ensures
        r == js_parse(cs@) is Some,
    decreases cs@.len(),
{
    let n = cs.len();
    if n == 0 {
        return true;
    }
    if '0' <= cs[0] && cs[0] <= '9' {
        return bigfloat_readable_chars(cs);
    }
    if same_chars(cs, &null_chars()) || same_chars(cs, &undefined_chars()) || same_chars(
        cs,
        &bool_chars(true),
    ) || same_chars(cs, &bool_chars(false)) {
        return true;
    }
    if cs[0] == '"' && cs[n - 1] == '"' {
        return n >= 2;
    }
    let is_array = cs[0] == '[' && cs[n - 1] == ']';
    let is_object = cs[0] == '{' && cs[n - 1] == '}';
    if !is_array && !is_object {
        return true;
    }
    if n < 2 {
        return false;
    }
    let inner = copy_range(cs, 1, n - 1);
    let parts = split_chars(&inner, ',');
    proof {
        lemma_split_on_parts(inner@, ',');
    }
    let ghost sparts = array_parts(cs@);
    let ghost avals = array_items(cs@);
    let ghost ovals = object_items(cs@);
    assert(is_array ==> (js_parse(cs@) is Some <==> forall|j: int|
        0 <= j < avals.len() ==> #[trigger] avals[j] is Some));
    assert(is_object ==> (js_parse(cs@) is Some <==> forall|j: int|
        0 <= j < ovals.len() ==> #[trigger] ovals[j] is Some));
    let mut i: usize = 0;
    while i < parts.len()
        invariant
            i <= parts.len(),
            n == cs@.len(),
            n >= 2,
            is_array || is_object,
            !(is_array && is_object),
            is_array ==> (js_parse(cs@) is Some <==> forall|j: int|
                0 <= j < avals.len() ==> #[trigger] avals[j] is Some),
            is_object ==> (js_parse(cs@) is Some <==> forall|j: int|
                0 <= j < ovals.len() ==> #[trigger] ovals[j] is Some),
            parts@.len() == sparts.len(),
            avals.len() == sparts.len(),
            ovals.len() == sparts.len(),
            forall|j: int| 0 <= j < parts@.len() ==> #[trigger] parts@[j]@ == sparts[j],
            forall|j: int| 0 <= j < sparts.len() ==> #[trigger] sparts[j].len() <= n - 2,
            avals == array_items(cs@),
            ovals == object_items(cs@),
            sparts == array_parts(cs@),
            is_array ==> forall|j: int| 0 <= j < i ==> #[trigger] avals[j] is Some,
            is_object ==> forall|j: int| 0 <= j < i ==> #[trigger] ovals[j] is Some,
        decreases parts.len() - i,
    {
        let part = &parts[i];
        if is_array {
            if !readable_chars(part) {
                assert(!(avals[i as int] is Some));
                return false;
            }
        } else {
            proof {
                lemma_first_index(part@, ':');
            }
            match find_char(part, ':') {
                Some(k) => {
                    let value_text = copy_range(part, k + 1, part.len());
                    if !readable_chars(&value_text) {
                        assert(!(ovals[i as int] is Some));
                        return false;
                    }
                },
                None => {},
            }
        }
        i = i + 1;
    }
    true
}

impl JsValue {
    /// Reads a value from the text that a browser engine reports for it (see
    /// `js_parse`).
    pub fn from_string(string: &str) -> (r: JsValue)
        requires
            js_parse(string@) is Some,
        ensures
            r@ == js_parse(string@)->0,
            keys_unique(r@),
            string@.len() > 0 && '0' <= string@[0] && string@[0] <= '9' ==> (r@ is Number
                && bigfloat_text(string@) == Some(r@->Number_0)),
            string@.len() >= 2 && string@[0] == '"' && string@[string@.len() - 1] == '"' ==> r@
                == JsData::String(string@.subrange(1, string@.len() - 1)),
    {
        proof {
            law_read_values_have_unique_keys(string@);
        }
        let cs = chars_of(string);
        let r = parse_chars(&cs);
        proof {
            if string@.len() > 0 && '0' <= string@[0] && string@[0] <= '9' {
                law_digit_text_reads_as_number(string@, bigfloat_text(string@)->0);
            }
            if string@.len() >= 2 && string@[0] == '"' && string@[string@.len() - 1] == '"' {
                law_quoted_text_reads_as_string(string@);
            }
        }
        r
    }

    /// Like `from_string`, but `None` where `from_string` cannot read the text.
    pub fn try_from_string(string: &str) -> (r: Option<JsValue>)
        ensures
            r matches Some(v) ==> js_parse(string@) == Some(v@),
            r is None ==> js_parse(string@) is None,
            r matches Some(v) ==> keys_unique(v@),
            string@.len() > 0 && '0' <= string@[0] && string@[0] <= '9' && bigfloat_readable(
                string@,
            ) ==> (r matches Some(v) && v@ is Number && bigfloat_text(string@) == Some(
                v@->Number_0,
            )),
            string@.len() >= 2 && string@[0] == '"' && string@[string@.len() - 1] == '"' ==> (r
                matches Some(v) && v@ == JsData::String(string@.subrange(1, string@.len() - 1))),
    {
        proof {
            law_read_values_have_unique_keys(string@);
        }
        let cs = chars_of(string);
        if readable_chars(&cs) {
            let v = parse_chars(&cs);
            proof {
                if string@.len() > 0 && '0' <= string@[0] && string@[0] <= '9' {
                    law_digit_text_reads_as_number(string@, bigfloat_text(string@)->0);
                }
                if string@.len() >= 2 && string@[0] == '"' && string@[string@.len() - 1] == '"' {
                    law_quoted_text_reads_as_string(string@);
                }
            }
            Some(v)
        } else {
            proof {
                if string@.len() >= 2 && string@[0] == '"' && string@[string@.len() - 1] == '"' {
                    law_quoted_text_reads_as_string(string@);
                }
            }
            None
        }
    }
}

/// A copy of `v` with the same model.
fn copy_value(v: &JsValue) -> (r: JsValue)
    ensures
        r@ == v@,
    decreases v,
{
    match v {
        JsValue::Array(a) => {
            let mut items: Vec<JsValue> = Vec::new();
            let mut i: usize = 0;
            while i < a.len()
                invariant
                    i <= a.len(),
                    *v == JsValue::Array(*a),
                    items@.len() == i,
                    forall|j: int| 0 <= j < i ==> #[trigger] data_of(items@[j]) == data_of(a@[j]),
                decreases a.len() - i,
            {
                proof {
                    lemma_array_element_decreases(*v, i as int);
                }
                items.push(copy_value(&a[i]));
                i = i + 1;
            }
            proof {
                lemma_array_view(items);
                lemma_array_view(*a);
                assert(Seq::new(items@.len(), |i: int| data_of(items@[i])) =~= Seq::new(
                    a@.len(),
                    |i: int| data_of(a@[i]),
                ));
            }
            JsValue::Array(items)
        },
        JsValue::Boolean(b) => JsValue::Boolean(*b),
        JsValue::Null => JsValue::Null,
        JsValue::Number(n) => JsValue::Number(JsNumber { text: n.text.clone() }),
        JsValue::Object(o) => {
            let mut entries: Vec<(String, JsValue)> = Vec::new();
            let mut i: usize = 0;
            while i < o.len()
                invariant
                    i <= o.len(),
                    *v == JsValue::Object(*o),
                    entries@.len() == i,
                    forall|j: int|
                        0 <= j < i ==> (#[trigger] entries@[j]).0@ == o@[j].0@ && data_of(
                            entries@[j].1,
                        ) == data_of(o@[j].1),
                decreases o.len() - i,
            {
                proof {
                    lemma_object_value_decreases(*v, i as int);
                }
                let value = copy_value(&o[i].1);
                entries.push((o[i].0.clone(), value));
                i = i + 1;
            }
            proof {
                lemma_object_view(entries);
                lemma_object_view(*o);
                assert(entries_view(entries@) =~= entries_view(o@));
            }
            JsValue::Object(entries)
        },
        JsValue::String(s) => JsValue::String(s.clone()),
        JsValue::Undefined => JsValue::Undefined,
        JsValue::Other(s) => JsValue::Other(s.clone()),
    }
}

impl Clone for JsValue {
    fn clone(&self) -> (r: JsValue)
        ensures
            r@ == self@,
    {
        copy_value(self)
    }
}

impl JsValue {
    /// A copy of this value.
    pub fn duplicate(&self) -> (r: JsValue)
        ensures
            r@ == self@,
    {
        copy_value(self)
    }
}

} // verus!
