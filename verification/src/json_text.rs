//! Reading JavaScript values from JSON text, with the `json` crate.

use vstd::prelude::*;
use crate::javascript::{
    JsData, JsNumber, JsValue, bigfloat_text, data_of, entries_view, object_entries,
    unique_keys, object_insert, is_ascii_digit, insert_entry, lemma_array_view, lemma_object_view,
    keys_unique, lemma_object_entries_keys, first_index, lemma_first_index, has_key,
    lemma_object_entries_content,
};
use crate::number_text::{
    is_exponent_marker, json_readable, json_readable_chars, lemma_short_exponent_no_overflow, pow10,
};
use crate::text::{
    chars_of, string_from_chars, push_str, decimal_digits, push_decimal, lemma_decimal_digits_first,
    digit_char,
};

verus! {

/// A JSON document as the `json` crate reads it.
pub enum JsonTree {
    Null,
    String(String),
    /// Positive, mantissa and exponent: the number is `±mantissa × 10^exponent`.
    Number(bool, u64, i16),
    Boolean(bool),
    Object(Vec<(String, JsonTree)>),
    Array(Vec<JsonTree>),
}

/// The mathematical model of a `JsonTree`.
pub enum JsonData {
    Null,
    String(Seq<char>),
    Number(bool, u64, i16),
    Boolean(bool),
    Object(Seq<(Seq<char>, JsonData)>),
    Array(Seq<JsonData>),
}

/// The model of a JSON document.
pub open spec fn json_data_of(t: JsonTree) -> JsonData
    decreases t,
{
    match t {
        JsonTree::Null => JsonData::Null,
        JsonTree::String(s) => JsonData::String(s@),
        JsonTree::Number(p, m, e) => JsonData::Number(p, m, e),
        JsonTree::Boolean(b) => JsonData::Boolean(b),
        JsonTree::Object(o) => JsonData::Object(
            Seq::new(
                o@.len(),
                |i: int|
                    if 0 <= i < o@.len() {
                        (o@[i].0@, json_data_of(o@[i].1))
                    } else {
                        (Seq::empty(), JsonData::Null)
                    },
            ),
        ),
        JsonTree::Array(a) => JsonData::Array(
            Seq::new(
                a@.len(),
                |i: int|
                    if 0 <= i < a@.len() {
                        json_data_of(a@[i])
                    } else {
                        JsonData::Null
                    },
            ),
        ),
    }
}

impl View for JsonTree {
    type V = JsonData;

    open spec fn view(&self) -> JsonData {
        json_data_of(*self)
    }
}

/// The document that `json::parse` reads from `text`; `None` where it
/// reports an error.
pub uninterp spec fn json_document(text: Seq<char>) -> Option<JsonData>;

/// The value type of the `json` crate, carried through unread.
#[verifier::external_type_specification]
#[verifier::external_body]
pub struct ExJsonValue(json::JsonValue);

/// Converts a value of the `json` crate into a `JsonTree`, one node for one
/// node.
#[verifier::external_body]
fn tree_of(value: json::JsonValue) -> JsonTree {
    match value {
        json::JsonValue::Null => JsonTree::Null,
        json::JsonValue::Short(s) => JsonTree::String(s.as_str().to_string()),
        json::JsonValue::String(s) => JsonTree::String(s),
        json::JsonValue::Number(n) => { let (p, m, e) = n.as_parts(); JsonTree::Number(p, m, e) },
        json::JsonValue::Boolean(b) => JsonTree::Boolean(b),
        json::JsonValue::Object(o) => JsonTree::Object(
            o.iter().map(|(k, v)| (k.to_string(), tree_of(v.clone()))).collect(),
        ),
        json::JsonValue::Array(a) => JsonTree::Array(a.into_iter().map(tree_of).collect()),
    }
}

/// `json::parse`: the document that `text` holds, or `None` where the crate
/// reports an error. The result is the named `json_document` of the text. On
/// a text that `json_readable` leaves out the parser overflows the exponent
/// of a number and panics, so such texts are left out.
#[verifier::external_body]
fn parse_json(text: &str) -> (r: Option<JsonTree>)
    requires
        json_readable(text@),
    ensures
        r matches Some(t) ==> json_document(text@) == Some(t@),
        r is None ==> json_document(text@) is None,
{
    json::parse(text).ok().map(tree_of)
}


/// The decimal text of an integer.
pub open spec fn integer_text(e: int) -> Seq<char> {
    if e < 0 {
        seq!['-'] + decimal_digits((-e) as nat)
    } else {
        decimal_digits(e as nat)
    }
}

/// The text `[-]mantissa e exponent` of the number `±mantissa × 10^exponent`.
pub open spec fn json_number_text(positive: bool, mantissa: u64, exponent: i16) -> Seq<char> {
    (if positive {
        seq![]
    } else {
        seq!['-']
    }) + decimal_digits(mantissa as nat) + seq!['e'] + integer_text(exponent as int)
}

/// The value of a string of decimal digits.
pub open spec fn digits_value(ds: Seq<char>) -> int
    decreases ds.len(),
{
    if ds.len() == 0 {
        0
    } else {
        digits_value(ds.drop_last()) * 10 + (ds.last() as int - '0' as int)
    }
}

/// The value of an integer written in decimal, with an optional `-`.
pub open spec fn signed_value(s: Seq<char>) -> int {
    if s.len() > 0 && s[0] == '-' {
        -digits_value(s.skip(1))
    } else {
        digits_value(s)
    }
}

/// The decimal digits of `n` have the value `n`.
proof fn lemma_decimal_digits_value(n: nat)
    ensures
        digits_value(decimal_digits(n)) == n,
    decreases n,
{
    let ds = decimal_digits(n);
    assert(ds.len() > 0);
    assert(digits_value(ds) == digits_value(ds.drop_last()) * 10 + (ds.last() as int - '0' as int));
    assert(('0' as int) == 48);
    if n < 10 {
        assert(ds.drop_last() =~= Seq::<char>::empty());
        assert(ds.last() == digit_char(n));
        assert((digit_char(n) as int) == 48 + n);
    } else {
        lemma_decimal_digits_value(n / 10);
        assert(ds.drop_last() =~= decimal_digits(n / 10));
        assert(ds.last() == digit_char(n % 10));
        assert((digit_char(n % 10) as int) == 48 + n % 10);
        assert(n == (n / 10) * 10 + n % 10) by (nonlinear_arith);
        assert(digits_value(ds.drop_last()) == n / 10);
    }
}

/// The text handed to the number reader for a JSON number with the parts
/// `positive`, `mantissa` and `exponent` writes the number
/// `±mantissa × 10^exponent`: before its first `e` stands the signed
/// mantissa, after it the exponent with its own sign.
pub proof fn law_json_number_text_value(positive: bool, mantissa: u64, exponent: i16)
    ensures
        ({
            let t = json_number_text(positive, mantissa, exponent);
            &&& first_index(t, 'e') is Some
            &&& signed_value(t.subrange(0, first_index(t, 'e')->0)) == (if positive {
                mantissa as int
            } else {
                -(mantissa as int)
            })
            &&& signed_value(t.subrange(first_index(t, 'e')->0 + 1, t.len() as int))
                == exponent as int
        }),
{
    let t = json_number_text(positive, mantissa, exponent);
    let digits = decimal_digits(mantissa as nat);
    let a = (if positive {
        seq![]
    } else {
        seq!['-']
    }) + digits;
    let b = integer_text(exponent as int);
    assert(t =~= a + seq!['e'] + b);
    lemma_decimal_digits_first(mantissa as nat);
    lemma_decimal_digits_value(mantissa as nat);
    lemma_first_index(t, 'e');
    assert(t[a.len() as int] == 'e');
    let k = first_index(t, 'e')->0;
    if k < a.len() {
        if !positive && k == 0 {
            assert(t[k] == '-');
        } else {
            let j = if positive {
                k
            } else {
                k - 1
            };
            assert(t[k] == digits[j]);
        }
    }
    assert(k == a.len());
    assert(t.subrange(0, k) =~= a);
    assert(t.subrange(k + 1, t.len() as int) =~= b);
    if positive {
        assert(a =~= digits);
    } else {
        assert(a.skip(1) =~= digits);
    }
    if exponent < 0 {
        let mag = (-exponent) as nat;
        lemma_decimal_digits_value(mag);
        assert(b.skip(1) =~= decimal_digits(mag));
    } else {
        lemma_decimal_digits_value(exponent as nat);
        lemma_decimal_digits_first(exponent as nat);
    }
}

/// The JavaScript value of a JSON document: strings, booleans, `null`, arrays
/// and objects become the same kind of value, numbers become the number they
/// stand for (as `num_bigfloat` holds it); a later equal key of an object
/// replaces an earlier one.
pub open spec fn json_value(d: JsonData) -> JsData
    decreases d, 1nat,
{
    match d {
        JsonData::Null => JsData::Null,
        JsonData::String(s) => JsData::String(s),
        JsonData::Number(p, m, e) => JsData::Number(bigfloat_text(json_number_text(p, m, e))->0),
        JsonData::Boolean(b) => JsData::Boolean(b),
        JsonData::Object(es) => JsData::Object(object_entries(json_entry_values(es))),
        JsonData::Array(a) => JsData::Array(json_item_values(a)),
    }
}

/// The values of the elements of a JSON array.
pub open spec fn json_item_values(a: Seq<JsonData>) -> Seq<JsData>
    decreases a, 0nat,
{
    Seq::new(
        a.len(),
        |i: int|
            if 0 <= i < a.len() {
                json_value(a[i])
            } else {
                JsData::Null
            },
    )
}

/// The entries of a JSON object with their values, each as an object part.
pub open spec fn json_entry_values(es: Seq<(Seq<char>, JsonData)>) -> Seq<
    Option<(Seq<char>, JsData)>,
>
    decreases es, 0nat,
{
    Seq::new(
        es.len(),
        |i: int|
            if 0 <= i < es.len() {
                Some((es[i].0, json_value(es[i].1)))
            } else {
                None
            },
    )
}

/// What `JsValue::from_json` gives for `text`: the value of the document where
/// `json::parse` reads one, otherwise `Other` holding the text.
pub open spec fn from_json_spec(text: Seq<char>) -> JsData {
    match json_document(text) {
        Some(d) => json_value(d),
        None => JsData::Other(text),
    }
}


/// Every object of a value read from JSON holds each key once, at any depth.
pub proof fn law_json_values_have_unique_keys(d: JsonData)
    ensures
        keys_unique(json_value(d)),
    decreases d,
{
    match d {
        JsonData::Array(a) => {
            let items = json_item_values(a);
            assert forall|i: int| 0 <= i < items.len() implies keys_unique(#[trigger] items[i]) by {
                law_json_values_have_unique_keys(a[i]);
            }
        },
        JsonData::Object(es) => {
            let parts = json_entry_values(es);
            assert forall|i: int|
                0 <= i < parts.len() && (#[trigger] parts[i]) is Some implies keys_unique(
                (parts[i]->0).1,
            ) by {
                law_json_values_have_unique_keys(es[i].1);
            }
            lemma_object_entries_keys(parts);
        },
        _ => {},
    }
}

/// A number below `10^k` has at most `k` decimal digits.
proof fn lemma_decimal_digits_len(n: nat, k: nat)
    requires
        1 <= k,
        n < pow10(k),
    ensures
        decimal_digits(n).len() <= k,
    decreases k,
{
    if n >= 10 {
        if k == 1 {
            assert(pow10(1) == 10 * pow10(0));
        } else {
            let p = pow10((k - 1) as nat);
            assert(n / 10 < p) by (nonlinear_arith)
                requires
                    n < 10 * p,
            ;
            lemma_decimal_digits_len(n / 10, (k - 1) as nat);
        }
    }
}

/// A JSON object reads as an object whose keys are exactly the keys of the
/// JSON object, each once, whatever its value (`null` included), each with the
/// value read from the last JSON entry with that key.
pub proof fn law_json_object_entries(es: Seq<(Seq<char>, JsonData)>)
    ensures
        json_value(JsonData::Object(es)) is Object,
        unique_keys(json_value(JsonData::Object(es))->Object_0),
        forall|i: int|
            0 <= i < es.len() ==> has_key(json_value(JsonData::Object(es))->Object_0, (#[trigger] es[i]).0),
        forall|j: int|
            0 <= j < json_value(JsonData::Object(es))->Object_0.len() ==> exists|i: int|
                0 <= i < es.len() && (#[trigger] es[i]).0 == (#[trigger] json_value(
                    JsonData::Object(es),
                )->Object_0[j]).0 && json_value(JsonData::Object(es))->Object_0[j].1 == json_value(
                    es[i].1,
                ) && forall|i2: int|
                    i < i2 < es.len() ==> (#[trigger] es[i2]).0 != json_value(
                        JsonData::Object(es),
                    )->Object_0[j].0,
{
    let parts = json_entry_values(es);
    let out = json_value(JsonData::Object(es))->Object_0;
    assert(out == object_entries(parts));
    lemma_object_entries_content(parts);
    assert forall|i: int| 0 <= i < es.len() implies has_key(out, (#[trigger] es[i]).0) by {
        assert(parts[i] == Some((es[i].0, json_value(es[i].1))));
    }
    assert forall|j: int| 0 <= j < out.len() implies exists|i: int|
        0 <= i < es.len() && (#[trigger] es[i]).0 == (#[trigger] out[j]).0 && out[j].1 == json_value(es[i].1)
            && forall|i2: int| i < i2 < es.len() ==> (#[trigger] es[i2]).0 != out[j].0 by {
        let i = choose|i: int|
            0 <= i < parts.len() && #[trigger] parts[i] == Some((#[trigger] out[j])) && forall|
                i2: int,
            |
                i < i2 < parts.len() && (#[trigger] parts[i2]) is Some ==> (parts[i2]->0).0
                    != out[j].0;
        assert(parts[i] == Some((es[i].0, json_value(es[i].1))));
        assert forall|i2: int| i < i2 < es.len() implies (#[trigger] es[i2]).0 != out[j].0 by {
            assert(parts[i2] == Some((es[i2].0, json_value(es[i2].1))));
        }
    }
}

/// The number `±mantissa × 10^exponent`.
fn number_from_parts(positive: bool, mantissa: u64, exponent: i16) -> (r: JsNumber)
    ensures
        bigfloat_text(json_number_text(positive, mantissa, exponent)) == Some(r@),
{
    let mut out: Vec<char> = Vec::new();
    if !positive {
        out.push('-');
    }
    push_decimal(&mut out, mantissa);
    out.push('e');
    if exponent < 0 {
        out.push('-');
        let magnitude: u64 = (0i64 - (exponent as i64)) as u64;
        push_decimal(&mut out, magnitude);
    } else {
        push_decimal(&mut out, exponent as u64);
    }
    assert(out@ =~= json_number_text(positive, mantissa, exponent));
    let text = string_from_chars(&out);
    assert(decimal_digits(mantissa as nat).len() > 0 && is_ascii_digit(decimal_digits(mantissa as nat)[0])) by {
        lemma_decimal_digits_first(mantissa as nat);
    }
    proof {
        let digits = decimal_digits(mantissa as nat);
        let a = (if positive {
            seq![]
        } else {
            seq!['-']
        }) + digits;
        let b = integer_text(exponent as int);
        lemma_decimal_digits_first(mantissa as nat);
        assert(pow10(20) == 100000000000000000000nat) by {
            reveal_with_fuel(pow10, 21);
        }
        lemma_decimal_digits_len(mantissa as nat, 20);
        let mag: nat = if exponent < 0 {
            (-exponent) as nat
        } else {
            exponent as nat
        };
        assert(pow10(5) == 100000nat) by {
            reveal_with_fuel(pow10, 6);
        }
        lemma_decimal_digits_len(mag, 5);
        assert forall|i: int| 0 <= i < a.len() implies !is_exponent_marker(#[trigger] a[i]) by {
            if !positive && i == 0 {
                assert(a[i] == '-');
            } else {
                let j = if positive {
                    i
                } else {
                    i - 1
                };
                assert(a[i] == digits[j]);
                assert(is_ascii_digit(digits[j]));
            }
        }
        assert forall|i: int| 0 <= i < b.len() implies !is_exponent_marker(#[trigger] b[i]) by {
            let mdigits = decimal_digits(mag);
            lemma_decimal_digits_first(mag);
            if exponent < 0 {
                assert(b == seq!['-'] + mdigits);
                if i > 0 {
                    assert(b[i] == mdigits[i - 1]);
                    assert(is_ascii_digit(mdigits[i - 1]));
                }
            } else {
                assert(b == mdigits);
                assert(is_ascii_digit(mdigits[i]));
            }
        }
        assert(json_number_text(positive, mantissa, exponent) =~= a + seq!['e'] + b);
        lemma_short_exponent_no_overflow(a, b);
    }
    JsNumber::parse(text.as_str()).unwrap()
}


proof fn lemma_tree_array_element_decreases(t: JsonTree, i: int)
    requires
        t is Array,
        0 <= i < t->Array_0@.len(),
    ensures
        decreases_to!(t => t->Array_0@[i]),
{
    let a = t->Array_0;
    assert(decreases_to!(t => a));
    assert(decreases_to!(a => a@));
    assert(decreases_to!(a@ => a@[i]));
}

proof fn lemma_tree_object_value_decreases(t: JsonTree, i: int)
    requires
        t is Object,
        0 <= i < t->Object_0@.len(),
    ensures
        decreases_to!(t => t->Object_0@[i].1),
{
    let o = t->Object_0;
    assert(decreases_to!(t => o));
    assert(decreases_to!(o => o@));
    assert(decreases_to!(o@ => o@[i]));
    assert(decreases_to!(o@[i] => o@[i].1));
}

/// The JavaScript value of a JSON document; see `json_value`.
pub fn value_of_tree(t: &JsonTree) -> (r: JsValue)
    ensures
        r@ == json_value(t@),
    decreases t,
{
    match t {
        JsonTree::Null => JsValue::Null,
        JsonTree::String(s) => JsValue::String(s.clone()),
        JsonTree::Number(p, m, e) => JsValue::Number(number_from_parts(*p, *m, *e)),
        JsonTree::Boolean(b) => JsValue::Boolean(*b),
        JsonTree::Array(a) => {
            let ghost d = match t@ {
                JsonData::Array(x) => x,
                _ => Seq::empty(),
            };
            assert(t@ == JsonData::Array(d));
            let mut items: Vec<JsValue> = Vec::new();
            let mut i: usize = 0;
            while i < a.len()
                invariant
                    i <= a.len(),
                    *t == JsonTree::Array(*a),
                    d.len() == a@.len(),
                    forall|j: int| 0 <= j < a@.len() ==> #[trigger] d[j] == json_data_of(a@[j]),
                    items@.len() == i,
                    forall|j: int| 0 <= j < i ==> #[trigger] data_of(items@[j]) == json_value(d[j]),
                decreases a.len() - i,
            {
                proof {
                    lemma_tree_array_element_decreases(*t, i as int);
                }
                let item = value_of_tree(&a[i]);
                items.push(item);
                i = i + 1;
            }
            proof {
                lemma_array_view(items);
            }
            let ghost iv = Seq::new(items@.len(), |i: int| data_of(items@[i]));
            let r = JsValue::Array(items);
            assert(iv =~= json_item_values(d));
            r
        },
        JsonTree::Object(o) => {
            let ghost d = match t@ {
                JsonData::Object(x) => x,
                _ => Seq::empty(),
            };
            assert(t@ == JsonData::Object(d));
            let ghost opts = json_entry_values(d);
            let mut entries: Vec<(String, JsValue)> = Vec::new();
            let mut i: usize = 0;
            while i < o.len()
                invariant
                    i <= o.len(),
                    *t == JsonTree::Object(*o),
                    d.len() == o@.len(),
                    opts.len() == d.len(),
                    forall|j: int|
                        0 <= j < o@.len() ==> #[trigger] d[j] == (o@[j].0@, json_data_of(o@[j].1)),
                    forall|j: int|
                        0 <= j < d.len() ==> #[trigger] opts[j] == Some((d[j].0, json_value(d[j].1))),
                    unique_keys(entries_view(entries@)),
                    entries_view(entries@) == object_entries(opts.subrange(0, i as int)),
                decreases o.len() - i,
            {
                assert(opts.subrange(0, i + 1).subrange(0, i as int) == opts.subrange(0, i as int));
                assert(opts.subrange(0, i + 1)[i as int] == opts[i as int]);
                proof {
                    lemma_tree_object_value_decreases(*t, i as int);
                }
                let value = value_of_tree(&o[i].1);
                insert_entry(&mut entries, o[i].0.clone(), value);
                i = i + 1;
            }
            assert(opts.subrange(0, o.len() as int) == opts);
            proof {
                lemma_object_view(entries);
            }
            let r = JsValue::Object(entries);
            r
        },
    }
}

impl JsValue {
    /// Reads a value from JSON text with `json::parse`; where the text is no
    /// JSON, the value is `Other` holding the text. A text on which the
    /// parser overflows the exponent of a number (see `json_readable`) is left
    /// out (see `try_from_json`).
    pub fn from_json(string: &str) -> (r: JsValue)
        requires
            json_readable(string@),
        ensures
            r@ == from_json_spec(string@),
            keys_unique(r@),
    {
        proof {
            if let Some(d) = json_document(string@) {
                law_json_values_have_unique_keys(d);
            }
        }
        match parse_json(string) {
            None => JsValue::Other(string.to_owned()),
            Some(t) => value_of_tree(&t),
        }
    }

    /// Like `from_json`, but `None` where `from_json` leaves the text out.
    pub fn try_from_json(string: &str) -> (r: Option<JsValue>)
        ensures
            r is Some <==> json_readable(string@),
            r matches Some(v) ==> v@ == from_json_spec(string@) && keys_unique(v@),
    {
        let cs = chars_of(string);
        if json_readable_chars(&cs) {
            Some(JsValue::from_json(string))
        } else {
            None
        }
    }
}

} // verus!
