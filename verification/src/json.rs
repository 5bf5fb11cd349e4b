//! A small JSON document model together with a verified writer and parser.
//!
//! Values are modelled without floating point: a number is kept as its
//! literal text, which lets every JSON document round-trip exactly.

use vstd::prelude::*;
use vstd::string::StrSliceExecFns;
use crate::trusted::{char_from_u32, push_char};

verus! {

/// A JSON document: the structured payloads and extension values of an
/// event are trees of this type.  A number is carried as its literal
/// text (see [`json_num_wf`] for the accepted grammar), so no precision
/// is ever lost.
#[derive(Debug, PartialEq)]
pub enum JsonValue {
    Null,
    Bool(bool),
    /// A number, as its literal text, e.g. `-12.5e3`.
    Number(String),
    /// A string.
    Text(String),
    Array(Vec<JsonValue>),
    /// An object: the member list keeps insertion order.
    Object(Vec<(String, JsonValue)>),
}

/// The mathematical shape of a [`JsonValue`]: the same tree over
/// sequences of characters.
#[verifier::ext_equal]
pub enum JsonView {
    Null,
    Bool(bool),
    Number(Seq<char>),
    Text(Seq<char>),
    Array(Seq<JsonView>),
    Object(Seq<(Seq<char>, JsonView)>),
}

impl View for JsonValue {
    type V = JsonView;

    open spec fn view(&self) -> JsonView
        decreases self,
    {
        match self {
            JsonValue::Null => JsonView::Null,
            JsonValue::Bool(b) => JsonView::Bool(*b),
            JsonValue::Number(t) => JsonView::Number(t@),
            JsonValue::Text(s) => JsonView::Text(s@),
            JsonValue::Array(es) => JsonView::Array(elem_views(es@)),
            JsonValue::Object(ps) => JsonView::Object(member_views(ps@)),
        }
    }
}

/// The views of a sequence of values.
pub open spec fn elem_views(es: Seq<JsonValue>) -> Seq<JsonView>
    decreases es,
{
    Seq::new(es.len(), |i: int| if 0 <= i < es.len() {
        es[i]@
    } else {
        JsonView::Null
    })
}

/// The views of a sequence of members.
pub open spec fn member_views(ps: Seq<(String, JsonValue)>) -> Seq<(Seq<char>, JsonView)>
    decreases ps,
{
    Seq::new(ps.len(), |i: int| if 0 <= i < ps.len() {
        (ps[i].0@, ps[i].1@)
    } else {
        (Seq::empty(), JsonView::Null)
    })
}

/// An ASCII decimal digit.
pub open spec fn is_digit(c: char) -> bool {
    0x30 <= c as u32 && c as u32 <= 0x39
}

/// The end of the run of digits that starts at `i`.
pub open spec fn digits_end(t: Seq<char>, i: int) -> int
    decreases t.len() - i,
{
    if 0 <= i < t.len() && is_digit(t[i]) {
        digits_end(t, i + 1)
    } else {
        i
    }
}

/// Whether `t` is a JSON number literal: an optional minus sign, an
/// integer part without leading zeros, an optional fraction and an
/// optional exponent.
pub open spec fn json_num_wf(t: Seq<char>) -> bool {
    let s = if t.len() > 0 && t[0] == '-' {
        1int
    } else {
        0int
    };
    let int_end = if s < t.len() && t[s] == '0' {
        s + 1
    } else if s < t.len() && is_digit(t[s]) {
        digits_end(t, s)
    } else {
        -1int
    };
    if int_end < 0 {
        false
    } else {
        let frac_end = if int_end < t.len() && t[int_end] == '.' {
            if int_end + 1 < t.len() && is_digit(t[int_end + 1]) {
                digits_end(t, int_end + 1)
            } else {
                -1int
            }
        } else {
            int_end
        };
        if frac_end < 0 {
            false
        } else {
            let exp_end = if frac_end < t.len() && (t[frac_end] == 'e' || t[frac_end] == 'E') {
                let es = if frac_end + 1 < t.len() && (t[frac_end + 1] == '+' || t[frac_end + 1]
                    == '-') {
                    frac_end + 2
                } else {
                    frac_end + 1
                };
                if es < t.len() && is_digit(t[es]) {
                    digits_end(t, es)
                } else {
                    -1int
                }
            } else {
                frac_end
            };
            exp_end == t.len()
        }
    }
}

/// A well-formed document: every number in the tree carries a valid
/// literal.  Strings and keys are unconstrained.
pub open spec fn json_wf(j: JsonView) -> bool
    decreases j, 0int,
{
    match j {
        JsonView::Null => true,
        JsonView::Bool(_) => true,
        JsonView::Number(t) => json_num_wf(t),
        JsonView::Text(_) => true,
        JsonView::Array(es) => json_arr_wf(es, 0),
        JsonView::Object(ps) => json_obj_wf(ps, 0),
    }
}

/// Every element from `i` on is well-formed.
pub open spec fn json_arr_wf(es: Seq<JsonView>, i: int) -> bool
    decreases es, es.len() - i + 1,
{
    if 0 <= i < es.len() {
        json_wf(es[i]) && json_arr_wf(es, i + 1)
    } else {
        true
    }
}

/// Every member value from `i` on is well-formed.
pub open spec fn json_obj_wf(ps: Seq<(Seq<char>, JsonView)>, i: int) -> bool
    decreases ps, ps.len() - i + 1,
{
    if 0 <= i < ps.len() {
        json_wf(ps[i].1) && json_obj_wf(ps, i + 1)
    } else {
        true
    }
}

/// The lower-case hexadecimal digit for `n`.
pub open spec fn hex_digit(n: u32) -> char {
    if n == 0 {
        '0'
    } else if n == 1 {
        '1'
    } else if n == 2 {
        '2'
    } else if n == 3 {
        '3'
    } else if n == 4 {
        '4'
    } else if n == 5 {
        '5'
    } else if n == 6 {
        '6'
    } else if n == 7 {
        '7'
    } else if n == 8 {
        '8'
    } else if n == 9 {
        '9'
    } else if n == 10 {
        'a'
    } else if n == 11 {
        'b'
    } else if n == 12 {
        'c'
    } else if n == 13 {
        'd'
    } else if n == 14 {
        'e'
    } else {
        'f'
    }
}

/// How one character is written inside a JSON string: quotes and
/// backslashes get a short escape, control characters get a short
/// escape where one exists and a `\u00xx` escape otherwise, everything
/// else stands for itself.
pub open spec fn esc_char(c: char) -> Seq<char> {
    if c == '"' {
        seq!['\\', '"']
    } else if c == '\\' {
        seq!['\\', '\\']
    } else if c == '\u{8}' {
        seq!['\\', 'b']
    } else if c == '\u{9}' {
        seq!['\\', 't']
    } else if c == '\u{a}' {
        seq!['\\', 'n']
    } else if c == '\u{c}' {
        seq!['\\', 'f']
    } else if c == '\u{d}' {
        seq!['\\', 'r']
    } else if (c as u32) < 0x20 {
        seq!['\\', 'u', '0', '0', hex_digit((c as u32) / 16), hex_digit((c as u32) % 16)]
    } else {
        seq![c]
    }
}

/// The escaped body of a JSON string.
pub open spec fn esc_str(s: Seq<char>) -> Seq<char>
    decreases s.len(),
{
    if s.len() == 0 {
        Seq::empty()
    } else {
        esc_char(s[0]) + esc_str(s.drop_first())
    }
}

/// The text of a JSON string, quotes included.
pub open spec fn spec_write_string(s: Seq<char>) -> Seq<char> {
    seq!['"'] + esc_str(s) + seq!['"']
}

/// The text of a document: the compact form, without any whitespace.
pub open spec fn spec_write(j: JsonView) -> Seq<char>
    decreases j, 0int,
{
    match j {
        JsonView::Null => seq!['n', 'u', 'l', 'l'],
        JsonView::Bool(b) => if b {
            seq!['t', 'r', 'u', 'e']
        } else {
            seq!['f', 'a', 'l', 's', 'e']
        },
        JsonView::Number(t) => t,
        JsonView::Text(s) => spec_write_string(s),
        JsonView::Array(es) => seq!['['] + spec_write_elems(es, 0) + seq![']'],
        JsonView::Object(ps) => seq!['{'] + spec_write_members(ps, 0) + seq!['}'],
    }
}

/// The comma-separated texts of the array elements from `i` on.
pub open spec fn spec_write_elems(es: Seq<JsonView>, i: int) -> Seq<char>
    decreases es, es.len() - i + 1,
{
    if 0 <= i < es.len() {
        let rest = if i + 1 < es.len() {
            seq![','] + spec_write_elems(es, i + 1)
        } else {
            Seq::empty()
        };
        spec_write(es[i]) + rest
    } else {
        Seq::empty()
    }
}

/// The comma-separated texts of the object members from `i` on.
pub open spec fn spec_write_members(ps: Seq<(Seq<char>, JsonView)>, i: int) -> Seq<char>
    decreases ps, ps.len() - i + 1,
{
    if 0 <= i < ps.len() {
        let rest = if i + 1 < ps.len() {
            seq![','] + spec_write_members(ps, i + 1)
        } else {
            Seq::empty()
        };
        spec_write_string(ps[i].0) + seq![':'] + spec_write(ps[i].1) + rest
    } else {
        Seq::empty()
    }
}

/// JSON insignificant whitespace.
pub open spec fn is_ws(c: char) -> bool {
    c == ' ' || c == '\t' || c == '\n' || c == '\r'
}

/// The first index at or after `i` that does not hold whitespace.
pub open spec fn sp_ws(s: Seq<char>, i: int) -> int
    decreases s.len() - i,
{
    if 0 <= i < s.len() && is_ws(s[i]) {
        sp_ws(s, i + 1)
    } else {
        i
    }
}

/// The character named by a short escape, if the letter names one.
pub open spec fn unesc_short(c: char) -> Option<char> {
    if c == '"' {
        Some('"')
    } else if c == '\\' {
        Some('\\')
    } else if c == '/' {
        Some('/')
    } else if c == 'b' {
        Some('\u{8}')
    } else if c == 'f' {
        Some('\u{c}')
    } else if c == 'n' {
        Some('\u{a}')
    } else if c == 'r' {
        Some('\u{d}')
    } else if c == 't' {
        Some('\u{9}')
    } else {
        None
    }
}

/// The value of a hexadecimal digit.
pub open spec fn hex_val(c: char) -> Option<u32> {
    if 0x30 <= c as u32 && c as u32 <= 0x39 {
        Some((c as u32 - 0x30) as u32)
    } else if 0x61 <= c as u32 && c as u32 <= 0x66 {
        Some((c as u32 - 0x57) as u32)
    } else if 0x41 <= c as u32 && c as u32 <= 0x46 {
        Some((c as u32 - 0x37) as u32)
    } else {
        None
    }
}

/// The value of the four hexadecimal digits at `i`.
pub open spec fn sp_hex4(s: Seq<char>, i: int) -> Option<u32> {
    if 0 <= i && i + 4 <= s.len() {
        match (hex_val(s[i]), hex_val(s[i + 1]), hex_val(s[i + 2]), hex_val(s[i + 3])) {
            (Some(a), Some(b), Some(c), Some(d)) => Some(
                (a * 0x1000 + b * 0x100 + c * 0x10 + d) as u32,
            ),
            _ => None,
        }
    } else {
        None
    }
}

/// Reads a string body at `i` (after the opening quote): the decoded
/// content and the index after the closing quote.  Unescaped control
/// characters and lone surrogate escapes are refused.
pub open spec fn sp_string_body(s: Seq<char>, i: int) -> Option<(Seq<char>, int)>
    decreases s.len() - i,
{
    if !(0 <= i < s.len()) {
        None
    } else if s[i] == '"' {
        Some((Seq::empty(), i + 1))
    } else if s[i] == '\\' {
        if i + 1 >= s.len() {
            None
        } else if s[i + 1] == 'u' {
            match sp_hex4(s, i + 2) {
                None => None,
                Some(u) => if 0xD800 <= u < 0xDC00 {
                    if i + 12 <= s.len() && s[i + 6] == '\\' && s[i + 7] == 'u' {
                        match sp_hex4(s, i + 8) {
                            None => None,
                            Some(lo) => if 0xDC00 <= lo < 0xE000 {
                                let c = (0x10000 + (u - 0xD800) * 0x400 + (lo - 0xDC00)) as char;
                                match sp_string_body(s, i + 12) {
                                    Some((t, j)) => Some((seq![c] + t, j)),
                                    None => None,
                                }
                            } else {
                                None
                            },
                        }
                    } else {
                        None
                    }
                } else if 0xDC00 <= u < 0xE000 {
                    None
                } else {
                    let c = u as char;
                    match sp_string_body(s, i + 6) {
                        Some((t, j)) => Some((seq![c] + t, j)),
                        None => None,
                    }
                },
            }
        } else {
            match unesc_short(s[i + 1]) {
                Some(c) => match sp_string_body(s, i + 2) {
                    Some((t, j)) => Some((seq![c] + t, j)),
                    None => None,
                },
                None => None,
            }
        }
    } else if (s[i] as u32) < 0x20 {
        None
    } else {
        match sp_string_body(s, i + 1) {
            Some((t, j)) => Some((seq![s[i]] + t, j)),
            None => None,
        }
    }
}

/// A character that can occur in a number literal.
pub open spec fn is_num_char(c: char) -> bool {
    is_digit(c) || c == '-' || c == '+' || c == '.' || c == 'e' || c == 'E'
}

/// The end of the run of number characters that starts at `i`.
pub open spec fn num_end(s: Seq<char>, i: int) -> int
    decreases s.len() - i,
{
    if 0 <= i < s.len() && is_num_char(s[i]) {
        num_end(s, i + 1)
    } else {
        i
    }
}

/// Reads one value at `i`: the value and the index just after it.
pub open spec fn sp_value(s: Seq<char>, i: int) -> Option<(JsonView, int)>
    decreases s.len() - i, 0int,
{
    if !(0 <= i < s.len()) {
        None
    } else {
        let c = s[i];
        if c == 'n' {
            if i + 4 <= s.len() && s.subrange(i, i + 4) == seq!['n', 'u', 'l', 'l'] {
                Some((JsonView::Null, i + 4))
            } else {
                None
            }
        } else if c == 't' {
            if i + 4 <= s.len() && s.subrange(i, i + 4) == seq!['t', 'r', 'u', 'e'] {
                Some((JsonView::Bool(true), i + 4))
            } else {
                None
            }
        } else if c == 'f' {
            if i + 5 <= s.len() && s.subrange(i, i + 5) == seq!['f', 'a', 'l', 's', 'e'] {
                Some((JsonView::Bool(false), i + 5))
            } else {
                None
            }
        } else if c == '"' {
            match sp_string_body(s, i + 1) {
                Some((t, j)) => Some((JsonView::Text(t), j)),
                None => None,
            }
        } else if c == '-' || is_digit(c) {
            let j = num_end(s, i);
            if json_num_wf(s.subrange(i, j)) {
                Some((JsonView::Number(s.subrange(i, j)), j))
            } else {
                None
            }
        } else if c == '[' {
            let j = sp_ws(s, i + 1);
            if i + 1 <= j < s.len() && s[j] == ']' {
                Some((JsonView::Array(Seq::empty()), j + 1))
            } else {
                match sp_elems(s, i + 1) {
                    Some((es, k)) => Some((JsonView::Array(es), k)),
                    None => None,
                }
            }
        } else if c == '{' {
            let j = sp_ws(s, i + 1);
            if i + 1 <= j < s.len() && s[j] == '}' {
                Some((JsonView::Object(Seq::empty()), j + 1))
            } else {
                match sp_members(s, i + 1) {
                    Some((ps, k)) => Some((JsonView::Object(ps), k)),
                    None => None,
                }
            }
        } else {
            None
        }
    }
}

/// Reads a non-empty, comma-separated element list at `i`, up to and
/// including the closing bracket.  The index arithmetic is clamped so
/// that the recursion visibly advances; the clamps never fire on a
/// result the function accepts, see `lemma_sp_value_bounds`.
pub open spec fn sp_elems(s: Seq<char>, i: int) -> Option<(Seq<JsonView>, int)>
    decreases s.len() - i, 1int,
{
    if !(0 <= i <= s.len()) {
        None
    } else {
        let j0 = sp_ws(s, i);
        let j = if j0 < i {
            i
        } else if j0 > s.len() {
            s.len() as int
        } else {
            j0
        };
        match sp_value(s, j) {
            None => None,
            Some((v, k0)) => {
                let k = if k0 > j {
                    k0
                } else {
                    j + 1
                };
                let w0 = sp_ws(s, k);
                let w = if w0 < k {
                    k
                } else {
                    w0
                };
                if w < s.len() && s[w] == ',' {
                    match sp_elems(s, w + 1) {
                        Some((rest, r)) => Some((seq![v] + rest, r)),
                        None => None,
                    }
                } else if w < s.len() && s[w] == ']' {
                    Some((seq![v], w + 1))
                } else {
                    None
                }
            },
        }
    }
}

/// Reads a non-empty, comma-separated member list at `i`, up to and
/// including the closing brace, with the same clamping as `sp_elems`.
pub open spec fn sp_members(s: Seq<char>, i: int) -> Option<(Seq<(Seq<char>, JsonView)>, int)>
    decreases s.len() - i, 1int,
{
    if !(0 <= i <= s.len()) {
        None
    } else {
        let j0 = sp_ws(s, i);
        let j = if j0 < i {
            i
        } else {
            j0
        };
        if !(j < s.len() && s[j] == '"') {
            None
        } else {
            match sp_string_body(s, j + 1) {
                None => None,
                Some((key, k0)) => {
                    let k = if k0 > j {
                        k0
                    } else {
                        j + 1
                    };
                    let w0 = sp_ws(s, k);
                    let w = if w0 < k {
                        k
                    } else {
                        w0
                    };
                    if !(w < s.len() && s[w] == ':') {
                        None
                    } else {
                        let u0 = sp_ws(s, w + 1);
                        let u = if u0 < w + 1 {
                            w + 1
                        } else if u0 > s.len() {
                            s.len() as int
                        } else {
                            u0
                        };
                        match sp_value(s, u) {
                            None => None,
                            Some((v, m0)) => {
                                let m = if m0 > u {
                                    m0
                                } else {
                                    u + 1
                                };
                                let t0 = sp_ws(s, m);
                                let t = if t0 < m {
                                    m
                                } else {
                                    t0
                                };
                                if t < s.len() && s[t] == ',' {
                                    match sp_members(s, t + 1) {
                                        Some((rest, r)) => Some((seq![(key, v)] + rest, r)),
                                        None => None,
                                    }
                                } else if t < s.len() && s[t] == '}' {
                                    Some((seq![(key, v)], t + 1))
                                } else {
                                    None
                                }
                            },
                        }
                    }
                },
            }
        }
    }
}

/// Reads a whole document: one value, possibly surrounded by
/// whitespace, covering all of `s`.
pub open spec fn sp_json(s: Seq<char>) -> Option<JsonView> {
    let i0 = sp_ws(s, 0);
    let i = if i0 < 0 {
        0int
    } else {
        i0
    };
    match sp_value(s, i) {
        None => None,
        Some((v, k0)) => {
            let k = if k0 > i {
                k0
            } else {
                i + 1
            };
            let w0 = sp_ws(s, k);
            let w = if w0 < k {
                k
            } else {
                w0
            };
            if w == s.len() {
                Some(v)
            } else {
                None
            }
        },
    }
}

/// Skipping whitespace stays inside the text and never moves backwards.
pub proof fn lemma_sp_ws_bounds(s: Seq<char>, i: int)
    requires
        0 <= i <= s.len(),
    ensures
        i <= sp_ws(s, i) <= s.len(),
    decreases s.len() - i,
{
    if i < s.len() && is_ws(s[i]) {
        lemma_sp_ws_bounds(s, i + 1);
    }
}

/// A string body that is read successfully ends inside the text, after
/// where it began.
pub proof fn lemma_string_body_bounds(s: Seq<char>, i: int)
    requires
        sp_string_body(s, i) is Some,
    ensures
        i < sp_string_body(s, i)->Some_0.1 <= s.len(),
    decreases s.len() - i,
{
    if 0 <= i < s.len() {
        if s[i] == '"' {
        } else if s[i] == '\\' {
            if i + 1 < s.len() {
                if s[i + 1] == 'u' {
                    match sp_hex4(s, i + 2) {
                        Some(u) => {
                            if 0xD800 <= u < 0xDC00 {
                                lemma_string_body_bounds(s, i + 12);
                            } else if 0xDC00 <= u < 0xE000 {
                            } else {
                                lemma_string_body_bounds(s, i + 6);
                            }
                        },
                        None => {},
                    }
                } else {
                    if unesc_short(s[i + 1]) is Some {
                        lemma_string_body_bounds(s, i + 2);
                    }
                }
            }
        } else if (s[i] as u32) < 0x20 {
        } else {
            lemma_string_body_bounds(s, i + 1);
        }
    }
}

/// The run of number characters stays inside the text.
pub proof fn lemma_num_end_bounds(s: Seq<char>, i: int)
    requires
        0 <= i <= s.len(),
    ensures
        i <= num_end(s, i) <= s.len(),
    decreases s.len() - i,
{
    if i < s.len() && is_num_char(s[i]) {
        lemma_num_end_bounds(s, i + 1);
    }
}

/// A value that is read successfully ends inside the text, after where
/// it began.
pub proof fn lemma_sp_value_bounds(s: Seq<char>, i: int)
    requires
        sp_value(s, i) is Some,
    ensures
        i < sp_value(s, i)->Some_0.1 <= s.len(),
    decreases s.len() - i, 0int,
{
    let c = s[i];
    if c == '"' {
        lemma_string_body_bounds(s, i + 1);
    } else if c == '-' || is_digit(c) {
        lemma_num_end_bounds(s, i);
        let j = num_end(s, i);
        assert(json_num_wf(s.subrange(i, j)));
        assert(s.subrange(i, j).len() > 0) by {
            if i == j {
                assert(!json_num_wf(Seq::<char>::empty()));
            }
        }
    } else if c == '[' {
        let j = sp_ws(s, i + 1);
        if i + 1 <= j < s.len() && s[j] == ']' {
        } else {
            lemma_sp_elems_bounds(s, i + 1);
        }
    } else if c == '{' {
        let j = sp_ws(s, i + 1);
        if i + 1 <= j < s.len() && s[j] == '}' {
        } else {
            lemma_sp_members_bounds(s, i + 1);
        }
    }
}

/// An element list that is read successfully ends inside the text,
/// after where it began.
pub proof fn lemma_sp_elems_bounds(s: Seq<char>, i: int)
    requires
        sp_elems(s, i) is Some,
    ensures
        i < sp_elems(s, i)->Some_0.1 <= s.len(),
    decreases s.len() - i, 1int,
{
    let j0 = sp_ws(s, i);
    let j = if j0 < i {
        i
    } else if j0 > s.len() {
        s.len() as int
    } else {
        j0
    };
    lemma_sp_value_bounds(s, j);
    let (v, k0) = sp_value(s, j)->Some_0;
    let k = if k0 > j {
        k0
    } else {
        j + 1
    };
    let w0 = sp_ws(s, k);
    let w = if w0 < k {
        k
    } else {
        w0
    };
    if w < s.len() && s[w] == ',' {
        lemma_sp_elems_bounds(s, w + 1);
    }
}

/// A member list that is read successfully ends inside the text, after
/// where it began.
pub proof fn lemma_sp_members_bounds(s: Seq<char>, i: int)
    requires
        sp_members(s, i) is Some,
    ensures
        i < sp_members(s, i)->Some_0.1 <= s.len(),
    decreases s.len() - i, 1int,
{
    let j0 = sp_ws(s, i);
    let j = if j0 < i {
        i
    } else if j0 > s.len() {
        s.len() as int
    } else {
        j0
    };
    lemma_string_body_bounds(s, j + 1);
    let (key, k0) = sp_string_body(s, j + 1)->Some_0;
    let k = if k0 > j {
        k0
    } else {
        j + 1
    };
    let w0 = sp_ws(s, k);
    let w = if w0 < k {
        k
    } else {
        w0
    };
    let u0 = sp_ws(s, w + 1);
    let u = if u0 < w + 1 {
        w + 1
    } else if u0 > s.len() {
        s.len() as int
    } else {
        u0
    };
    lemma_sp_value_bounds(s, u);
    let (v, m0) = sp_value(s, u)->Some_0;
    let m = if m0 > u {
        m0
    } else {
        u + 1
    };
    let t0 = sp_ws(s, m);
    let t = if t0 < m {
        m
    } else {
        t0
    };
    if t < s.len() && s[t] == ',' {
        lemma_sp_members_bounds(s, t + 1);
    }
}

/// A character that can open a value text.
pub open spec fn is_value_start(c: char) -> bool {
    c == 'n' || c == 't' || c == 'f' || c == '"' || c == '-' || is_digit(c) || c == '['
        || c == '{'
}

/// What may follow a complete value inside a document: the end of the
/// text or a closing delimiter.
pub open spec fn follow_ok(s: Seq<char>, e: int) -> bool {
    e == s.len() || s[e] == ',' || s[e] == ']' || s[e] == '}'
}

/// The text of a well-formed value is non-empty and opens with a value
/// start character.
pub proof fn lemma_write_starts(v: JsonView)
    requires
        json_wf(v),
    ensures
        spec_write(v).len() >= 1,
        is_value_start(spec_write(v)[0]),
{
    match v {
        JsonView::Number(t) => {
            assert(t.len() > 0 && (t[0] == '-' || is_digit(t[0])));
        },
        _ => {},
    }
}

/// Every position covered by a digit run holds a digit.
pub proof fn lemma_digits_end_digits(t: Seq<char>, i: int, k: int)
    requires
        0 <= i <= k < digits_end(t, i),
    ensures
        is_digit(t[k]),
    decreases t.len() - i,
{
    if 0 <= i < t.len() && is_digit(t[i]) {
        if k > i {
            lemma_digits_end_digits(t, i + 1, k);
        }
    }
}

/// Every character of a number literal is a number character.
pub proof fn lemma_num_wf_chars(t: Seq<char>)
    requires
        json_num_wf(t),
    ensures
        forall|k: int| 0 <= k < t.len() ==> is_num_char(#[trigger] t[k]),
    decreases t.len(),
{
    let s = if t.len() > 0 && t[0] == '-' {
        1int
    } else {
        0int
    };
    let int_end = if s < t.len() && t[s] == '0' {
        s + 1
    } else {
        digits_end(t, s)
    };
    lemma_digits_end_bounds(t, s);
    assert forall|k: int| s <= k < int_end implies is_num_char(t[k]) by {
        if !(s < t.len() && t[s] == '0') {
            lemma_digits_end_digits(t, s, k);
        }
    }
    let frac_end = if int_end < t.len() && t[int_end] == '.' {
        digits_end(t, int_end + 1)
    } else {
        int_end
    };
    if int_end < t.len() && t[int_end] == '.' {
        lemma_digits_end_bounds(t, int_end + 1);
        assert forall|k: int| int_end + 1 <= k < frac_end implies is_num_char(t[k]) by {
            lemma_digits_end_digits(t, int_end + 1, k);
        }
    }
    if frac_end < t.len() && (t[frac_end] == 'e' || t[frac_end] == 'E') {
        let es = if frac_end + 1 < t.len() && (t[frac_end + 1] == '+' || t[frac_end + 1] == '-') {
            frac_end + 2
        } else {
            frac_end + 1
        };
        lemma_digits_end_bounds(t, es);
        assert forall|k: int| es <= k < t.len() implies is_num_char(t[k]) by {
            lemma_digits_end_digits(t, es, k);
        }
    }
}

/// A digit run stays inside the text and never moves backwards.
pub proof fn lemma_digits_end_bounds(t: Seq<char>, i: int)
    ensures
        digits_end(t, i) >= i,
        0 <= i <= t.len() ==> digits_end(t, i) <= t.len(),
    decreases t.len() - i,
{
    if 0 <= i < t.len() && is_digit(t[i]) {
        lemma_digits_end_bounds(t, i + 1);
    }
}

/// A run of number characters bounded by a non-number character scans
/// to exactly the end of the run.
pub proof fn lemma_num_end_run(s: Seq<char>, i: int, e: int)
    requires
        0 <= i <= e <= s.len(),
        forall|k: int| i <= k < e ==> is_num_char(#[trigger] s[k]),
        e == s.len() || !is_num_char(s[e]),
    ensures
        num_end(s, i) == e,
    decreases e - i,
{
    if i < e {
        lemma_num_end_run(s, i + 1, e);
    }
}

/// A hexadecimal digit reads back as its value.
pub proof fn lemma_hex_digit_inverse(n: u32)
    requires
        n < 16,
    ensures
        hex_val(hex_digit(n)) == Some(n),
{
}

/// Reading an escaped string body: over the writer's output followed
/// by the closing quote, the parser recovers the original content.
#[verifier::rlimit(100)]
pub proof fn lemma_esc_body_rt(s: Seq<char>, i: int, content: Seq<char>)
    requires
        0 <= i,
        i + esc_str(content).len() + 1 <= s.len(),
        s.subrange(i, i + esc_str(content).len() + 1) == esc_str(content) + seq!['"'],
    ensures
        sp_string_body(s, i) == Some((content, i + esc_str(content).len() + 1)),
    decreases content.len(),
{
    let end = i + esc_str(content).len() + 1;
    let seg = s.subrange(i, end);
    if content.len() == 0 {
        assert(esc_str(content) =~= Seq::<char>::empty());
        assert(s[i] == seg[0]);
        assert(s[i] == '"');
        assert(content =~= Seq::<char>::empty());
    } else {
        let c = content[0];
        let rest = content.drop_first();
        let e = esc_char(c);
        assert(esc_str(content) == e + esc_str(rest));
        assert(e.len() >= 1);
        assert forall|k: int| 0 <= k < e.len() implies s[i + k] == e[k] by {
            assert(seg[k] == s[i + k]);
            assert((e + esc_str(rest) + seq!['"'])[k] == e[k]);
            assert(seg =~= e + esc_str(rest) + seq!['"']);
        }
        assert(s.subrange(i + e.len(), end) =~= esc_str(rest) + seq!['"']) by {
            assert forall|k: int| 0 <= k < end - i - e.len() implies s.subrange(
                i + e.len(),
                end,
            )[k] == (esc_str(rest) + seq!['"'])[k] by {
                assert(s.subrange(i + e.len(), end)[k] == s[i + e.len() + k]);
                assert(s[i + e.len() + k] == seg[e.len() + k]);
                assert(seg =~= e + (esc_str(rest) + seq!['"']));
                assert(seg[e.len() + k] == (esc_str(rest) + seq!['"'])[k]);
            }
        }
        lemma_esc_body_rt(s, i + e.len(), rest);
        assert(content =~= seq![c] + rest);
        if c == '"' || c == '\\' || c == '\u{8}' || c == '\u{9}' || c == '\u{a}' || c == '\u{c}'
            || c == '\u{d}' {
            assert(s[i] == '\\');
            assert(unesc_short(s[i + 1]) == Some(c));
            assert(sp_string_body(s, i) == Some((seq![c] + rest, end)));
        } else if (c as u32) < 0x20 {
            let u = c as u32;
            assert(s[i] == '\\');
            assert(s[i + 1] == 'u');
            assert(s[i + 2] == '0');
            assert(s[i + 3] == '0');
            assert(s[i + 4] == hex_digit(u / 16));
            assert(s[i + 5] == hex_digit(u % 16));
            lemma_hex_digit_inverse(u / 16);
            lemma_hex_digit_inverse(u % 16);
            assert(hex_val('0') == Some(0u32));
            assert(sp_hex4(s, i + 2) == Some(
                (0u32 * 0x1000 + 0u32 * 0x100 + (u / 16) * 0x10 + u % 16) as u32,
            ));
            assert(0u32 * 0x1000 + 0u32 * 0x100 + (u / 16) * 0x10 + u % 16 == u);
            vstd::utf8::char_u32_cast(c, u);
            assert((u as char) == c);
            assert(sp_string_body(s, i) == Some((seq![c] + rest, end)));
        } else {
            assert(e =~= seq![c]);
            assert(s[i] == c);
            assert(s[i] != '"' && s[i] != '\\' && (s[i] as u32) >= 0x20);
            assert(sp_string_body(s, i) == Some((seq![c] + rest, end)));
        }
    }
}

/// A slice of a matched segment equals the matching slice of the text.
proof fn lemma_seg_slice(s: Seq<char>, i: int, a: int, b: int, seg: Seq<char>)
    requires
        0 <= i,
        i + seg.len() <= s.len(),
        s.subrange(i, i + seg.len()) == seg,
        0 <= a <= b <= seg.len(),
    ensures
        s.subrange(i + a, i + b) == seg.subrange(a, b),
{
    assert(s.subrange(i + a, i + b) =~= seg.subrange(a, b)) by {
        assert forall|k: int| 0 <= k < b - a implies s.subrange(i + a, i + b)[k] == seg.subrange(
            a,
            b,
        )[k] by {
            assert(s.subrange(i, i + seg.len())[a + k] == s[i + a + k]);
        }
    }
}

/// A character of a matched segment equals the matching character of
/// the text.
proof fn lemma_seg_char(s: Seq<char>, i: int, k: int, seg: Seq<char>)
    requires
        0 <= i,
        i + seg.len() <= s.len(),
        s.subrange(i, i + seg.len()) == seg,
        0 <= k < seg.len(),
    ensures
        s[i + k] == seg[k],
{
    assert(s.subrange(i, i + seg.len())[k] == s[i + k]);
}

/// Reading back the writer's output: over the text of a well-formed
/// value, followed by the end of the text or a closing delimiter, the
/// parser recovers exactly that value.
#[verifier::rlimit(100)]
#[verifier::spinoff_prover]
pub proof fn lemma_value_rt(s: Seq<char>, i: int, v: JsonView)
    requires
        json_wf(v),
        0 <= i,
        i + spec_write(v).len() <= s.len(),
        s.subrange(i, i + spec_write(v).len()) == spec_write(v),
        follow_ok(s, i + spec_write(v).len()),
    ensures
        sp_value(s, i) == Some((v, i + spec_write(v).len())),
    decreases v, 0int, 0int,
{
    let w = spec_write(v);
    let end = i + w.len();
    lemma_write_starts(v);
    lemma_seg_char(s, i, 0, w);
    match v {
        JsonView::Null => {
            lemma_seg_char(s, i, 1, w);
            lemma_seg_char(s, i, 2, w);
            lemma_seg_char(s, i, 3, w);
            assert(s.subrange(i, i + 4) =~= seq!['n', 'u', 'l', 'l']);
        },
        JsonView::Bool(b) => {
            lemma_seg_char(s, i, 1, w);
            lemma_seg_char(s, i, 2, w);
            lemma_seg_char(s, i, 3, w);
            if !b {
                lemma_seg_char(s, i, 4, w);
                assert(s.subrange(i, i + 5) =~= seq!['f', 'a', 'l', 's', 'e']);
            } else {
                assert(s.subrange(i, i + 4) =~= seq!['t', 'r', 'u', 'e']);
            }
        },
        JsonView::Number(t) => {
            lemma_num_wf_chars(t);
            assert forall|k: int| i <= k < end implies is_num_char(#[trigger] s[k]) by {
                lemma_seg_char(s, i, k - i, w);
            }
            assert(end == s.len() || !is_num_char(s[end]));
            lemma_num_end_run(s, i, end);
            assert(s[i] == t[0]);
            assert(t[0] == '-' || is_digit(t[0]));
            assert(s.subrange(i, end) == t);
        },
        JsonView::Text(st) => {
            assert(s[i] == '"');
            assert(w == seq!['"'] + (esc_str(st) + seq!['"']));
            lemma_seg_slice(s, i, 1, w.len() as int, w);
            assert(w.subrange(1, w.len() as int) =~= esc_str(st) + seq!['"']);
            lemma_esc_body_rt(s, i + 1, st);
        },
        JsonView::Array(es) => {
            lemma_value_rt_array(s, i, es);
        },
        JsonView::Object(ps) => {
            lemma_value_rt_object(s, i, ps);
        },
    }
}

/// The array case of `lemma_value_rt`.
#[verifier::rlimit(100)]
#[verifier::spinoff_prover]
proof fn lemma_value_rt_array(s: Seq<char>, i: int, es: Seq<JsonView>)
    requires
        json_wf(JsonView::Array(es)),
        0 <= i,
        i + spec_write(JsonView::Array(es)).len() <= s.len(),
        s.subrange(i, i + spec_write(JsonView::Array(es)).len()) == spec_write(
            JsonView::Array(es),
        ),
    ensures
        sp_value(s, i) == Some(
            (JsonView::Array(es), i + spec_write(JsonView::Array(es)).len()),
        ),
    decreases es, es.len() + 1, 0int,
{
    let v = JsonView::Array(es);
    let w = spec_write(v);
    lemma_seg_char(s, i, 0, w);
    assert(s[i] == '[');
    if es.len() == 0 {
        assert(w =~= seq!['[', ']']);
        lemma_seg_char(s, i, 1, w);
        assert(s[i + 1] == ']');
        assert(sp_ws(s, i + 1) == i + 1);
        assert(es =~= Seq::<JsonView>::empty());
        assert(sp_value(s, i) == Some((JsonView::Array(Seq::empty()), i + 2)));
    } else {
        let inner = spec_write_elems(es, 0);
        assert(w == seq!['['] + inner + seq![']']);
        lemma_seg_char(s, i, 1, w);
        assert(json_wf(es[0]));
        lemma_write_starts(es[0]);
        assert(inner[0] == spec_write(es[0])[0]);
        assert(s[i + 1] == inner[0]);
        assert(is_value_start(s[i + 1]));
        assert(!is_ws(s[i + 1]));
        assert(sp_ws(s, i + 1) == i + 1);
        assert(s[i + 1] != ']');
        lemma_seg_slice(s, i, 1, w.len() as int, w);
        assert(w.subrange(1, w.len() as int) =~= inner + seq![']']);
        lemma_elems_rt(s, i + 1, es, 0);
        assert(es.subrange(0, es.len() as int) =~= es);
    }
}

/// The object case of `lemma_value_rt`.
#[verifier::rlimit(100)]
#[verifier::spinoff_prover]
proof fn lemma_value_rt_object(s: Seq<char>, i: int, ps: Seq<(Seq<char>, JsonView)>)
    requires
        json_wf(JsonView::Object(ps)),
        0 <= i,
        i + spec_write(JsonView::Object(ps)).len() <= s.len(),
        s.subrange(i, i + spec_write(JsonView::Object(ps)).len()) == spec_write(
            JsonView::Object(ps),
        ),
    ensures
        sp_value(s, i) == Some(
            (JsonView::Object(ps), i + spec_write(JsonView::Object(ps)).len()),
        ),
    decreases ps, ps.len() + 1, 0int,
{
    let v = JsonView::Object(ps);
    let w = spec_write(v);
    lemma_seg_char(s, i, 0, w);
    assert(s[i] == '{');
    if ps.len() == 0 {
        assert(w =~= seq!['{', '}']);
        lemma_seg_char(s, i, 1, w);
        assert(s[i + 1] == '}');
        assert(sp_ws(s, i + 1) == i + 1);
        assert(ps =~= Seq::<(Seq<char>, JsonView)>::empty());
        assert(sp_value(s, i) == Some((JsonView::Object(Seq::empty()), i + 2)));
    } else {
        let inner = spec_write_members(ps, 0);
        assert(w == seq!['{'] + inner + seq!['}']);
        lemma_seg_char(s, i, 1, w);
        assert(inner[0] == '"');
        assert(s[i + 1] == '"');
        assert(!is_ws(s[i + 1]));
        assert(sp_ws(s, i + 1) == i + 1);
        assert(s[i + 1] != '}');
        lemma_seg_slice(s, i, 1, w.len() as int, w);
        assert(w.subrange(1, w.len() as int) =~= inner + seq!['}']);
        lemma_members_rt(s, i + 1, ps, 0);
        assert(ps.subrange(0, ps.len() as int) =~= ps);
    }
}

/// Reading back a comma-separated element list: over the texts of the
/// elements from `idx` on, followed by the closing bracket, the parser
/// recovers exactly those elements.
#[verifier::rlimit(100)]
#[verifier::spinoff_prover]
pub proof fn lemma_elems_rt(s: Seq<char>, i: int, es: Seq<JsonView>, idx: int)
    requires
        0 <= idx < es.len(),
        json_arr_wf(es, idx),
        0 <= i,
        i + spec_write_elems(es, idx).len() + 1 <= s.len(),
        s.subrange(i, i + spec_write_elems(es, idx).len() + 1) == spec_write_elems(es, idx)
            + seq![']'],
    ensures
        sp_elems(s, i) == Some(
            (es.subrange(idx, es.len() as int), i + spec_write_elems(es, idx).len() + 1),
        ),
    decreases es, es.len() - idx, 1int,
{
    let inner = spec_write_elems(es, idx);
    let seg = inner + seq![']'];
    let end = i + inner.len() + 1;
    let w0 = spec_write(es[idx]);
    let rest = if idx + 1 < es.len() {
        seq![','] + spec_write_elems(es, idx + 1)
    } else {
        Seq::<char>::empty()
    };
    assert(inner == w0 + rest);
    assert(json_wf(es[idx]));
    lemma_write_starts(es[idx]);
    lemma_seg_char(s, i, 0, seg);
    assert(s[i] == w0[0]);
    assert(!is_ws(s[i]));
    assert(sp_ws(s, i) == i);
    lemma_seg_slice(s, i, 0, w0.len() as int, seg);
    assert(seg.subrange(0, w0.len() as int) =~= w0);
    lemma_seg_char(s, i, w0.len() as int, seg);
    if idx + 1 < es.len() {
        assert(s[i + w0.len()] == ',');
        lemma_value_rt(s, i, es[idx]);
        let k = i + w0.len();
        assert(sp_ws(s, k) == k);
        lemma_seg_slice(s, i, w0.len() + 1int, seg.len() as int, seg);
        assert(seg.subrange(w0.len() + 1int, seg.len() as int) =~= spec_write_elems(es, idx + 1)
            + seq![']']);
        lemma_elems_rt(s, k + 1, es, idx + 1);
        assert(seq![es[idx]] + es.subrange(idx + 1, es.len() as int) =~= es.subrange(
            idx,
            es.len() as int,
        ));
        assert(sp_elems(s, i) == Some((es.subrange(idx, es.len() as int), end)));
    } else {
        assert(rest =~= Seq::<char>::empty());
        assert(inner =~= w0);
        assert(s[i + w0.len()] == ']');
        lemma_value_rt(s, i, es[idx]);
        let k = i + w0.len();
        assert(sp_ws(s, k) == k);
        assert(seq![es[idx]] =~= es.subrange(idx, es.len() as int));
        assert(sp_elems(s, i) == Some((es.subrange(idx, es.len() as int), end)));
    }
}

/// Reading back a comma-separated member list: over the texts of the
/// members from `idx` on, followed by the closing brace, the parser
/// recovers exactly those members.
#[verifier::rlimit(100)]
#[verifier::spinoff_prover]
pub proof fn lemma_members_rt(s: Seq<char>, i: int, ps: Seq<(Seq<char>, JsonView)>, idx: int)
    requires
        0 <= idx < ps.len(),
        json_obj_wf(ps, idx),
        0 <= i,
        i + spec_write_members(ps, idx).len() + 1 <= s.len(),
        s.subrange(i, i + spec_write_members(ps, idx).len() + 1) == spec_write_members(ps, idx)
            + seq!['}'],
    ensures
        sp_members(s, i) == Some(
            (ps.subrange(idx, ps.len() as int), i + spec_write_members(ps, idx).len() + 1),
        ),
    decreases ps, ps.len() - idx, 1int,
{
    let inner = spec_write_members(ps, idx);
    let seg = inner + seq!['}'];
    let end = i + inner.len() + 1;
    let key = ps[idx].0;
    let v = ps[idx].1;
    let kw = spec_write_string(key);
    let vw = spec_write(v);
    let rest = if idx + 1 < ps.len() {
        seq![','] + spec_write_members(ps, idx + 1)
    } else {
        Seq::<char>::empty()
    };
    assert(inner == kw + seq![':'] + vw + rest);
    assert(json_wf(v));
    lemma_write_starts(v);
    lemma_seg_char(s, i, 0, seg);
    assert(s[i] == '"');
    assert(sp_ws(s, i) == i);
    // the key string
    assert(kw == seq!['"'] + (esc_str(key) + seq!['"']));
    lemma_seg_slice(s, i, 1, kw.len() as int, seg);
    assert(seg.subrange(1, kw.len() as int) =~= esc_str(key) + seq!['"']);
    lemma_esc_body_rt(s, i + 1, key);
    let k = i + kw.len();
    assert(sp_string_body(s, i + 1) == Some((key, k)));
    // the colon
    lemma_seg_char(s, i, kw.len() as int, seg);
    assert(s[k] == ':');
    assert(sp_ws(s, k) == k);
    // the value
    let u = k + 1;
    lemma_seg_char(s, i, kw.len() + 1int, seg);
    assert(s[u] == vw[0]);
    assert(!is_ws(s[u]));
    assert(sp_ws(s, u) == u);
    lemma_seg_slice(s, i, kw.len() + 1int, kw.len() + 1 + vw.len() as int, seg);
    assert(seg.subrange(kw.len() + 1int, kw.len() + 1 + vw.len() as int) =~= vw);
    let m = u + vw.len();
    lemma_seg_char(s, i, kw.len() + 1 + vw.len() as int, seg);
    assert(s[m] == ',' || s[m] == '}');
    lemma_value_rt(s, u, v);
    assert(sp_value(s, u) == Some((v, m)));
    assert(sp_ws(s, m) == m);
    if idx + 1 < ps.len() {
        assert(s[m] == ',');
        lemma_seg_slice(s, i, kw.len() + 1 + vw.len() + 1int, seg.len() as int, seg);
        assert(seg.subrange(kw.len() + 1 + vw.len() + 1int, seg.len() as int) =~= spec_write_members(
            ps,
            idx + 1,
        ) + seq!['}']);
        lemma_members_rt(s, m + 1, ps, idx + 1);
        assert(seq![(key, v)] + ps.subrange(idx + 1, ps.len() as int) =~= ps.subrange(
            idx,
            ps.len() as int,
        ));
        assert(sp_members(s, i) == Some((ps.subrange(idx, ps.len() as int), end)));
    } else {
        assert(rest =~= Seq::<char>::empty());
        assert(s[m] == '}');
        assert(m == end - 1);
        assert(seq![(key, v)] =~= ps.subrange(idx, ps.len() as int));
        assert(sp_members(s, i) == Some((ps.subrange(idx, ps.len() as int), end)));
    }
}

/// Reading back a whole document: the parser inverts the writer on
/// every well-formed value.
pub proof fn lemma_json_rt(v: JsonView)
    requires
        json_wf(v),
    ensures
        sp_json(spec_write(v)) == Some(v),
{
    let s = spec_write(v);
    lemma_write_starts(v);
    assert(s.subrange(0, s.len() as int) =~= s);
    assert(!is_ws(s[0]));
    assert(sp_ws(s, 0) == 0);
    lemma_value_rt(s, 0, v);
    assert(sp_value(s, 0) == Some((v, s.len() as int)));
    assert(sp_ws(s, s.len() as int) == s.len());
}

/// Appending a character extends the escaped body by that character's
/// escape.
pub proof fn lemma_esc_str_push(s: Seq<char>, c: char)
    ensures
        esc_str(s.push(c)) == esc_str(s) + esc_char(c),
    decreases s.len(),
{
    if s.len() == 0 {
        assert(s.push(c)[0] == c);
        assert(s.push(c).drop_first() =~= Seq::<char>::empty());
        assert(esc_str(s.push(c)) == esc_char(c) + esc_str(Seq::<char>::empty()));
        assert(esc_char(c) + Seq::<char>::empty() =~= esc_char(c));
        assert(esc_str(s) + esc_char(c) =~= esc_char(c));
    } else {
        assert(s.push(c).drop_first() =~= s.drop_first().push(c));
        lemma_esc_str_push(s.drop_first(), c);
        assert(esc_str(s.push(c)) =~= esc_char(s[0]) + (esc_str(s.drop_first()) + esc_char(c)));
        assert(esc_char(s[0]) + (esc_str(s.drop_first()) + esc_char(c)) =~= (esc_char(s[0])
            + esc_str(s.drop_first())) + esc_char(c));
    }
}

/// The lower-case hexadecimal digit for `n`.
fn hex_digit_char(n: u32) -> (r: char)
    requires
        n < 16,
    ensures
        r == hex_digit(n),
{
    if n == 0 {
        '0'
    } else if n == 1 {
        '1'
    } else if n == 2 {
        '2'
    } else if n == 3 {
        '3'
    } else if n == 4 {
        '4'
    } else if n == 5 {
        '5'
    } else if n == 6 {
        '6'
    } else if n == 7 {
        '7'
    } else if n == 8 {
        '8'
    } else if n == 9 {
        '9'
    } else if n == 10 {
        'a'
    } else if n == 11 {
        'b'
    } else if n == 12 {
        'c'
    } else if n == 13 {
        'd'
    } else if n == 14 {
        'e'
    } else {
        'f'
    }
}

/// Writes the escape of one string character.
fn write_escaped_char(c: char, out: &mut Vec<char>)
    ensures
        final(out)@ == old(out)@ + esc_char(c),
{
    if c == '"' {
        out.push('\\');
        out.push('"');
    } else if c == '\\' {
        out.push('\\');
        out.push('\\');
    } else if c == '\u{8}' {
        out.push('\\');
        out.push('b');
    } else if c == '\u{9}' {
        out.push('\\');
        out.push('t');
    } else if c == '\u{a}' {
        out.push('\\');
        out.push('n');
    } else if c == '\u{c}' {
        out.push('\\');
        out.push('f');
    } else if c == '\u{d}' {
        out.push('\\');
        out.push('r');
    } else if (c as u32) < 0x20 {
        out.push('\\');
        out.push('u');
        out.push('0');
        out.push('0');
        out.push(hex_digit_char((c as u32) / 16));
        out.push(hex_digit_char((c as u32) % 16));
    } else {
        out.push(c);
    }
    assert(final(out)@ =~= old(out)@ + esc_char(c));
}

/// Writes a JSON string, quotes and escapes included.
fn write_json_string(s: &str, out: &mut Vec<char>)
    ensures
        final(out)@ == old(out)@ + spec_write_string(s@),
{
    out.push('"');
    let n: usize = s.unicode_len();
    let mut i: usize = 0;
    while i < n
        invariant
            n == s@.len(),
            i <= n,
            out@ == old(out)@ + seq!['"'] + esc_str(s@.subrange(0, i as int)),
        decreases n - i,
    {
        let c = s.get_char(i);
        proof {
            lemma_esc_str_push(s@.subrange(0, i as int), c);
            assert(s@.subrange(0, i + 1 as int) =~= s@.subrange(0, i as int).push(s@[i as int]));
        }
        write_escaped_char(c, out);
        i = i + 1;
        assert(out@ =~= old(out)@ + seq!['"'] + esc_str(s@.subrange(0, i as int)));
    }
    out.push('"');
    proof {
        assert(s@.subrange(0, n as int) =~= s@);
        assert(final(out)@ =~= old(out)@ + spec_write_string(s@));
    }
}

/// Writes the characters of `s` unchanged.
fn write_raw_str(s: &str, out: &mut Vec<char>)
    ensures
        final(out)@ == old(out)@ + s@,
{
    let n: usize = s.unicode_len();
    let mut i: usize = 0;
    while i < n
        invariant
            n == s@.len(),
            i <= n,
            out@ == old(out)@ + s@.subrange(0, i as int),
        decreases n - i,
    {
        let c = s.get_char(i);
        out.push(c);
        proof {
            assert(s@.subrange(0, i + 1 as int) =~= s@.subrange(0, i as int).push(s@[i as int]));
        }
        i = i + 1;
        assert(out@ =~= old(out)@ + s@.subrange(0, i as int));
    }
    assert(s@.subrange(0, n as int) =~= s@);
}

/// Writes the text of a document: the compact form, without whitespace.
pub fn write_json(v: &JsonValue, out: &mut Vec<char>)
    ensures
        final(out)@ == old(out)@ + spec_write(v@),
    decreases v, 0int,
{
    match v {
        JsonValue::Null => {
            out.push('n');
            out.push('u');
            out.push('l');
            out.push('l');
            assert(final(out)@ =~= old(out)@ + spec_write(v@));
        },
        JsonValue::Bool(b) => {
            if *b {
                out.push('t');
                out.push('r');
                out.push('u');
                out.push('e');
            } else {
                out.push('f');
                out.push('a');
                out.push('l');
                out.push('s');
                out.push('e');
            }
            assert(final(out)@ =~= old(out)@ + spec_write(v@));
        },
        JsonValue::Number(t) => {
            write_raw_str(t.as_str(), out);
        },
        JsonValue::Text(s) => {
            write_json_string(s.as_str(), out);
        },
        JsonValue::Array(es) => {
            out.push('[');
            if es.len() > 0 {
                write_json_elems(es, 0, out);
            }
            out.push(']');
            assert(final(out)@ =~= old(out)@ + spec_write(v@));
        },
        JsonValue::Object(ps) => {
            out.push('{');
            if ps.len() > 0 {
                write_json_members(ps, 0, out);
            }
            out.push('}');
            assert(final(out)@ =~= old(out)@ + spec_write(v@));
        },
    }
}

/// Writes the array elements from `i` on, separated by commas.
fn write_json_elems(es: &Vec<JsonValue>, i: usize, out: &mut Vec<char>)
    requires
        i < es@.len(),
    ensures
        final(out)@ == old(out)@ + spec_write_elems(elem_views(es@), i as int),
    decreases es, es@.len() - i + 1,
{
    let n = es.len();
    write_json(&es[i], out);
    if n - i > 1 {
        out.push(',');
        write_json_elems(es, i + 1, out);
    }
    assert(final(out)@ =~= old(out)@ + spec_write_elems(elem_views(es@), i as int));
}

/// Writes the object members from `i` on, separated by commas.
fn write_json_members(ps: &Vec<(String, JsonValue)>, i: usize, out: &mut Vec<char>)
    requires
        i < ps@.len(),
    ensures
        final(out)@ == old(out)@ + spec_write_members(member_views(ps@), i as int),
    decreases ps, ps@.len() - i + 1,
{
    let n = ps.len();
    write_json_string(ps[i].0.as_str(), out);
    out.push(':');
    write_json(&ps[i].1, out);
    if n - i > 1 {
        out.push(',');
        write_json_members(ps, i + 1, out);
    }
    assert(final(out)@ =~= old(out)@ + spec_write_members(member_views(ps@), i as int));
}

/// Skips whitespace from `i` on.
fn e_ws(s: &Vec<char>, i: usize) -> (r: usize)
    requires
        i <= s@.len(),
    ensures
        r as int == sp_ws(s@, i as int),
        i <= r <= s@.len(),
{
    let mut cur = i;
    while cur < s.len() && (s[cur] == ' ' || s[cur] == '\t' || s[cur] == '\n' || s[cur] == '\r')
        invariant
            i <= cur <= s@.len(),
            sp_ws(s@, i as int) == sp_ws(s@, cur as int),
        decreases s@.len() - cur,
    {
        cur = cur + 1;
    }
    cur
}

/// The value of a hexadecimal digit.
fn e_hex_val(c: char) -> (r: Option<u32>)
    ensures
        r == hex_val(c),
{
    let u = c as u32;
    if 0x30 <= u && u <= 0x39 {
        Some(u - 0x30)
    } else if 0x61 <= u && u <= 0x66 {
        Some(u - 0x57)
    } else if 0x41 <= u && u <= 0x46 {
        Some(u - 0x37)
    } else {
        None
    }
}

/// The value of the four hexadecimal digits at `i`.
fn e_hex4(s: &Vec<char>, i: usize) -> (r: Option<u32>)
    requires
        i <= s@.len(),
    ensures
        r == sp_hex4(s@, i as int),
{
    if s.len() - i < 4 {
        return None;
    }
    let a = e_hex_val(s[i]);
    let b = e_hex_val(s[i + 1]);
    let c = e_hex_val(s[i + 2]);
    let d = e_hex_val(s[i + 3]);
    match (a, b, c, d) {
        (Some(a), Some(b), Some(c), Some(d)) => Some(a * 0x1000 + b * 0x100 + c * 0x10 + d),
        _ => None,
    }
}

/// The character named by a short escape, if the letter names one.
fn e_unesc_short(c: char) -> (r: Option<char>)
    ensures
        r == unesc_short(c),
{
    if c == '"' {
        Some('"')
    } else if c == '\\' {
        Some('\\')
    } else if c == '/' {
        Some('/')
    } else if c == 'b' {
        Some('\u{8}')
    } else if c == 'f' {
        Some('\u{c}')
    } else if c == 'n' {
        Some('\u{a}')
    } else if c == 'r' {
        Some('\u{d}')
    } else if c == 't' {
        Some('\u{9}')
    } else {
        None
    }
}

/// The end of the run of digits that starts at `i`.
fn e_digits_end(t: &Vec<char>, i: usize) -> (r: usize)
    requires
        i <= t@.len(),
    ensures
        r as int == digits_end(t@, i as int),
        i <= r <= t@.len(),
{
    let mut cur = i;
    while cur < t.len() && 0x30 <= t[cur] as u32 && t[cur] as u32 <= 0x39
        invariant
            i <= cur <= t@.len(),
            digits_end(t@, i as int) == digits_end(t@, cur as int),
        decreases t@.len() - cur,
    {
        cur = cur + 1;
    }
    cur
}

/// Whether `t` is a JSON number literal.
fn e_num_wf(t: &Vec<char>) -> (r: bool)
    ensures
        r == json_num_wf(t@),
{
    let n = t.len();
    let s: usize = if n > 0 && t[0] == '-' {
        1
    } else {
        0
    };
    let int_end: usize;
    if s < n && t[s] == '0' {
        int_end = s + 1;
    } else if s < n && 0x30 <= t[s] as u32 && t[s] as u32 <= 0x39 {
        int_end = e_digits_end(t, s);
    } else {
        return false;
    }
    let frac_end: usize;
    if int_end < n && t[int_end] == '.' {
        if int_end + 1 < n && 0x30 <= t[int_end + 1] as u32 && t[int_end + 1] as u32 <= 0x39 {
            frac_end = e_digits_end(t, int_end + 1);
        } else {
            return false;
        }
    } else {
        frac_end = int_end;
    }
    let exp_end: usize;
    if frac_end < n && (t[frac_end] == 'e' || t[frac_end] == 'E') {
        let es: usize = if frac_end + 1 < n && (t[frac_end + 1] == '+' || t[frac_end + 1] == '-') {
            frac_end + 2
        } else {
            frac_end + 1
        };
        if es < n && 0x30 <= t[es] as u32 && t[es] as u32 <= 0x39 {
            exp_end = e_digits_end(t, es);
        } else {
            return false;
        }
    } else {
        exp_end = frac_end;
    }
    exp_end == n
}

/// Copies `s[from..to]` into a fresh vector.
fn copy_range(s: &Vec<char>, from: usize, to: usize) -> (r: Vec<char>)
    requires
        from <= to <= s@.len(),
    ensures
        r@ == s@.subrange(from as int, to as int),
{
    let mut r: Vec<char> = Vec::new();
    let mut k = from;
    while k < to
        invariant
            from <= k <= to <= s@.len(),
            r@ == s@.subrange(from as int, k as int),
        decreases to - k,
    {
        r.push(s[k]);
        proof {
            assert(s@.subrange(from as int, k + 1 as int) =~= s@.subrange(
                from as int,
                k as int,
            ).push(s@[k as int]));
        }
        k = k + 1;
    }
    r
}

/// Reads a string body at `i` (after the opening quote).
fn e_string_body(s: &Vec<char>, i: usize) -> (r: Option<(Vec<char>, usize)>)
    requires
        i <= s@.len(),
    ensures
        match r {
            Some(t) => sp_string_body(s@, i as int) == Some((t.0@, t.1 as int)) && i < t.1
                <= s@.len(),
            None => sp_string_body(s@, i as int) is None,
        },
    decreases s@.len() - i,
{
    if i >= s.len() {
        return None;
    }
    let c = s[i];
    if c == '"' {
        let t: Vec<char> = Vec::new();
        Some((t, i + 1))
    } else if c == '\\' {
        if s.len() - i < 2 {
            return None;
        }
        let d = s[i + 1];
        if d == 'u' {
            match e_hex4(s, i + 2) {
                None => None,
                Some(u) => {
                    if 0xD800 <= u && u < 0xDC00 {
                        if s.len() - i >= 12 && s[i + 6] == '\\' && s[i + 7] == 'u' {
                            match e_hex4(s, i + 8) {
                                None => None,
                                Some(lo) => {
                                    if 0xDC00 <= lo && lo < 0xE000 {
                                        let code = 0x10000 + (u - 0xD800) * 0x400 + (lo - 0xDC00);
                                        match char_from_u32(code) {
                                            Some(cc) => match e_string_body(s, i + 12) {
                                                Some(rest) => {
                                                    let mut t = rest.0;
                                                    t.insert(0, cc);
                                                    proof {
                                                        assert(t@ =~= seq![cc] + rest.0@);
                                                    }
                                                    Some((t, rest.1))
                                                },
                                                None => None,
                                            },
                                            None => {
                                                proof {
                                                    assert(false);
                                                }
                                                None
                                            },
                                        }
                                    } else {
                                        None
                                    }
                                },
                            }
                        } else {
                            None
                        }
                    } else if 0xDC00 <= u && u < 0xE000 {
                        None
                    } else {
                        match char_from_u32(u) {
                            Some(cc) => match e_string_body(s, i + 6) {
                                Some(rest) => {
                                    let mut t = rest.0;
                                    t.insert(0, cc);
                                    proof {
                                        assert(t@ =~= seq![cc] + rest.0@);
                                    }
                                    Some((t, rest.1))
                                },
                                None => None,
                            },
                            None => {
                                proof {
                                    assert(false);
                                }
                                None
                            },
                        }
                    }
                },
            }
        } else {
            match e_unesc_short(d) {
                Some(cc) => match e_string_body(s, i + 2) {
                    Some(rest) => {
                        let mut t = rest.0;
                        t.insert(0, cc);
                        proof {
                            assert(t@ =~= seq![cc] + rest.0@);
                        }
                        Some((t, rest.1))
                    },
                    None => None,
                },
                None => None,
            }
        }
    } else if (c as u32) < 0x20 {
        None
    } else {
        match e_string_body(s, i + 1) {
            Some(rest) => {
                let mut t = rest.0;
                t.insert(0, c);
                proof {
                    assert(t@ =~= seq![c] + rest.0@);
                }
                Some((t, rest.1))
            },
            None => None,
        }
    }
}

/// Reads one value at `i`.
#[verifier::rlimit(60)]
fn e_value(s: &Vec<char>, i: usize) -> (r: Option<(JsonValue, usize)>)
    requires
        i <= s@.len(),
    ensures
        match r {
            Some(t) => sp_value(s@, i as int) == Some((t.0@, t.1 as int)) && i < t.1 <= s@.len(),
            None => sp_value(s@, i as int) is None,
        },
    decreases s@.len() - i, 0int,
{
    if i >= s.len() {
        return None;
    }
    let c = s[i];
    if c == 'n' {
        if s.len() - i >= 4 && s[i + 1] == 'u' && s[i + 2] == 'l' && s[i + 3] == 'l' {
            proof {
                assert(s@.subrange(i as int, i + 4 as int) =~= seq!['n', 'u', 'l', 'l']);
            }
            Some((JsonValue::Null, i + 4))
        } else {
            proof {
                if i + 4 <= s@.len() {
                    assert(s@.subrange(i as int, i + 4 as int) != seq!['n', 'u', 'l', 'l']) by {
                        if s@.subrange(i as int, i + 4 as int) == seq!['n', 'u', 'l', 'l'] {
                            assert(s@.subrange(i as int, i + 4 as int)[1] == 'u');
                            assert(s@.subrange(i as int, i + 4 as int)[2] == 'l');
                            assert(s@.subrange(i as int, i + 4 as int)[3] == 'l');
                        }
                    }
                }
            }
            None
        }
    } else if c == 't' {
        if s.len() - i >= 4 && s[i + 1] == 'r' && s[i + 2] == 'u' && s[i + 3] == 'e' {
            proof {
                assert(s@.subrange(i as int, i + 4 as int) =~= seq!['t', 'r', 'u', 'e']);
            }
            Some((JsonValue::Bool(true), i + 4))
        } else {
            proof {
                if i + 4 <= s@.len() {
                    assert(s@.subrange(i as int, i + 4 as int) != seq!['t', 'r', 'u', 'e']) by {
                        if s@.subrange(i as int, i + 4 as int) == seq!['t', 'r', 'u', 'e'] {
                            assert(s@.subrange(i as int, i + 4 as int)[1] == 'r');
                            assert(s@.subrange(i as int, i + 4 as int)[2] == 'u');
                            assert(s@.subrange(i as int, i + 4 as int)[3] == 'e');
                        }
                    }
                }
            }
            None
        }
    } else if c == 'f' {
        if s.len() - i >= 5 && s[i + 1] == 'a' && s[i + 2] == 'l' && s[i + 3] == 's' && s[i + 4]
            == 'e' {
            proof {
                assert(s@.subrange(i as int, i + 5 as int) =~= seq!['f', 'a', 'l', 's', 'e']);
            }
            Some((JsonValue::Bool(false), i + 5))
        } else {
            proof {
                if i + 5 <= s@.len() {
                    assert(s@.subrange(i as int, i + 5 as int) != seq!['f', 'a', 'l', 's', 'e'])
                        by {
                        if s@.subrange(i as int, i + 5 as int) == seq!['f', 'a', 'l', 's', 'e'] {
                            assert(s@.subrange(i as int, i + 5 as int)[1] == 'a');
                            assert(s@.subrange(i as int, i + 5 as int)[2] == 'l');
                            assert(s@.subrange(i as int, i + 5 as int)[3] == 's');
                            assert(s@.subrange(i as int, i + 5 as int)[4] == 'e');
                        }
                    }
                }
            }
            None
        }
    } else if c == '"' {
        match e_string_body(s, i + 1) {
            Some(t) => Some((JsonValue::Text(chars_to_string(&t.0)), t.1)),
            None => None,
        }
    } else if c == '-' || (0x30 <= c as u32 && c as u32 <= 0x39) {
        let j = e_num_scan(s, i);
        let txt = copy_range(s, i, j);
        if e_num_wf(&txt) {
            Some((JsonValue::Number(chars_to_string(&txt)), j))
        } else {
            None
        }
    } else if c == '[' {
        let j = e_ws(s, i + 1);
        if j < s.len() && s[j] == ']' {
            let es: Vec<JsonValue> = Vec::new();
            proof {
                assert(elem_views(es@) =~= Seq::<JsonView>::empty());
            }
            Some((JsonValue::Array(es), j + 1))
        } else {
            match e_elems(s, i + 1) {
                Some(t) => Some((JsonValue::Array(t.0), t.1)),
                None => None,
            }
        }
    } else if c == '{' {
        let j = e_ws(s, i + 1);
        if j < s.len() && s[j] == '}' {
            let ps: Vec<(String, JsonValue)> = Vec::new();
            proof {
                assert(member_views(ps@) =~= Seq::<(Seq<char>, JsonView)>::empty());
            }
            Some((JsonValue::Object(ps), j + 1))
        } else {
            match e_members(s, i + 1) {
                Some(t) => Some((JsonValue::Object(t.0), t.1)),
                None => None,
            }
        }
    } else {
        None
    }
}

/// The end of the run of number characters that starts at `i`.
fn e_num_scan(s: &Vec<char>, i: usize) -> (r: usize)
    requires
        i <= s@.len(),
    ensures
        r as int == num_end(s@, i as int),
        i <= r <= s@.len(),
{
    let mut cur = i;
    while cur < s.len() && e_is_num_char(s[cur])
        invariant
            i <= cur <= s@.len(),
            num_end(s@, i as int) == num_end(s@, cur as int),
        decreases s@.len() - cur,
    {
        cur = cur + 1;
    }
    cur
}

/// A character that can occur in a number literal.
fn e_is_num_char(c: char) -> (r: bool)
    ensures
        r == is_num_char(c),
{
    (0x30 <= c as u32 && c as u32 <= 0x39) || c == '-' || c == '+' || c == '.' || c == 'e' || c
        == 'E'
}

/// Reads a non-empty element list at `i`, closing bracket included.
fn e_elems(s: &Vec<char>, i: usize) -> (r: Option<(Vec<JsonValue>, usize)>)
    requires
        i <= s@.len(),
    ensures
        match r {
            Some(t) => sp_elems(s@, i as int) == Some((elem_views(t.0@), t.1 as int)) && i < t.1
                <= s@.len(),
            None => sp_elems(s@, i as int) is None,
        },
    decreases s@.len() - i, 1int,
{
    let j = e_ws(s, i);
    match e_value(s, j) {
        None => None,
        Some(tv) => {
            let v = tv.0;
            let k = tv.1;
            let w = e_ws(s, k);
            if w < s.len() && s[w] == ',' {
                match e_elems(s, w + 1) {
                    Some(tr) => {
                        let mut es = tr.0;
                        es.insert(0, v);
                        proof {
                            assert(elem_views(es@) =~= seq![v@] + elem_views(tr.0@));
                        }
                        Some((es, tr.1))
                    },
                    None => None,
                }
            } else if w < s.len() && s[w] == ']' {
                let mut es: Vec<JsonValue> = Vec::new();
                es.push(v);
                proof {
                    assert(elem_views(es@) =~= seq![es@[0]@]);
                }
                Some((es, w + 1))
            } else {
                None
            }
        },
    }
}

/// Reads a non-empty member list at `i`, closing brace included.
fn e_members(s: &Vec<char>, i: usize) -> (r: Option<(Vec<(String, JsonValue)>, usize)>)
    requires
        i <= s@.len(),
    ensures
        match r {
            Some(t) => sp_members(s@, i as int) == Some((member_views(t.0@), t.1 as int)) && i
                < t.1 <= s@.len(),
            None => sp_members(s@, i as int) is None,
        },
    decreases s@.len() - i, 1int,
{
    let j = e_ws(s, i);
    if !(j < s.len() && s[j] == '"') {
        return None;
    }
    match e_string_body(s, j + 1) {
        None => None,
        Some(tk) => {
            let key = chars_to_string(&tk.0);
            let k = tk.1;
            let w = e_ws(s, k);
            if !(w < s.len() && s[w] == ':') {
                return None;
            }
            let u = e_ws(s, w + 1);
            match e_value(s, u) {
                None => None,
                Some(tv) => {
                    let v = tv.0;
                    let m = tv.1;
                    let t = e_ws(s, m);
                    if t < s.len() && s[t] == ',' {
                        match e_members(s, t + 1) {
                            Some(tr) => {
                                let mut ps = tr.0;
                                ps.insert(0, (key, v));
                                proof {
                                    assert(member_views(ps@) =~= seq![(ps@[0].0@, ps@[0].1@)]
                                        + member_views(tr.0@));
                                }
                                Some((ps, tr.1))
                            },
                            None => None,
                        }
                    } else if t < s.len() && s[t] == '}' {
                        let mut ps: Vec<(String, JsonValue)> = Vec::new();
                        ps.push((key, v));
                        proof {
                            assert(member_views(ps@) =~= seq![(ps@[0].0@, ps@[0].1@)]);
                        }
                        Some((ps, t + 1))
                    } else {
                        None
                    }
                },
            }
        },
    }
}

/// Reads a whole document from a character sequence.
pub fn parse_json_chars(s: &Vec<char>) -> (r: Option<JsonValue>)
    ensures
        match r {
            Some(v) => sp_json(s@) == Some(v@),
            None => sp_json(s@) is None,
        },
{
    let i = e_ws(s, 0);
    match e_value(s, i) {
        None => None,
        Some(tv) => {
            let w = e_ws(s, tv.1);
            if w == s.len() {
                Some(tv.0)
            } else {
                None
            }
        },
    }
}

/// Turns a string into its character sequence.
pub fn str_to_chars(s: &str) -> (r: Vec<char>)
    ensures
        r@ == s@,
{
    let n: usize = s.unicode_len();
    let mut r: Vec<char> = Vec::new();
    let mut i: usize = 0;
    while i < n
        invariant
            n == s@.len(),
            i <= n,
            r@ == s@.subrange(0, i as int),
        decreases n - i,
    {
        r.push(s.get_char(i));
        proof {
            assert(s@.subrange(0, i + 1 as int) =~= s@.subrange(0, i as int).push(s@[i as int]));
        }
        i = i + 1;
    }
    proof {
        assert(s@.subrange(0, n as int) =~= s@);
    }
    r
}

/// Reads a whole document from a string: one value, possibly
/// surrounded by whitespace.
pub fn parse_json(s: &str) -> (r: Option<JsonValue>)
    ensures
        match r {
            Some(v) => sp_json(s@) == Some(v@),
            None => sp_json(s@) is None,
        },
{
    let cs = str_to_chars(s);
    parse_json_chars(&cs)
}

/// The first index at or after `i` whose key is `k`, or the length if
/// no member from `i` on has that key.
pub open spec fn obj_index_from(ps: Seq<(Seq<char>, JsonView)>, k: Seq<char>, i: int) -> int
    decreases ps.len() - i,
{
    if 0 <= i < ps.len() {
        if ps[i].0 == k {
            i
        } else {
            obj_index_from(ps, k, i + 1)
        }
    } else {
        ps.len() as int
    }
}

/// What looking a key up in an object yields: the value of the first
/// member with that key.
pub open spec fn obj_get(ps: Seq<(Seq<char>, JsonView)>, k: Seq<char>) -> Option<JsonView> {
    let i = obj_index_from(ps, k, 0);
    if i < ps.len() {
        Some(ps[i].1)
    } else {
        None
    }
}

/// Whole-tree well-formedness follows from well-formedness of every
/// element.
pub proof fn lemma_arr_wf_from_all(es: Seq<JsonView>, i: int)
    requires
        0 <= i <= es.len(),
        forall|t: int| i <= t < es.len() ==> #[trigger] json_wf(es[t]),
    ensures
        json_arr_wf(es, i),
    decreases es.len() - i,
{
    if i < es.len() {
        assert(json_wf(es[i]));
        lemma_arr_wf_from_all(es, i + 1);
    }
}

/// Whole-object well-formedness follows from well-formedness of every
/// member value.
pub proof fn lemma_obj_wf_from_all(ps: Seq<(Seq<char>, JsonView)>, i: int)
    requires
        0 <= i <= ps.len(),
        forall|t: int| i <= t < ps.len() ==> #[trigger] json_wf(ps[t].1),
    ensures
        json_obj_wf(ps, i),
    decreases ps.len() - i,
{
    if i < ps.len() {
        assert(json_wf(ps[i].1));
        lemma_obj_wf_from_all(ps, i + 1);
    }
}

/// Looks a key up in an object's member list: the value of the first
/// member with that key.
pub fn e_obj_get<'a>(ps: &'a Vec<(String, JsonValue)>, k: &str) -> (r: Option<&'a JsonValue>)
    ensures
        match r {
            Some(v) => obj_get(member_views(ps@), k@) == Some(v@),
            None => obj_get(member_views(ps@), k@) is None,
        },
{
    let ks = k.to_owned();
    let n = ps.len();
    let mut j: usize = 0;
    while j < n
        invariant
            ks@ == k@,
            n == ps@.len(),
            j <= n,
            obj_index_from(member_views(ps@), k@, 0) == obj_index_from(
                member_views(ps@),
                k@,
                j as int,
            ),
        decreases n - j,
    {
        let hit = ps[j].0 == ks;
        if hit {
            proof {
                assert(obj_index_from(member_views(ps@), k@, j as int) == j);
            }
            return Some(&ps[j].1);
        }
        proof {
            assert(member_views(ps@)[j as int].0 != k@);
        }
        j = j + 1;
    }
    None
}

/// A deep copy of a document.
pub fn clone_json(v: &JsonValue) -> (r: JsonValue)
    ensures
        r@ == v@,
    decreases v, 0int,
{
    match v {
        JsonValue::Null => JsonValue::Null,
        JsonValue::Bool(b) => JsonValue::Bool(*b),
        JsonValue::Number(t) => JsonValue::Number(t.clone()),
        JsonValue::Text(s) => JsonValue::Text(s.clone()),
        JsonValue::Array(es) => {
            let r = JsonValue::Array(clone_json_elems(es));
            proof {
                assert(r@ =~= v@);
            }
            r
        },
        JsonValue::Object(ps) => {
            let r = JsonValue::Object(clone_json_members(ps));
            proof {
                assert(r@ =~= v@);
            }
            r
        },
    }
}

/// A deep copy of a value sequence.
fn clone_json_elems(es: &Vec<JsonValue>) -> (r: Vec<JsonValue>)
    ensures
        elem_views(r@) == elem_views(es@),
        r@.len() == es@.len(),
    decreases es, 1int,
{
    let mut r: Vec<JsonValue> = Vec::new();
    let mut i: usize = 0;
    while i < es.len()
        invariant
            i <= es@.len(),
            r@.len() == i,
            forall|k: int| 0 <= k < i ==> r@[k]@ == #[trigger] es@[k]@,
        decreases es@.len() - i,
    {
        r.push(clone_json(&es[i]));
        i = i + 1;
    }
    proof {
        assert forall|k: int| 0 <= k < r@.len() implies elem_views(r@)[k] == elem_views(es@)[k] by {
            assert(r@[k]@ == es@[k]@);
        }
        assert(elem_views(r@) =~= elem_views(es@));
    }
    r
}

/// A deep copy of a member sequence.
fn clone_json_members(ps: &Vec<(String, JsonValue)>) -> (r: Vec<(String, JsonValue)>)
    ensures
        member_views(r@) == member_views(ps@),
        r@.len() == ps@.len(),
    decreases ps, 1int,
{
    let mut r: Vec<(String, JsonValue)> = Vec::new();
    let mut i: usize = 0;
    while i < ps.len()
        invariant
            i <= ps@.len(),
            r@.len() == i,
            forall|k: int|
                #![trigger r@[k]]
                0 <= k < i ==> r@[k].0@ == ps@[k].0@ && r@[k].1@ == ps@[k].1@,
        decreases ps@.len() - i,
    {
        r.push((ps[i].0.clone(), clone_json(&ps[i].1)));
        i = i + 1;
    }
    proof {
        assert forall|k: int| 0 <= k < r@.len() implies member_views(r@)[k] == member_views(
            ps@,
        )[k] by {
            assert(r@[k].0@ == ps@[k].0@ && r@[k].1@ == ps@[k].1@);
        }
        assert(member_views(r@) =~= member_views(ps@));
    }
    r
}

/// The text of a document, as a string.
pub fn json_to_string(v: &JsonValue) -> (r: String)
    ensures
        r@ == spec_write(v@),
{
    let mut out: Vec<char> = Vec::new();
    write_json(v, &mut out);
    chars_to_string(&out)
}

/// Collects a character sequence into a string.
pub fn chars_to_string(cs: &Vec<char>) -> (r: String)
    ensures
        r@ == cs@,
{
    let mut r = String::new();
    let mut i: usize = 0;
    while i < cs.len()
        invariant
            i <= cs@.len(),
            r@ == cs@.subrange(0, i as int),
        decreases cs@.len() - i,
    {
        push_char(&mut r, cs[i]);
        proof {
            assert(cs@.subrange(0, i + 1 as int) =~= cs@.subrange(0, i as int).push(cs@[i as int]));
        }
        i = i + 1;
    }
    proof {
        assert(cs@.subrange(0, cs@.len() as int) =~= cs@);
    }
    r
}

} // verus!


