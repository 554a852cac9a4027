//! A small JSON model and parser.
//!
//! Specs payloads arrive as text and are parsed here into `JsonValue`, the
//! crate's own value tree; all semantic contracts downstream are stated over
//! that tree. The parser accepts an ASCII JSON subset: strings with the
//! one-character escape sequences (`\u` escapes are not decoded),
//! numbers (non-integers kept as their lexeme), nesting up to a fixed
//! depth. Anything outside the subset is a parse failure, which the spec
//! store treats like any other malformed payload: the prior ruleset is
//! retained.

use vstd::prelude::*;
use vstd::string::StrSliceExecFns;
use vstd::string::StringExecFns;

use crate::hashing::string_eq_str;

verus! {

/// A JSON value: the object form is an ordered list of key/value pairs.
/// A number outside the 64-bit integers (a fraction, an exponent, an
/// overflowing magnitude) is held losslessly as its lexeme in `Num`.
#[derive(Debug)]
pub enum JsonValue {
    Null,
    Bool(bool),
    Int(i64),
    Num(String),
    Str(String),
    Arr(Vec<JsonValue>),
    Obj(Vec<(String, JsonValue)>),
}

/// Structural equality of JSON values, with strings compared by content.
/// This is the equality every contract about JSON payloads is stated in:
/// two `String`s with the same characters are the same JSON value.
pub open spec fn json_eq(a: JsonValue, b: JsonValue) -> bool
    decreases a,
{
    match (a, b) {
        (JsonValue::Null, JsonValue::Null) => true,
        (JsonValue::Bool(x), JsonValue::Bool(y)) => x == y,
        (JsonValue::Int(x), JsonValue::Int(y)) => x == y,
        (JsonValue::Num(x), JsonValue::Num(y)) => x@ == y@,
        (JsonValue::Str(x), JsonValue::Str(y)) => x@ == y@,
        (JsonValue::Arr(x), JsonValue::Arr(y)) => {
            &&& x@.len() == y@.len()
            &&& forall|i: int| 0 <= i < x@.len() ==> json_eq(#[trigger] x@[i], y@[i])
        },
        (JsonValue::Obj(x), JsonValue::Obj(y)) => {
            &&& x@.len() == y@.len()
            &&& forall|i: int|
                0 <= i < x@.len() ==> (#[trigger] x@[i]).0@ == y@[i].0@ && json_eq(
                    x@[i].1,
                    y@[i].1,
                )
        },
        _ => false,
    }
}

/// `json_eq` is reflexive.
pub proof fn lemma_json_eq_refl(a: JsonValue)
    ensures
        json_eq(a, a),
    decreases a,
{
    match a {
        JsonValue::Arr(x) => {
            assert forall|i: int| 0 <= i < x@.len() implies json_eq(#[trigger] x@[i], x@[i]) by {
                lemma_json_eq_refl(x@[i]);
            }
        },
        JsonValue::Obj(x) => {
            assert forall|i: int|
                0 <= i < x@.len() implies (#[trigger] x@[i]).0@ == x@[i].0@ && json_eq(
                x@[i].1,
                x@[i].1,
            ) by {
                lemma_json_eq_refl(x@[i].1);
            }
        },
        _ => {},
    }
}

/// `json_eq` is symmetric.
pub proof fn lemma_json_eq_sym(a: JsonValue, b: JsonValue)
    requires
        json_eq(a, b),
    ensures
        json_eq(b, a),
    decreases a,
{
    match (a, b) {
        (JsonValue::Arr(x), JsonValue::Arr(y)) => {
            assert forall|i: int| 0 <= i < y@.len() implies json_eq(#[trigger] y@[i], x@[i]) by {
                lemma_json_eq_sym(x@[i], y@[i]);
            }
        },
        (JsonValue::Obj(x), JsonValue::Obj(y)) => {
            assert forall|i: int|
                0 <= i < y@.len() implies (#[trigger] y@[i]).0@ == x@[i].0@ && json_eq(
                y@[i].1,
                x@[i].1,
            ) by {
                lemma_json_eq_sym(x@[i].1, y@[i].1);
            }
        },
        _ => {},
    }
}

/// `json_eq` is transitive.
pub proof fn lemma_json_eq_trans(a: JsonValue, b: JsonValue, c: JsonValue)
    requires
        json_eq(a, b),
        json_eq(b, c),
    ensures
        json_eq(a, c),
    decreases a,
{
    match (a, b, c) {
        (JsonValue::Arr(x), JsonValue::Arr(y), JsonValue::Arr(z)) => {
            assert forall|i: int| 0 <= i < x@.len() implies json_eq(#[trigger] x@[i], z@[i]) by {
                assert(json_eq(x@[i], y@[i]));
                assert(json_eq(y@[i], z@[i]));
                lemma_json_eq_trans(x@[i], y@[i], z@[i]);
            }
        },
        (JsonValue::Obj(x), JsonValue::Obj(y), JsonValue::Obj(z)) => {
            assert forall|i: int|
                0 <= i < x@.len() implies (#[trigger] x@[i]).0@ == z@[i].0@ && json_eq(
                x@[i].1,
                z@[i].1,
            ) by {
                assert(x@[i].0@ == y@[i].0@ && json_eq(x@[i].1, y@[i].1));
                assert(y@[i].0@ == z@[i].0@ && json_eq(y@[i].1, z@[i].1));
                lemma_json_eq_trans(x@[i].1, y@[i].1, z@[i].1);
            }
        },
        _ => {},
    }
}

/// First value for `key` in an association list, front to back.
pub open spec fn spec_assoc_get<V>(entries: Seq<(String, V)>, key: Seq<char>) -> Option<V>
    decreases entries.len(),
{
    if entries.len() == 0 {
        None
    } else if entries.first().0@ == key {
        Some(entries.first().1)
    } else {
        spec_assoc_get(entries.drop_first(), key)
    }
}

/// First value for `key` in an association list of JSON values.
pub fn assoc_get<'a>(entries: &'a Vec<(String, JsonValue)>, key: &str) -> (r: Option<
    &'a JsonValue,
>)
    ensures
        match r {
            Some(v) => spec_assoc_get(entries@, key@) == Some(*v),
            None => spec_assoc_get(entries@, key@) is None,
        },
{
    let n = entries.len();
    proof {
        assert(entries@.skip(0) =~= entries@);
    }
    for j in 0..n
        invariant
            n == entries@.len(),
            spec_assoc_get(entries@, key@) == spec_assoc_get(entries@.skip(j as int), key@),
    {
        if string_eq_str(&entries[j].0, key) {
            proof {
                assert(entries@.skip(j as int).first() == entries@[j as int]);
            }
            return Some(&entries[j].1);
        }
        proof {
            assert(entries@.skip(j as int).drop_first() =~= entries@.skip(j + 1));
        }
    }
    proof {
        assert(entries@.skip(n as int) =~= Seq::<(String, JsonValue)>::empty());
    }
    None
}

impl JsonValue {
    /// Field of a JSON object, `None` on any other kind of value.
    pub open spec fn spec_obj_get(&self, key: Seq<char>) -> Option<JsonValue> {
        match self {
            JsonValue::Obj(entries) => spec_assoc_get(entries@, key),
            _ => None,
        }
    }

    /// Field of a JSON object, `None` on any other kind of value.
    pub fn obj_get<'a>(&'a self, key: &str) -> (r: Option<&'a JsonValue>)
        ensures
            match r {
                Some(v) => self.spec_obj_get(key@) == Some(*v),
                None => self.spec_obj_get(key@) is None,
            },
    {
        match self {
            JsonValue::Obj(entries) => assoc_get(entries, key),
            _ => None,
        }
    }

    /// The string payload, if this is a string.
    pub fn as_str<'a>(&'a self) -> (r: Option<&'a String>)
        ensures
            match r {
                Some(s) => *self == JsonValue::Str(*s),
                None => !(self is Str),
            },
    {
        match self {
            JsonValue::Str(s) => Some(s),
            _ => None,
        }
    }

    /// The integer payload, if this is a number.
    pub fn as_int(&self) -> (r: Option<i64>)
        ensures
            match r {
                Some(n) => *self == JsonValue::Int(n),
                None => !(self is Int),
            },
    {
        match self {
            JsonValue::Int(n) => Some(*n),
            _ => None,
        }
    }

    /// The boolean payload, if this is a boolean.
    pub fn as_bool(&self) -> (r: Option<bool>)
        ensures
            match r {
                Some(b) => *self == JsonValue::Bool(b),
                None => !(self is Bool),
            },
    {
        match self {
            JsonValue::Bool(b) => Some(*b),
            _ => None,
        }
    }

    /// The elements, if this is an array.
    pub fn as_array<'a>(&'a self) -> (r: Option<&'a Vec<JsonValue>>)
        ensures
            match r {
                Some(v) => *self == JsonValue::Arr(*v),
                None => !(self is Arr),
            },
    {
        match self {
            JsonValue::Arr(v) => Some(v),
            _ => None,
        }
    }

    /// The key/value pairs, if this is an object.
    pub fn as_object<'a>(&'a self) -> (r: Option<&'a Vec<(String, JsonValue)>>)
        ensures
            match r {
                Some(v) => *self == JsonValue::Obj(*v),
                None => !(self is Obj),
            },
    {
        match self {
            JsonValue::Obj(v) => Some(v),
            _ => None,
        }
    }

    /// A structurally equal copy of this value.
    pub fn deep_clone(&self) -> (r: JsonValue)
        ensures
            json_eq(*self, r),
        decreases self,
    {
        match self {
            JsonValue::Null => JsonValue::Null,
            JsonValue::Bool(b) => JsonValue::Bool(*b),
            JsonValue::Int(n) => JsonValue::Int(*n),
            JsonValue::Num(s) => JsonValue::Num(s.clone()),
            JsonValue::Str(s) => JsonValue::Str(s.clone()),
            JsonValue::Arr(items) => {
                let mut out: Vec<JsonValue> = Vec::new();
                let n = items.len();
                for j in 0..n
                    invariant
                        *self == JsonValue::Arr(*items),
                        n == items@.len(),
                        out@.len() == j,
                        forall|k: int| 0 <= k < j ==> json_eq(items@[k], #[trigger] out@[k]),
                    decreases n - j,
                {
                    proof {
                        broadcast use vstd::std_specs::vec::group_vec_axioms;
                        broadcast use vstd::seq::axiom_seq_index_decreases;

                        assert(decreases_to!(*self => self->Arr_0));
                        assert(decreases_to!(*items => items@));
                        assert(decreases_to!(items@ => items@[j as int]));
                    }
                    out.push(items[j].deep_clone());
                }
                JsonValue::Arr(out)
            },
            JsonValue::Obj(entries) => {
                let mut out: Vec<(String, JsonValue)> = Vec::new();
                let n = entries.len();
                for j in 0..n
                    invariant
                        *self == JsonValue::Obj(*entries),
                        n == entries@.len(),
                        out@.len() == j,
                        forall|k: int|
                            0 <= k < j ==> (#[trigger] out@[k]).0@ == entries@[k].0@ && json_eq(
                                entries@[k].1,
                                out@[k].1,
                            ),
                    decreases n - j,
                {
                    proof {
                        broadcast use vstd::std_specs::vec::group_vec_axioms;
                        broadcast use vstd::seq::axiom_seq_index_decreases;

                        assert(decreases_to!(*self => self->Obj_0));
                        assert(decreases_to!(*entries => entries@));
                        assert(decreases_to!(entries@ => entries@[j as int]));
                        assert(decreases_to!(entries@[j as int] => entries@[j as int].1));
                    }
                    out.push((entries[j].0.clone(), entries[j].1.deep_clone()));
                }
                JsonValue::Obj(out)
            },
        }
    }
}


/// ASCII byte codes the parser dispatches on.
const B_SPACE: u8 = 32;
const B_TAB: u8 = 9;
const B_NEWLINE: u8 = 10;
const B_RETURN: u8 = 13;
const B_QUOTE: u8 = 34;
const B_BACKSLASH: u8 = 92;
const B_ZERO: u8 = 48;
const B_NINE: u8 = 57;
const B_MINUS: u8 = 45;
const B_LOWER_N: u8 = 110;
const B_LOWER_T: u8 = 116;
const B_LOWER_F: u8 = 102;
const B_LBRACKET: u8 = 91;
const B_RBRACKET: u8 = 93;
const B_LBRACE: u8 = 123;
const B_RBRACE: u8 = 125;
const B_COMMA: u8 = 44;
const B_COLON: u8 = 58;
const B_SLASH: u8 = 47;
const B_DOT: u8 = 46;
const B_PLUS: u8 = 43;
const B_LOWER_R: u8 = 114;
const B_LOWER_B: u8 = 98;
const B_LOWER_E: u8 = 101;
const B_UPPER_E: u8 = 69;

/// Nesting bound of the parser.
pub const MAX_JSON_DEPTH: u32 = 64;

/// Length of an ASCII string, in characters (equal to its byte length).
fn ascii_len(s: &str) -> (n: usize)
    requires
        s.is_ascii(),
    ensures
        n == s@.len(),
{
    s.unicode_len()
}

/// Advance past blanks, tabs and line breaks.
fn skip_ws(s: &str, start: usize) -> (r: usize)
    requires
        s.is_ascii(),
        start <= s@.len(),
    ensures
        start <= r <= s@.len(),
{
    let n = ascii_len(s);
    let mut i = start;
    while i < n
        invariant
            s.is_ascii(),
            n == s@.len(),
            start <= i <= n,
        decreases n - i,
    {
        let c = s.get_ascii(i);
        if c == B_SPACE || c == B_TAB || c == B_NEWLINE || c == B_RETURN {
            i = i + 1;
        } else {
            return i;
        }
    }
    i
}

fn escape_char_str(code: u8) -> (r: Option<&'static str>)
{
    if code == B_QUOTE {
        Some("\"")
    } else if code == B_BACKSLASH {
        Some("\\")
    } else if code == B_SLASH {
        Some("/")
    } else if code == B_LOWER_N {
        Some("\n")
    } else if code == B_LOWER_T {
        Some("\t")
    } else if code == B_LOWER_R {
        Some("\r")
    } else if code == B_LOWER_B {
        Some("\u{0008}")
    } else if code == B_LOWER_F {
        Some("\u{000C}")
    } else {
        None
    }
}

/// Parse a string body starting at an opening quote, decoding the
/// one-character escape sequences; `\u` escapes and raw control
/// characters are outside the accepted subset.
fn parse_string_at(s: &str, start: usize) -> (r: Option<(String, usize)>)
    requires
        s.is_ascii(),
        start < s@.len(),
    ensures
        match r {
            Some(p) => start < p.1 <= s@.len(),
            None => true,
        },
{
    let n = ascii_len(s);
    if s.get_ascii(start) != B_QUOTE {
        return None;
    }
    let mut out = "".to_owned();
    let mut seg_start = start + 1;
    let mut k = start + 1;
    while k < n
        invariant
            s.is_ascii(),
            n == s@.len(),
            start + 1 <= seg_start <= k <= n,
        decreases n - k,
    {
        let c = s.get_ascii(k);
        if c == B_QUOTE {
            out.append(s.substring_ascii(seg_start, k));
            return Some((out, k + 1));
        }
        if c == B_BACKSLASH {
            if k + 1 >= n {
                return None;
            }
            let decoded = match escape_char_str(s.get_ascii(k + 1)) {
                Some(d) => d,
                None => {
                    return None;
                },
            };
            out.append(s.substring_ascii(seg_start, k));
            out.append(decoded);
            k = k + 2;
            seg_start = k;
        } else if c < 0x20 {
            return None;
        } else {
            k = k + 1;
        }
    }
    None
}

fn scan_digits(s: &str, start: usize) -> (r: usize)
    requires
        s.is_ascii(),
        start <= s@.len(),
    ensures
        start <= r <= s@.len(),
{
    let n = ascii_len(s);
    let mut i = start;
    while i < n
        invariant
            s.is_ascii(),
            n == s@.len(),
            start <= i <= n,
        decreases n - i,
    {
        let c = s.get_ascii(i);
        if c < B_ZERO || c > B_NINE {
            return i;
        }
        i = i + 1;
    }
    i
}

/// Parse a JSON number starting at `start`: an integer that fits 64 bits
/// becomes `Int`; a fraction, an exponent or an overflowing magnitude is
/// kept losslessly as a `Num` lexeme.
fn parse_number_at(s: &str, start: usize) -> (r: Option<(JsonValue, usize)>)
    requires
        s.is_ascii(),
        start < s@.len(),
    ensures
        match r {
            Some(p) => start < p.1 <= s@.len(),
            None => true,
        },
{
    let n = ascii_len(s);
    let mut i = start;
    let negative = s.get_ascii(i) == B_MINUS;
    if negative {
        i = i + 1;
    }
    let digits_start = i;
    let int_end = scan_digits(s, i);
    if int_end == digits_start {
        return None;
    }
    i = int_end;
    let mut plain_integer = true;
    if i < n && s.get_ascii(i) == B_DOT {
        let frac_end = scan_digits(s, i + 1);
        if frac_end == i + 1 {
            return None;
        }
        i = frac_end;
        plain_integer = false;
    }
    if i < n && (s.get_ascii(i) == B_LOWER_E || s.get_ascii(i) == B_UPPER_E) {
        let mut exp_start = i + 1;
        if exp_start < n && (s.get_ascii(exp_start) == B_PLUS || s.get_ascii(exp_start)
            == B_MINUS) {
            exp_start = exp_start + 1;
        }
        let exp_end = scan_digits(s, exp_start);
        if exp_end == exp_start {
            return None;
        }
        i = exp_end;
        plain_integer = false;
    }
    if plain_integer {
        let mut magnitude: u64 = 0;
        let mut j = digits_start;
        let mut fits = true;
        while j < int_end
            invariant
                s.is_ascii(),
                int_end <= s@.len(),
                digits_start <= j <= int_end,
                magnitude <= 0x7fff_ffff_ffff_ffff,
            decreases int_end - j,
        {
            let c = s.get_ascii(j);
            let d = if c >= B_ZERO && c <= B_NINE {
                (c - B_ZERO) as u64
            } else {
                0
            };
            if magnitude > (0x7fff_ffff_ffff_ffff - d) / 10 {
                fits = false;
                break ;
            }
            magnitude = magnitude * 10 + d;
            j = j + 1;
        }
        if fits {
            let value = if negative {
                -(magnitude as i64)
            } else {
                magnitude as i64
            };
            return Some((JsonValue::Int(value), i));
        }
    }
    let lexeme = s.substring_ascii(start, i);
    Some((JsonValue::Num(lexeme.to_owned()), i))
}

/// True iff the literal `lit` occurs in `s` at position `start`.
fn matches_lit_at(s: &str, start: usize, lit: &str) -> (r: bool)
    requires
        s.is_ascii(),
        lit.is_ascii(),
        start <= s@.len(),
    ensures
        r ==> start + lit@.len() <= s@.len(),
{
    let n = ascii_len(s);
    let m = ascii_len(lit);
    if m > n - start {
        return false;
    }
    for k in 0..m
        invariant
            s.is_ascii(),
            lit.is_ascii(),
            n == s@.len(),
            m == lit@.len(),
            start + m <= n,
    {
        if s.get_ascii(start + k) != lit.get_ascii(k) {
            return false;
        }
    }
    true
}

/// Parse one JSON value starting at `start`; on success the returned index
/// sits just past the value.
fn parse_value(s: &str, start: usize, depth: u32) -> (r: Option<(JsonValue, usize)>)
    requires
        s.is_ascii(),
        start <= s@.len(),
    ensures
        match r {
            Some(p) => start < p.1 <= s@.len(),
            None => true,
        },
    decreases depth,
{
    if depth == 0 {
        return None;
    }
    let n = ascii_len(s);
    let i = skip_ws(s, start);
    if i >= n {
        return None;
    }
    let c = s.get_ascii(i);
    if c == B_LOWER_N {
        proof {
            reveal_strlit("null");
            assert("null"@.len() == 4);
        }
        if matches_lit_at(s, i, "null") {
            return Some((JsonValue::Null, i + 4));
        }
        return None;
    }
    if c == B_LOWER_T {
        proof {
            reveal_strlit("true");
            assert("true"@.len() == 4);
        }
        if matches_lit_at(s, i, "true") {
            return Some((JsonValue::Bool(true), i + 4));
        }
        return None;
    }
    if c == B_LOWER_F {
        proof {
            reveal_strlit("false");
            assert("false"@.len() == 5);
        }
        if matches_lit_at(s, i, "false") {
            return Some((JsonValue::Bool(false), i + 5));
        }
        return None;
    }
    if c == B_QUOTE {
        return match parse_string_at(s, i) {
            Some((body, j)) => Some((JsonValue::Str(body), j)),
            None => None,
        };
    }
    if c == B_LBRACKET {
        let mut elements: Vec<JsonValue> = Vec::new();
        let mut j = skip_ws(s, i + 1);
        if j < n && s.get_ascii(j) == B_RBRACKET {
            return Some((JsonValue::Arr(elements), j + 1));
        }
        loop
            invariant
                s.is_ascii(),
                n == s@.len(),
                start <= i < j <= n,
                depth >= 1,
            decreases n - j,
        {
            let (element, after) = match parse_value(s, j, depth - 1) {
                Some(p) => p,
                None => {
                    return None;
                },
            };
            elements.push(element);
            let k = skip_ws(s, after);
            if k >= n {
                return None;
            }
            if s.get_ascii(k) == B_RBRACKET {
                return Some((JsonValue::Arr(elements), k + 1));
            }
            if s.get_ascii(k) != B_COMMA {
                return None;
            }
            if k + 1 <= j {
                return None;
            }
            j = k + 1;
        }
    }
    if c == B_LBRACE {
        let mut entries: Vec<(String, JsonValue)> = Vec::new();
        let mut j = skip_ws(s, i + 1);
        if j < n && s.get_ascii(j) == B_RBRACE {
            return Some((JsonValue::Obj(entries), j + 1));
        }
        loop
            invariant
                s.is_ascii(),
                n == s@.len(),
                start <= i < j <= n,
                depth >= 1,
            decreases n - j,
        {
            if j >= n {
                return None;
            }
            let (key, after_key) = match parse_string_at(s, j) {
                Some(p) => p,
                None => {
                    return None;
                },
            };
            let colon = skip_ws(s, after_key);
            if colon >= n || s.get_ascii(colon) != B_COLON {
                return None;
            }
            let (value, after) = match parse_value(s, colon + 1, depth - 1) {
                Some(p) => p,
                None => {
                    return None;
                },
            };
            entries.push((key, value));
            let k = skip_ws(s, after);
            if k >= n {
                return None;
            }
            if s.get_ascii(k) == B_RBRACE {
                return Some((JsonValue::Obj(entries), k + 1));
            }
            if s.get_ascii(k) != B_COMMA {
                return None;
            }
            let next = skip_ws(s, k + 1);
            if next <= j {
                return None;
            }
            j = next;
        }
    }
    if c == B_MINUS || (B_ZERO <= c && c <= B_NINE) {
        return parse_number_at(s, i);
    }
    None
}

/// Parse a complete JSON document from the accepted subset. `None` on any
/// input outside it, including trailing garbage and non-ASCII text.
pub fn parse_json(s: &str) -> (r: Option<JsonValue>)
    ensures
        !s.is_ascii() ==> r is None,
        s@.len() == 0 ==> r is None,
{
    if !s.is_ascii() {
        return None;
    }
    let n = ascii_len(s);
    match parse_value(s, 0, MAX_JSON_DEPTH) {
        Some((value, j)) => {
            let k = skip_ws(s, j);
            if k == n {
                Some(value)
            } else {
                None
            }
        },
        None => None,
    }
}

} // verus!
