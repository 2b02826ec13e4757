//! Parsing of wire text into JSON values.
//!
//! The grammar is the line protocol's JSON: literals, numbers kept as
//! their lexeme, strings with the short escapes, arrays and objects.
//! Unicode escape sequences are not accepted; the engine's output carries
//! its text as raw characters. The parser is exact: its result equals the
//! specification-level parse of the input.

use vstd::prelude::*;

use crate::json::{
    chars_of_str, field_reps_of, is_digit, lemma_field_reps_of, lemma_reps_of, reps_of,
    string_from_chars, JRep, JsonValue,
};

verus! {

/// Upper bound on the length of a line handed to the parser; longer
/// input is refused outright.
pub const LINE_LIMIT: usize = 0x1000_0000;

/// JSON whitespace.
pub open spec fn is_ws(c: char) -> bool {
    c == ' ' || c == '\t' || c == '\n' || c == '\r'
}

/// Index of the first non-whitespace character at or after `i`.
pub open spec fn sp_ws(s: Seq<char>, i: int) -> int
    decreases s.len() - i,
{
    if 0 <= i && i < s.len() && is_ws(s[i]) {
        sp_ws(s, i + 1)
    } else {
        i
    }
}

/// Index after the run of digits starting at `i`.
pub open spec fn sp_digits(s: Seq<char>, i: int) -> int
    decreases s.len() - i,
{
    if 0 <= i && i < s.len() && is_digit(s[i]) {
        sp_digits(s, i + 1)
    } else {
        i
    }
}

/// Index after the number lexeme starting at `i`, if one starts there:
/// an optional minus, an integer part, an optional fraction, an optional
/// exponent.
pub open spec fn sp_number_end(s: Seq<char>, i: int) -> Option<int> {
    let j = if i < s.len() && s[i] == '-' {
        i + 1
    } else {
        i
    };
    if j < s.len() && is_digit(s[j]) {
        let k = sp_digits(s, j);
        let m = if k < s.len() && s[k] == '.' {
            if k + 1 < s.len() && is_digit(s[k + 1]) {
                Some(sp_digits(s, k + 1))
            } else {
                None
            }
        } else {
            Some(k)
        };
        match m {
            None => None,
            Some(m) => if m < s.len() && (s[m] == 'e' || s[m] == 'E') {
                let p = if m + 1 < s.len() && (s[m + 1] == '+' || s[m + 1] == '-') {
                    m + 2
                } else {
                    m + 1
                };
                if p < s.len() && is_digit(s[p]) {
                    Some(sp_digits(s, p))
                } else {
                    None
                }
            } else {
                Some(m)
            },
        }
    } else {
        None
    }
}

/// The character an escape letter stands for.
pub open spec fn sp_unescape(c: char) -> Option<char> {
    if c == '"' {
        Some('"')
    } else if c == '\\' {
        Some('\\')
    } else if c == '/' {
        Some('/')
    } else if c == 'n' {
        Some('\n')
    } else if c == 'r' {
        Some('\r')
    } else if c == 't' {
        Some('\t')
    } else if c == 'b' {
        Some('\u{8}')
    } else if c == 'f' {
        Some('\u{c}')
    } else {
        None
    }
}

/// The body of a string literal starting at `i` (just after the opening
/// quote): the decoded characters and the index after the closing quote.
pub open spec fn sp_string_body(s: Seq<char>, i: int) -> Option<(Seq<char>, int)>
    decreases s.len() - i,
{
    if i < 0 || i >= s.len() {
        None
    } else if s[i] == '"' {
        Some((Seq::empty(), i + 1))
    } else if s[i] == '\\' {
        if i + 1 < s.len() {
            match sp_unescape(s[i + 1]) {
                None => None,
                Some(c) => match sp_string_body(s, i + 2) {
                    None => None,
                    Some(r) => Some((seq![c] + r.0, r.1)),
                },
            }
        } else {
            None
        }
    } else {
        match sp_string_body(s, i + 1) {
            None => None,
            Some(r) => Some((seq![s[i]] + r.0, r.1)),
        }
    }
}

/// A value at `i` after optional whitespace. `fuel` pays for each step of
/// the mutual recursion; the document entry point supplies enough for any
/// input within the line limit.
pub open spec fn sp_value(s: Seq<char>, i: int, fuel: nat) -> Option<(JRep, int)>
    decreases fuel,
{
    if fuel == 0 {
        None
    } else {
        let j = sp_ws(s, i);
        if j >= s.len() {
            None
        } else if s[j] == 'n' {
            if j + 4 <= s.len() && s[j + 1] == 'u' && s[j + 2] == 'l' && s[j + 3] == 'l' {
                Some((JRep::Null, j + 4))
            } else {
                None
            }
        } else if s[j] == 't' {
            if j + 4 <= s.len() && s[j + 1] == 'r' && s[j + 2] == 'u' && s[j + 3] == 'e' {
                Some((JRep::Bool(true), j + 4))
            } else {
                None
            }
        } else if s[j] == 'f' {
            if j + 5 <= s.len() && s[j + 1] == 'a' && s[j + 2] == 'l' && s[j + 3] == 's' && s[j + 4]
                == 'e' {
                Some((JRep::Bool(false), j + 5))
            } else {
                None
            }
        } else if s[j] == '"' {
            match sp_string_body(s, j + 1) {
                None => None,
                Some(r) => Some((JRep::Str(r.0), r.1)),
            }
        } else if s[j] == '[' {
            let k = sp_ws(s, j + 1);
            if k < s.len() && s[k] == ']' {
                Some((JRep::Arr(Seq::empty()), k + 1))
            } else {
                match sp_elems(s, j + 1, (fuel - 1) as nat) {
                    None => None,
                    Some(r) => Some((JRep::Arr(r.0), r.1)),
                }
            }
        } else if s[j] == '{' {
            let k = sp_ws(s, j + 1);
            if k < s.len() && s[k] == '}' {
                Some((JRep::Obj(Seq::empty()), k + 1))
            } else {
                match sp_fields(s, j + 1, (fuel - 1) as nat) {
                    None => None,
                    Some(r) => Some((JRep::Obj(r.0), r.1)),
                }
            }
        } else if s[j] == '-' || is_digit(s[j]) {
            match sp_number_end(s, j) {
                None => None,
                Some(e) => Some((JRep::Num(s.subrange(j, e)), e)),
            }
        } else {
            None
        }
    }
}

/// One or more comma-separated values followed by `]`.
pub open spec fn sp_elems(s: Seq<char>, i: int, fuel: nat) -> Option<(Seq<JRep>, int)>
    decreases fuel,
{
    if fuel == 0 {
        None
    } else {
        match sp_value(s, i, (fuel - 1) as nat) {
            None => None,
            Some(r) => {
                let j = sp_ws(s, r.1);
                if j < s.len() && s[j] == ',' {
                    match sp_elems(s, j + 1, (fuel - 1) as nat) {
                        None => None,
                        Some(q) => Some((seq![r.0] + q.0, q.1)),
                    }
                } else if j < s.len() && s[j] == ']' {
                    Some((seq![r.0], j + 1))
                } else {
                    None
                }
            },
        }
    }
}

/// One or more comma-separated `"key":value` fields followed by `}`.
pub open spec fn sp_fields(s: Seq<char>, i: int, fuel: nat) -> Option<
    (Seq<(Seq<char>, JRep)>, int),
>
    decreases fuel,
{
    if fuel == 0 {
        None
    } else {
        let j = sp_ws(s, i);
        if j < s.len() && s[j] == '"' {
            match sp_string_body(s, j + 1) {
                None => None,
                Some(k) => {
                    let m = sp_ws(s, k.1);
                    if m < s.len() && s[m] == ':' {
                        match sp_value(s, m + 1, (fuel - 1) as nat) {
                            None => None,
                            Some(r) => {
                                let p = sp_ws(s, r.1);
                                if p < s.len() && s[p] == ',' {
                                    match sp_fields(s, p + 1, (fuel - 1) as nat) {
                                        None => None,
                                        Some(q) => Some((seq![(k.0, r.0)] + q.0, q.1)),
                                    }
                                } else if p < s.len() && s[p] == '}' {
                                    Some((seq![(k.0, r.0)], p + 1))
                                } else {
                                    None
                                }
                            },
                        }
                    } else {
                        None
                    }
                },
            }
        } else {
            None
        }
    }
}

/// The parse of a whole line: one value and nothing but whitespace after
/// it. Lines beyond the length limit do not parse.
pub open spec fn sp_doc(s: Seq<char>) -> Option<JRep> {
    if s.len() > LINE_LIMIT {
        None
    } else {
        match sp_value(s, 0, (2 * s.len() + 2) as nat) {
            None => None,
            Some(r) => if sp_ws(s, r.1) == s.len() {
                Some(r.0)
            } else {
                None
            },
        }
    }
}

fn is_ws_exec(c: char) -> (r: bool)
    ensures
        r == is_ws(c),
{
    c == ' ' || c == '\t' || c == '\n' || c == '\r'
}

fn is_digit_exec(c: char) -> (r: bool)
    ensures
        r == is_digit(c),
{
    let u: u32 = c as u32;
    48 <= u && u <= 57
}

fn ws_end(s: &Vec<char>, i: usize) -> (r: usize)
    requires
        i <= s@.len(),
    ensures
        r as int == sp_ws(s@, i as int),
        i <= r <= s@.len(),
    decreases s@.len() - i,
{
    if i < s.len() && is_ws_exec(s[i]) {
        ws_end(s, i + 1)
    } else {
        i
    }
}

fn digits_end(s: &Vec<char>, i: usize) -> (r: usize)
    requires
        i <= s@.len(),
    ensures
        r as int == sp_digits(s@, i as int),
        i <= r <= s@.len(),
    decreases s@.len() - i,
{
    if i < s.len() && is_digit_exec(s[i]) {
        digits_end(s, i + 1)
    } else {
        i
    }
}

fn number_end(s: &Vec<char>, i: usize) -> (r: Option<usize>)
    requires
        i <= s@.len(),
    ensures
        match (r, sp_number_end(s@, i as int)) {
            (None, None) => true,
            (Some(a), Some(b)) => a as int == b && i <= a <= s@.len(),
            _ => false,
        },
{
    let j: usize = if i < s.len() && s[i] == '-' {
        i + 1
    } else {
        i
    };
    if j < s.len() && is_digit_exec(s[j]) {
        let k: usize = digits_end(s, j);
        let m: Option<usize> = if k < s.len() && s[k] == '.' {
            if k + 1 < s.len() && is_digit_exec(s[k + 1]) {
                Some(digits_end(s, k + 1))
            } else {
                None
            }
        } else {
            Some(k)
        };
        match m {
            None => None,
            Some(m) => {
                if m < s.len() && (s[m] == 'e' || s[m] == 'E') {
                    let p: usize = if m + 1 < s.len() && (s[m + 1] == '+' || s[m + 1] == '-') {
                        m + 2
                    } else {
                        m + 1
                    };
                    if p < s.len() && is_digit_exec(s[p]) {
                        Some(digits_end(s, p))
                    } else {
                        None
                    }
                } else {
                    Some(m)
                }
            },
        }
    } else {
        None
    }
}

fn parse_string_body(s: &Vec<char>, i: usize) -> (r: Option<(Vec<char>, usize)>)
    requires
        i <= s@.len(),
    ensures
        match (r, sp_string_body(s@, i as int)) {
            (None, None) => true,
            (Some(p), Some(q)) => p.0@ == q.0 && p.1 as int == q.1 && p.1 <= s@.len(),
            _ => false,
        },
    decreases s@.len() - i,
{
    if i >= s.len() {
        None
    } else if s[i] == '"' {
        Some((Vec::new(), i + 1))
    } else if s[i] == '\\' {
        if i + 1 < s.len() {
            let e: Option<char> = unescape_exec(s[i + 1]);
            match e {
                None => None,
                Some(c) => match parse_string_body(s, i + 2) {
                    None => None,
                    Some(p) => {
                        let ghost tail = p.0@;
                        let mut body: Vec<char> = p.0;
                        body.insert(0, c);
                        proof {
                            assert(body@ =~= seq![c] + tail);
                        }
                        Some((body, p.1))
                    },
                },
            }
        } else {
            None
        }
    } else {
        let c: char = s[i];
        match parse_string_body(s, i + 1) {
            None => None,
            Some(p) => {
                let ghost tail = p.0@;
                let mut body: Vec<char> = p.0;
                body.insert(0, c);
                proof {
                    assert(body@ =~= seq![c] + tail);
                }
                Some((body, p.1))
            },
        }
    }
}

fn unescape_exec(c: char) -> (r: Option<char>)
    ensures
        r == sp_unescape(c),
{
    if c == '"' {
        Some('"')
    } else if c == '\\' {
        Some('\\')
    } else if c == '/' {
        Some('/')
    } else if c == 'n' {
        Some('\n')
    } else if c == 'r' {
        Some('\r')
    } else if c == 't' {
        Some('\t')
    } else if c == 'b' {
        Some('\u{8}')
    } else if c == 'f' {
        Some('\u{c}')
    } else {
        None
    }
}

/// Copy of `s[a..b]` as its own vector.
fn subvec(s: &Vec<char>, a: usize, b: usize) -> (r: Vec<char>)
    requires
        a <= b <= s@.len(),
    ensures
        r@ == s@.subrange(a as int, b as int),
{
    let mut out: Vec<char> = Vec::new();
    let mut i: usize = a;
    while i < b
        invariant
            a <= i <= b <= s@.len(),
            out@ == s@.subrange(a as int, i as int),
        decreases b - i,
    {
        out.push(s[i]);
        proof {
            assert(out@ =~= s@.subrange(a as int, i as int + 1));
        }
        i = i + 1;
    }
    out
}

fn parse_value(s: &Vec<char>, i: usize, fuel: u64) -> (r: Option<(JsonValue, usize)>)
    requires
        i <= s@.len(),
    ensures
        match (r, sp_value(s@, i as int, fuel as nat)) {
            (None, None) => true,
            (Some(p), Some(q)) => p.0.rep() == q.0 && p.1 as int == q.1 && p.1 <= s@.len(),
            _ => false,
        },
    decreases fuel,
{
    if fuel == 0 {
        return None;
    }
    let j: usize = ws_end(s, i);
    if j >= s.len() {
        None
    } else if s[j] == 'n' {
        if s.len() - j >= 4 && s[j + 1] == 'u' && s[j + 2] == 'l' && s[j + 3] == 'l' {
            Some((JsonValue::Null, j + 4))
        } else {
            None
        }
    } else if s[j] == 't' {
        if s.len() - j >= 4 && s[j + 1] == 'r' && s[j + 2] == 'u' && s[j + 3] == 'e' {
            Some((JsonValue::Bool(true), j + 4))
        } else {
            None
        }
    } else if s[j] == 'f' {
        if s.len() - j >= 5 && s[j + 1] == 'a' && s[j + 2] == 'l' && s[j + 3] == 's' && s[j + 4]
            == 'e' {
            Some((JsonValue::Bool(false), j + 5))
        } else {
            None
        }
    } else if s[j] == '"' {
        match parse_string_body(s, j + 1) {
            None => None,
            Some(p) => Some((JsonValue::Str(string_from_chars(&p.0)), p.1)),
        }
    } else if s[j] == '[' {
        let k: usize = ws_end(s, j + 1);
        if k < s.len() && s[k] == ']' {
            proof {
                assert(reps_of(Seq::<JsonValue>::empty()) =~= Seq::<JRep>::empty());
            }
            Some((JsonValue::Arr(Vec::new()), k + 1))
        } else {
            match parse_elems(s, j + 1, fuel - 1) {
                None => None,
                Some(p) => Some((JsonValue::Arr(p.0), p.1)),
            }
        }
    } else if s[j] == '{' {
        let k: usize = ws_end(s, j + 1);
        if k < s.len() && s[k] == '}' {
            proof {
                assert(field_reps_of(Seq::<(String, JsonValue)>::empty())
                    =~= Seq::<(Seq<char>, JRep)>::empty());
            }
            Some((JsonValue::Obj(Vec::new()), k + 1))
        } else {
            match parse_fields(s, j + 1, fuel - 1) {
                None => None,
                Some(p) => Some((JsonValue::Obj(p.0), p.1)),
            }
        }
    } else if s[j] == '-' || is_digit_exec(s[j]) {
        match number_end(s, j) {
            None => None,
            Some(e) => {
                let lex: Vec<char> = subvec(s, j, e);
                Some((JsonValue::Num(string_from_chars(&lex)), e))
            },
        }
    } else {
        None
    }
}

fn parse_elems(s: &Vec<char>, i: usize, fuel: u64) -> (r: Option<(Vec<JsonValue>, usize)>)
    requires
        i <= s@.len(),
    ensures
        match (r, sp_elems(s@, i as int, fuel as nat)) {
            (None, None) => true,
            (Some(p), Some(q)) => reps_of(p.0@) == q.0 && p.1 as int == q.1 && p.1 <= s@.len(),
            _ => false,
        },
    decreases fuel,
{
    if fuel == 0 {
        return None;
    }
    match parse_value(s, i, fuel - 1) {
        None => None,
        Some(p) => {
            let v: JsonValue = p.0;
            let j: usize = ws_end(s, p.1);
            if j < s.len() && s[j] == ',' {
                match parse_elems(s, j + 1, fuel - 1) {
                    None => None,
                    Some(q) => {
                        let mut elems: Vec<JsonValue> = q.0;
                        let ghost tail = elems@;
                        elems.insert(0, v);
                        proof {
                            lemma_reps_of(elems@);
                            lemma_reps_of(tail);
                            assert(reps_of(elems@) =~= seq![v.rep()] + reps_of(tail));
                        }
                        Some((elems, q.1))
                    },
                }
            } else if j < s.len() && s[j] == ']' {
                let mut elems: Vec<JsonValue> = Vec::new();
                elems.push(v);
                proof {
                    lemma_reps_of(elems@);
                    assert(reps_of(elems@) =~= seq![v.rep()]);
                }
                Some((elems, j + 1))
            } else {
                None
            }
        },
    }
}

fn parse_fields(s: &Vec<char>, i: usize, fuel: u64) -> (r: Option<
    (Vec<(String, JsonValue)>, usize),
>)
    requires
        i <= s@.len(),
    ensures
        match (r, sp_fields(s@, i as int, fuel as nat)) {
            (None, None) => true,
            (Some(p), Some(q)) => field_reps_of(p.0@) == q.0 && p.1 as int == q.1 && p.1
                <= s@.len(),
            _ => false,
        },
    decreases fuel,
{
    if fuel == 0 {
        return None;
    }
    let j: usize = ws_end(s, i);
    if j < s.len() && s[j] == '"' {
        match parse_string_body(s, j + 1) {
            None => None,
            Some(k) => {
                let key: String = string_from_chars(&k.0);
                let m: usize = ws_end(s, k.1);
                if m < s.len() && s[m] == ':' {
                    match parse_value(s, m + 1, fuel - 1) {
                        None => None,
                        Some(r0) => {
                            let v: JsonValue = r0.0;
                            let p: usize = ws_end(s, r0.1);
                            if p < s.len() && s[p] == ',' {
                                match parse_fields(s, p + 1, fuel - 1) {
                                    None => None,
                                    Some(q) => {
                                        let mut fields: Vec<(String, JsonValue)> = q.0;
                                        let ghost tail = fields@;
                                        fields.insert(0, (key, v));
                                        proof {
                                            lemma_field_reps_of(fields@);
                                            lemma_field_reps_of(tail);
                                            assert(field_reps_of(fields@) =~= seq![
                                                (k.0@, v.rep()),
                                            ] + field_reps_of(tail));
                                        }
                                        Some((fields, q.1))
                                    },
                                }
                            } else if p < s.len() && s[p] == '}' {
                                let mut fields: Vec<(String, JsonValue)> = Vec::new();
                                fields.push((key, v));
                                proof {
                                    lemma_field_reps_of(fields@);
                                    assert(field_reps_of(fields@) =~= seq![(k.0@, v.rep())]);
                                }
                                Some((fields, p + 1))
                            } else {
                                None
                            }
                        },
                    }
                } else {
                    None
                }
            },
        }
    } else {
        None
    }
}

/// Parses one line of wire text. The result is exactly the
/// specification-level parse of the input.
pub fn parse_json(s: &str) -> (r: Option<JsonValue>)
    ensures
        match (r, sp_doc(s@)) {
            (None, None) => true,
            (Some(v), Some(rv)) => v.rep() == rv,
            _ => false,
        },
{
    let cs: Vec<char> = chars_of_str(s);
    if cs.len() > LINE_LIMIT {
        return None;
    }
    let fuel: u64 = 2 * (cs.len() as u64) + 2;
    match parse_value(&cs, 0, fuel) {
        None => None,
        Some(p) => {
            let e: usize = ws_end(&cs, p.1);
            if e == cs.len() {
                Some(p.0)
            } else {
                None
            }
        },
    }
}

} // verus!
