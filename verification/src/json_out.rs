//! Rendering of JSON values to their wire text.
//!
//! The renderer is exact: the result is the canonical text of the value's
//! abstraction. Strings escape the quote, the backslash and the three
//! whitespace controls that would break line framing; every other
//! character passes through verbatim.

use vstd::prelude::*;

use crate::json::{chars_of_str, string_from_chars, JRep, JsonValue};

verus! {

/// The escape text for one string character.
pub open spec fn escape_char(c: char) -> Seq<char> {
    if c == '"' {
        seq!['\\', '"']
    } else if c == '\\' {
        seq!['\\', '\\']
    } else if c == '\n' {
        seq!['\\', 'n']
    } else if c == '\r' {
        seq!['\\', 'r']
    } else if c == '\t' {
        seq!['\\', 't']
    } else {
        seq![c]
    }
}

/// The escape text of a whole string body.
pub open spec fn escape_seq(s: Seq<char>) -> Seq<char>
    decreases s,
{
    if s.len() == 0 {
        Seq::empty()
    } else {
        escape_seq(s.drop_last()) + escape_char(s.last())
    }
}

/// A string literal: quotes around the escaped body.
pub open spec fn quoted(s: Seq<char>) -> Seq<char> {
    seq!['"'] + escape_seq(s) + seq!['"']
}

/// The text of a JSON value.
pub open spec fn render_rep(r: JRep) -> Seq<char>
    decreases r,
{
    match r {
        JRep::Null => seq!['n', 'u', 'l', 'l'],
        JRep::Bool(b) => if b {
            seq!['t', 'r', 'u', 'e']
        } else {
            seq!['f', 'a', 'l', 's', 'e']
        },
        JRep::Num(s) => s,
        JRep::Str(s) => quoted(s),
        JRep::Arr(elems) => seq!['['] + render_elems(elems) + seq![']'],
        JRep::Obj(fields) => seq!['{'] + render_fields(fields) + seq!['}'],
    }
}

/// The comma-joined texts of array elements.
pub open spec fn render_elems(s: Seq<JRep>) -> Seq<char>
    decreases s,
{
    if s.len() == 0 {
        Seq::empty()
    } else if s.len() == 1 {
        render_rep(s[0])
    } else {
        render_elems(s.drop_last()) + seq![','] + render_rep(s.last())
    }
}

/// The comma-joined `"key":value` texts of object fields.
pub open spec fn render_fields(s: Seq<(Seq<char>, JRep)>) -> Seq<char>
    decreases s,
{
    if s.len() == 0 {
        Seq::empty()
    } else if s.len() == 1 {
        quoted(s[0].0) + seq![':'] + render_rep(s[0].1)
    } else {
        render_fields(s.drop_last()) + seq![','] + quoted(s.last().0) + seq![':'] + render_rep(
            s.last().1,
        )
    }
}

/// Appends the characters of `s` to `out`.
fn push_str_chars(s: &str, out: &mut Vec<char>)
    ensures
        final(out)@ == old(out)@ + s@,
{
    let mut cs: Vec<char> = chars_of_str(s);
    out.append(&mut cs);
}

/// Appends the quoted, escaped form of `s` to `out`.
#[verifier::loop_isolation(false)]
fn write_quoted(s: &str, out: &mut Vec<char>)
    ensures
        final(out)@ == old(out)@ + quoted(s@),
{
    out.push('"');
    let len: usize = s.unicode_len();
    let mut i: usize = 0;
    while i < len
        invariant
            i <= len,
            len == s@.len(),
            out@ == old(out)@ + seq!['"'] + escape_seq(s@.take(i as int)),
        decreases len - i,
    {
        let c: char = s.get_char(i);
        proof {
            assert(s@.take(i as int + 1).drop_last() =~= s@.take(i as int));
            assert(s@.take(i as int + 1).last() == c);
        }
        if c == '"' {
            out.push('\\');
            out.push('"');
        } else if c == '\\' {
            out.push('\\');
            out.push('\\');
        } else if c == '\n' {
            out.push('\\');
            out.push('n');
        } else if c == '\r' {
            out.push('\\');
            out.push('r');
        } else if c == '\t' {
            out.push('\\');
            out.push('t');
        } else {
            out.push(c);
        }
        proof {
            assert(out@ =~= old(out)@ + seq!['"'] + escape_seq(s@.take(i as int + 1)));
        }
        i = i + 1;
    }
    proof {
        assert(s@.take(len as int) =~= s@);
    }
    out.push('"');
    proof {
        assert(out@ =~= old(out)@ + quoted(s@));
    }
}

/// Appends the text of `v` to `out`.
#[verifier::loop_isolation(false)]
pub fn write_value(v: &JsonValue, out: &mut Vec<char>)
    ensures
        final(out)@ == old(out)@ + render_rep(v.rep()),
    decreases v,
{
    match v {
        JsonValue::Null => {
            out.push('n');
            out.push('u');
            out.push('l');
            out.push('l');
            proof {
                assert(out@ =~= old(out)@ + render_rep(v.rep()));
            }
        },
        JsonValue::Bool(b) => {
            if *b {
                out.push('t');
                out.push('r');
                out.push('u');
                out.push('e');
            } else {
                out.push('f');
                out.push('a');
                out.push('l');
                out.push('s');
                out.push('e');
            }
            proof {
                assert(out@ =~= old(out)@ + render_rep(v.rep()));
            }
        },
        JsonValue::Num(s) => {
            push_str_chars(s.as_str(), out);
        },
        JsonValue::Str(s) => {
            write_quoted(s.as_str(), out);
        },
        JsonValue::Arr(elems) => {
            proof {
                crate::json::lemma_reps_of(elems@);
            }
            out.push('[');
            let n: usize = elems.len();
            let mut i: usize = 0;
            while i < n
                invariant
                    i <= n,
                    n == elems@.len(),
                    out@ == old(out)@ + seq!['['] + render_elems(
                        crate::json::reps_of(elems@).take(i as int),
                    ),
                decreases n - i,
            {
                if i > 0 {
                    out.push(',');
                }
                write_value(&elems[i], out);
                proof {
                    let reps = crate::json::reps_of(elems@);
                    assert(reps.take(i as int + 1).drop_last() =~= reps.take(i as int));
                    assert(reps.take(i as int + 1).last() == elems@[i as int].rep());
                    if i == 0 {
                        assert(out@ =~= old(out)@ + seq!['['] + render_elems(
                            reps.take(i as int + 1),
                        ));
                    } else {
                        assert(out@ =~= old(out)@ + seq!['['] + render_elems(
                            reps.take(i as int + 1),
                        ));
                    }
                }
                i = i + 1;
            }
            proof {
                assert(crate::json::reps_of(elems@).take(n as int) =~= crate::json::reps_of(
                    elems@,
                ));
            }
            out.push(']');
            proof {
                assert(out@ =~= old(out)@ + render_rep(v.rep()));
            }
        },
        JsonValue::Obj(fields) => {
            proof {
                crate::json::lemma_field_reps_of(fields@);
            }
            out.push('{');
            let n: usize = fields.len();
            let mut i: usize = 0;
            while i < n
                invariant
                    i <= n,
                    n == fields@.len(),
                    out@ == old(out)@ + seq!['{'] + render_fields(
                        crate::json::field_reps_of(fields@).take(i as int),
                    ),
                decreases n - i,
            {
                if i > 0 {
                    out.push(',');
                }
                write_quoted(fields[i].0.as_str(), out);
                out.push(':');
                write_value(&fields[i].1, out);
                proof {
                    let reps = crate::json::field_reps_of(fields@);
                    assert(reps.take(i as int + 1).drop_last() =~= reps.take(i as int));
                    assert(reps.take(i as int + 1).last() == (
                        fields@[i as int].0@,
                        fields@[i as int].1.rep(),
                    ));
                    assert(out@ =~= old(out)@ + seq!['{'] + render_fields(reps.take(i as int + 1)));
                }
                i = i + 1;
            }
            proof {
                assert(crate::json::field_reps_of(fields@).take(n as int)
                    =~= crate::json::field_reps_of(fields@));
            }
            out.push('}');
            proof {
                assert(out@ =~= old(out)@ + render_rep(v.rep()));
            }
        },
    }
}

/// The wire text of `v`.
pub fn render_json(v: &JsonValue) -> (r: String)
    ensures
        r@ == render_rep(v.rep()),
{
    let mut out: Vec<char> = Vec::new();
    write_value(v, &mut out);
    string_from_chars(&out)
}

} // verus!
