//! The codec's round trip: parsing a rendered value gives the value
//! back.
//!
//! The law holds for every value whose number lexemes match the number
//! grammar — the only shapes the renderer is ever handed, since the
//! bridge builds its numbers from integers and keeps the engine's
//! lexemes as they came.

use vstd::prelude::*;

use crate::json::{all_digits, dec_of, is_digit, lemma_dec_of_val, JRep};
use crate::json_in::{
    is_ws, sp_digits, sp_doc, sp_elems, sp_fields, sp_number_end, sp_string_body, sp_unescape,
    sp_value, sp_ws, LINE_LIMIT,
};
use crate::json_out::{escape_char, escape_seq, quoted, render_elems, render_fields, render_rep};

verus! {

/// A lexeme the number grammar accepts whole.
pub open spec fn wf_num(s: Seq<char>) -> bool {
    sp_number_end(s, 0) == Some(s.len() as int)
}

/// A value every number lexeme of which is grammatical. Rendering such
/// a value and parsing the text gives the value back.
pub open spec fn wf_rep(r: JRep) -> bool
    decreases r,
{
    match r {
        JRep::Null => true,
        JRep::Bool(_) => true,
        JRep::Num(s) => wf_num(s),
        JRep::Str(_) => true,
        JRep::Arr(es) => wf_elems(es),
        JRep::Obj(fs) => wf_fields(fs),
    }
}

/// Well-formedness of every element.
pub open spec fn wf_elems(es: Seq<JRep>) -> bool
    decreases es,
{
    if es.len() == 0 {
        true
    } else {
        wf_rep(es.first()) && wf_elems(es.drop_first())
    }
}

/// Well-formedness of every field value.
pub open spec fn wf_fields(fs: Seq<(Seq<char>, JRep)>) -> bool
    decreases fs,
{
    if fs.len() == 0 {
        true
    } else {
        wf_rep(fs.first().1) && wf_fields(fs.drop_first())
    }
}

/// A character that ends a value in rendered text: a separator, a
/// closer, or the line's own newline. None of them can extend any
/// value's lexeme.
pub open spec fn is_delim(c: char) -> bool {
    c == ',' || c == ']' || c == '}' || c == '\n'
}

/// Skipping whitespace at a non-whitespace character stays put.
proof fn lemma_ws_stays(s: Seq<char>, i: int)
    requires
        0 <= i < s.len(),
        !is_ws(s[i]),
    ensures
        sp_ws(s, i) == i,
{
}

/// Escape text decomposes from the front as well.
proof fn lemma_escape_seq_front(s: Seq<char>)
    requires
        s.len() > 0,
    ensures
        escape_seq(s) == escape_char(s.first()) + escape_seq(s.drop_first()),
    decreases s,
{
    if s.len() == 1 {
        assert(s.drop_last() =~= Seq::<char>::empty());
        assert(s.drop_first() =~= Seq::<char>::empty());
        assert(escape_seq(s) =~= escape_char(s.first()) + escape_seq(s.drop_first()));
    } else {
        lemma_escape_seq_front(s.drop_last());
        assert(s.drop_last().first() == s.first());
        assert(s.drop_last().drop_first() =~= s.drop_first().drop_last());
        assert(s.drop_first().last() == s.last());
        assert(escape_seq(s) == escape_seq(s.drop_last()) + escape_char(s.last()));
        assert(escape_char(s.first()) + (escape_seq(s.drop_first().drop_last()) + escape_char(
            s.last(),
        )) =~= (escape_char(s.first()) + escape_seq(s.drop_first().drop_last())) + escape_char(
            s.last(),
        ));
        assert(escape_seq(s.drop_first()) == escape_seq(s.drop_first().drop_last()) + escape_char(
            s.drop_first().last(),
        ));
    }
}

/// Element text decomposes from the front as well.
proof fn lemma_render_elems_front(es: Seq<JRep>)
    requires
        es.len() > 1,
    ensures
        render_elems(es) == render_rep(es.first()) + seq![','] + render_elems(es.drop_first()),
    decreases es,
{
    if es.len() == 2 {
        assert(es.drop_last() =~= seq![es.first()]);
        assert(es.drop_first() =~= seq![es.last()]);
        assert(render_elems(es.drop_last()) == render_rep(es.first()));
        assert(render_elems(es.drop_first()) == render_rep(es.last()));
    } else {
        lemma_render_elems_front(es.drop_last());
        assert(es.drop_last().first() == es.first());
        assert(es.drop_last().drop_first() =~= es.drop_first().drop_last());
        assert(es.drop_first().last() == es.last());
        assert(render_elems(es) == render_elems(es.drop_last()) + seq![','] + render_rep(
            es.last(),
        ));
        assert(render_elems(es.drop_first()) == render_elems(es.drop_first().drop_last()) + seq![
            ',',
        ] + render_rep(es.drop_first().last()));
        assert((render_rep(es.first()) + seq![','] + render_elems(es.drop_first().drop_last())
            + seq![','] + render_rep(es.last())) =~= render_rep(es.first()) + seq![','] + (
        render_elems(es.drop_first().drop_last()) + seq![','] + render_rep(es.last())));
    }
}

/// Field text decomposes from the front as well.
proof fn lemma_render_fields_front(fs: Seq<(Seq<char>, JRep)>)
    requires
        fs.len() > 1,
    ensures
        render_fields(fs) == quoted(fs.first().0) + seq![':'] + render_rep(fs.first().1) + seq![
            ',',
        ] + render_fields(fs.drop_first()),
    decreases fs,
{
    if fs.len() == 2 {
        assert(fs.drop_last() =~= seq![fs.first()]);
        assert(fs.drop_first() =~= seq![fs.last()]);
        assert(render_fields(fs.drop_last()) == quoted(fs.first().0) + seq![':'] + render_rep(
            fs.first().1,
        ));
        assert(render_fields(fs.drop_first()) == quoted(fs.last().0) + seq![':'] + render_rep(
            fs.last().1,
        ));
    } else {
        lemma_render_fields_front(fs.drop_last());
        assert(fs.drop_last().first() == fs.first());
        assert(fs.drop_last().drop_first() =~= fs.drop_first().drop_last());
        assert(fs.drop_first().last() == fs.last());
        assert(render_fields(fs) == render_fields(fs.drop_last()) + seq![','] + quoted(
            fs.last().0,
        ) + seq![':'] + render_rep(fs.last().1));
        assert(render_fields(fs.drop_first()) == render_fields(fs.drop_first().drop_last())
            + seq![','] + quoted(fs.drop_first().last().0) + seq![':'] + render_rep(
            fs.drop_first().last().1,
        ));
        assert((quoted(fs.first().0) + seq![':'] + render_rep(fs.first().1) + seq![','] + (
        render_fields(fs.drop_first().drop_last()) + seq![','] + quoted(fs.last().0) + seq![':']
            + render_rep(fs.last().1))) =~= (quoted(fs.first().0) + seq![':'] + render_rep(
            fs.first().1,
        ) + seq![','] + render_fields(fs.drop_first().drop_last()) + seq![','] + quoted(
            fs.last().0,
        ) + seq![':'] + render_rep(fs.last().1)));
    }
}

proof fn lemma_digits_bounds(s: Seq<char>, k: int)
    requires
        0 <= k <= s.len(),
    ensures
        k <= sp_digits(s, k) <= s.len(),
    decreases s.len() - k,
{
    if k < s.len() && is_digit(s[k]) {
        lemma_digits_bounds(s, k + 1);
    }
}

/// A digit run inside an embedded lexeme ends where the lexeme's own
/// run ends, as long as the character after the lexeme is no digit.
proof fn lemma_digits_embed(s: Seq<char>, i: int, lex: Seq<char>, k: int)
    requires
        0 <= i,
        i + lex.len() <= s.len(),
        s.subrange(i, i + lex.len() as int) == lex,
        0 <= k <= lex.len(),
        i + lex.len() == s.len() || !is_digit(s[i + lex.len()]),
    ensures
        sp_digits(s, i + k) == i + sp_digits(lex, k),
    decreases lex.len() - k,
{
    if k < lex.len() {
        assert(s.subrange(i, i + lex.len() as int)[k] == s[i + k]);
        assert(s[i + k] == lex[k]);
        if is_digit(lex[k]) {
            lemma_digits_embed(s, i, lex, k + 1);
        }
    }
}

/// A grammatical number lexeme embedded before a delimiter is read off
/// whole: the parse ends exactly at the lexeme's end.
proof fn lemma_number_embed(s: Seq<char>, i: int, lex: Seq<char>)
    requires
        0 <= i,
        i + lex.len() <= s.len(),
        s.subrange(i, i + lex.len() as int) == lex,
        wf_num(lex),
        i + lex.len() == s.len() || is_delim(s[i + lex.len()]),
    ensures
        sp_number_end(s, i) == Some(i + lex.len()),
{
    let n = lex.len() as int;
    assert forall|m: int| 0 <= m < n implies s[i + m] == lex[m] by {
        assert(s.subrange(i, i + n)[m] == s[i + m]);
    }
    assert(n > 0);
    let jl = if lex[0] == '-' {
        1int
    } else {
        0int
    };
    assert(i < s.len());
    assert(s[i] == lex[0]);
    assert(jl < n && is_digit(lex[jl]));
    let kl = sp_digits(lex, jl);
    lemma_digits_bounds(lex, jl);
    lemma_digits_embed(s, i, lex, jl);
    assert(sp_digits(s, i + jl) == i + kl);
    // the fraction checkpoint
    if kl < n && lex[kl] == '.' {
        assert(kl + 1 < n && is_digit(lex[kl + 1]));
        let ml = sp_digits(lex, kl + 1);
        lemma_digits_bounds(lex, kl + 1);
        lemma_digits_embed(s, i, lex, kl + 1);
        assert(sp_digits(s, i + kl + 1) == i + ml);
        lemma_number_exp_embed(s, i, lex, ml);
    } else {
        lemma_number_exp_embed(s, i, lex, kl);
    }
}

/// The exponent checkpoint of the embedding argument: from a checkpoint
/// the lexeme's parse reached, both parses end at the lexeme's end.
proof fn lemma_number_exp_embed(s: Seq<char>, i: int, lex: Seq<char>, ml: int)
    requires
        0 <= i,
        i + lex.len() <= s.len(),
        s.subrange(i, i + lex.len() as int) == lex,
        wf_num(lex),
        0 <= ml <= lex.len(),
        i + lex.len() == s.len() || is_delim(s[i + lex.len()]),
        sp_number_end_from(lex, ml) == Some(lex.len() as int),
    ensures
        sp_number_end_from_at(s, i, lex, ml),
{
    let n = lex.len() as int;
    assert forall|m: int| 0 <= m < n implies s[i + m] == lex[m] by {
        assert(s.subrange(i, i + n)[m] == s[i + m]);
    }
    if ml < n && (lex[ml] == 'e' || lex[ml] == 'E') {
        let pl = if ml + 1 < n && (lex[ml + 1] == '+' || lex[ml + 1] == '-') {
            ml + 2
        } else {
            ml + 1
        };
        assert(pl < n && is_digit(lex[pl]));
        lemma_digits_bounds(lex, pl);
        lemma_digits_embed(s, i, lex, pl);
        assert(sp_digits(lex, pl) == n);
        assert(sp_digits(s, i + pl) == i + n);
    } else {
        assert(ml == n);
    }
}

/// What remains of the number grammar from the exponent checkpoint, on
/// the lexeme itself.
pub open spec fn sp_number_end_from(lex: Seq<char>, ml: int) -> Option<int> {
    if ml < lex.len() && (lex[ml] == 'e' || lex[ml] == 'E') {
        let p = if ml + 1 < lex.len() && (lex[ml + 1] == '+' || lex[ml + 1] == '-') {
            ml + 2
        } else {
            ml + 1
        };
        if p < lex.len() && is_digit(lex[p]) {
            Some(sp_digits(lex, p))
        } else {
            None
        }
    } else {
        Some(ml)
    }
}

/// What remains of the number grammar from the exponent checkpoint, on
/// the embedding: it ends at the lexeme's end.
pub open spec fn sp_number_end_from_at(s: Seq<char>, i: int, lex: Seq<char>, ml: int) -> bool {
    (if i + ml < s.len() && (s[i + ml] == 'e' || s[i + ml] == 'E') {
        let p = if i + ml + 1 < s.len() && (s[i + ml + 1] == '+' || s[i + ml + 1] == '-') {
            i + ml + 2
        } else {
            i + ml + 1
        };
        if p < s.len() && is_digit(s[p]) {
            Some(sp_digits(s, p))
        } else {
            None
        }
    } else {
        Some(i + ml)
    }) == Some(i + lex.len() as int)
}

/// An escaped string body with its closing quote embedded in text is
/// read back as the original body.
proof fn lemma_string_body_embed(body: Seq<char>, s: Seq<char>, i: int)
    requires
        0 <= i,
        i + escape_seq(body).len() + 1 <= s.len(),
        s.subrange(i, i + escape_seq(body).len() as int + 1) == escape_seq(body) + seq!['"'],
    ensures
        sp_string_body(s, i) == Some((body, i + escape_seq(body).len() + 1)),
    decreases body.len(),
{
    let t = escape_seq(body) + seq!['"'];
    let tn = t.len() as int;
    assert forall|m: int| 0 <= m < tn implies s[i + m] == t[m] by {
        assert(s.subrange(i, i + tn)[m] == s[i + m]);
    }
    if body.len() == 0 {
        assert(escape_seq(body) =~= Seq::<char>::empty());
        assert(s[i] == t[0]);
        assert(t[0] == '"');
    } else {
        let c = body.first();
        let rest = body.drop_first();
        lemma_escape_seq_front(body);
        let esc = escape_char(c);
        assert(escape_seq(body) == esc + escape_seq(rest));
        if c == '"' || c == '\\' || c == '\n' || c == '\r' || c == '\t' {
            assert(esc.len() == 2 && esc[0] == '\\' && sp_unescape(esc[1]) == Some(c));
            assert(s[i] == t[0] && t[0] == esc[0]);
            assert(s[i + 1] == t[1] && t[1] == esc[1]);
            assert(s.subrange(i + 2, i + 2 + escape_seq(rest).len() as int + 1) =~= escape_seq(
                rest,
            ) + seq!['"']) by {
                assert forall|m: int| 0 <= m < escape_seq(rest).len() + 1 implies s.subrange(
                    i + 2,
                    i + 2 + escape_seq(rest).len() as int + 1,
                )[m] == (escape_seq(rest) + seq!['"'])[m] by {
                    assert(s.subrange(i + 2, i + 2 + escape_seq(rest).len() as int + 1)[m] == s[
                        i + 2 + m
                    ]);
                    assert(s[i + 2 + m] == t[2 + m]);
                }
            }
            lemma_string_body_embed(rest, s, i + 2);
            assert(seq![c] + rest =~= body);
        } else {
            assert(esc =~= seq![c]);
            assert(s[i] == t[0] && t[0] == c);
            assert(c != '"' && c != '\\');
            assert(s.subrange(i + 1, i + 1 + escape_seq(rest).len() as int + 1) =~= escape_seq(
                rest,
            ) + seq!['"']) by {
                assert forall|m: int| 0 <= m < escape_seq(rest).len() + 1 implies s.subrange(
                    i + 1,
                    i + 1 + escape_seq(rest).len() as int + 1,
                )[m] == (escape_seq(rest) + seq!['"'])[m] by {
                    assert(s.subrange(i + 1, i + 1 + escape_seq(rest).len() as int + 1)[m] == s[
                        i + 1 + m
                    ]);
                    assert(s[i + 1 + m] == t[1 + m]);
                }
            }
            lemma_string_body_embed(rest, s, i + 1);
            assert(seq![c] + rest =~= body);
        }
    }
}

/// Parser steps a value's text can consume, with room to spare.
pub open spec fn fuel_of(r: JRep) -> nat
    decreases r,
{
    match r {
        JRep::Null => 1,
        JRep::Bool(_) => 1,
        JRep::Num(_) => 1,
        JRep::Str(_) => 1,
        JRep::Arr(es) => 1 + fuel_elems(es),
        JRep::Obj(fs) => 1 + fuel_fields(fs),
    }
}

/// Parser steps an element list's text can consume.
pub open spec fn fuel_elems(es: Seq<JRep>) -> nat
    decreases es,
{
    if es.len() == 0 {
        1
    } else {
        1 + fuel_of(es.first()) + fuel_elems(es.drop_first())
    }
}

/// Parser steps a field list's text can consume.
pub open spec fn fuel_fields(fs: Seq<(Seq<char>, JRep)>) -> nat
    decreases fs,
{
    if fs.len() == 0 {
        1
    } else {
        1 + fuel_of(fs.first().1) + fuel_fields(fs.drop_first())
    }
}

/// Rendered text is never empty and never opens with whitespace, a
/// separator or a closer.
proof fn lemma_render_head(r: JRep)
    requires
        wf_rep(r),
    ensures
        render_rep(r).len() > 0,
        !is_ws(render_rep(r)[0]),
        !is_delim(render_rep(r)[0]),
{
    match r {
        JRep::Num(lex) => {
            assert(lex.len() > 0);
            assert(lex[0] == '-' || is_digit(lex[0]));
        },
        _ => {},
    }
}

/// A rendered value embedded before a delimiter parses back to itself,
/// ending exactly at its text's end.
#[verifier::rlimit(100)]
proof fn lemma_value_embed(r: JRep, s: Seq<char>, i: int, fuel: nat)
    requires
        wf_rep(r),
        0 <= i,
        i + render_rep(r).len() <= s.len(),
        s.subrange(i, i + render_rep(r).len() as int) == render_rep(r),
        i + render_rep(r).len() == s.len() || is_delim(s[i + render_rep(r).len()]),
        fuel >= fuel_of(r),
    ensures
        sp_value(s, i, fuel) == Some((r, i + render_rep(r).len())),
    decreases r, 0int,
{
    let rt = render_rep(r);
    let n = rt.len() as int;
    lemma_render_head(r);
    assert forall|m: int| 0 <= m < n implies s[i + m] == rt[m] by {
        assert(s.subrange(i, i + n)[m] == s[i + m]);
    }
    assert(s[i] == rt[0]);
    lemma_ws_stays(s, i);
    match r {
        JRep::Null => {
            assert(s[i] == 'n' && s[i + 1] == 'u' && s[i + 2] == 'l' && s[i + 3] == 'l');
        },
        JRep::Bool(b) => {
            if b {
                assert(s[i] == 't' && s[i + 1] == 'r' && s[i + 2] == 'u' && s[i + 3] == 'e');
            } else {
                assert(s[i] == 'f' && s[i + 1] == 'a' && s[i + 2] == 'l' && s[i + 3] == 's' && s[i
                    + 4] == 'e');
            }
        },
        JRep::Num(lex) => {
            lemma_number_embed(s, i, lex);
            assert(s.subrange(i, i + n) == lex);
        },
        JRep::Str(body) => {
            assert(rt == quoted(body));
            assert(s[i] == '"');
            assert(s.subrange(i + 1, i + 1 + escape_seq(body).len() as int + 1) =~= escape_seq(
                body,
            ) + seq!['"']) by {
                assert forall|m: int| 0 <= m < escape_seq(body).len() + 1 implies s.subrange(
                    i + 1,
                    i + 1 + escape_seq(body).len() as int + 1,
                )[m] == (escape_seq(body) + seq!['"'])[m] by {
                    assert(s.subrange(i + 1, i + 1 + escape_seq(body).len() as int + 1)[m] == s[
                        i + 1 + m
                    ]);
                    assert(s[i + 1 + m] == rt[1 + m]);
                }
            }
            lemma_string_body_embed(body, s, i + 1);
        },
        JRep::Arr(es) => {
            assert(s[i] == '[');
            if es.len() == 0 {
                assert(es =~= Seq::<JRep>::empty());
                assert(render_elems(es) =~= Seq::<char>::empty());
                assert(rt =~= seq!['[', ']']);
                assert(s[i + 1] == ']');
                lemma_ws_stays(s, i + 1);
            } else {
                let et = render_elems(es);
                assert(rt == seq!['['] + et + seq![']']);
                assert(et.len() == n - 2);
                // the first element's head character settles the branch
                lemma_render_head(es.first());
                if es.len() > 1 {
                    lemma_render_elems_front(es);
                }
                assert(et[0] == render_rep(es.first())[0]);
                assert(s[i + 1] == rt[1] && rt[1] == et[0]);
                lemma_ws_stays(s, i + 1);
                assert(s[i + 1] != ']');
                assert(s.subrange(i + 1, i + 1 + et.len() as int) =~= et) by {
                    assert forall|m: int| 0 <= m < et.len() implies s.subrange(
                        i + 1,
                        i + 1 + et.len() as int,
                    )[m] == et[m] by {
                        assert(s.subrange(i + 1, i + 1 + et.len() as int)[m] == s[i + 1 + m]);
                        assert(s[i + 1 + m] == rt[1 + m]);
                    }
                }
                assert(s[i + 1 + et.len()] == rt[n - 1] && rt[n - 1] == ']');
                lemma_elems_embed(es, s, i + 1, (fuel - 1) as nat);
            }
            assert(sp_value(s, i, fuel) == Some((r, i + n)));
        },
        JRep::Obj(fs) => {
            assert(s[i] == '{');
            if fs.len() == 0 {
                assert(fs =~= Seq::<(Seq<char>, JRep)>::empty());
                assert(render_fields(fs) =~= Seq::<char>::empty());
                assert(rt =~= seq!['{', '}']);
                assert(s[i + 1] == '}');
                lemma_ws_stays(s, i + 1);
            } else {
                let ft = render_fields(fs);
                assert(rt == seq!['{'] + ft + seq!['}']);
                assert(ft.len() == n - 2);
                if fs.len() > 1 {
                    lemma_render_fields_front(fs);
                }
                assert(ft[0] == quoted(fs.first().0)[0]);
                assert(quoted(fs.first().0)[0] == '"');
                assert(s[i + 1] == rt[1] && rt[1] == ft[0]);
                lemma_ws_stays(s, i + 1);
                assert(s[i + 1] != '}');
                assert(s.subrange(i + 1, i + 1 + ft.len() as int) =~= ft) by {
                    assert forall|m: int| 0 <= m < ft.len() implies s.subrange(
                        i + 1,
                        i + 1 + ft.len() as int,
                    )[m] == ft[m] by {
                        assert(s.subrange(i + 1, i + 1 + ft.len() as int)[m] == s[i + 1 + m]);
                        assert(s[i + 1 + m] == rt[1 + m]);
                    }
                }
                assert(s[i + 1 + ft.len()] == rt[n - 1] && rt[n - 1] == '}');
                lemma_fields_embed(fs, s, i + 1, (fuel - 1) as nat);
            }
            assert(sp_value(s, i, fuel) == Some((r, i + n)));
        },
    }
}

/// A rendered element list embedded before its closing bracket parses
/// back to itself, ending just past the bracket.
#[verifier::rlimit(100)]
proof fn lemma_elems_embed(es: Seq<JRep>, s: Seq<char>, i: int, fuel: nat)
    requires
        es.len() > 0,
        wf_elems(es),
        0 <= i,
        i + render_elems(es).len() < s.len(),
        s.subrange(i, i + render_elems(es).len() as int) == render_elems(es),
        s[i + render_elems(es).len()] == ']',
        fuel >= fuel_elems(es),
    ensures
        sp_elems(s, i, fuel) == Some((es, i + render_elems(es).len() + 1)),
    decreases es, 1int,
{
    let et = render_elems(es);
    let n = et.len() as int;
    assert forall|m: int| 0 <= m < n implies s[i + m] == et[m] by {
        assert(s.subrange(i, i + n)[m] == s[i + m]);
    }
    let first = es.first();
    let v0 = render_rep(first);
    if es.len() == 1 {
        assert(et == v0);
        lemma_value_embed(first, s, i, (fuel - 1) as nat);
        lemma_render_head(first);
        lemma_ws_stays(s, i + v0.len());
        assert(s[i + v0.len()] == ']');
        assert(seq![first] =~= es);
    } else {
        lemma_render_elems_front(es);
        let rest = es.drop_first();
        let rt = render_elems(rest);
        assert(et == v0 + seq![','] + rt);
        assert(s.subrange(i, i + v0.len() as int) =~= v0) by {
            assert forall|m: int| 0 <= m < v0.len() implies s.subrange(i, i + v0.len() as int)[m]
                == v0[m] by {
                assert(s.subrange(i, i + v0.len() as int)[m] == s[i + m]);
                assert(et[m] == v0[m]);
            }
        }
        assert(s[i + v0.len()] == et[v0.len() as int] && et[v0.len() as int] == ',');
        lemma_value_embed(first, s, i, (fuel - 1) as nat);
        lemma_ws_stays(s, i + v0.len());
        let j = i + v0.len() as int;
        assert(s.subrange(j + 1, j + 1 + rt.len() as int) =~= rt) by {
            assert forall|m: int| 0 <= m < rt.len() implies s.subrange(
                j + 1,
                j + 1 + rt.len() as int,
            )[m] == rt[m] by {
                assert(s.subrange(j + 1, j + 1 + rt.len() as int)[m] == s[j + 1 + m]);
                assert(s[j + 1 + m] == et[v0.len() + 1 + m]);
                assert(et[v0.len() + 1 + m] == rt[m]);
            }
        }
        assert(s[j + 1 + rt.len()] == ']');
        lemma_elems_embed(rest, s, j + 1, (fuel - 1) as nat);
        assert(seq![first] + rest =~= es);
    }
}

/// A rendered field list embedded before its closing brace parses back
/// to itself, ending just past the brace.
#[verifier::rlimit(100)]
proof fn lemma_fields_embed(fs: Seq<(Seq<char>, JRep)>, s: Seq<char>, i: int, fuel: nat)
    requires
        fs.len() > 0,
        wf_fields(fs),
        0 <= i,
        i + render_fields(fs).len() < s.len(),
        s.subrange(i, i + render_fields(fs).len() as int) == render_fields(fs),
        s[i + render_fields(fs).len()] == '}',
        fuel >= fuel_fields(fs),
    ensures
        sp_fields(s, i, fuel) == Some((fs, i + render_fields(fs).len() + 1)),
    decreases fs, 1int,
{
    let ft = render_fields(fs);
    let n = ft.len() as int;
    assert forall|m: int| 0 <= m < n implies s[i + m] == ft[m] by {
        assert(s.subrange(i, i + n)[m] == s[i + m]);
    }
    let key = fs.first().0;
    let v = fs.first().1;
    let kt = quoted(key);
    let vt = render_rep(v);
    let head = kt + seq![':'] + vt;
    if fs.len() == 1 {
        assert(ft == head);
    } else {
        lemma_render_fields_front(fs);
        assert(ft == head + seq![','] + render_fields(fs.drop_first()));
    }
    assert forall|m: int| 0 <= m < head.len() implies s[i + m] == head[m] by {
        assert(ft[m] == head[m]);
    }
    assert(s[i] == head[0] && head[0] == '"');
    lemma_ws_stays(s, i);
    assert(s.subrange(i + 1, i + 1 + escape_seq(key).len() as int + 1) =~= escape_seq(key) + seq![
        '"',
    ]) by {
        assert forall|m: int| 0 <= m < escape_seq(key).len() + 1 implies s.subrange(
            i + 1,
            i + 1 + escape_seq(key).len() as int + 1,
        )[m] == (escape_seq(key) + seq!['"'])[m] by {
            assert(s.subrange(i + 1, i + 1 + escape_seq(key).len() as int + 1)[m] == s[i + 1 + m]);
            assert(s[i + 1 + m] == head[1 + m]);
            assert(head[1 + m] == kt[1 + m]);
        }
    }
    lemma_string_body_embed(key, s, i + 1);
    let ke = i + kt.len() as int;
    assert(s[ke] == head[kt.len() as int] && head[kt.len() as int] == ':');
    lemma_ws_stays(s, ke);
    assert(s.subrange(ke + 1, ke + 1 + vt.len() as int) =~= vt) by {
        assert forall|m: int| 0 <= m < vt.len() implies s.subrange(
            ke + 1,
            ke + 1 + vt.len() as int,
        )[m] == vt[m] by {
            assert(s.subrange(ke + 1, ke + 1 + vt.len() as int)[m] == s[ke + 1 + m]);
            assert(s[ke + 1 + m] == head[kt.len() + 1 + m]);
            assert(head[kt.len() + 1 + m] == vt[m]);
        }
    }
    let ve = ke + 1 + vt.len() as int;
    if fs.len() == 1 {
        assert(ve == i + n);
        assert(s[ve] == '}');
        lemma_value_embed(v, s, ke + 1, (fuel - 1) as nat);
        lemma_ws_stays(s, ve);
        assert(seq![(key, v)] =~= fs);
    } else {
        assert(s[ve] == ft[head.len() as int] && ft[head.len() as int] == ',');
        lemma_value_embed(v, s, ke + 1, (fuel - 1) as nat);
        lemma_ws_stays(s, ve);
        let rest = fs.drop_first();
        let rt = render_fields(rest);
        assert(s.subrange(ve + 1, ve + 1 + rt.len() as int) =~= rt) by {
            assert forall|m: int| 0 <= m < rt.len() implies s.subrange(
                ve + 1,
                ve + 1 + rt.len() as int,
            )[m] == rt[m] by {
                assert(s.subrange(ve + 1, ve + 1 + rt.len() as int)[m] == s[ve + 1 + m]);
                assert(s[ve + 1 + m] == ft[head.len() + 1 + m]);
                assert(ft[head.len() + 1 + m] == rt[m]);
            }
        }
        assert(s[ve + 1 + rt.len()] == '}');
        lemma_fields_embed(rest, s, ve + 1, (fuel - 1) as nat);
        assert(seq![(key, v)] + rest =~= fs);
    }
}

/// The fuel a value's parse needs never outruns twice its text.
proof fn lemma_fuel_of_bound(r: JRep)
    requires
        wf_rep(r),
    ensures
        fuel_of(r) <= 2 * render_rep(r).len(),
    decreases r, 0int,
{
    lemma_render_head(r);
    match r {
        JRep::Arr(es) => {
            lemma_fuel_elems_bound(es);
        },
        JRep::Obj(fs) => {
            lemma_fuel_fields_bound(fs);
        },
        _ => {},
    }
}

proof fn lemma_fuel_elems_bound(es: Seq<JRep>)
    requires
        wf_elems(es),
    ensures
        fuel_elems(es) <= 2 * render_elems(es).len() + 3,
    decreases es, 1int,
{
    if es.len() > 0 {
        lemma_fuel_of_bound(es.first());
        lemma_fuel_elems_bound(es.drop_first());
        if es.len() == 1 {
            assert(render_elems(es) == render_rep(es[0]));
        } else {
            lemma_render_elems_front(es);
        }
    }
}

proof fn lemma_fuel_fields_bound(fs: Seq<(Seq<char>, JRep)>)
    requires
        wf_fields(fs),
    ensures
        fuel_fields(fs) <= 2 * render_fields(fs).len() + 3,
    decreases fs, 1int,
{
    if fs.len() > 0 {
        lemma_fuel_of_bound(fs.first().1);
        lemma_fuel_fields_bound(fs.drop_first());
        if fs.len() == 1 {
            assert(render_fields(fs) == quoted(fs[0].0) + seq![':'] + render_rep(fs[0].1));
        } else {
            lemma_render_fields_front(fs);
        }
    }
}

/// Round trip of the codec: the parse of a rendered value is exactly
/// that value, for every well-formed value whose text fits on a line.
pub proof fn lemma_parse_render_doc(r: JRep)
    requires
        wf_rep(r),
        render_rep(r).len() <= LINE_LIMIT,
    ensures
        sp_doc(render_rep(r)) == Some(r),
{
    let s = render_rep(r);
    lemma_fuel_of_bound(r);
    assert(s.subrange(0, s.len() as int) =~= s);
    lemma_value_embed(r, s, 0, (2 * s.len() + 2) as nat);
}

/// Round trip of a whole wire line: the parse of a rendered value and
/// its newline is exactly that value.
pub proof fn lemma_parse_render_line(r: JRep)
    requires
        wf_rep(r),
        render_rep(r).len() + 1 <= LINE_LIMIT,
    ensures
        sp_doc(render_rep(r) + seq!['\n']) == Some(r),
{
    let s = render_rep(r) + seq!['\n'];
    let ln = render_rep(r).len() as int;
    lemma_fuel_of_bound(r);
    assert(s.subrange(0, ln) =~= render_rep(r));
    assert(s[ln] == '\n');
    lemma_value_embed(r, s, 0, (2 * s.len() + 2) as nat);
    assert(sp_ws(s, ln) == sp_ws(s, ln + 1));
    assert(sp_ws(s, ln + 1) == ln + 1);
}

/// A run of digits runs to the end.
proof fn lemma_digits_all(s: Seq<char>, k: int)
    requires
        all_digits(s),
        0 <= k <= s.len(),
    ensures
        sp_digits(s, k) == s.len(),
    decreases s.len() - k,
{
    if k < s.len() {
        lemma_digits_all(s, k + 1);
    }
}

/// Decimal numerals are grammatical number lexemes.
pub proof fn lemma_wf_dec_of(id: nat)
    ensures
        wf_num(dec_of(id)),
{
    lemma_dec_of_val(id);
    let lex = dec_of(id);
    assert(is_digit(lex[0]));
    assert(lex[0] != '-');
    lemma_digits_all(lex, 0);
}

/// Requests the bridge builds are well-formed: their id is a decimal
/// numeral and their other members are literals, so they round-trip, as
/// long as the params handed in do.
pub proof fn lemma_wf_request(id: nat, method: Seq<char>, params: Option<JRep>)
    requires
        params matches Some(p) ==> wf_rep(p),
    ensures
        wf_rep(crate::rpc::sp_request(id, method, params)),
{
    lemma_wf_dec_of(id);
    reveal_with_fuel(wf_fields, 6);
    let base = seq![
        ("jsonrpc"@, JRep::Str("2.0"@)),
        ("id"@, JRep::Num(dec_of(id))),
        ("method"@, JRep::Str(method)),
    ];
    match params {
        None => {
            assert(base.drop_first() =~= seq![
                ("id"@, JRep::Num(dec_of(id))),
                ("method"@, JRep::Str(method)),
            ]);
            assert(base.drop_first().drop_first() =~= seq![("method"@, JRep::Str(method))]);
            assert(base.drop_first().drop_first().drop_first() =~= Seq::<
                (Seq<char>, JRep),
            >::empty());
            assert(wf_fields(base));
        },
        Some(p) => {
            let full = base.push(("params"@, p));
            assert(full.drop_first() =~= seq![
                ("id"@, JRep::Num(dec_of(id))),
                ("method"@, JRep::Str(method)),
                ("params"@, p),
            ]);
            assert(full.drop_first().drop_first() =~= seq![
                ("method"@, JRep::Str(method)),
                ("params"@, p),
            ]);
            assert(full.drop_first().drop_first().drop_first() =~= seq![("params"@, p)]);
            assert(full.drop_first().drop_first().drop_first().drop_first() =~= Seq::<
                (Seq<char>, JRep),
            >::empty());
            assert(wf_fields(full));
        },
    }
}

/// The identity law of the channel, end to end at the wire: rendering a
/// response built around any well-formed result value and decoding that
/// line hands the result value back unchanged.
pub proof fn lemma_wire_round_trip(id: nat, v: JRep)
    requires
        wf_rep(v),
        render_rep(crate::rpc::sp_response(id, v)).len() <= LINE_LIMIT,
    ensures
        crate::rpc::sp_decode_line(render_rep(crate::rpc::sp_response(id, v)))
            == crate::rpc::SpDecoded::Value(v),
{
    let resp = crate::rpc::sp_response(id, v);
    let fields = seq![
        ("jsonrpc"@, JRep::Str("2.0"@)),
        ("id"@, JRep::Num(dec_of(id))),
        ("result"@, v),
    ];
    assert(resp == JRep::Obj(fields));
    lemma_wf_dec_of(id);
    assert(wf_fields(fields)) by {
        reveal_with_fuel(wf_fields, 4);
        assert(fields.drop_first() =~= seq![("id"@, JRep::Num(dec_of(id))), ("result"@, v)]);
        assert(fields.drop_first().drop_first() =~= seq![("result"@, v)]);
        assert(fields.drop_first().drop_first().drop_first() =~= Seq::<(Seq<char>, JRep)>::empty());
    }
    lemma_parse_render_doc(resp);
    crate::rpc::lemma_decode_response_identity(id, v);
}

} // verus!
