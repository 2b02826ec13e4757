//! JSON value model shared by the wire protocol and the query facade.
//!
//! A value keeps numbers as their decimal text, so that every shape the
//! engine can send is represented exactly and nothing is rounded.

use vstd::prelude::*;

verus! {

/// A JSON value. Numbers carry their lexeme (the literal text of the
/// number) rather than a converted binary form.
pub enum JsonValue {
    Null,
    Bool(bool),
    /// The decimal text of the number, e.g. `"42"` or `"-1.5e3"`.
    Num(String),
    Str(String),
    Arr(Vec<JsonValue>),
    Obj(Vec<(String, JsonValue)>),
}

/// The mathematical shape of a `JsonValue`: strings become character
/// sequences, vectors become sequences.
#[verifier::ext_equal]
pub enum JRep {
    Null,
    Bool(bool),
    Num(Seq<char>),
    Str(Seq<char>),
    Arr(Seq<JRep>),
    Obj(Seq<(Seq<char>, JRep)>),
}

impl JsonValue {
    /// The abstraction of this value.
    pub open spec fn rep(self) -> JRep
        decreases self,
    {
        match self {
            JsonValue::Null => JRep::Null,
            JsonValue::Bool(b) => JRep::Bool(b),
            JsonValue::Num(s) => JRep::Num(s@),
            JsonValue::Str(s) => JRep::Str(s@),
            JsonValue::Arr(elems) => JRep::Arr(reps_of(elems@)),
            JsonValue::Obj(fields) => JRep::Obj(field_reps_of(fields@)),
        }
    }
}

/// Abstractions of a sequence of values, elementwise and in order.
pub open spec fn reps_of(s: Seq<JsonValue>) -> Seq<JRep>
    decreases s,
{
    if s.len() == 0 {
        Seq::empty()
    } else {
        reps_of(s.drop_last()).push(s.last().rep())
    }
}

/// Abstractions of a sequence of object fields, elementwise and in order.
pub open spec fn field_reps_of(s: Seq<(String, JsonValue)>) -> Seq<(Seq<char>, JRep)>
    decreases s,
{
    if s.len() == 0 {
        Seq::empty()
    } else {
        field_reps_of(s.drop_last()).push((s.last().0@, s.last().1.rep()))
    }
}

pub proof fn lemma_reps_of(s: Seq<JsonValue>)
    ensures
        reps_of(s).len() == s.len(),
        forall|i: int| 0 <= i < s.len() ==> #[trigger] reps_of(s)[i] == s[i].rep(),
    decreases s,
{
    if s.len() > 0 {
        lemma_reps_of(s.drop_last());
    }
}

pub proof fn lemma_field_reps_of(s: Seq<(String, JsonValue)>)
    ensures
        field_reps_of(s).len() == s.len(),
        forall|i: int| 0 <= i < s.len() ==> #[trigger] field_reps_of(s)[i] == (
            s[i].0@,
            s[i].1.rep(),
        ),
    decreases s,
{
    if s.len() > 0 {
        lemma_field_reps_of(s.drop_last());
    }
}

/// First field of an object-field sequence bound to `key`, if any.
pub open spec fn rep_get(fields: Seq<(Seq<char>, JRep)>, key: Seq<char>) -> Option<JRep>
    decreases fields,
{
    if fields.len() == 0 {
        None
    } else if fields.first().0 == key {
        Some(fields.first().1)
    } else {
        rep_get(fields.drop_first(), key)
    }
}

/// Member lookup: the value under `key` when `r` is an object that has it.
pub open spec fn jget(r: JRep, key: Seq<char>) -> Option<JRep> {
    match r {
        JRep::Obj(fields) => rep_get(fields, key),
        _ => None,
    }
}

/// Whether `r` is an object with a member named `key`.
pub open spec fn jhas(r: JRep, key: Seq<char>) -> bool {
    jget(r, key) is Some
}

/// Characters of a string, in order.
///
/// Relies on `str::chars`, which yields the characters of the string front
/// to back — exactly the string's abstract character sequence.
#[verifier::external_body]
pub fn chars_of_str(s: &str) -> (r: Vec<char>)
    ensures
        r@ == s@,
{
    s.chars().collect()
}

/// The string holding exactly the given characters.
///
/// Relies on `String: FromIterator<char>`, which concatenates the yielded
/// characters in order.
#[verifier::external_body]
pub fn string_from_chars(v: &Vec<char>) -> (r: String)
    ensures
        r@ == v@,
{
    v.iter().collect()
}

/// Character-for-character string comparison.
pub fn str_eq(a: &str, b: &str) -> (r: bool)
    ensures
        r == (a@ == b@),
{
    let alen: usize = a.unicode_len();
    let blen: usize = b.unicode_len();
    if alen != blen {
        return false;
    }
    let mut i: usize = 0;
    while i < alen
        invariant
            alen == a@.len(),
            alen == b@.len(),
            0 <= i <= alen,
            forall|j: int| 0 <= j < i ==> a@[j] == b@[j],
        decreases alen - i,
    {
        if a.get_char(i) != b.get_char(i) {
            return false;
        }
        i = i + 1;
    }
    proof {
        assert(a@ =~= b@);
    }
    true
}

/// Whether `c` is a decimal digit.
pub open spec fn is_digit(c: char) -> bool {
    48 <= c as u32 <= 57
}

/// The numeric value of a digit character.
pub open spec fn digit_val(c: char) -> nat {
    (c as u32 - 48) as nat
}

/// The digit character for `d`, which must be below ten.
pub open spec fn digit_char(d: nat) -> char {
    if d == 0 {
        '0'
    } else if d == 1 {
        '1'
    } else if d == 2 {
        '2'
    } else if d == 3 {
        '3'
    } else if d == 4 {
        '4'
    } else if d == 5 {
        '5'
    } else if d == 6 {
        '6'
    } else if d == 7 {
        '7'
    } else if d == 8 {
        '8'
    } else {
        '9'
    }
}

/// The canonical decimal numeral of `n`: no sign, no leading zero except
/// for zero itself.
pub open spec fn dec_of(n: nat) -> Seq<char>
    decreases n,
{
    if n < 10 {
        seq![digit_char(n)]
    } else {
        dec_of(n / 10).push(digit_char(n % 10))
    }
}

/// Whether every character of `s` is a decimal digit.
pub open spec fn all_digits(s: Seq<char>) -> bool {
    forall|i: int| 0 <= i < s.len() ==> is_digit(#[trigger] s[i])
}

/// The value of the digit string `s`, most significant digit first.
pub open spec fn dec_val(s: Seq<char>) -> nat
    decreases s,
{
    if s.len() == 0 {
        0
    } else {
        dec_val(s.drop_last()) * 10 + digit_val(s.last())
    }
}

fn digit_exec(d: u64) -> (r: char)
    requires
        d < 10,
    ensures
        r == digit_char(d as nat),
{
    match d {
        0 => '0',
        1 => '1',
        2 => '2',
        3 => '3',
        4 => '4',
        5 => '5',
        6 => '6',
        7 => '7',
        8 => '8',
        _ => '9',
    }
}

/// Appends the decimal numeral of `n` to `out`.
pub fn push_dec_u64(n: u64, out: &mut Vec<char>)
    ensures
        final(out)@ == old(out)@ + dec_of(n as nat),
    decreases n,
{
    if n < 10 {
        out.push(digit_exec(n));
        proof {
            assert(old(out)@.push(digit_char(n as nat)) =~= old(out)@ + dec_of(n as nat));
        }
    } else {
        push_dec_u64(n / 10, out);
        out.push(digit_exec(n % 10));
        proof {
            assert((old(out)@ + dec_of((n / 10) as nat)).push(digit_char((n % 10) as nat)) =~= old(
                out,
            )@ + dec_of(n as nat));
        }
    }
}

/// The decimal numeral of `n` as a string.
pub fn u64_to_dec(n: u64) -> (r: String)
    ensures
        r@ == dec_of(n as nat),
{
    let mut out: Vec<char> = Vec::new();
    push_dec_u64(n, &mut out);
    string_from_chars(&out)
}

proof fn lemma_dec_val_prefix_grows(s: Seq<char>, i: int)
    requires
        0 <= i <= s.len(),
    ensures
        dec_val(s.take(i)) <= dec_val(s),
    decreases s.len() - i,
{
    if i < s.len() {
        assert(s.take(i + 1).drop_last() =~= s.take(i));
        assert(dec_val(s.take(i + 1)) == dec_val(s.take(i)) * 10 + digit_val(s.take(i + 1).last()));
        lemma_dec_val_prefix_grows(s, i + 1);
        assert(s.take(s.len() as int) =~= s);
    } else {
        assert(s.take(i) =~= s);
    }
}

/// Reads `s` as an unsigned decimal numeral. Returns the value exactly
/// when `s` is one or more digits and the value fits in a `u64`.
pub fn parse_dec_u64(s: &str) -> (r: Option<u64>)
    ensures
        match r {
            Some(n) => s@.len() > 0 && all_digits(s@) && n as nat == dec_val(s@),
            None => s@.len() == 0 || !all_digits(s@) || dec_val(s@) > u64::MAX,
        },
{
    let len: usize = s.unicode_len();
    if len == 0 {
        return None;
    }
    let mut acc: u64 = 0;
    let mut i: usize = 0;
    while i < len
        invariant
            len == s@.len(),
            0 <= i <= len,
            all_digits(s@.take(i as int)),
            acc as nat == dec_val(s@.take(i as int)),
        decreases len - i,
    {
        let c: char = s.get_char(i);
        let cu: u32 = c as u32;
        if cu < 48 || cu > 57 {
            return None;
        }
        let d: u64 = (cu - 48) as u64;
        if acc > (u64::MAX - d) / 10 {
            proof {
                assert(s@.take(i as int + 1).drop_last() =~= s@.take(i as int));
                assert(dec_val(s@.take(i as int + 1)) == (acc as nat) * 10 + d as nat);
                assert((acc as nat) * 10 + d as nat > u64::MAX) by (nonlinear_arith)
                    requires
                        acc as nat > ((u64::MAX - d) / 10) as nat,
                        d < 10,
                        d as int == digit_val(s@[i as int]),
                ;
                lemma_dec_val_prefix_grows(s@, i as int + 1);
            }
            return None;
        }
        proof {
            assert(acc as nat * 10 + d as nat <= u64::MAX) by (nonlinear_arith)
                requires
                    acc as nat <= ((u64::MAX - d) / 10) as nat,
                    d < 10,
            ;
            assert(s@.take(i as int + 1).drop_last() =~= s@.take(i as int));
        }
        acc = acc * 10 + d;
        i = i + 1;
    }
    proof {
        assert(s@.take(len as int) =~= s@);
    }
    Some(acc)
}

pub proof fn lemma_dec_of_val(n: nat)
    ensures
        dec_val(dec_of(n)) == n,
        dec_of(n).len() > 0,
        all_digits(dec_of(n)),
    decreases n,
{
    if n < 10 {
        assert(dec_of(n) =~= seq![digit_char(n)]);
        assert(seq![digit_char(n)].drop_last() =~= Seq::<char>::empty());
        assert(dec_val(Seq::<char>::empty()) == 0);
        assert(dec_val(seq![digit_char(n)]) == digit_val(digit_char(n)));
    } else {
        lemma_dec_of_val(n / 10);
        let prev = dec_of(n / 10);
        let d = digit_char(n % 10);
        assert(prev.push(d).drop_last() =~= prev);
        assert(dec_val(dec_of(n)) == dec_val(prev) * 10 + digit_val(d));
        assert(forall|i: int| 0 <= i < prev.push(d).len() ==> is_digit(#[trigger] prev.push(d)[i]));
    }
}

/// Distinct numbers have distinct numerals.
pub proof fn lemma_dec_of_injective(a: nat, b: nat)
    requires
        a != b,
    ensures
        dec_of(a) != dec_of(b),
{
    lemma_dec_of_val(a);
    lemma_dec_of_val(b);
}

/// The value under an integer-number abstraction, when it is one.
pub open spec fn sp_num_u64(r: JRep) -> Option<nat> {
    match r {
        JRep::Num(s) => if s.len() > 0 && all_digits(s) {
            Some(dec_val(s))
        } else {
            None
        },
        _ => None,
    }
}

impl JsonValue {
    /// The value of this node when it is an unsigned integer number that
    /// fits in a `u64`.
    pub fn as_u64(&self) -> (r: Option<u64>)
        ensures
            match r {
                Some(n) => sp_num_u64(self.rep()) == Some(n as nat),
                None => match sp_num_u64(self.rep()) {
                    Some(m) => m > u64::MAX,
                    None => true,
                },
            },
    {
        match self {
            JsonValue::Num(s) => parse_dec_u64(s.as_str()),
            _ => None,
        }
    }

    /// Member lookup on an object value; `None` on any other shape or a
    /// missing key.
    pub fn get<'a>(&'a self, key: &str) -> (r: Option<&'a JsonValue>)
        ensures
            match r {
                Some(x) => jget(self.rep(), key@) == Some(x.rep()),
                None => jget(self.rep(), key@) is None,
            },
    {
        match self {
            JsonValue::Obj(fields) => {
                proof {
                    lemma_field_reps_of(fields@);
                    assert(field_reps_of(fields@).skip(0) =~= field_reps_of(fields@));
                }
                let n: usize = fields.len();
                let mut i: usize = 0;
                while i < n
                    invariant
                        *self == JsonValue::Obj(*fields),
                        n == fields@.len(),
                        0 <= i <= n,
                        rep_get(field_reps_of(fields@), key@) == rep_get(
                            field_reps_of(fields@).skip(i as int),
                            key@,
                        ),
                        field_reps_of(fields@).len() == n,
                        forall|j: int| 0 <= j < n ==> #[trigger] field_reps_of(fields@)[j] == (
                            fields@[j].0@,
                            fields@[j].1.rep(),
                        ),
                    decreases n - i,
                {
                    proof {
                        assert(field_reps_of(fields@).skip(i as int).first() == field_reps_of(
                            fields@,
                        )[i as int]);
                        assert(field_reps_of(fields@).skip(i as int).drop_first()
                            =~= field_reps_of(fields@).skip(i as int + 1));
                    }
                    if str_eq(fields[i].0.as_str(), key) {
                        proof {
                            assert(field_reps_of(fields@).skip(i as int).first() == (
                                fields@[i as int].0@,
                                fields@[i as int].1.rep(),
                            ));
                            assert(rep_get(field_reps_of(fields@).skip(i as int), key@) == Some(
                                fields@[i as int].1.rep(),
                            ));
                            assert(self.rep() == JRep::Obj(field_reps_of(fields@)));
                        }
                        return Some(&fields[i].1);
                    }
                    i = i + 1;
                }
                proof {
                    assert(field_reps_of(fields@).skip(n as int) =~= Seq::empty());
                }
                None
            },
            _ => None,
        }
    }
}

} // verus!
