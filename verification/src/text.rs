//! Printing a JSON tree to its wire text, verified character by character.
//!
//! `jval_text` is the spec-level printer; `Json::to_text` is proved to emit
//! exactly it. Strings are escaped as the format asks: quote and backslash
//! get a backslash, the common control characters their short escapes, and
//! any other control character a `\u00..` escape.

use vstd::prelude::*;
use crate::json::{Json, JVal, json_view};
use vstd::string::StrSliceExecFns;
use vstd::string::StringExecFns;

verus! {

broadcast use vstd::std_specs::vec::group_vec_axioms;

pub open spec fn dig_char(d: int) -> char {
    ((d + 48) as u8) as char
}

pub open spec fn hex_char(d: int) -> char {
    if d < 10 {
        dig_char(d)
    } else {
        ((d + 87) as u8) as char
    }
}

/// The decimal digits of a non-negative number, most significant first.
pub open spec fn nat_text(n: int) -> Seq<char>
    decreases n,
{
    if n < 10 {
        seq![dig_char(n)]
    } else {
        nat_text(n / 10).push(dig_char(n % 10))
    }
}

/// The decimal form of an integer.
pub open spec fn int_text(i: int) -> Seq<char> {
    if i < 0 {
        seq!['-'] + nat_text(-i)
    } else {
        nat_text(i)
    }
}

/// How one character appears inside a JSON string literal.
pub open spec fn esc_char(c: char) -> Seq<char> {
    if c == '"' {
        seq!['\\', '"']
    } else if c == '\\' {
        seq!['\\', '\\']
    } else if c == '\n' {
        seq!['\\', 'n']
    } else if c == '\r' {
        seq!['\\', 'r']
    } else if c == '\t' {
        seq!['\\', 't']
    } else if (c as u32) < 32 {
        seq!['\\', 'u', '0', '0', hex_char((c as u32 / 16) as int), hex_char((c as u32 % 16) as int)]
    } else {
        seq![c]
    }
}

/// The body of a JSON string literal.
pub open spec fn str_text(s: Seq<char>) -> Seq<char>
    decreases s.len(),
{
    if s.len() == 0 {
        Seq::empty()
    } else {
        str_text(s.drop_last()) + esc_char(s.last())
    }
}

/// A quoted JSON string literal.
pub open spec fn quoted_text(s: Seq<char>) -> Seq<char> {
    seq!['"'] + str_text(s) + seq!['"']
}

/// The wire text of a JSON value.
pub open spec fn jval_text(j: JVal) -> Seq<char>
    decreases j,
{
    match j {
        JVal::Null => "null"@,
        JVal::Bool(b) => if b {
            "true"@
        } else {
            "false"@
        },
        JVal::Int(i) => int_text(i),
        JVal::Num(s) => s,
        JVal::Str(s) => quoted_text(s),
        JVal::Arr(a) => if a.len() == 0 {
            "[]"@
        } else {
            seq!['['] + jval_text(a[0]) + arr_tail_text(a.drop_first()) + seq![']']
        },
        JVal::Obj(o) => if o.len() == 0 {
            "{}"@
        } else {
            seq!['{'] + pair_text(o[0]) + obj_tail_text(o.drop_first()) + seq!['}']
        },
    }
}

/// The remaining array elements, each preceded by a comma.
pub open spec fn arr_tail_text(a: Seq<JVal>) -> Seq<char>
    decreases a,
{
    if a.len() == 0 {
        Seq::empty()
    } else {
        seq![','] + jval_text(a[0]) + arr_tail_text(a.drop_first())
    }
}

/// One object field: quoted key, colon, value.
pub open spec fn pair_text(p: (Seq<char>, JVal)) -> Seq<char>
    decreases p,
{
    quoted_text(p.0) + seq![':'] + jval_text(p.1)
}

/// The remaining object fields, each preceded by a comma.
pub open spec fn obj_tail_text(o: Seq<(Seq<char>, JVal)>) -> Seq<char>
    decreases o,
{
    if o.len() == 0 {
        Seq::empty()
    } else {
        seq![','] + pair_text(o[0]) + obj_tail_text(o.drop_first())
    }
}

/// Relies on String::push: appends exactly the one character.
#[verifier::external_body]
fn push_char(s: &mut String, c: char)
    ensures
        final(s)@ == old(s)@.push(c),
{
    s.push(c);
}

fn write_nat(n: u64, out: &mut String)
    ensures
        final(out)@ == old(out)@ + nat_text(n as int),
    decreases n,
{
    if n < 10 {
        push_char(out, (48 + n as u8) as char);
        proof {
            assert(out@ =~= old(out)@ + nat_text(n as int));
        }
    } else {
        write_nat(n / 10, out);
        push_char(out, (48 + (n % 10) as u8) as char);
        proof {
            assert(out@ =~= old(out)@ + nat_text(n as int));
        }
    }
}

fn write_int(i: i64, out: &mut String)
    ensures
        final(out)@ == old(out)@ + int_text(i as int),
{
    if i < 0 {
        push_char(out, '-');
        let ghost mid = out@;
        let u: u64 = ((-(i + 1)) as u64) + 1;
        write_nat(u, out);
        proof {
            assert(u as int == -(i as int));
            assert(out@ =~= old(out)@ + int_text(i as int));
        }
    } else {
        write_nat(i as u64, out);
    }
}

fn write_hex_digit(d: u32, out: &mut String)
    requires
        d < 16,
    ensures
        final(out)@ == old(out)@.push(hex_char(d as int)),
{
    if d < 10 {
        push_char(out, (48 + d as u8) as char);
    } else {
        push_char(out, (87 + d as u8) as char);
    }
}

#[verifier::loop_isolation(false)]
fn write_quoted(s: &str, out: &mut String)
    ensures
        final(out)@ == old(out)@ + quoted_text(s@),
{
    push_char(out, '"');
    let n = s.unicode_len();
    let mut i: usize = 0;
    while i < n
        invariant
            i <= n,
            n == s@.len(),
            out@ == old(out)@.push('"') + str_text(s@.take(i as int)),
        decreases n - i,
    {
        let ghost pre = s@.take(i as int);
        let c = s.get_char(i);
        if c == '"' {
            push_char(out, '\\');
            push_char(out, '"');
        } else if c == '\\' {
            push_char(out, '\\');
            push_char(out, '\\');
        } else if c == '\n' {
            push_char(out, '\\');
            push_char(out, 'n');
        } else if c == '\r' {
            push_char(out, '\\');
            push_char(out, 'r');
        } else if c == '\t' {
            push_char(out, '\\');
            push_char(out, 't');
        } else if (c as u32) < 32 {
            push_char(out, '\\');
            push_char(out, 'u');
            push_char(out, '0');
            push_char(out, '0');
            write_hex_digit((c as u32) / 16, out);
            write_hex_digit((c as u32) % 16, out);
        } else {
            push_char(out, c);
        }
        i = i + 1;
        proof {
            let cur = s@.take(i as int);
            assert(cur.drop_last() =~= pre);
            assert(cur.last() == c);
            assert(out@ =~= old(out)@.push('"') + str_text(cur));
        }
    }
    push_char(out, '"');
    proof {
        assert(s@.take(n as int) =~= s@);
        assert(out@ =~= old(out)@ + quoted_text(s@));
    }
}

#[verifier::loop_isolation(false)]
fn write_jval(j: &Json, out: &mut String)
    ensures
        final(out)@ == old(out)@ + jval_text(j@),
    decreases j,
{
    match j {
        Json::Null => {
            out.append("null");
        },
        Json::Bool(b) => {
            if *b {
                out.append("true");
            } else {
                out.append("false");
            }
        },
        Json::Int(i) => {
            write_int(*i, out);
        },
        Json::Num(n) => {
            out.append(n.as_str());
        },
        Json::Str(s) => {
            write_quoted(s.as_str(), out);
        },
        Json::Arr(v) => {
            if v.len() == 0 {
                out.append("[]");
                proof {
                    assert(json_view(*j)->Arr_0.len() == 0);
                }
            } else {
                let ghost a = json_view(*j)->Arr_0;
                push_char(out, '[');
                write_jval(&v[0], out);
                let mut i: usize = 1;
                while i < v.len()
                    invariant
                        1 <= i <= v.len(),
                        out@ == old(out)@.push('[') + jval_text(a[0]) + tail_of(a, i as int),
                    decreases v.len() - i,
                {
                    let ghost before = tail_of(a, i as int);
                    push_char(out, ',');
                    write_jval(&v[i], out);
                    i = i + 1;
                    proof {
                        lemma_tail_of_step(a, i as int - 1);
                        assert(out@ =~= old(out)@.push('[') + jval_text(a[0]) + tail_of(
                            a,
                            i as int,
                        ));
                    }
                }
                push_char(out, ']');
                proof {
                    lemma_tail_of_full(a);
                    assert(out@ =~= old(out)@ + jval_text(j@));
                }
            }
        },
        Json::Obj(v) => {
            if v.len() == 0 {
                out.append("{}");
                proof {
                    assert(json_view(*j)->Obj_0.len() == 0);
                }
            } else {
                let ghost o = json_view(*j)->Obj_0;
                push_char(out, '{');
                write_quoted(v[0].0.as_str(), out);
                push_char(out, ':');
                write_jval(&v[0].1, out);
                proof {
                    assert(out@ =~= old(out)@.push('{') + pair_text(o[0]) + otail_of(o, 1));
                }
                let mut i: usize = 1;
                while i < v.len()
                    invariant
                        1 <= i <= v.len(),
                        out@ == old(out)@.push('{') + pair_text(o[0]) + otail_of(o, i as int),
                    decreases v.len() - i,
                {
                    push_char(out, ',');
                    write_quoted(v[i].0.as_str(), out);
                    push_char(out, ':');
                    write_jval(&v[i].1, out);
                    i = i + 1;
                    proof {
                        lemma_otail_of_step(o, i as int - 1);
                        assert(out@ =~= old(out)@.push('{') + pair_text(o[0]) + otail_of(
                            o,
                            i as int,
                        ));
                    }
                }
                push_char(out, '}');
                proof {
                    lemma_otail_of_full(o);
                    assert(out@ =~= old(out)@ + jval_text(j@));
                }
            }
        },
    }
}

/// The comma-separated text of the elements before position `i`, past the
/// first.
spec fn tail_of(a: Seq<JVal>, i: int) -> Seq<char>
    decreases i,
{
    if i <= 1 {
        Seq::empty()
    } else {
        tail_of(a, i - 1) + seq![','] + jval_text(a[i - 1])
    }
}

proof fn lemma_tail_of_step(a: Seq<JVal>, i: int)
    requires
        1 <= i,
    ensures
        tail_of(a, i + 1) == tail_of(a, i) + seq![','] + jval_text(a[i]),
{
}

proof fn lemma_tail_of_full(a: Seq<JVal>)
    requires
        a.len() >= 1,
    ensures
        tail_of(a, a.len() as int) == arr_tail_text(a.drop_first()),
{
    lemma_tail_suffix(a, 1);
    assert(tail_of(a, 1) == Seq::<char>::empty());
    assert(tail_of(a, 1) + arr_tail_text(a.subrange(1, a.len() as int)) =~= arr_tail_text(
        a.drop_first(),
    ));
}

proof fn lemma_tail_suffix(a: Seq<JVal>, k: int)
    requires
        1 <= k <= a.len(),
    ensures
        tail_of(a, a.len() as int) == tail_of(a, k) + arr_tail_text(a.subrange(k, a.len() as int)),
    decreases a.len() - k,
{
    if k == a.len() {
        assert(a.subrange(k, a.len() as int) =~= Seq::empty());
        assert(tail_of(a, k) + arr_tail_text(a.subrange(k, a.len() as int)) =~= tail_of(a, k));
    } else {
        lemma_tail_suffix(a, k + 1);
        let s = a.subrange(k, a.len() as int);
        assert(s[0] == a[k]);
        assert(s.drop_first() =~= a.subrange(k + 1, a.len() as int));
        lemma_tail_of_step(a, k);
        assert(tail_of(a, k) + arr_tail_text(s) =~= (tail_of(a, k) + seq![','] + jval_text(a[k]))
            + arr_tail_text(s.drop_first()));
    }
}

/// The comma-separated text of the object fields before position `i`, past
/// the first.
spec fn otail_of(o: Seq<(Seq<char>, JVal)>, i: int) -> Seq<char>
    decreases i,
{
    if i <= 1 {
        Seq::empty()
    } else {
        otail_of(o, i - 1) + seq![','] + pair_text(o[i - 1])
    }
}

proof fn lemma_otail_of_step(o: Seq<(Seq<char>, JVal)>, i: int)
    requires
        1 <= i,
    ensures
        otail_of(o, i + 1) == otail_of(o, i) + seq![','] + pair_text(o[i]),
{
}

proof fn lemma_otail_of_full(o: Seq<(Seq<char>, JVal)>)
    requires
        o.len() >= 1,
    ensures
        otail_of(o, o.len() as int) == obj_tail_text(o.drop_first()),
{
    lemma_otail_suffix(o, 1);
    assert(otail_of(o, 1) == Seq::<char>::empty());
    assert(otail_of(o, 1) + obj_tail_text(o.subrange(1, o.len() as int)) =~= obj_tail_text(
        o.drop_first(),
    ));
}

proof fn lemma_otail_suffix(o: Seq<(Seq<char>, JVal)>, k: int)
    requires
        1 <= k <= o.len(),
    ensures
        otail_of(o, o.len() as int) == otail_of(o, k) + obj_tail_text(
            o.subrange(k, o.len() as int),
        ),
    decreases o.len() - k,
{
    if k == o.len() {
        assert(o.subrange(k, o.len() as int) =~= Seq::empty());
        assert(otail_of(o, k) + obj_tail_text(o.subrange(k, o.len() as int)) =~= otail_of(o, k));
    } else {
        lemma_otail_suffix(o, k + 1);
        let s = o.subrange(k, o.len() as int);
        assert(s[0] == o[k]);
        assert(s.drop_first() =~= o.subrange(k + 1, o.len() as int));
        lemma_otail_of_step(o, k);
        assert(otail_of(o, k) + obj_tail_text(s) =~= (otail_of(o, k) + seq![','] + pair_text(o[k]))
            + obj_tail_text(s.drop_first()));
    }
}

impl Json {
    /// The tree's wire text.
    pub fn to_text(&self) -> (r: String)
        ensures
            r@ == jval_text(self@),
    {
        let mut out = String::new();
        write_jval(self, &mut out);
        proof {
            assert(out@ =~= jval_text(self@));
        }
        out
    }
}

} // verus!
