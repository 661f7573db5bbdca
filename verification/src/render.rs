//! The rendering contract: the human-readable text of a value.
//!
//! Used by `print`, by the final process output, and by the evaluator's
//! dispatch rule that prefers a builtin whose name equals the rendered text
//! of an applied value.

use vstd::prelude::*;
use vstd::string::StringExecFns;

use crate::value::SpecValue;
use crate::value::Value;
use crate::value::value_view;
use crate::value::values_view;

verus! {

broadcast use crate::value::lemma_values_view_len, crate::value::lemma_values_view_index;

/// The decimal digit character of `d` (meaningful for `0 <= d <= 9`).
pub open spec fn digit_str(d: int) -> Seq<char> {
    if d == 0 {
        "0"@
    } else if d == 1 {
        "1"@
    } else if d == 2 {
        "2"@
    } else if d == 3 {
        "3"@
    } else if d == 4 {
        "4"@
    } else if d == 5 {
        "5"@
    } else if d == 6 {
        "6"@
    } else if d == 7 {
        "7"@
    } else if d == 8 {
        "8"@
    } else {
        "9"@
    }
}

/// The decimal digits of a nonnegative integer, most significant first.
pub open spec fn dec_nat(n: nat) -> Seq<char>
    decreases n,
{
    if n < 10 {
        digit_str(n as int)
    } else {
        dec_nat(n / 10) + digit_str((n % 10) as int)
    }
}

/// The decimal rendering of an integer, with a leading minus sign when
/// negative.
pub open spec fn dec_int(n: int) -> Seq<char> {
    if n < 0 {
        "-"@ + dec_nat((-n) as nat)
    } else {
        dec_nat(n as nat)
    }
}

/// The rendered text of a value: decimal digits for a number, `true`/`false`
/// for a boolean, the raw text of a string, `[` + comma-space-joined elements
/// + `]` for an array, and an opaque placeholder token for a procedure.
pub open spec fn render_spec(v: SpecValue) -> Seq<char>
    decreases v,
{
    match v {
        SpecValue::Number(n) => dec_int(n as int),
        SpecValue::Bool(b) => if b {
            "true"@
        } else {
            "false"@
        },
        SpecValue::Str(s) => s,
        SpecValue::Array(vs) => "["@ + join_renders(vs, ", "@) + "]"@,
        SpecValue::Builtin(k) => "<builtin>"@,
        SpecValue::Closure(ps, b, e) => "<closure>"@,
    }
}

/// The renderings of `vs` joined by `sep`.
pub open spec fn join_renders(vs: Seq<SpecValue>, sep: Seq<char>) -> Seq<char>
    decreases vs,
{
    if vs.len() == 0 {
        Seq::empty()
    } else if vs.len() == 1 {
        render_spec(vs[0])
    } else {
        proof {
            vstd::seq::axiom_seq_subrange_decreases::<SpecValue>(vs, 1, vs.len() as int);
        }
        render_spec(vs[0]) + sep + join_renders(vs.subrange(1, vs.len() as int), sep)
    }
}

/// Joining one more rendering appends one separator and that rendering.
pub proof fn lemma_join_push(vs: Seq<SpecValue>, sep: Seq<char>, x: SpecValue)
    requires
        vs.len() >= 1,
    ensures
        join_renders(vs.push(x), sep) == join_renders(vs, sep) + sep + render_spec(x),
    decreases vs.len(),
{
    let vsx = vs.push(x);
    assert(vsx[0] == vs[0]);
    if vs.len() == 1 {
        assert(vsx.subrange(1, vsx.len() as int) =~= seq![x]);
        assert(join_renders(vsx.subrange(1, vsx.len() as int), sep) == render_spec(x));
        assert(join_renders(vsx, sep) == render_spec(vs[0]) + sep + render_spec(x));
        assert(join_renders(vs, sep) == render_spec(vs[0]));
    } else {
        lemma_join_push(vs.subrange(1, vs.len() as int), sep, x);
        assert(vsx.subrange(1, vsx.len() as int) =~= vs.subrange(1, vs.len() as int).push(x));
        assert(join_renders(vs.subrange(1, vs.len() as int).push(x), sep) == join_renders(
            vs.subrange(1, vs.len() as int),
            sep,
        ) + sep + render_spec(x));
        assert((render_spec(vs[0]) + sep + (join_renders(vs.subrange(1, vs.len() as int), sep) + sep
            + render_spec(x))) =~= (render_spec(vs[0]) + sep + join_renders(
            vs.subrange(1, vs.len() as int),
            sep,
        )) + sep + render_spec(x));
    }
}

/// The digit character of `d` as text.
fn digit_lit(d: u64) -> (s: &'static str)
    requires
        d < 10,
    ensures
        s@ == digit_str(d as int),
{
    match d {
        0 => "0",
        1 => "1",
        2 => "2",
        3 => "3",
        4 => "4",
        5 => "5",
        6 => "6",
        7 => "7",
        8 => "8",
        _ => "9",
    }
}

/// The decimal digits of `n`.
fn render_u64(n: u64) -> (s: String)
    ensures
        s@ == dec_nat(n as nat),
    decreases n,
{
    if n < 10 {
        digit_lit(n).to_owned()
    } else {
        let mut s = render_u64(n / 10);
        s.append(digit_lit(n % 10));
        s
    }
}

/// The decimal rendering of a signed number.
fn render_i64(n: i64) -> (s: String)
    ensures
        s@ == dec_int(n as int),
{
    if n >= 0 {
        render_u64(n as u64)
    } else {
        let mag: u64 = ((-(n + 1)) as u64) + 1;
        proof {
            assert(mag as int == -(n as int));
        }
        let mut s = "-".to_owned();
        s.append(render_u64(mag).as_str());
        s
    }
}

/// The rendered text of a value (see [`render_spec`]).
pub fn render(v: &Value) -> (s: String)
    ensures
        s@ == render_spec(v@),
    decreases *v,
{
    match v {
        Value::Number(n) => render_i64(*n),
        Value::Bool(b) => if *b {
            "true".to_owned()
        } else {
            "false".to_owned()
        },
        Value::Str(s) => s.clone(),
        Value::Array(vs) => {
            let mut s = "[".to_owned();
            let joined = render_values(vs, ", ");
            s.append(joined.as_str());
            s.append("]");
            proof {
                assert(s@ == "["@ + join_renders(values_view(vs@), ", "@) + "]"@);
            }
            s
        },
        Value::Builtin(k) => "<builtin>".to_owned(),
        Value::Closure(ps, b, e) => "<closure>".to_owned(),
    }
}

/// The renderings of the values of `vs`, joined by `sep`.
pub fn render_values(vs: &Vec<Value>, sep: &str) -> (s: String)
    ensures
        s@ == join_renders(values_view(vs@), sep@),
    decreases *vs,
{
    let mut s = String::new();
    let mut i: usize = 0;
    while i < vs.len()
        invariant
            i <= vs.len(),
            s@ == join_renders(values_view(vs@).take(i as int), sep@),
        decreases vs.len() - i,
    {
        if i > 0 {
            s.append(sep);
        }
        let r = render(&vs[i]);
        s.append(r.as_str());
        proof {
            let whole = values_view(vs@);
            assert(whole.take(i + 1) =~= whole.take(i as int).push(whole[i as int]));
            if i > 0 {
                lemma_join_push(whole.take(i as int), sep@, whole[i as int]);
            } else {
                assert(whole.take(1) =~= seq![whole[0]]);
            }
        }
        i = i + 1;
    }
    proof {
        assert(values_view(vs@).take(vs@.len() as int) =~= values_view(vs@));
    }
    s
}

} // verus!
