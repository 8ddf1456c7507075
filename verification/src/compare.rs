use vstd::prelude::*;

use crate::ast::{
    spec_render_enum, spec_render_fn, spec_render_impl, spec_render_struct, Enum, Function, Impl,
    Struct,
};
use crate::text::{char_is_space, is_space, spec_trim, str_eq, trim_slice};

verus! {

/// `s` with every run of whitespace collapsed to a single space: each
/// run contributes one space, emitted at its last character.
pub open spec fn spec_collapse(s: Seq<char>) -> Seq<char>
    decreases s.len(),
{
    if s.len() == 0 {
        Seq::empty()
    } else if is_space(s[0]) {
        if s.len() > 1 && is_space(s[1]) {
            spec_collapse(s.drop_first())
        } else {
            seq![' '] + spec_collapse(s.drop_first())
        }
    } else {
        seq![s[0]] + spec_collapse(s.drop_first())
    }
}

/// The whitespace-normal form used to compare generated code: trimmed,
/// with inner whitespace runs collapsed to single spaces.
pub open spec fn spec_normalize(s: Seq<char>) -> Seq<char> {
    spec_collapse(spec_trim(s))
}

/// Normalizes `s` for whitespace-insensitive comparison.
#[verifier::loop_isolation(false)]
pub fn normalize(s: &str) -> (r: String)
    ensures
        r@ == spec_normalize(s@),
{
    let t = trim_slice(s);
    let n = t.unicode_len();
    let ghost tv = t@;
    let mut out = String::new();
    proof {
        assert(tv.subrange(0, n as int) =~= tv);
    }
    let mut i: usize = 0;
    while i < n
        invariant
            i <= n,
            spec_collapse(tv) == out@ + spec_collapse(tv.subrange(i as int, n as int)),
        decreases n - i,
    {
        let ghost suf = tv.subrange(i as int, n as int);
        let ghost out0 = out@;
        proof {
            assert(suf[0] == tv[i as int]);
            assert(suf.drop_first() =~= tv.subrange(i + 1, n as int));
            if i + 1 < n {
                assert(suf[1] == tv[i + 1]);
            }
        }
        let c = t.get_char(i);
        if char_is_space(c) {
            let run_continues = if i + 1 < n {
                char_is_space(t.get_char(i + 1))
            } else {
                false
            };
            if !run_continues {
                out.append(" ");
                proof {
                    reveal_strlit(" ");
                    assert(out0 + (seq![' '] + spec_collapse(tv.subrange(i + 1, n as int))) =~= out@
                        + spec_collapse(tv.subrange(i + 1, n as int)));
                }
            }
        } else {
            let piece = t.substring_char(i, i + 1);
            out.append(piece);
            proof {
                assert(piece@ =~= seq![tv[i as int]]);
                assert(out0 + (seq![tv[i as int]] + spec_collapse(tv.subrange(i + 1, n as int)))
                    =~= out@ + spec_collapse(tv.subrange(i + 1, n as int)));
            }
        }
        i = i + 1;
    }
    proof {
        assert(tv.subrange(n as int, n as int) =~= Seq::<char>::empty());
        assert(out@ + spec_collapse(Seq::<char>::empty()) =~= out@);
    }
    out
}

/// Whether a rendered function matches the expected text up to
/// whitespace.
pub fn compare_function(item: Function, expected: &str) -> (r: bool)
    ensures
        r == (spec_normalize(spec_render_fn(item@, 0)) == spec_normalize(expected@)),
{
    let rendered = item.to_text();
    let a = normalize(rendered.as_str());
    let b = normalize(expected);
    str_eq(a.as_str(), b.as_str())
}

/// Whether a rendered struct matches the expected text up to
/// whitespace.
pub fn compare_struct(item: Struct, expected: &str) -> (r: bool)
    ensures
        r == (spec_normalize(spec_render_struct(item@, 0)) == spec_normalize(expected@)),
{
    let rendered = item.to_text();
    let a = normalize(rendered.as_str());
    let b = normalize(expected);
    str_eq(a.as_str(), b.as_str())
}

/// Whether a rendered enum matches the expected text up to whitespace.
pub fn compare_enum(item: Enum, expected: &str) -> (r: bool)
    ensures
        r == (spec_normalize(spec_render_enum(item@, 0)) == spec_normalize(expected@)),
{
    let rendered = item.to_text();
    let a = normalize(rendered.as_str());
    let b = normalize(expected);
    str_eq(a.as_str(), b.as_str())
}

/// Whether a rendered implementation block matches the expected text up
/// to whitespace.
pub fn compare_impl(item: Impl, expected: &str) -> (r: bool)
    ensures
        r == (spec_normalize(spec_render_impl(item@, 0)) == spec_normalize(expected@)),
{
    let rendered = item.to_text();
    let a = normalize(rendered.as_str());
    let b = normalize(expected);
    str_eq(a.as_str(), b.as_str())
}

} // verus!
