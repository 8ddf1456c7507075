use vstd::prelude::*;

use crate::errors::{Error, ErrorV};
use crate::runtime::vars_view;

verus! {

/// The value bound to `name`; of several bindings for one name the
/// latest wins.
pub open spec fn lookup(vars: Seq<(Seq<char>, Seq<char>)>, name: Seq<char>) -> Option<Seq<char>>
    decreases vars,
{
    if vars.len() == 0 {
        Option::None
    } else if vars[vars.len() - 1].0 == name {
        Option::Some(vars[vars.len() - 1].1)
    } else {
        lookup(vars.drop_last(), name)
    }
}

pub open spec fn is_ident_start(c: char) -> bool {
    ('A' <= c && c <= 'Z') || ('a' <= c && c <= 'z')
}

pub open spec fn is_ident_char(c: char) -> bool {
    is_ident_start(c) || ('0' <= c && c <= '9') || c == '_' || c == '-'
}

/// The first index at or after `from` that does not continue a variable
/// name (or the end of the text).
pub open spec fn ident_end(s: Seq<char>, from: int) -> int
    decreases s.len() - from,
{
    if from < 0 || from >= s.len() {
        s.len() as int
    } else if is_ident_char(s[from]) {
        ident_end(s, from + 1)
    } else {
        from
    }
}

pub proof fn lemma_ident_end(s: Seq<char>, from: int)
    requires
        0 <= from <= s.len(),
    ensures
        from <= ident_end(s, from) <= s.len(),
    decreases s.len() - from,
{
    if from < s.len() && is_ident_char(s[from]) {
        lemma_ident_end(s, from + 1);
    }
}

/// Whether a `{name}` placeholder starts at position `i`.
pub open spec fn placeholder_at(s: Seq<char>, i: int) -> bool {
    &&& s[i] == '{'
    &&& i + 1 < s.len()
    &&& is_ident_start(s[i + 1])
    &&& ident_end(s, i + 2) < s.len()
    &&& s[ident_end(s, i + 2)] == '}'
}

/// The variable name of the placeholder at `i`.
pub open spec fn placeholder_name(s: Seq<char>, i: int) -> Seq<char> {
    s.subrange(i + 1, ident_end(s, i + 2))
}

/// Interpolation either yields the finished text or names the first
/// variable that was not provided.
pub enum InterpR {
    Done(Seq<char>),
    Missing(Seq<char>),
}

/// What interpolation of `s` from position `i` on yields: text is copied,
/// and each well-formed `{name}` placeholder is replaced by the value
/// bound to `name`; a placeholder whose variable is unbound stops the
/// scan.  Text that merely resembles a placeholder is copied as it is.
pub open spec fn spec_interp(s: Seq<char>, vars: Seq<(Seq<char>, Seq<char>)>, i: int) -> InterpR
    decreases s.len() - i,
    via spec_interp_dec
{
    if i < 0 || i >= s.len() {
        InterpR::Done(Seq::empty())
    } else if placeholder_at(s, i) {
        let name = placeholder_name(s, i);
        match lookup(vars, name) {
            Option::None => InterpR::Missing(name),
            Option::Some(v) => match spec_interp(s, vars, ident_end(s, i + 2) + 1) {
                InterpR::Missing(n) => InterpR::Missing(n),
                InterpR::Done(t) => InterpR::Done(v + t),
            },
        }
    } else {
        match spec_interp(s, vars, i + 1) {
            InterpR::Missing(n) => InterpR::Missing(n),
            InterpR::Done(t) => InterpR::Done(seq![s[i]] + t),
        }
    }
}

#[via_fn]
proof fn spec_interp_dec(s: Seq<char>, vars: Seq<(Seq<char>, Seq<char>)>, i: int) {
    if 0 <= i && i + 2 <= s.len() {
        lemma_ident_end(s, i + 2);
    }
}

/// Looks `name` up among the variable pairs, latest binding first.
#[verifier::loop_isolation(false)]
fn lookup_var(vars: &Vec<(String, String)>, name: &str) -> (r: Option<String>)
    ensures
        match r {
            Some(v) => lookup(vars_view(vars@), name@) == Some(v@),
            None => lookup(vars_view(vars@), name@) is None,
        },
{
    let ghost vv = vars_view(vars@);
    let n = vars.len();
    proof {
        assert(vv.subrange(0, n as int) =~= vv);
    }
    let mut i: usize = n;
    while i > 0
        invariant
            i <= n,
            n == vars@.len(),
            vv.len() == n,
            forall|k: int| 0 <= k < n ==> vv[k] == (vars@[k].0@, vars@[k].1@),
            lookup(vv, name@) == lookup(vv.subrange(0, i as int), name@),
        decreases i,
    {
        let ghost pre = vv.subrange(0, i as int);
        proof {
            assert(pre[pre.len() - 1] == vv[i - 1]);
            assert(pre.drop_last() =~= vv.subrange(0, i - 1));
        }
        let pair: &(String, String) = &vars[i - 1];
        if crate::text::str_eq(pair.0.as_str(), name) {
            return Some(pair.1.clone());
        }
        i = i - 1;
    }
    proof {
        assert(vv.subrange(0, 0) =~= Seq::<(Seq<char>, Seq<char>)>::empty());
    }
    None
}

/// First position at or after `from` that does not continue a variable
/// name.
fn ident_end_exec(s: &str, from: usize) -> (r: usize)
    requires
        from <= s@.len(),
    ensures
        r == ident_end(s@, from as int),
        from <= r <= s@.len(),
{
    let n = s.unicode_len();
    let mut i: usize = from;
    while i < n
        invariant
            from <= i <= n,
            n == s@.len(),
            ident_end(s@, from as int) == ident_end(s@, i as int),
        decreases n - i,
    {
        let c = s.get_char(i);
        let cont = (('A' <= c && c <= 'Z') || ('a' <= c && c <= 'z')) || ('0' <= c && c <= '9')
            || c == '_' || c == '-';
        if !cont {
            return i;
        }
        i = i + 1;
    }
    n
}

/// Replaces each `{name}` placeholder in `input_string` by the value the
/// runtime binds to `name`; fails naming the first variable that has no
/// binding.  Text that merely resembles a placeholder is copied as it
/// is.
pub fn interpolate(input_string: &str, variables: &Vec<(String, String)>) -> (r: Result<
    String,
    Error,
>)
    ensures
        spec_interp(input_string@, vars_view(variables@), 0) matches InterpR::Done(t) ==> (r
            matches Ok(done) && done@ == t),
        spec_interp(input_string@, vars_view(variables@), 0) matches InterpR::Missing(m) ==> (r
            matches Err(failed) && failed@ == ErrorV::InterpolationFailure(m)),
{
    let s = input_string;
    let n = s.unicode_len();
    let ghost vv = vars_view(variables@);
    let mut out = String::new();
    let mut i: usize = 0;
    while i < n
        invariant
            i <= n,
            n == s@.len(),
            s@ == input_string@,
            vv == vars_view(variables@),
            match spec_interp(s@, vv, i as int) {
                InterpR::Done(t) => spec_interp(s@, vv, 0) == InterpR::Done(out@ + t),
                InterpR::Missing(m) => spec_interp(s@, vv, 0) == InterpR::Missing(m),
            },
        decreases n - i,
    {
        let ghost out0 = out@;
        let c = s.get_char(i);
        let mut matched = false;
        if c == '{' && i + 1 < n {
            let c1 = s.get_char(i + 1);
            if ('A' <= c1 && c1 <= 'Z') || ('a' <= c1 && c1 <= 'z') {
                let e = ident_end_exec(s, i + 2);
                if e < n && s.get_char(e) == '}' {
                    matched = true;
                    proof {
                        assert(placeholder_at(s@, i as int));
                    }
                    let name = s.substring_char(i + 1, e);
                    proof {
                        assert(name@ == placeholder_name(s@, i as int));
                    }
                    match lookup_var(variables, name) {
                        None => {
                            proof {
                                assert(spec_interp(s@, vv, i as int) == InterpR::Missing(name@));
                                assert(spec_interp(s@, vv, 0) == InterpR::Missing(name@));
                            }
                            let err = Error::InterpolationFailure(String::from_str(name));
                            proof {
                                assert(err@ == ErrorV::InterpolationFailure(name@));
                            }
                            return Err(err);
                        },
                        Some(v) => {
                            out.append(v.as_str());
                            proof {
                                match spec_interp(s@, vv, e + 1) {
                                    InterpR::Done(t2) => {
                                        assert(out0 + (v@ + t2) =~= out@ + t2);
                                    },
                                    InterpR::Missing(_) => {},
                                }
                            }
                            i = e + 1;
                        },
                    }
                }
            }
        }
        if !matched {
            proof {
                assert(!placeholder_at(s@, i as int));
            }
            let piece = s.substring_char(i, i + 1);
            out.append(piece);
            proof {
                assert(piece@ =~= seq![s@[i as int]]);
                match spec_interp(s@, vv, i + 1) {
                    InterpR::Done(t2) => {
                        assert(out0 + (seq![s@[i as int]] + t2) =~= out@ + t2);
                    },
                    InterpR::Missing(_) => {},
                }
            }
            i = i + 1;
        }
    }
    proof {
        match spec_interp(s@, vv, n as int) {
            InterpR::Done(t) => {
                assert(out@ + t =~= out@);
            },
            InterpR::Missing(_) => {},
        }
    }
    Ok(out)
}

} // verus!
