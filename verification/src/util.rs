use vstd::prelude::*;

use crate::descriptor::GroupSetting;
use crate::element::{attr_of, element_view, Element};
use crate::errors::{Error, ErrorV};
use crate::interpolation::{interpolate, spec_interp, InterpR};
use crate::runtime::{vars_view, Runtime};

verus! {

/// What the external expression evaluator yields for a condition over
/// the given variable bindings: `Some(b)` when the expression evaluates
/// to the boolean `b`, `None` when it cannot be evaluated to a boolean.
/// The outcome depends on the condition text and the bindings alone.
pub uninterp spec fn eval_outcome(cond: Seq<char>, vars: Seq<(Seq<char>, Seq<char>)>) -> Option<
    bool,
>;

// ------------------------------------------------------------------
// The vetted condition grammar
// ------------------------------------------------------------------
//
// eval's parser panics on text outside a fragment of its language: its
// tokenizer slices the raw string at character indices taken as byte
// offsets (non-ASCII input), `close_bracket` pops its node stack without
// an emptiness guard (bracket tokens, e.g. `()`), a bare `!` builds a
// childless node whose evaluation unwraps a first child, and the
// arithmetic operators unwrap mixed-sign integer conversions.  The
// evaluator is therefore only ever handed conditions from the grammar
// below, which stays on the paths of eval's source that return errors
// instead: ASCII terms (words, quoted strings) alternating with the
// comparison and boolean operators, and nothing else — no brackets, no
// commas, no dots, no arithmetic, no bare `!`, no double quotes.

/// The characters a condition may hold at all.
pub open spec fn cond_char_ok(c: char) -> bool {
    ||| ('A' <= c && c <= 'Z')
    ||| ('a' <= c && c <= 'z')
    ||| ('0' <= c && c <= '9')
    ||| c == ' '
    ||| c == '_'
    ||| c == '\''
    ||| c == '='
    ||| c == '!'
    ||| c == '&'
    ||| c == '|'
    ||| c == '<'
    ||| c == '>'
}

pub open spec fn cond_chars_ok(s: Seq<char>) -> bool {
    forall|i: int| 0 <= i < s.len() ==> cond_char_ok(#[trigger] s[i])
}

/// A character that may continue a word term.
pub open spec fn cond_word_char(c: char) -> bool {
    ('A' <= c && c <= 'Z') || ('a' <= c && c <= 'z') || ('0' <= c && c <= '9') || c == '_'
}

/// The first index at or after `i` that is not a space (or the end).
pub open spec fn cond_skip_spaces(s: Seq<char>, i: int) -> int
    decreases s.len() - i,
{
    if i < 0 || i >= s.len() {
        s.len() as int
    } else if s[i] == ' ' {
        cond_skip_spaces(s, i + 1)
    } else {
        i
    }
}

pub proof fn lemma_cond_skip_spaces(s: Seq<char>, i: int)
    requires
        0 <= i <= s.len(),
    ensures
        i <= cond_skip_spaces(s, i) <= s.len(),
    decreases s.len() - i,
{
    if i < s.len() && s[i] == ' ' {
        lemma_cond_skip_spaces(s, i + 1);
    }
}

/// The first index at or after `i` that does not continue a word.
pub open spec fn cond_word_end(s: Seq<char>, i: int) -> int
    decreases s.len() - i,
{
    if i < 0 || i >= s.len() {
        s.len() as int
    } else if cond_word_char(s[i]) {
        cond_word_end(s, i + 1)
    } else {
        i
    }
}

pub proof fn lemma_cond_word_end(s: Seq<char>, i: int)
    requires
        0 <= i <= s.len(),
    ensures
        i <= cond_word_end(s, i) <= s.len(),
    decreases s.len() - i,
{
    if i < s.len() && cond_word_char(s[i]) {
        lemma_cond_word_end(s, i + 1);
    }
}

/// Where the term starting at `i` ends: a word runs while word
/// characters continue; a `'`-quoted string runs to the next quote.
/// `None` when no term starts at `i`.
pub open spec fn cond_term_end(s: Seq<char>, i: int) -> Option<int> {
    if i < 0 || i >= s.len() {
        Option::None
    } else if s[i] == '\'' {
        match crate::text::spec_find(s, '\'', i + 1) {
            Option::None => Option::None,
            Option::Some(j) => Option::Some(j + 1),
        }
    } else if cond_word_char(s[i]) {
        Option::Some(cond_word_end(s, i))
    } else {
        Option::None
    }
}

pub proof fn lemma_cond_term_end(s: Seq<char>, i: int)
    requires
        0 <= i <= s.len(),
    ensures
        cond_term_end(s, i) matches Some(e) ==> i < e <= s.len(),
{
    if 0 <= i && i < s.len() {
        if s[i] == '\'' {
            crate::text::lemma_find_bounds(s, '\'', i + 1);
        } else if cond_word_char(s[i]) {
            lemma_cond_word_end(s, i + 1);
        }
    }
}

/// Where the operator starting at `i` ends: one of `==`, `!=`, `<=`,
/// `>=`, `&&`, `||`, `<`, `>`.  `None` when no admitted operator starts
/// at `i`.
pub open spec fn cond_binop_end(s: Seq<char>, i: int) -> Option<int> {
    if i < 0 || i >= s.len() {
        Option::None
    } else if i + 1 < s.len() && ((s[i] == '=' && s[i + 1] == '=') || (s[i] == '!' && s[i + 1]
        == '=') || (s[i] == '<' && s[i + 1] == '=') || (s[i] == '>' && s[i + 1] == '=') || (s[i]
        == '&' && s[i + 1] == '&') || (s[i] == '|' && s[i + 1] == '|')) {
        Option::Some(i + 2)
    } else if s[i] == '<' || s[i] == '>' {
        Option::Some(i + 1)
    } else {
        Option::None
    }
}

/// After one term, the rest of a condition is either over or one
/// operator followed by a term and another such tail.
pub open spec fn cond_tail_ok(s: Seq<char>, i: int) -> bool
    decreases s.len() - i,
    via cond_tail_ok_dec
{
    if i < 0 {
        false
    } else {
        let k = cond_skip_spaces(s, i);
        if k >= s.len() {
            true
        } else {
            match cond_binop_end(s, k) {
                Option::None => false,
                Option::Some(b) => {
                    let t = cond_skip_spaces(s, b);
                    match cond_term_end(s, t) {
                        Option::None => false,
                        Option::Some(e) => cond_tail_ok(s, e),
                    }
                },
            }
        }
    }
}

#[via_fn]
proof fn cond_tail_ok_dec(s: Seq<char>, i: int) {
    if i >= 0 && i <= s.len() {
        lemma_cond_skip_spaces(s, i);
        let k = cond_skip_spaces(s, i);
        if k < s.len() {
            match cond_binop_end(s, k) {
                Option::Some(b) => {
                    lemma_cond_skip_spaces(s, b);
                    let t = cond_skip_spaces(s, b);
                    lemma_cond_term_end(s, t);
                },
                Option::None => {},
            }
        }
    }
}

/// The conditions the evaluator is trusted with: whitelisted characters
/// only, forming terms (words or quoted strings) that alternate with
/// comparison and boolean operators.  Audited against eval's parser:
/// everything here either evaluates or returns an error, never panics.
pub open spec fn spec_safe_condition(s: Seq<char>) -> bool {
    &&& cond_chars_ok(s)
    &&& {
        let k = cond_skip_spaces(s, 0);
        match cond_term_end(s, k) {
            Option::None => false,
            Option::Some(e) => cond_tail_ok(s, e),
        }
    }
}

/// First non-space position at or after `from`.
fn skip_spaces_exec(s: &str, from: usize) -> (r: usize)
    requires
        from <= s@.len(),
    ensures
        r == cond_skip_spaces(s@, from as int),
        from <= r <= s@.len(),
{
    let n = s.unicode_len();
    let mut i: usize = from;
    while i < n
        invariant
            from <= i <= n,
            n == s@.len(),
            cond_skip_spaces(s@, from as int) == cond_skip_spaces(s@, i as int),
        decreases n - i,
    {
        if s.get_char(i) != ' ' {
            return i;
        }
        i = i + 1;
    }
    n
}

fn word_char_exec(c: char) -> (r: bool)
    ensures
        r == cond_word_char(c),
{
    ('A' <= c && c <= 'Z') || ('a' <= c && c <= 'z') || ('0' <= c && c <= '9') || c == '_'
}

/// End of the term starting at `i`, if one does.
fn term_end_exec(s: &str, i: usize) -> (r: Option<usize>)
    requires
        i <= s@.len(),
    ensures
        match r {
            Some(e) => cond_term_end(s@, i as int) == Some(e as int) && i < e <= s@.len(),
            None => cond_term_end(s@, i as int) is None,
        },
{
    let n = s.unicode_len();
    if i >= n {
        return None;
    }
    let c = s.get_char(i);
    if c == '\'' {
        match crate::text::find_char_from(s, '\'', i + 1) {
            None => None,
            Some(j) => Some(j + 1),
        }
    } else if word_char_exec(c) {
        let mut e: usize = i;
        while e < n
            invariant
                i <= e <= n,
                n == s@.len(),
                cond_word_char(s@[i as int]),
                cond_word_end(s@, i as int) == cond_word_end(s@, e as int),
            decreases n - e,
        {
            if !word_char_exec(s.get_char(e)) {
                proof {
                    assert(cond_word_end(s@, e as int) == e as int);
                    assert(e != i);
                }
                return Some(e);
            }
            e = e + 1;
        }
        proof {
            assert(cond_word_end(s@, e as int) == e as int);
        }
        Some(e)
    } else {
        None
    }
}

/// End of the operator starting at `i`, if one does.
fn binop_end_exec(s: &str, i: usize) -> (r: Option<usize>)
    requires
        i <= s@.len(),
    ensures
        match r {
            Some(b) => cond_binop_end(s@, i as int) == Some(b as int) && i < b <= s@.len(),
            None => cond_binop_end(s@, i as int) is None,
        },
{
    let n = s.unicode_len();
    if i >= n {
        return None;
    }
    let c = s.get_char(i);
    if i + 1 < n {
        let c1 = s.get_char(i + 1);
        if (c == '=' && c1 == '=') || (c == '!' && c1 == '=') || (c == '<' && c1 == '=') || (c
            == '>' && c1 == '=') || (c == '&' && c1 == '&') || (c == '|' && c1 == '|') {
            return Some(i + 2);
        }
    }
    if c == '<' || c == '>' {
        Some(i + 1)
    } else {
        None
    }
}

/// The tail is over when only spaces remain.
proof fn lemma_tail_done(s: Seq<char>, i: int)
    requires
        0 <= i,
        cond_skip_spaces(s, i) >= s.len(),
    ensures
        cond_tail_ok(s, i),
{
}

/// Whether `s` lies inside the vetted condition grammar.
pub fn is_safe_condition(s: &str) -> (r: bool)
    ensures
        r == spec_safe_condition(s@),
{
    let n = s.unicode_len();
    let mut i: usize = 0;
    while i < n
        invariant
            i <= n,
            n == s@.len(),
            forall|k: int| 0 <= k < i ==> cond_char_ok(#[trigger] s@[k]),
        decreases n - i,
    {
        let c = s.get_char(i);
        let ok = (('A' <= c && c <= 'Z') || ('a' <= c && c <= 'z') || ('0' <= c && c <= '9') || c
            == ' ' || c == '_' || c == '\'' || c == '=' || c == '!' || c == '&' || c == '|' || c
            == '<' || c == '>');
        if !ok {
            proof {
                assert(!cond_char_ok(s@[i as int]));
                assert(!cond_chars_ok(s@));
            }
            return false;
        }
        i = i + 1;
    }
    proof {
        assert(cond_chars_ok(s@));
    }
    let k = skip_spaces_exec(s, 0);
    let mut pos: usize = 0;
    match term_end_exec(s, k) {
        None => {
            proof {
                assert(!spec_safe_condition(s@));
            }
            return false;
        },
        Some(e) => {
            pos = e;
        },
    }
    let ghost start = pos as int;
    proof {
        assert(spec_safe_condition(s@) == cond_tail_ok(s@, start));
    }
    loop
        invariant_except_break
            pos <= n,
            n == s@.len(),
            spec_safe_condition(s@) == cond_tail_ok(s@, start),
            cond_tail_ok(s@, start) == cond_tail_ok(s@, pos as int),
        ensures
            cond_tail_ok(s@, start),
            n == s@.len(),
        decreases n - pos,
    {
        let ghost pos0 = pos as int;
        let k2 = skip_spaces_exec(s, pos);
        if k2 >= n {
            proof {
                lemma_tail_done(s@, pos0);
            }
            break ;
        }
        let b = match binop_end_exec(s, k2) {
            None => {
                proof {
                    assert(!cond_tail_ok(s@, pos0));
                    assert(!spec_safe_condition(s@));
                }
                return false;
            },
            Some(b) => b,
        };
        let t = skip_spaces_exec(s, b);
        match term_end_exec(s, t) {
            None => {
                proof {
                    assert(!cond_tail_ok(s@, pos0));
                    assert(!spec_safe_condition(s@));
                }
                return false;
            },
            Some(e) => {
                proof {
                    assert(cond_tail_ok(s@, pos0) == cond_tail_ok(s@, e as int));
                }
                pos = e;
            },
        }
    }
    proof {
        assert(spec_safe_condition(s@));
    }
    true
}

/// Relies on eval's `Expr`: on a condition inside the vetted grammar,
/// an expression executed over a value context is a pure function of
/// the expression text and the bindings; `exec` errors and non-boolean
/// results are collapsed into `None`.  The `requires` keeps out the
/// inputs on which eval's parser panics.
#[verifier::external_body]
fn eval_expr(cond: &str, vars: &Vec<(String, String)>) -> (r: Option<bool>)
    requires
        spec_safe_condition(cond@),
    ensures
        r == eval_outcome(cond@, vars_view(vars@)),
{
    let mut expr = eval::Expr::new(cond);
    for (name, value) in vars.iter() {
        expr = expr.value(name.as_str(), value.as_str());
    }
    match expr.exec() {
        Ok(value) => value.as_bool(),
        Err(_) => None,
    }
}

/// What gating a node comes to: no condition counts as true; a condition
/// inside the vetted grammar is handed to the external evaluator, and
/// one outside it is rejected.
pub open spec fn spec_condition(cond: Option<Seq<char>>, vars: Seq<(Seq<char>, Seq<char>)>)
    -> Option<bool> {
    match cond {
        Option::None => Option::Some(true),
        Option::Some(c) => if spec_safe_condition(c) {
            eval_outcome(c, vars)
        } else {
            Option::None
        },
    }
}

/// Evaluates an optional condition over the runtime's variables.  An
/// absent condition holds; a condition outside the vetted grammar, or
/// one the evaluator cannot reduce to a boolean, is an error carrying
/// the condition text.
pub fn evaluate_condition(condition: Option<&str>, runtime: &Runtime) -> (r: Result<bool, Error>)
    ensures
        match spec_condition(
            match condition {
                Option::Some(c) => Option::Some(c@),
                Option::None => Option::None,
            },
            vars_view(runtime.variables@),
        ) {
            Option::Some(b) => r == Result::<bool, Error>::Ok(b),
            Option::None => (r matches Err(failed) && condition matches Some(c) && failed@
                == ErrorV::ConditionFailure(c@)),
        },
{
    match condition {
        None => Ok(true),
        Some(c) => {
            if !is_safe_condition(c) {
                return Err(Error::ConditionFailure(String::from_str(c)));
            }
            match eval_expr(c, &runtime.variables) {
                Some(b) => Ok(b),
                None => Err(Error::ConditionFailure(String::from_str(c))),
            }
        },
    }
}

/// The boolean a node's own condition attribute gates it with.
pub open spec fn spec_gate(e: crate::element::ElementV, vars: Seq<(Seq<char>, Seq<char>)>)
    -> Option<bool> {
    spec_condition(attr_of(e.attributes, "condition"@), vars)
}

/// Evaluates the node's `condition` attribute.
pub fn evaluate_condition_from_element(runtime: &Runtime, element: &Element) -> (r: Result<
    bool,
    Error,
>)
    ensures
        match spec_gate(element_view(*element), vars_view(runtime.variables@)) {
            Option::Some(b) => r == Result::<bool, Error>::Ok(b),
            Option::None => (r matches Err(failed) && attr_of(
                element_view(*element).attributes,
                "condition"@,
            ) matches Some(c) && failed@ == ErrorV::ConditionFailure(c)),
        },
{
    let condition = element.attr("condition");
    match condition {
        None => Ok(true),
        Some(c) => evaluate_condition(Some(c.as_str()), runtime),
    }
}

/// What interpolating an attribute comes to: an absent attribute stays
/// absent; a present one is interpolated.
pub enum AttrR {
    Done(Option<Seq<char>>),
    Missing(Seq<char>),
}

pub open spec fn spec_interp_attr(
    e: crate::element::ElementV,
    name: Seq<char>,
    vars: Seq<(Seq<char>, Seq<char>)>,
) -> AttrR {
    match attr_of(e.attributes, name) {
        Option::None => AttrR::Done(Option::None),
        Option::Some(v) => match spec_interp(v, vars, 0) {
            InterpR::Done(t) => AttrR::Done(Option::Some(t)),
            InterpR::Missing(n) => AttrR::Missing(n),
        },
    }
}

/// Reads the named attribute and interpolates its value with the
/// runtime's variables.
pub fn interpolate_attribute(name: &str, element: &Element, runtime: &Runtime) -> (r: Result<
    Option<String>,
    Error,
>)
    ensures
        match spec_interp_attr(element_view(*element), name@, vars_view(runtime.variables@)) {
            AttrR::Done(t) => match r {
                Ok(done) => match (done, t) {
                    (Option::Some(d), Option::Some(tv)) => d@ == tv,
                    (Option::None, Option::None) => true,
                    _ => false,
                },
                Err(_) => false,
            },
            AttrR::Missing(m) => (r matches Err(failed) && failed@ == ErrorV::InterpolationFailure(
                m,
            )),
        },
{
    match element.attr(name) {
        None => Ok(None),
        Some(v) => {
            match interpolate(v.as_str(), &runtime.variables) {
                Ok(t) => Ok(Some(t)),
                Err(e) => Err(e),
            }
        },
    }
}

/// What interpolating the node's text comes to: empty text stays absent.
pub open spec fn spec_interp_text(
    e: crate::element::ElementV,
    vars: Seq<(Seq<char>, Seq<char>)>,
) -> AttrR {
    if e.text.len() == 0 {
        AttrR::Done(Option::None)
    } else {
        match spec_interp(e.text, vars, 0) {
            InterpR::Done(t) => AttrR::Done(Option::Some(t)),
            InterpR::Missing(n) => AttrR::Missing(n),
        }
    }
}

/// Interpolates the node's text content; empty text counts as no value.
pub fn interpolate_text(element: &Element, runtime: &Runtime) -> (r: Result<Option<String>, Error>)
    ensures
        match spec_interp_text(element_view(*element), vars_view(runtime.variables@)) {
            AttrR::Done(t) => match r {
                Ok(done) => match (done, t) {
                    (Option::Some(d), Option::Some(tv)) => d@ == tv,
                    (Option::None, Option::None) => true,
                    _ => false,
                },
                Err(_) => false,
            },
            AttrR::Missing(m) => (r matches Err(failed) && failed@ == ErrorV::InterpolationFailure(
                m,
            )),
        },
{
    if element.text.as_str().unicode_len() == 0 {
        Ok(None)
    } else {
        match interpolate(element.text.as_str(), &runtime.variables) {
            Ok(t) => Ok(Some(t)),
            Err(e) => Err(e),
        }
    }
}

/// Joins an optional prefix onto an optional suffix: a present prefix is
/// normalized to end with exactly one separator and the suffix (or
/// nothing) is appended; an absent prefix leaves the suffix unchanged.
pub open spec fn spec_join_path(prefix: Option<Seq<char>>, suffix: Option<Seq<char>>) -> Option<
    Seq<char>,
> {
    match prefix {
        Option::Some(p) => {
            let np = if p.len() > 0 && p[p.len() - 1] == '/' {
                p
            } else {
                p.push('/')
            };
            match suffix {
                Option::Some(s) => Option::Some(np + s),
                Option::None => Option::Some(np),
            }
        },
        Option::None => suffix,
    }
}

/// Prefix application for optional path values.
pub trait ApplyPrefix: Sized {
    fn apply_prefix(&self, prefix: &Self) -> Self;
}

impl ApplyPrefix for Option<String> {
    /// Joins `prefix` onto this value per the inheritance rules:
    /// separator-normalized concatenation, with either side allowed to
    /// be absent.
    fn apply_prefix(&self, prefix: &Option<String>) -> (r: Option<String>)
        ensures
            match r {
                Option::Some(v) => spec_join_path(prefix.deep_view(), self.deep_view())
                    == Option::Some(v@),
                Option::None => spec_join_path(prefix.deep_view(), self.deep_view()) is None,
            },
    {
        match prefix {
            Some(p) => {
                let mut np = p.clone();
                let n = np.as_str().unicode_len();
                let ends = if n == 0 {
                    false
                } else {
                    np.as_str().get_char(n - 1) == '/'
                };
                if !ends {
                    np.append("/");
                }
                proof {
                    reveal_strlit("/");
                    if p@.len() > 0 && p@[p@.len() - 1] == '/' {
                        assert(np@ =~= p@);
                    } else {
                        assert(np@ =~= p@.push('/'));
                    }
                }
                match self {
                    Some(s) => {
                        let joined = np.concat(s.as_str());
                        Some(joined)
                    },
                    None => Some(np),
                }
            },
            None => {
                match self {
                    Some(s) => Some(s.clone()),
                    None => None,
                }
            },
        }
    }
}

/// The resolved value of one attribute, as the inheritance table gives
/// it: `parent` is the enclosing group's already-resolved value and `v`
/// the node's own (already interpolated) value.
pub open spec fn spec_resolve(
    setting: GroupSetting,
    parent: Option<Seq<char>>,
    v: Option<Seq<char>>,
) -> Option<Seq<char>> {
    match setting {
        GroupSetting::NoInherit => v,
        GroupSetting::Inherit => if v is Some {
            v
        } else {
            parent
        },
        GroupSetting::Prefix => if v is Some {
            spec_join_path(parent, v)
        } else {
            Option::None
        },
        GroupSetting::InheritPrefix => spec_join_path(parent, v),
    }
}

/// Law: the inheritance table.  For every parent-resolved value `p` and
/// local value `v`: a non-inheriting attribute keeps its local value and
/// never consults the parent; `Inherit` prefers the local value and
/// falls back to the parent; `Prefix` with an absent local value stays
/// absent whatever the parent holds; `InheritPrefix` is absent only when
/// both sides are; and joining never doubles the separator: a prefix
/// already ending in `/` gets the suffix appended directly, any other
/// prefix gets exactly one `/` between it and the suffix.
pub proof fn lemma_inheritance_table(p: Option<Seq<char>>, v: Option<Seq<char>>)
    ensures
        spec_resolve(GroupSetting::NoInherit, p, v) == v,
        v is Some ==> spec_resolve(GroupSetting::Inherit, p, v) == v,
        v is None ==> spec_resolve(GroupSetting::Inherit, p, v) == p,
        v is None ==> spec_resolve(GroupSetting::Prefix, p, v) is None,
        v is Some ==> spec_resolve(GroupSetting::Prefix, p, v) == spec_join_path(p, v),
        spec_resolve(GroupSetting::InheritPrefix, p, v) == spec_join_path(p, v),
        (p is None && v is None) <==> spec_resolve(GroupSetting::InheritPrefix, p, v) is None,
        p is None ==> spec_join_path(p, v) == v,
        (p is Some && v is Some && p->Some_0.len() > 0 && p->Some_0[p->Some_0.len() - 1] == '/')
            ==> spec_join_path(p, v) == Option::Some(p->Some_0 + v->Some_0),
        (p is Some && v is Some && !(p->Some_0.len() > 0 && p->Some_0[p->Some_0.len() - 1] == '/'))
            ==> spec_join_path(p, v) == Option::Some(p->Some_0.push('/') + v->Some_0),
{
}

} // verus!

verus! {

/// What the generated constructors do after resolution: a required
/// attribute whose resolved value is still absent is a runtime failure
/// naming the attribute; anything else passes through.
pub open spec fn spec_enforce_required(
    name: Seq<char>,
    required: bool,
    resolved: Option<Seq<char>>,
) -> Result<Option<Seq<char>>, crate::errors::ErrorV> {
    if required && resolved is None {
        Result::Err(crate::errors::ErrorV::MissingRequiredValue(name))
    } else {
        Result::Ok(resolved)
    }
}

/// Law: required-value enforcement.  An attribute that is required and
/// does not inherit fails with `MissingRequiredValue` whenever the node
/// gives no value, whatever the parent holds; the same attribute under
/// `Inherit` succeeds with the parent's value when the parent has one.
pub proof fn lemma_required_enforcement(name: Seq<char>, p: Option<Seq<char>>)
    ensures
        spec_enforce_required(
            name,
            true,
            spec_resolve(GroupSetting::NoInherit, p, Option::None),
        ) == Result::<Option<Seq<char>>, crate::errors::ErrorV>::Err(
            crate::errors::ErrorV::MissingRequiredValue(name),
        ),
        p is Some ==> spec_enforce_required(
            name,
            true,
            spec_resolve(GroupSetting::Inherit, p, Option::None),
        ) == Result::<Option<Seq<char>>, crate::errors::ErrorV>::Ok(p),
{
}

} // verus!
