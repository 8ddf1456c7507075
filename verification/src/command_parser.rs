use vstd::prelude::*;

use crate::errors::GenError;
use crate::text::{
    find_char_from, lemma_find_bounds, spec_find, spec_trim, trim_slice,
};

verus! {

/// One argument group of a command template: its raw tokens, the names of
/// the variables it references, and whether the whole group is optional.
#[derive(Debug, Clone)]
pub struct CommandPart {
    pub tokens: Vec<String>,
    pub dependencies: Vec<String>,
    pub optional: bool,
}

/// A compiled command template: the program to invoke and its argument
/// groups, in the order the template gives them.
#[derive(Debug, Clone)]
pub struct CommandDetails {
    pub command_name: String,
    pub parts: Vec<CommandPart>,
}

/// Ghost mirror of [`CommandPart`].
pub struct PartV {
    pub tokens: Seq<Seq<char>>,
    pub dependencies: Seq<Seq<char>>,
    pub optional: bool,
}

/// Ghost mirror of [`CommandDetails`].
pub struct CommandDetailsV {
    pub command_name: Seq<char>,
    pub parts: Seq<PartV>,
}

impl View for CommandPart {
    type V = PartV;

    open spec fn view(&self) -> PartV {
        PartV {
            tokens: self.tokens.deep_view(),
            dependencies: self.dependencies.deep_view(),
            optional: self.optional,
        }
    }
}

impl View for CommandDetails {
    type V = CommandDetailsV;

    open spec fn view(&self) -> CommandDetailsV {
        CommandDetailsV {
            command_name: self.command_name@,
            parts: parts_view(self.parts@),
        }
    }
}

pub open spec fn parts_view(ps: Seq<CommandPart>) -> Seq<PartV> {
    ps.map_values(|p: CommandPart| p@)
}

/// The pieces of `s` between single space characters; a piece may be empty.
pub open spec fn spec_split_sp(s: Seq<char>) -> Seq<Seq<char>>
    decreases s.len(),
    via spec_split_sp_dec
{
    match spec_find(s, ' ', 0) {
        Option::None => seq![s],
        Option::Some(k) => seq![s.subrange(0, k)] + spec_split_sp(
            s.subrange(k + 1, s.len() as int),
        ),
    }
}

#[via_fn]
proof fn spec_split_sp_dec(s: Seq<char>) {
    lemma_find_bounds(s, ' ', 0);
}

/// `true` for a token that references a variable: it starts with the `$`
/// sigil.
pub open spec fn is_dep_token(t: Seq<char>) -> bool {
    t.len() > 0 && t[0] == '$'
}

/// The variable names referenced by `tokens`, in order, with the sigil
/// stripped.
pub open spec fn spec_deps(tokens: Seq<Seq<char>>) -> Seq<Seq<char>>
    decreases tokens.len(),
{
    if tokens.len() == 0 {
        Seq::empty()
    } else {
        let rest = spec_deps(tokens.drop_first());
        if is_dep_token(tokens[0]) {
            seq![tokens[0].subrange(1, tokens[0].len() as int)] + rest
        } else {
            rest
        }
    }
}

/// The part that a run of template text compiles to: the text is trimmed
/// and split on spaces, and its `$`-tokens become dependencies.
pub open spec fn spec_part(text: Seq<char>, optional: bool) -> PartV {
    PartV {
        tokens: spec_split_sp(spec_trim(text)),
        dependencies: spec_deps(spec_split_sp(spec_trim(text))),
        optional,
    }
}

/// Parses the argument region of a template into parts: a `[`-opened group
/// extends to the matching `]` and is optional; any other run of text
/// extends to the next `[` (or the end) and is mandatory.  `None` means a
/// `[` had no closing `]`.
pub open spec fn spec_parts(a: Seq<char>) -> Option<Seq<PartV>>
    decreases a.len(),
    via spec_parts_dec
{
    if a.len() == 0 {
        Option::Some(Seq::empty())
    } else if a[0] == '[' {
        match spec_find(a, ']', 0) {
            Option::None => Option::None,
            Option::Some(j) => match spec_parts(a.subrange(j + 1, a.len() as int)) {
                Option::None => Option::None,
                Option::Some(rest) => Option::Some(
                    seq![spec_part(a.subrange(1, j), true)] + rest,
                ),
            },
        }
    } else {
        match spec_find(a, '[', 0) {
            Option::None => Option::Some(seq![spec_part(a, false)]),
            Option::Some(j) => match spec_parts(a.subrange(j, a.len() as int)) {
                Option::None => Option::None,
                Option::Some(rest) => Option::Some(
                    seq![spec_part(a.subrange(0, j), false)] + rest,
                ),
            },
        }
    }
}

#[via_fn]
proof fn spec_parts_dec(a: Seq<char>) {
    if a.len() > 0 {
        lemma_find_bounds(a, ']', 0);
        lemma_find_bounds(a, '[', 0);
    }
}

/// What a whole template means: no space at all is malformed; otherwise the
/// text before the first space names the command and the trimmed remainder
/// is parsed into parts.
pub enum CmdOutcome {
    NoSpace,
    Mismatched,
    Parsed(Seq<char>, Seq<PartV>),
}

pub open spec fn spec_parse_command(s: Seq<char>) -> CmdOutcome {
    match spec_find(s, ' ', 0) {
        Option::None => CmdOutcome::NoSpace,
        Option::Some(sp) => {
            let name = s.subrange(0, sp);
            let args = spec_trim(s.subrange(sp + 1, s.len() as int));
            match spec_parts(args) {
                Option::None => CmdOutcome::Mismatched,
                Option::Some(ps) => CmdOutcome::Parsed(name, ps),
            }
        },
    }
}

/// Searching from `from` is the same as searching the suffix that starts at
/// `from`.
pub proof fn lemma_find_offset(s: Seq<char>, c: char, from: int)
    requires
        0 <= from <= s.len(),
    ensures
        spec_find(s, c, from) == match spec_find(s.subrange(from, s.len() as int), c, 0) {
            Option::None => Option::<int>::None,
            Option::Some(j) => Option::Some(from + j),
        },
{
    lemma_find_sub(s, c, from, 0);
}

/// Relates a search of `s` starting at `lo + d` to a search of the suffix
/// `s[lo..]` starting at `d`.
proof fn lemma_find_sub(s: Seq<char>, c: char, lo: int, d: int)
    requires
        0 <= lo,
        0 <= d,
        lo + d <= s.len(),
    ensures
        spec_find(s, c, lo + d) == match spec_find(
            s.subrange(lo, s.len() as int),
            c,
            d,
        ) {
            Option::None => Option::<int>::None,
            Option::Some(j) => Option::Some(lo + j),
        },
    decreases s.len() - lo - d,
{
    let suf = s.subrange(lo, s.len() as int);
    if lo + d < s.len() {
        assert(suf[d] == s[lo + d]);
        if s[lo + d] != c {
            lemma_find_sub(s, c, lo, d + 1);
        }
    }
}

/// Splits trimmed part text into tokens on single spaces.
fn split_tokens(t: &str) -> (r: Vec<String>)
    ensures
        r.deep_view() == spec_split_sp(t@),
{
    let tn = t.unicode_len();
    let mut toks: Vec<String> = Vec::new();
    let mut k: usize = 0;
    proof {
        assert(t@.subrange(0, tn as int) =~= t@);
        assert(toks.deep_view() + spec_split_sp(t@) =~= spec_split_sp(t@));
    }
    loop
        invariant_except_break
            k <= tn,
            tn == t@.len(),
            spec_split_sp(t@) == toks.deep_view() + spec_split_sp(t@.subrange(k as int, tn as int)),
        ensures
            toks.deep_view() == spec_split_sp(t@),
        decreases tn - k,
    {
        let ghost suf = t@.subrange(k as int, tn as int);
        let ghost toks0 = toks.deep_view();
        match find_char_from(t, ' ', k) {
            Some(m) => {
                proof {
                    lemma_find_offset(t@, ' ', k as int);
                    assert(suf.subrange(0, m - k) =~= t@.subrange(k as int, m as int));
                    assert(suf.subrange(m - k + 1, suf.len() as int) =~= t@.subrange(
                        m + 1,
                        tn as int,
                    ));
                }
                let tok = t.substring_char(k, m).to_owned();
                toks.push(tok);
                proof {
                    assert(toks.deep_view() =~= toks0 + seq![t@.subrange(k as int, m as int)]);
                    assert(toks0 + (seq![t@.subrange(k as int, m as int)] + spec_split_sp(
                        t@.subrange(m + 1, tn as int),
                    )) =~= (toks0 + seq![t@.subrange(k as int, m as int)]) + spec_split_sp(
                        t@.subrange(m + 1, tn as int),
                    ));
                }
                k = m + 1;
            },
            None => {
                proof {
                    lemma_find_offset(t@, ' ', k as int);
                }
                let tok = t.substring_char(k, tn).to_owned();
                toks.push(tok);
                proof {
                    assert(toks.deep_view() =~= toks0 + seq![suf]);
                    assert(toks0 + seq![suf] =~= toks0 + spec_split_sp(suf));
                }
                break ;
            },
        }
    }
    toks
}

/// Collects the `$`-tokens of `toks`, sigil stripped.
fn collect_deps(toks: &Vec<String>) -> (r: Vec<String>)
    ensures
        r.deep_view() == spec_deps(toks.deep_view()),
{
    let ghost all = toks.deep_view();
    let mut deps: Vec<String> = Vec::new();
    let mut i: usize = 0;
    proof {
        assert(all.subrange(0, all.len() as int) =~= all);
        assert(deps.deep_view() + spec_deps(all) =~= spec_deps(all));
    }
    while i < toks.len()
        invariant
            i <= toks.len(),
            all == toks.deep_view(),
            spec_deps(all) == deps.deep_view() + spec_deps(
                all.subrange(i as int, all.len() as int),
            ),
        decreases toks.len() - i,
    {
        let ghost suf = all.subrange(i as int, all.len() as int);
        let ghost deps0 = deps.deep_view();
        proof {
            assert(suf[0] == all[i as int]);
            assert(suf.drop_first() =~= all.subrange(i + 1, all.len() as int));
        }
        let t = &toks[i];
        let n = t.as_str().unicode_len();
        if n > 0 && t.as_str().get_char(0) == '$' {
            let d = t.as_str().substring_char(1, n).to_owned();
            deps.push(d);
            proof {
                let stripped = all[i as int].subrange(1, all[i as int].len() as int);
                let tail = spec_deps(all.subrange(i + 1, all.len() as int));
                assert(deps.deep_view() =~= deps0 + seq![stripped]);
                assert(deps0 + (seq![stripped] + tail) =~= (deps0 + seq![stripped]) + tail);
            }
        } else {
            proof {
                assert(!is_dep_token(all[i as int]));
            }
        }
        i = i + 1;
    }
    proof {
        assert(all.subrange(all.len() as int, all.len() as int) =~= Seq::<Seq<char>>::empty());
        assert(deps.deep_view() + Seq::<Seq<char>>::empty() =~= deps.deep_view());
    }
    deps
}

/// Compiles one run of part text: trim, split into tokens, collect the
/// dependencies.
fn make_part(text: &str, optional: bool) -> (p: CommandPart)
    ensures
        p@ == spec_part(text@, optional),
{
    let trimmed = trim_slice(text);
    let tokens = split_tokens(trimmed);
    let dependencies = collect_deps(&tokens);
    CommandPart { tokens, dependencies, optional }
}

impl CommandDetails {
    /// Compiles a command template.  The text before the first space names
    /// the command; the remainder is cut into mandatory runs and optional
    /// `[`…`]` groups, in template order.  Fails with `MalformedCommand`
    /// when the template has no space at all, and with `MismatchedBracket`
    /// when a `[` is never closed.
    pub fn new(command: &str) -> (r: Result<CommandDetails, GenError>)
        ensures
            match spec_parse_command(command@) {
                CmdOutcome::NoSpace => r == Result::<CommandDetails, GenError>::Err(
                    GenError::MalformedCommand,
                ),
                CmdOutcome::Mismatched => r == Result::<CommandDetails, GenError>::Err(
                    GenError::MismatchedBracket,
                ),
                CmdOutcome::Parsed(name, ps) => r matches Result::Ok(d) && d@.command_name == name
                    && d@.parts == ps,
            },
    {
        let n = command.unicode_len();
        let sp = match find_char_from(command, ' ', 0) {
            None => {
                return Err(GenError::MalformedCommand);
            },
            Some(i) => i,
        };
        let name = command.substring_char(0, sp).to_owned();
        let rest = command.substring_char(sp + 1, n);
        let args = trim_slice(rest);
        let an = args.unicode_len();
        let mut parts: Vec<CommandPart> = Vec::new();
        let mut i: usize = 0;
        proof {
            assert(args@.subrange(0, an as int) =~= args@);
            assert(parts_view(parts@) =~= Seq::<PartV>::empty());
        }
        while i < an
            invariant
                i <= an,
                an == args@.len(),
                args@ == spec_trim(command@.subrange(sp + 1, command@.len() as int)),
                spec_find(command@, ' ', 0) == Some(sp as int),
                name@ == command@.subrange(0, sp as int),
                match spec_parts(args@.subrange(i as int, an as int)) {
                    Option::None => spec_parts(args@) is None,
                    Option::Some(rest) => spec_parts(args@) == Option::Some(
                        parts_view(parts@) + rest,
                    ),
                },
            decreases an - i,
        {
            let ghost suf = args@.subrange(i as int, an as int);
            let ghost pv0 = parts_view(parts@);
            if args.get_char(i) == '[' {
                match find_char_from(args, ']', i) {
                    None => {
                        proof {
                            lemma_find_offset(args@, ']', i as int);
                        }
                        return Err(GenError::MismatchedBracket);
                    },
                    Some(j) => {
                        proof {
                            lemma_find_offset(args@, ']', i as int);
                            assert(suf.subrange(1, j - i) =~= args@.subrange(i + 1, j as int));
                            assert(suf.subrange(j - i + 1, suf.len() as int) =~= args@.subrange(
                                j + 1,
                                an as int,
                            ));
                        }
                        let part_text = args.substring_char(i + 1, j);
                        let p = make_part(part_text, true);
                        parts.push(p);
                        proof {
                            assert(parts_view(parts@) =~= pv0 + seq![
                                spec_part(args@.subrange(i + 1, j as int), true),
                            ]);
                            lemma_parts_assoc(
                                pv0,
                                spec_part(args@.subrange(i + 1, j as int), true),
                                args@.subrange(j + 1, an as int),
                            );
                        }
                        i = j + 1;
                    },
                }
            } else {
                let j = match find_char_from(args, '[', i) {
                    None => an,
                    Some(j) => j,
                };
                proof {
                    lemma_find_offset(args@, '[', i as int);
                    assert(suf.subrange(0, j - i) =~= args@.subrange(i as int, j as int));
                    if j < an {
                        assert(suf.subrange(j - i, suf.len() as int) =~= args@.subrange(
                            j as int,
                            an as int,
                        ));
                    }
                }
                let part_text = args.substring_char(i, j);
                let p = make_part(part_text, false);
                parts.push(p);
                proof {
                    assert(parts_view(parts@) =~= pv0 + seq![
                        spec_part(args@.subrange(i as int, j as int), false),
                    ]);
                    if j < an {
                        lemma_parts_assoc(
                            pv0,
                            spec_part(args@.subrange(i as int, j as int), false),
                            args@.subrange(j as int, an as int),
                        );
                    } else {
                        assert(suf =~= args@.subrange(i as int, j as int));
                        assert(args@.subrange(j as int, an as int) =~= Seq::<char>::empty());
                        assert(pv0 + seq![spec_part(suf, false)] =~= pv0 + (seq![
                            spec_part(suf, false),
                        ] + Seq::<PartV>::empty()));
                    }
                }
                i = j;
            }
        }
        proof {
            assert(args@.subrange(an as int, an as int) =~= Seq::<char>::empty());
            assert(parts_view(parts@) + Seq::<PartV>::empty() =~= parts_view(parts@));
        }
        Ok(CommandDetails { command_name: name, parts })
    }
}

/// Prepending one part then the rest is the same as appending the part to
/// the accumulator first.
proof fn lemma_parts_assoc(acc: Seq<PartV>, p: PartV, rest_text: Seq<char>)
    ensures
        spec_parts(rest_text) matches Option::Some(rest) ==> acc + (seq![p] + rest) =~= (acc
            + seq![p]) + rest,
{
}

} // verus!
