use vstd::prelude::*;

use crate::text::{find_char_from, str_eq};

verus! {

/// A trie over the segments of qualified names.  The root carries no
/// segment; every other node carries one.  Children keep the order in
/// which their segments were first inserted.
#[derive(Debug)]
pub struct MultiTree {
    pub value: Option<String>,
    pub children: Vec<MultiTree>,
}

/// Ghost mirror of [`MultiTree`].
pub struct TreeV {
    pub value: Option<Seq<char>>,
    pub children: Seq<TreeV>,
}

pub open spec fn tree_view(t: MultiTree) -> TreeV
    decreases t,
{
    TreeV {
        value: match t.value {
            Option::Some(s) => Option::Some(s@),
            Option::None => Option::None,
        },
        children: kids_view(t.children@),
    }
}

pub open spec fn kids_view(cs: Seq<MultiTree>) -> Seq<TreeV>
    decreases cs,
{
    if cs.len() == 0 {
        Seq::empty()
    } else {
        seq![tree_view(cs[0])] + kids_view(cs.drop_first())
    }
}

pub proof fn lemma_kids_view(cs: Seq<MultiTree>)
    ensures
        kids_view(cs).len() == cs.len(),
        forall|i: int| 0 <= i < cs.len() ==> kids_view(cs)[i] == tree_view(cs[i]),
    decreases cs,
{
    if cs.len() > 0 {
        lemma_kids_view(cs.drop_first());
        assert forall|i: int| 0 <= i < cs.len() implies kids_view(cs)[i] == tree_view(
            cs[i],
        ) by {
            if i > 0 {
                assert(cs.drop_first()[i - 1] == cs[i]);
            }
        }
    }
}

/// Index of the first child whose segment is `seg`.
pub open spec fn spec_child_index(cs: Seq<TreeV>, seg: Seq<char>) -> Option<int>
    decreases cs,
{
    if cs.len() == 0 {
        Option::None
    } else if cs[0].value == Option::Some(seg) {
        Option::Some(0)
    } else {
        match spec_child_index(cs.drop_first(), seg) {
            Option::None => Option::None,
            Option::Some(i) => Option::Some(i + 1),
        }
    }
}

pub proof fn lemma_child_index_bounds(cs: Seq<TreeV>, seg: Seq<char>)
    ensures
        spec_child_index(cs, seg) matches Some(i) ==> 0 <= i < cs.len() && cs[i].value
            == Option::Some(seg),
    decreases cs,
{
    if cs.len() > 0 && cs[0].value != Option::Some(seg) {
        lemma_child_index_bounds(cs.drop_first(), seg);
        match spec_child_index(cs.drop_first(), seg) {
            Option::Some(i) => {
                assert(cs.drop_first()[i] == cs[i + 1]);
            },
            Option::None => {},
        }
    }
}

/// The single chain of nodes for the path segments from `from` on.
pub open spec fn spec_chain(path: Seq<Seq<char>>, from: int) -> TreeV
    decreases path.len() - from,
{
    TreeV {
        value: Option::Some(path[from]),
        children: if from + 1 < path.len() {
            seq![spec_chain(path, from + 1)]
        } else {
            Seq::empty()
        },
    }
}

/// Inserting a path merges it with the existing children: shared leading
/// segments are walked, the first fresh segment starts a new chain at the
/// end of the child list.
pub open spec fn spec_add(t: TreeV, path: Seq<Seq<char>>, from: int) -> TreeV
    decreases path.len() - from,
{
    if from < 0 || from >= path.len() {
        t
    } else {
        match spec_child_index(t.children, path[from]) {
            Option::Some(i) => TreeV {
                value: t.value,
                children: t.children.update(i, spec_add(t.children[i], path, from + 1)),
            },
            Option::None => TreeV {
                value: t.value,
                children: t.children.push(spec_chain(path, from)),
            },
        }
    }
}

impl MultiTree {
    pub fn new() -> (t: MultiTree)
        ensures
            tree_view(t) == (TreeV { value: Option::None, children: Seq::empty() }),
    {
        let t = MultiTree { value: None, children: Vec::new() };
        proof {
            assert(kids_view(t.children@) =~= Seq::<TreeV>::empty());
        }
        t
    }

    /// First child whose segment equals `seg`.
    fn find_child(&self, seg: &str) -> (r: Option<usize>)
        ensures
            match r {
                Some(i) => i < self.children@.len() && spec_child_index(
                    kids_view(self.children@),
                    seg@,
                ) == Some(i as int),
                None => spec_child_index(kids_view(self.children@), seg@) is None,
            },
    {
        let ghost cs = kids_view(self.children@);
        proof {
            lemma_kids_view(self.children@);
            assert(cs.subrange(0, cs.len() as int) =~= cs);
        }
        let mut i: usize = 0;
        while i < self.children.len()
            invariant
                i <= self.children@.len(),
                cs == kids_view(self.children@),
                cs.len() == self.children@.len(),
                forall|k: int| 0 <= k < cs.len() ==> cs[k] == tree_view(self.children@[k]),
                spec_child_index(cs, seg@) == match spec_child_index(
                    cs.subrange(i as int, cs.len() as int),
                    seg@,
                ) {
                    Option::None => Option::<int>::None,
                    Option::Some(j) => Option::Some(i + j),
                },
            decreases self.children@.len() - i,
        {
            let ghost suf = cs.subrange(i as int, cs.len() as int);
            proof {
                assert(suf[0] == cs[i as int]);
                assert(suf.drop_first() =~= cs.subrange(i + 1, cs.len() as int));
            }
            let found = match &self.children[i].value {
                Some(v) => str_eq(v.as_str(), seg),
                None => false,
            };
            if found {
                return Some(i);
            }
            i = i + 1;
        }
        proof {
            assert(cs.subrange(cs.len() as int, cs.len() as int) =~= Seq::<TreeV>::empty());
        }
        None
    }

    /// Inserts the segment path into the trie, merging shared prefixes and
    /// keeping first-insertion order of children.
    pub fn add(&mut self, path: &[&str])
        ensures
            tree_view(*final(self)) == spec_add(tree_view(*old(self)), path.deep_view(), 0),
    {
        self.add_from(path, 0);
    }

    fn add_from(&mut self, path: &[&str], from: usize)
        requires
            from <= path@.len(),
        ensures
            tree_view(*final(self)) == spec_add(
                tree_view(*old(self)),
                path.deep_view(),
                from as int,
            ),
        decreases path@.len() - from,
    {
        proof {
            assert(path.deep_view().len() == path@.len());
        }
        if from >= path.len() {
            return ;
        }
        let seg: &str = path[from];
        proof {
            assert(path.deep_view()[from as int] == path@[from as int]@);
        }
        let idx = self.find_child(seg);
        match idx {
            Some(i) => {
                let ghost t0 = tree_view(*self);
                let mut child = self.children.remove(i);
                let ghost child_v = tree_view(child);
                child.add_from(path, from + 1);
                self.children.insert(i, child);
                proof {
                    lemma_kids_view(old(self).children@);
                    lemma_kids_view(self.children@);
                    assert(self.children@ =~= old(self).children@.update(
                        i as int,
                        self.children@[i as int],
                    ));
                    assert(kids_view(self.children@) =~= kids_view(old(self).children@).update(
                        i as int,
                        tree_view(self.children@[i as int]),
                    ));
                }
            },
            None => {
                let mut node = MultiTree { value: Some(String::from_str(seg)), children: Vec::new() };
                proof {
                    assert(kids_view(node.children@) =~= Seq::<TreeV>::empty());
                }
                node.add_from(path, from + 1);
                self.children.push(node);
                proof {
                    lemma_kids_view(old(self).children@);
                    lemma_kids_view(self.children@);
                    assert(self.children@.drop_last() =~= old(self).children@);
                    assert(kids_view(self.children@) =~= kids_view(old(self).children@).push(
                        tree_view(self.children@[self.children@.len() - 1]),
                    ));
                    lemma_add_fresh(path.deep_view(), from as int, seg@);
                }
            },
        }
    }
}

/// Renders a node: its segment, then nothing for a leaf, `::child` for a
/// single child, or `::{c1, c2, …}` for several.  The root (no segment)
/// renders its children joined by newlines.
pub open spec fn spec_render_tree(t: TreeV) -> Seq<char>
    decreases t, 0int,
{
    match t.value {
        Option::Some(v) => v + spec_render_suffix(t.children),
        Option::None => spec_joined(t.children, "\n"@),
    }
}

pub open spec fn spec_render_suffix(cs: Seq<TreeV>) -> Seq<char>
    decreases cs, 2int,
{
    if cs.len() == 0 {
        Seq::empty()
    } else if cs.len() == 1 {
        "::"@ + spec_render_tree(cs[0])
    } else {
        "::{"@ + spec_joined(cs, ", "@) + "}"@
    }
}

/// The renderings of `cs` joined by `sep`.
pub open spec fn spec_joined(cs: Seq<TreeV>, sep: Seq<char>) -> Seq<char>
    decreases cs, 1int,
{
    if cs.len() == 0 {
        Seq::empty()
    } else {
        spec_render_tree(cs[0]) + spec_tail(cs.drop_first(), sep)
    }
}

pub open spec fn spec_tail(cs: Seq<TreeV>, sep: Seq<char>) -> Seq<char>
    decreases cs, 0int,
{
    if cs.len() == 0 {
        Seq::empty()
    } else {
        sep + spec_render_tree(cs[0]) + spec_tail(cs.drop_first(), sep)
    }
}

impl MultiTree {
    fn render_into(&self, out: &mut String)
        ensures
            final(out)@ == old(out)@ + spec_render_tree(tree_view(*self)),
        decreases *self, 1int,
    {
        proof {
            lemma_kids_view(self.children@);
        }
        let ghost cs = kids_view(self.children@);
        match &self.value {
            Some(v) => {
                out.append(v.as_str());
                let n = self.children.len();
                if n == 1 {
                    out.append("::");
                    self.children[0].render_into(out);
                    proof {
                        assert(out@ =~= old(out)@ + spec_render_tree(tree_view(*self)));
                    }
                } else if n > 1 {
                    out.append("::{");
                    self.join_children_into(out, ", ");
                    out.append("}");
                    proof {
                        assert(out@ =~= old(out)@ + spec_render_tree(tree_view(*self)));
                    }
                } else {
                    proof {
                        assert(cs =~= Seq::<TreeV>::empty());
                        assert(out@ =~= old(out)@ + spec_render_tree(tree_view(*self)));
                    }
                }
            },
            None => {
                self.join_children_into(out, "\n");
                proof {
                    assert(out@ =~= old(out)@ + spec_render_tree(tree_view(*self)));
                }
            },
        }
    }

    fn join_children_into(&self, out: &mut String, sep: &str)
        ensures
            final(out)@ == old(out)@ + spec_joined(kids_view(self.children@), sep@),
        decreases *self, 0int,
    {
        let ghost cs = kids_view(self.children@);
        let ghost target = old(out)@ + spec_joined(cs, sep@);
        proof {
            lemma_kids_view(self.children@);
        }
        let n = self.children.len();
        if n == 0 {
            proof {
                assert(out@ =~= target);
            }
            return ;
        }
        self.children[0].render_into(out);
        proof {
            assert(cs.drop_first() =~= cs.subrange(1, n as int));
            assert(out@ + spec_tail(cs.subrange(1, n as int), sep@) =~= target);
        }
        let mut i: usize = 1;
        while i < n
            invariant
                1 <= i <= n,
                n == self.children@.len(),
                cs == kids_view(self.children@),
                cs.len() == n,
                forall|k: int| 0 <= k < n ==> cs[k] == tree_view(self.children@[k]),
                out@ + spec_tail(cs.subrange(i as int, n as int), sep@) == target,
            decreases n - i,
        {
            let ghost suf = cs.subrange(i as int, n as int);
            proof {
                assert(suf[0] == cs[i as int]);
                assert(suf.drop_first() =~= cs.subrange(i + 1, n as int));
            }
            out.append(sep);
            self.children[i].render_into(out);
            proof {
                assert(out@ + spec_tail(cs.subrange(i + 1, n as int), sep@) =~= target);
            }
            i = i + 1;
        }
        proof {
            assert(cs.subrange(n as int, n as int) =~= Seq::<TreeV>::empty());
            assert(out@ =~= target);
        }
    }

    /// The grouped rendering of this subtree.
    pub fn to_string(&self) -> (r: String)
        ensures
            r@ == spec_render_tree(tree_view(*self)),
    {
        let mut out = String::new();
        self.render_into(&mut out);
        proof {
            assert(out@ =~= spec_render_tree(tree_view(*self)));
        }
        out
    }
}

/// Adding the rest of a path under a fresh node builds exactly the chain
/// for that path.
proof fn lemma_add_fresh(path: Seq<Seq<char>>, from: int, seg: Seq<char>)
    requires
        0 <= from < path.len(),
        seg == path[from],
    ensures
        spec_add(
            TreeV { value: Option::Some(seg), children: Seq::empty() },
            path,
            from + 1,
        ) == spec_chain(path, from),
{
    let fresh = TreeV { value: Option::Some(seg), children: Seq::empty() };
    if from + 1 < path.len() {
        assert(spec_child_index(Seq::<TreeV>::empty(), path[from + 1]) is None);
        assert(Seq::<TreeV>::empty().push(spec_chain(path, from + 1)) =~= seq![
            spec_chain(path, from + 1),
        ]);
    } else {
        assert(spec_add(fresh, path, from + 1) == fresh);
    }
}

} // verus!

use crate::text::spec_indent;

verus! {

/// Position of the first `::` in `s` at or after `from`.
pub open spec fn spec_find_sep(s: Seq<char>, from: int) -> Option<int>
    decreases s.len() - from,
{
    if from < 0 || from + 1 >= s.len() {
        Option::None
    } else if s[from] == ':' && s[from + 1] == ':' {
        Option::Some(from)
    } else {
        spec_find_sep(s, from + 1)
    }
}

pub proof fn lemma_find_sep_bounds(s: Seq<char>, from: int)
    ensures
        spec_find_sep(s, from) matches Some(j) ==> from <= j && j + 1 < s.len() && s[j] == ':'
            && s[j + 1] == ':',
    decreases s.len() - from,
{
    if 0 <= from && from + 1 < s.len() && !(s[from] == ':' && s[from + 1] == ':') {
        lemma_find_sep_bounds(s, from + 1);
    }
}

/// Relates a separator search of `s` from `lo + d` to a search of the
/// suffix `s[lo..]` from `d`.
proof fn lemma_find_sep_sub(s: Seq<char>, lo: int, d: int)
    requires
        0 <= lo,
        0 <= d,
        lo + d <= s.len(),
    ensures
        spec_find_sep(s, lo + d) == match spec_find_sep(s.subrange(lo, s.len() as int), d) {
            Option::None => Option::<int>::None,
            Option::Some(j) => Option::Some(lo + j),
        },
    decreases s.len() - lo - d,
{
    let suf = s.subrange(lo, s.len() as int);
    if lo + d + 1 < s.len() {
        assert(suf[d] == s[lo + d]);
        assert(suf[d + 1] == s[lo + d + 1]);
        if !(s[lo + d] == ':' && s[lo + d + 1] == ':') {
            lemma_find_sep_sub(s, lo, d + 1);
        }
    }
}

/// The segments of a qualified name: the pieces between `::` separators,
/// taken left to right.
pub open spec fn spec_segments(s: Seq<char>) -> Seq<Seq<char>>
    decreases s.len(),
    via spec_segments_dec
{
    match spec_find_sep(s, 0) {
        Option::None => seq![s],
        Option::Some(k) => seq![s.subrange(0, k)] + spec_segments(
            s.subrange(k + 2, s.len() as int),
        ),
    }
}

#[via_fn]
proof fn spec_segments_dec(s: Seq<char>) {
    lemma_find_sep_bounds(s, 0);
}

/// First `::` at or after `from`.
fn find_sep_from(s: &str, from: usize) -> (r: Option<usize>)
    requires
        from <= s@.len(),
    ensures
        match r {
            Some(j) => from <= j && j + 1 < s@.len() && spec_find_sep(s@, from as int) == Some(
                j as int,
            ),
            None => spec_find_sep(s@, from as int) is None,
        },
{
    let n = s.unicode_len();
    if n == 0 {
        return None;
    }
    let mut i: usize = from;
    while i < n - 1
        invariant
            from <= i,
            i <= n,
            n == s@.len(),
            n > 0,
            spec_find_sep(s@, from as int) == spec_find_sep(s@, i as int),
        decreases n - i,
    {
        if s.get_char(i) == ':' && s.get_char(i + 1) == ':' {
            return Some(i);
        }
        i = i + 1;
    }
    None
}

/// Splits a qualified name into its segments.
fn split_segments(s: &str) -> (r: Vec<String>)
    ensures
        r.deep_view() == spec_segments(s@),
{
    let n = s.unicode_len();
    let mut segs: Vec<String> = Vec::new();
    let mut k: usize = 0;
    proof {
        assert(s@.subrange(0, n as int) =~= s@);
        assert(segs.deep_view() + spec_segments(s@) =~= spec_segments(s@));
    }
    loop
        invariant_except_break
            k <= n,
            n == s@.len(),
            spec_segments(s@) == segs.deep_view() + spec_segments(s@.subrange(k as int, n as int)),
        ensures
            segs.deep_view() == spec_segments(s@),
        decreases n - k,
    {
        let ghost suf = s@.subrange(k as int, n as int);
        let ghost segs0 = segs.deep_view();
        match find_sep_from(s, k) {
            Some(m) => {
                proof {
                    lemma_find_sep_sub(s@, k as int, 0);
                    assert(suf.subrange(0, m - k) =~= s@.subrange(k as int, m as int));
                    assert(suf.subrange(m - k + 2, suf.len() as int) =~= s@.subrange(
                        m + 2,
                        n as int,
                    ));
                }
                let piece = s.substring_char(k, m).to_owned();
                segs.push(piece);
                proof {
                    let pc = s@.subrange(k as int, m as int);
                    let tail = spec_segments(s@.subrange(m + 2, n as int));
                    assert(segs.deep_view() =~= segs0 + seq![pc]);
                    assert(segs0 + (seq![pc] + tail) =~= (segs0 + seq![pc]) + tail);
                }
                k = m + 2;
            },
            None => {
                proof {
                    lemma_find_sep_sub(s@, k as int, 0);
                }
                let piece = s.substring_char(k, n).to_owned();
                segs.push(piece);
                proof {
                    assert(segs.deep_view() =~= segs0 + seq![suf]);
                    assert(segs0 + seq![suf] =~= segs0 + spec_segments(suf));
                }
                break ;
            },
        }
    }
    segs
}

/// Merges qualified names into a trie and serializes them as grouped
/// import declarations.
#[derive(Debug)]
pub struct DependencyTracker {
    pub tree: MultiTree,
}

/// One `use` line per top-level subtree, each indented and ended with a
/// semicolon.
pub open spec fn spec_use_lines(cs: Seq<TreeV>, level: nat) -> Seq<char>
    decreases cs,
{
    if cs.len() == 0 {
        Seq::empty()
    } else {
        spec_indent(level) + "use "@ + spec_render_tree(cs[0]) + ";\n"@ + spec_use_lines(
            cs.drop_first(),
            level,
        )
    }
}

impl DependencyTracker {
    pub fn new() -> (t: DependencyTracker)
        ensures
            tree_view(t.tree) == (TreeV { value: Option::None, children: Seq::empty() }),
    {
        DependencyTracker { tree: MultiTree::new() }
    }

    /// Splits `dependency` on `::` and inserts the segment path into the
    /// trie.
    pub fn track(&mut self, dependency: &str)
        ensures
            tree_view(final(self).tree) == spec_add(
                tree_view(old(self).tree),
                spec_segments(dependency@),
                0,
            ),
    {
        let segs = split_segments(dependency);
        let mut parts: Vec<&str> = Vec::new();
        let mut i: usize = 0;
        while i < segs.len()
            invariant
                i <= segs@.len(),
                parts.deep_view() == segs.deep_view().subrange(0, i as int),
            decreases segs@.len() - i,
        {
            let ghost pv0 = parts.deep_view();
            let ghost parts0 = parts@;
            let s: &String = &segs[i];
            parts.push(s.as_str());
            proof {
                let dv = parts.deep_view();
                let target = segs.deep_view().subrange(0, i + 1);
                assert(pv0.len() == i as int);
                assert(pv0.len() == parts0.len());
                assert(dv.len() == parts@.len());
                assert(parts@.len() == parts0.len() + 1);
                assert forall|k: int| 0 <= k < i + 1 implies dv[k] == target[k] by {
                    assert(dv[k] == parts@[k].deep_view());
                    if k < i as int {
                        assert(parts@[k] == parts0[k]);
                        assert(pv0[k] == parts0[k].deep_view());
                        assert(pv0[k] == target[k]);
                    } else {
                        assert(parts@[k]@ == segs@[k]@);
                        assert(target[k] == segs.deep_view()[k]);
                        assert(segs.deep_view()[k] == segs@[k].deep_view());
                    }
                }
                assert(dv =~= target);
            }
            i = i + 1;
        }
        proof {
            assert(segs.deep_view().subrange(0, segs@.len() as int) =~= segs.deep_view());
        }
        let sl: &[&str] = parts.as_slice();
        proof {
            assert(sl.deep_view() =~= parts.deep_view());
        }
        self.tree.add(sl);
    }

    /// Writes the grouped `use` declarations, one line per top-level
    /// subtree, at the given indentation level.
    pub fn write(&self, indentation_level: usize) -> (r: String)
        ensures
            r@ == spec_use_lines(tree_view(self.tree).children, indentation_level as nat),
    {
        let ghost cs = tree_view(self.tree).children;
        let ghost target = spec_use_lines(cs, indentation_level as nat);
        proof {
            lemma_kids_view(self.tree.children@);
        }
        let mut out = String::new();
        let n = self.tree.children.len();
        proof {
            assert(cs.subrange(0, n as int) =~= cs);
            assert(out@ + spec_use_lines(cs, indentation_level as nat) =~= target);
        }
        let mut i: usize = 0;
        while i < n
            invariant
                i <= n,
                n == self.tree.children@.len(),
                cs == kids_view(self.tree.children@),
                cs.len() == n,
                forall|k: int| 0 <= k < n ==> cs[k] == tree_view(self.tree.children@[k]),
                target == spec_use_lines(cs, indentation_level as nat),
                out@ + spec_use_lines(cs.subrange(i as int, n as int), indentation_level as nat)
                    == target,
            decreases n - i,
        {
            let ghost suf = cs.subrange(i as int, n as int);
            proof {
                assert(suf[0] == cs[i as int]);
                assert(suf.drop_first() =~= cs.subrange(i + 1, n as int));
            }
            crate::text::push_indent(&mut out, indentation_level);
            out.append("use ");
            self.tree.children[i].render_into(&mut out);
            out.append(";\n");
            proof {
                assert(out@ + spec_use_lines(cs.subrange(i + 1, n as int), indentation_level as nat)
                    =~= target);
            }
            i = i + 1;
        }
        proof {
            assert(cs.subrange(n as int, n as int) =~= Seq::<TreeV>::empty());
            assert(out@ =~= target);
        }
        out
    }
}

} // verus!

use vstd::set_lib::*;

verus! {

/// The segment paths of every node of a subtree: the path of a node is
/// the sequence of segments from its root down to it.
pub open spec fn node_paths(t: TreeV) -> Set<Seq<Seq<char>>>
    decreases t, 0int,
{
    match t.value {
        Option::Some(v) => kids_paths(t.children).map(
            |p: Seq<Seq<char>>| seq![v] + p,
        ).insert(seq![v]),
        Option::None => kids_paths(t.children),
    }
}

pub open spec fn kids_paths(cs: Seq<TreeV>) -> Set<Seq<Seq<char>>>
    decreases cs, 1int,
{
    if cs.len() == 0 {
        Set::empty()
    } else {
        node_paths(cs[0]).union(kids_paths(cs.drop_first()))
    }
}

/// The non-empty prefixes of `path` from position `from` on.
pub open spec fn rel_prefixes(path: Seq<Seq<char>>, from: int) -> Set<Seq<Seq<char>>> {
    Set::new(
        |p: Seq<Seq<char>>|
            exists|k: int| from < k <= path.len() && p == path.subrange(from, k),
    )
}

/// Under one parent no segment occurs twice, and every non-root node
/// carries a segment.
pub open spec fn wf_kids(cs: Seq<TreeV>) -> bool
    decreases cs, 1int,
{
    if cs.len() == 0 {
        true
    } else {
        &&& wf_node(cs[0])
        &&& spec_child_index(cs.drop_first(), cs[0].value->Some_0) is None
        &&& wf_kids(cs.drop_first())
    }
}

pub open spec fn wf_node(t: TreeV) -> bool
    decreases t, 0int,
{
    t.value is Some && wf_kids(t.children)
}

/// A `None` search result means no child at all carries the segment.
proof fn lemma_child_index_none(cs: Seq<TreeV>, seg: Seq<char>)
    requires
        spec_child_index(cs, seg) is None,
    ensures
        forall|j: int| 0 <= j < cs.len() ==> cs[j].value != Option::Some(seg),
    decreases cs,
{
    if cs.len() > 0 {
        lemma_child_index_none(cs.drop_first(), seg);
        assert forall|j: int| 0 <= j < cs.len() implies cs[j].value != Option::Some(seg) by {
            if j > 0 {
                assert(cs.drop_first()[j - 1] == cs[j]);
            }
        }
    }
}

/// Appending a child with a fresh segment keeps searches for other
/// segments unchanged.
proof fn lemma_child_index_push_none(cs: Seq<TreeV>, x: TreeV, seg: Seq<char>)
    requires
        spec_child_index(cs, seg) is None,
        x.value != Option::Some(seg),
    ensures
        spec_child_index(cs.push(x), seg) is None,
    decreases cs,
{
    if cs.len() == 0 {
        assert(cs.push(x)[0] == x);
        assert(cs.push(x).drop_first() =~= Seq::<TreeV>::empty());
        assert(spec_child_index(cs.push(x).drop_first(), seg) is None);
    } else {
        assert(cs.push(x)[0] == cs[0]);
        assert(cs.push(x).drop_first() =~= cs.drop_first().push(x));
        lemma_child_index_push_none(cs.drop_first(), x, seg);
        assert(spec_child_index(cs.push(x).drop_first(), seg) is None);
    }
}

/// Replacing a child with one that carries the same segment keeps a
/// `None` search `None`.
proof fn lemma_child_index_update_none(cs: Seq<TreeV>, i: int, x: TreeV, seg: Seq<char>)
    requires
        spec_child_index(cs, seg) is None,
        0 <= i < cs.len(),
        x.value == cs[i].value,
    ensures
        spec_child_index(cs.update(i, x), seg) is None,
    decreases cs,
{
    if cs.len() > 0 {
        if i == 0 {
            assert(cs.update(i, x)[0] == x);
            assert(cs.update(i, x).drop_first() =~= cs.drop_first());
        } else {
            assert(cs.update(i, x)[0] == cs[0]);
            assert(cs.update(i, x).drop_first() =~= cs.drop_first().update(i - 1, x));
            assert(cs.drop_first()[i - 1] == cs[i]);
            lemma_child_index_update_none(cs.drop_first(), i - 1, x, seg);
        }
    }
}

/// The chain for a path holds exactly the path's prefixes, and is well
/// formed.
proof fn lemma_chain_paths(path: Seq<Seq<char>>, from: int)
    requires
        0 <= from < path.len(),
    ensures
        node_paths(spec_chain(path, from)) =~= rel_prefixes(path, from),
        wf_node(spec_chain(path, from)),
    decreases path.len() - from,
{
    let c = spec_chain(path, from);
    let v = path[from];
    if from + 1 == path.len() {
        assert(c.children =~= Seq::<TreeV>::empty());
        assert(kids_paths(c.children) =~= Set::<Seq<Seq<char>>>::empty());
        assert(kids_paths(c.children).map(|p: Seq<Seq<char>>| seq![v] + p)
            =~= Set::<Seq<Seq<char>>>::empty());
        assert forall|x: Seq<Seq<char>>| rel_prefixes(path, from).contains(x) implies node_paths(
            c,
        ).contains(x) by {
            let k = choose|k: int| from < k <= path.len() && x == path.subrange(from, k);
            assert(path.subrange(from, from + 1) =~= seq![v]);
        }
        assert forall|x: Seq<Seq<char>>| node_paths(c).contains(x) implies rel_prefixes(
            path,
            from,
        ).contains(x) by {
            assert(x == seq![v]);
            assert(path.subrange(from, from + 1) =~= seq![v]);
            assert(from < from + 1 <= path.len() && x == path.subrange(from, from + 1));
        }
    } else {
        lemma_chain_paths(path, from + 1);
        let inner = spec_chain(path, from + 1);
        assert(c.children =~= seq![inner]);
        assert(c.children[0] == inner);
        assert(c.children.drop_first() =~= Seq::<TreeV>::empty());
        assert(kids_paths(c.children.drop_first()) =~= Set::<Seq<Seq<char>>>::empty());
        assert forall|x: Seq<Seq<char>>| kids_paths(c.children).contains(x) implies node_paths(
            inner,
        ).contains(x) by {}
        assert forall|x: Seq<Seq<char>>| node_paths(inner).contains(x) implies kids_paths(
            c.children,
        ).contains(x) by {}
        assert(kids_paths(c.children) =~= node_paths(inner));
        let mapped = node_paths(inner).map(|p: Seq<Seq<char>>| seq![v] + p);
        assert forall|x: Seq<Seq<char>>| rel_prefixes(path, from).contains(x) implies node_paths(
            c,
        ).contains(x) by {
            let k = choose|k: int| from < k <= path.len() && x == path.subrange(from, k);
            if k == from + 1 {
                assert(path.subrange(from, from + 1) =~= seq![v]);
            } else {
                let p = path.subrange(from + 1, k);
                assert(rel_prefixes(path, from + 1).contains(p));
                assert(node_paths(inner).contains(p));
                assert(x =~= seq![v] + p);
            }
        }
        assert forall|x: Seq<Seq<char>>| node_paths(c).contains(x) implies rel_prefixes(
            path,
            from,
        ).contains(x) by {
            if x == seq![v] {
                assert(path.subrange(from, from + 1) =~= seq![v]);
                assert(from < from + 1 <= path.len() && x == path.subrange(from, from + 1));
            } else {
                assert(mapped.contains(x));
                let p = choose|p: Seq<Seq<char>>|
                    node_paths(inner).contains(p) && x == seq![v] + p;
                assert(rel_prefixes(path, from + 1).contains(p));
                let k = choose|k: int|
                    from + 1 < k <= path.len() && p == #[trigger] path.subrange(from + 1, k);
                assert(x =~= path.subrange(from, k));
            }
        }
        assert(spec_child_index(c.children.drop_first(), inner.value->Some_0) is None);
        assert(wf_node(c.children[0]));
        assert(wf_kids(c.children.drop_first()));
        assert(wf_kids(c.children));
    }
}

/// Appending a child adds exactly its paths.
proof fn lemma_kids_paths_push(cs: Seq<TreeV>, x: TreeV)
    ensures
        kids_paths(cs.push(x)) =~= kids_paths(cs).union(node_paths(x)),
    decreases cs,
{
    if cs.len() == 0 {
        assert(cs.push(x)[0] == x);
        assert(cs.push(x).drop_first() =~= Seq::<TreeV>::empty());
        assert(kids_paths(cs.push(x).drop_first()) =~= Set::<Seq<Seq<char>>>::empty());
        assert(kids_paths(cs.push(x)) == node_paths(x).union(kids_paths(cs.push(x).drop_first())));
        assert(kids_paths(cs) =~= Set::<Seq<Seq<char>>>::empty());
    } else {
        assert(cs.push(x)[0] == cs[0]);
        assert(cs.push(x).drop_first() =~= cs.drop_first().push(x));
        lemma_kids_paths_push(cs.drop_first(), x);
        assert(kids_paths(cs.push(x)) == node_paths(cs[0]).union(
            kids_paths(cs.drop_first().push(x)),
        ));
        assert(kids_paths(cs) == node_paths(cs[0]).union(kids_paths(cs.drop_first())));
    }
}

/// Replacing child `i` with a tree whose paths are the old ones plus
/// `e` adds exactly `e` to the whole list's paths.
proof fn lemma_kids_paths_update(cs: Seq<TreeV>, i: int, x: TreeV, e: Set<Seq<Seq<char>>>)
    requires
        0 <= i < cs.len(),
        node_paths(x) =~= node_paths(cs[i]).union(e),
    ensures
        kids_paths(cs.update(i, x)) =~= kids_paths(cs).union(e),
    decreases cs,
{
    if i == 0 {
        assert(cs.update(i, x)[0] == x);
        assert(cs.update(i, x).drop_first() =~= cs.drop_first());
    } else {
        assert(cs.update(i, x)[0] == cs[0]);
        assert(cs.update(i, x).drop_first() =~= cs.drop_first().update(i - 1, x));
        assert(cs.drop_first()[i - 1] == cs[i]);
        lemma_kids_paths_update(cs.drop_first(), i - 1, x, e);
    }
}

/// A child's paths are among the list's paths.
proof fn lemma_kids_paths_member(cs: Seq<TreeV>, i: int, x: Seq<Seq<char>>)
    requires
        0 <= i < cs.len(),
        node_paths(cs[i]).contains(x),
    ensures
        kids_paths(cs).contains(x),
    decreases cs,
{
    if i > 0 {
        assert(cs.drop_first()[i - 1] == cs[i]);
        lemma_kids_paths_member(cs.drop_first(), i - 1, x);
    }
}

/// One step of prefix unfolding: the prefixes from `from` are the head
/// segment alone plus the head segment glued onto each deeper prefix.
proof fn lemma_rel_prefixes_unfold(path: Seq<Seq<char>>, from: int)
    requires
        0 <= from < path.len(),
    ensures
        rel_prefixes(path, from) =~= rel_prefixes(path, from + 1).map(
            |p: Seq<Seq<char>>| seq![path[from]] + p,
        ).insert(seq![path[from]]),
    decreases path.len() - from,
{
    let v = path[from];
    let mapped = rel_prefixes(path, from + 1).map(|p: Seq<Seq<char>>| seq![v] + p);
    assert forall|x: Seq<Seq<char>>| rel_prefixes(path, from).contains(x) implies mapped.insert(
        seq![v],
    ).contains(x) by {
        let k = choose|k: int| from < k <= path.len() && x == path.subrange(from, k);
        if k == from + 1 {
            assert(x =~= seq![v]);
        } else {
            let p = path.subrange(from + 1, k);
            assert(rel_prefixes(path, from + 1).contains(p));
            assert(x =~= seq![v] + p);
        }
    }
    assert forall|x: Seq<Seq<char>>| mapped.insert(seq![v]).contains(x) implies rel_prefixes(
        path,
        from,
    ).contains(x) by {
        if x == seq![v] {
            assert(path.subrange(from, from + 1) =~= seq![v]);
            assert(from < from + 1 <= path.len() && x == path.subrange(from, from + 1));
        } else {
            let p = choose|p: Seq<Seq<char>>|
                rel_prefixes(path, from + 1).contains(p) && x == seq![v] + p;
            let k = choose|k: int|
                from + 1 < k <= path.len() && p == #[trigger] path.subrange(from + 1, k);
            assert(x =~= path.subrange(from, k));
        }
    }
}

/// Mapping distributes over union.
proof fn lemma_map_union<A, B>(a: Set<A>, b: Set<A>, f: spec_fn(A) -> B)
    ensures
        a.union(b).map(f) =~= a.map(f).union(b.map(f)),
{
    assert forall|x: B| a.union(b).map(f).contains(x) implies a.map(f).union(b.map(f)).contains(
        x,
    ) by {
        let y = choose|y: A| a.union(b).contains(y) && x == f(y);
        if a.contains(y) {
            assert(a.map(f).contains(x));
        } else {
            assert(b.map(f).contains(x));
        }
    }
    assert forall|x: B| a.map(f).union(b.map(f)).contains(x) implies a.union(b).map(f).contains(
        x,
    ) by {
        if a.map(f).contains(x) {
            let y = choose|y: A| a.contains(y) && x == f(y);
            assert(a.union(b).contains(y));
            assert(a.union(b).map(f).contains(x));
        } else {
            let y = choose|y: A| b.contains(y) && x == f(y);
            assert(a.union(b).contains(y));
            assert(a.union(b).map(f).contains(x));
        }
    }
}

/// Inserting a path keeps the trie's path set and shape: the new paths
/// are the old ones plus every non-empty prefix of the inserted path,
/// the root keeps its value, and no segment is duplicated under any
/// parent.
proof fn lemma_add_paths(t: TreeV, path: Seq<Seq<char>>, from: int)
    requires
        0 <= from <= path.len(),
        wf_kids(t.children),
    ensures
        kids_paths(spec_add(t, path, from).children) =~= kids_paths(t.children).union(
            rel_prefixes(path, from),
        ),
        spec_add(t, path, from).value == t.value,
        wf_kids(spec_add(t, path, from).children),
    decreases path.len() - from,
{
    let cs = t.children;
    if from == path.len() {
        assert(rel_prefixes(path, from) =~= Set::<Seq<Seq<char>>>::empty());
        assert(kids_paths(cs).union(rel_prefixes(path, from)) =~= kids_paths(cs));
    } else {
        let v = path[from];
        match spec_child_index(cs, v) {
            Option::None => {
                lemma_chain_paths(path, from);
                lemma_kids_paths_push(cs, spec_chain(path, from));
                lemma_wf_kids_push(cs, spec_chain(path, from));
            },
            Option::Some(i) => {
                lemma_child_index_bounds(cs, v);
                let child = cs[i];
                lemma_wf_kids_index(cs, i);
                lemma_add_paths(child, path, from + 1);
                let child2 = spec_add(child, path, from + 1);
                let mapped = rel_prefixes(path, from + 1).map(
                    |p: Seq<Seq<char>>| seq![v] + p,
                );
                assert(node_paths(child2) =~= node_paths(child).union(mapped)) by {
                    lemma_map_union(
                        kids_paths(child.children),
                        rel_prefixes(path, from + 1),
                        |p: Seq<Seq<char>>| seq![v] + p,
                    );
                    assert(kids_paths(child2.children).map(|p: Seq<Seq<char>>| seq![v] + p)
                        =~= kids_paths(child.children).map(|p: Seq<Seq<char>>| seq![v] + p).union(
                        mapped,
                    ));
                }
                lemma_kids_paths_update(cs, i, child2, mapped);
                lemma_rel_prefixes_unfold(path, from);
                assert(node_paths(child).contains(seq![v]));
                lemma_kids_paths_member(cs, i, seq![v]);
                assert(kids_paths(cs).union(mapped) =~= kids_paths(cs).union(
                    rel_prefixes(path, from),
                ));
                lemma_wf_kids_update(cs, i, child2);
            },
        }
    }
}

/// A well-formed child list stays well formed when a fresh-segment,
/// well-formed child is appended.
proof fn lemma_wf_kids_push(cs: Seq<TreeV>, x: TreeV)
    requires
        wf_kids(cs),
        wf_node(x),
        spec_child_index(cs, x.value->Some_0) is None,
    ensures
        wf_kids(cs.push(x)),
    decreases cs,
{
    if cs.len() == 0 {
        assert(cs.push(x)[0] == x);
        assert(cs.push(x).drop_first() =~= Seq::<TreeV>::empty());
        assert(wf_kids(cs.push(x).drop_first()));
        assert(spec_child_index(cs.push(x).drop_first(), x.value->Some_0) is None);
    } else {
        assert(cs.push(x)[0] == cs[0]);
        assert(cs.push(x).drop_first() =~= cs.drop_first().push(x));
        lemma_wf_kids_push(cs.drop_first(), x);
        assert(cs[0].value != Option::Some(x.value->Some_0));
        assert(x.value != Option::Some(cs[0].value->Some_0)) by {
            if x.value == Option::Some(cs[0].value->Some_0) {
                assert(wf_node(cs[0]));
                assert(cs[0].value is Some);
                let s0 = cs[0].value->Some_0;
                assert(x.value->Some_0 == s0);
                assert(cs[0].value == Option::Some(s0));
                assert(cs[0].value == Option::Some(x.value->Some_0));
            }
        }
        lemma_child_index_push_none(cs.drop_first(), x, cs[0].value->Some_0);
        assert(wf_kids(cs.push(x).drop_first()));
        assert(spec_child_index(cs.push(x).drop_first(), cs.push(x)[0].value->Some_0) is None);
    }
}

/// Every child of a well-formed list is well formed.
proof fn lemma_wf_kids_index(cs: Seq<TreeV>, i: int)
    requires
        wf_kids(cs),
        0 <= i < cs.len(),
    ensures
        wf_node(cs[i]),
    decreases cs,
{
    if i > 0 {
        assert(cs.drop_first()[i - 1] == cs[i]);
        lemma_wf_kids_index(cs.drop_first(), i - 1);
    }
}

/// A well-formed child list stays well formed when one child is
/// replaced by a well-formed tree with the same segment.
proof fn lemma_wf_kids_update(cs: Seq<TreeV>, i: int, x: TreeV)
    requires
        wf_kids(cs),
        0 <= i < cs.len(),
        wf_node(x),
        x.value == cs[i].value,
    ensures
        wf_kids(cs.update(i, x)),
    decreases cs,
{
    if i == 0 {
        assert(cs.update(i, x)[0] == x);
        assert(cs.update(i, x).drop_first() =~= cs.drop_first());
    } else {
        assert(cs.update(i, x)[0] == cs[0]);
        assert(cs.update(i, x).drop_first() =~= cs.drop_first().update(i - 1, x));
        assert(cs.drop_first()[i - 1] == cs[i]);
        lemma_wf_kids_update(cs.drop_first(), i - 1, x);
        lemma_child_index_update_none(cs.drop_first(), i - 1, x, cs[0].value->Some_0);
    }
}

} // verus!

use crate::module::spec_track_all;

verus! {

/// The non-empty segment-path prefixes of every name from `i` on.
pub open spec fn all_prefix_sets(names: Seq<Seq<char>>, i: int) -> Set<Seq<Seq<char>>>
    decreases names.len() - i,
{
    if i < 0 || i >= names.len() {
        Set::empty()
    } else {
        rel_prefixes(spec_segments(names[i]), 0).union(all_prefix_sets(names, i + 1))
    }
}

proof fn lemma_track_all_paths(t: TreeV, names: Seq<Seq<char>>, i: int)
    requires
        0 <= i <= names.len(),
        wf_kids(t.children),
    ensures
        kids_paths(spec_track_all(t, names, i).children) =~= kids_paths(t.children).union(
            all_prefix_sets(names, i),
        ),
        wf_kids(spec_track_all(t, names, i).children),
        spec_track_all(t, names, i).value == t.value,
    decreases names.len() - i,
{
    if i < names.len() {
        let path = spec_segments(names[i]);
        lemma_add_paths(t, path, 0);
        lemma_track_all_paths(spec_add(t, path, 0), names, i + 1);
    } else {
        assert(kids_paths(t.children).union(Set::<Seq<Seq<char>>>::empty()) =~= kids_paths(
            t.children,
        ));
    }
}

/// Membership in the combined prefix set means membership in some
/// name's prefix set.
proof fn lemma_aps_member(names: Seq<Seq<char>>, i: int, x: Seq<Seq<char>>)
    requires
        0 <= i <= names.len(),
    ensures
        all_prefix_sets(names, i).contains(x) <==> exists|j: int|
            i <= j < names.len() && #[trigger] rel_prefixes(
                spec_segments(names[j]),
                0,
            ).contains(x),
    decreases names.len() - i,
{
    if i < names.len() {
        lemma_aps_member(names, i + 1, x);
        if all_prefix_sets(names, i).contains(x) {
            if rel_prefixes(spec_segments(names[i]), 0).contains(x) {
                assert(i <= i < names.len() && rel_prefixes(
                    spec_segments(names[i]),
                    0,
                ).contains(x));
            }
        }
        if exists|j: int|
            i <= j < names.len() && #[trigger] rel_prefixes(
                spec_segments(names[j]),
                0,
            ).contains(x) {
            let j = choose|j: int|
                i <= j < names.len() && #[trigger] rel_prefixes(
                    spec_segments(names[j]),
                    0,
                ).contains(x);
            if j == i {
                assert(all_prefix_sets(names, i).contains(x));
            } else {
                assert(i + 1 <= j < names.len() && rel_prefixes(
                    spec_segments(names[j]),
                    0,
                ).contains(x));
                assert(all_prefix_sets(names, i + 1).contains(x));
            }
        }
    }
}

/// The empty trie a fresh tracker starts from.
pub open spec fn empty_tree() -> TreeV {
    TreeV { value: Option::None, children: Seq::empty() }
}

/// Law: the tracker merges names by shared prefixes.  After tracking a
/// collection of names into an empty tracker, the trie holds as node
/// paths exactly the non-empty prefixes of each name's segment path, so
/// names sharing a leading segment run share the nodes for it; and no
/// segment occurs twice under any parent, so each first segment heads
/// exactly one top-level rendered statement.
pub proof fn lemma_tracker_merges(names: Seq<Seq<char>>)
    ensures
        kids_paths(spec_track_all(empty_tree(), names, 0).children) =~= all_prefix_sets(names, 0),
        wf_kids(spec_track_all(empty_tree(), names, 0).children),
{
    assert(wf_kids(Seq::<TreeV>::empty()));
    assert(kids_paths(Seq::<TreeV>::empty()) =~= Set::<Seq<Seq<char>>>::empty());
    lemma_track_all_paths(empty_tree(), names, 0);
}

/// Law: merging is order-insensitive with respect to the set of names.
/// Whatever order two runs insert the same set of names in, the tries
/// they build hold the same node paths — rendering order may differ,
/// since children keep first-insertion order, but the grouped names are
/// the same.
pub proof fn lemma_tracker_order_insensitive(names1: Seq<Seq<char>>, names2: Seq<Seq<char>>)
    requires
        names1.to_set() == names2.to_set(),
    ensures
        kids_paths(spec_track_all(empty_tree(), names1, 0).children) =~= kids_paths(
            spec_track_all(empty_tree(), names2, 0).children,
        ),
{
    lemma_tracker_merges(names1);
    lemma_tracker_merges(names2);
    assert forall|x: Seq<Seq<char>>|
        all_prefix_sets(names1, 0).contains(x) implies all_prefix_sets(
        names2,
        0,
    ).contains(x) by {
        lemma_aps_sub(names1, names2, x);
    }
    assert forall|x: Seq<Seq<char>>|
        all_prefix_sets(names2, 0).contains(x) implies all_prefix_sets(
        names1,
        0,
    ).contains(x) by {
        lemma_aps_sub(names2, names1, x);
    }
    assert(all_prefix_sets(names1, 0) =~= all_prefix_sets(names2, 0));
}

/// One inclusion of the order-insensitivity argument.
proof fn lemma_aps_sub(a: Seq<Seq<char>>, b: Seq<Seq<char>>, x: Seq<Seq<char>>)
    requires
        a.to_set() == b.to_set(),
        all_prefix_sets(a, 0).contains(x),
    ensures
        all_prefix_sets(b, 0).contains(x),
{
    lemma_aps_member(a, 0, x);
    lemma_aps_member(b, 0, x);
    let j = choose|j: int|
        0 <= j < a.len() && #[trigger] rel_prefixes(spec_segments(a[j]), 0).contains(x);
    assert(a.contains(a[j]));
    assert(a.to_set().contains(a[j]));
    assert(b.to_set().contains(a[j]));
    assert(b.contains(a[j]));
    let k = choose|k: int| 0 <= k < b.len() && b[k] == a[j];
    assert(rel_prefixes(spec_segments(b[k]), 0).contains(x));
}

} // verus!

verus! {

/// The trie after inserting each of `paths` in order, from `i` on.
/// A run of `MultiTree::add` calls realizes exactly this fold: each
/// call's contract steps it once.
pub open spec fn spec_add_all(t: TreeV, paths: Seq<Seq<Seq<char>>>, i: int) -> TreeV
    decreases paths.len() - i,
{
    if i < 0 || i >= paths.len() {
        t
    } else {
        spec_add_all(spec_add(t, paths[i], 0), paths, i + 1)
    }
}

/// The non-empty prefixes of every inserted path from `i` on.
pub open spec fn all_path_prefixes(paths: Seq<Seq<Seq<char>>>, i: int) -> Set<Seq<Seq<char>>>
    decreases paths.len() - i,
{
    if i < 0 || i >= paths.len() {
        Set::empty()
    } else {
        rel_prefixes(paths[i], 0).union(all_path_prefixes(paths, i + 1))
    }
}

proof fn lemma_add_all_paths(t: TreeV, paths: Seq<Seq<Seq<char>>>, i: int)
    requires
        0 <= i <= paths.len(),
        wf_kids(t.children),
    ensures
        kids_paths(spec_add_all(t, paths, i).children) =~= kids_paths(t.children).union(
            all_path_prefixes(paths, i),
        ),
        wf_kids(spec_add_all(t, paths, i).children),
        spec_add_all(t, paths, i).value == t.value,
    decreases paths.len() - i,
{
    if i < paths.len() {
        lemma_add_paths(t, paths[i], 0);
        lemma_add_all_paths(spec_add(t, paths[i], 0), paths, i + 1);
    } else {
        assert(kids_paths(t.children).union(Set::<Seq<Seq<char>>>::empty()) =~= kids_paths(
            t.children,
        ));
    }
}

proof fn lemma_app_member(paths: Seq<Seq<Seq<char>>>, i: int, x: Seq<Seq<char>>)
    requires
        0 <= i <= paths.len(),
    ensures
        all_path_prefixes(paths, i).contains(x) <==> exists|j: int|
            i <= j < paths.len() && #[trigger] rel_prefixes(paths[j], 0).contains(x),
    decreases paths.len() - i,
{
    if i < paths.len() {
        lemma_app_member(paths, i + 1, x);
        if all_path_prefixes(paths, i).contains(x) {
            if rel_prefixes(paths[i], 0).contains(x) {
                assert(i <= i < paths.len() && rel_prefixes(paths[i], 0).contains(x));
            }
        }
        if exists|j: int| i <= j < paths.len() && #[trigger] rel_prefixes(paths[j], 0).contains(x) {
            let j = choose|j: int|
                i <= j < paths.len() && #[trigger] rel_prefixes(paths[j], 0).contains(x);
            if j == i {
                assert(all_path_prefixes(paths, i).contains(x));
            } else {
                assert(i + 1 <= j < paths.len() && rel_prefixes(paths[j], 0).contains(x));
                assert(all_path_prefixes(paths, i + 1).contains(x));
            }
        }
    }
}

/// Law: inserting a collection of paths merges them by shared prefixes.
/// After a run of insertions into a fresh trie, the trie's node set —
/// the parent-child segment relation, read as the set of root-to-node
/// segment paths — is exactly the set of non-empty prefixes of the
/// inserted paths, and no segment occurs twice under one parent.
pub proof fn lemma_add_all_merges(paths: Seq<Seq<Seq<char>>>)
    ensures
        kids_paths(spec_add_all(empty_tree(), paths, 0).children) =~= all_path_prefixes(paths, 0),
        wf_kids(spec_add_all(empty_tree(), paths, 0).children),
{
    assert(wf_kids(Seq::<TreeV>::empty()));
    assert(kids_paths(Seq::<TreeV>::empty()) =~= Set::<Seq<Seq<char>>>::empty());
    lemma_add_all_paths(empty_tree(), paths, 0);
}

/// Law: the merge is order-insensitive with respect to the set of
/// paths.  Two fresh tries given two runs of insertions whose path
/// *sets* are equal — order and duplicates may differ — contain the
/// same node set; only sibling ordering may differ, each trie keeping
/// its own first-insertion order.
pub proof fn lemma_add_order_insensitive(paths1: Seq<Seq<Seq<char>>>, paths2: Seq<Seq<Seq<char>>>)
    requires
        paths1.to_set() == paths2.to_set(),
    ensures
        kids_paths(spec_add_all(empty_tree(), paths1, 0).children) =~= kids_paths(
            spec_add_all(empty_tree(), paths2, 0).children,
        ),
{
    lemma_add_all_merges(paths1);
    lemma_add_all_merges(paths2);
    assert forall|x: Seq<Seq<char>>|
        all_path_prefixes(paths1, 0).contains(x) implies all_path_prefixes(
        paths2,
        0,
    ).contains(x) by {
        lemma_app_sub(paths1, paths2, x);
    }
    assert forall|x: Seq<Seq<char>>|
        all_path_prefixes(paths2, 0).contains(x) implies all_path_prefixes(
        paths1,
        0,
    ).contains(x) by {
        lemma_app_sub(paths2, paths1, x);
    }
    assert(all_path_prefixes(paths1, 0) =~= all_path_prefixes(paths2, 0));
}

/// One inclusion of the path-level order-insensitivity argument.
proof fn lemma_app_sub(a: Seq<Seq<Seq<char>>>, b: Seq<Seq<Seq<char>>>, x: Seq<Seq<char>>)
    requires
        a.to_set() == b.to_set(),
        all_path_prefixes(a, 0).contains(x),
    ensures
        all_path_prefixes(b, 0).contains(x),
{
    lemma_app_member(a, 0, x);
    lemma_app_member(b, 0, x);
    let j = choose|j: int| 0 <= j < a.len() && #[trigger] rel_prefixes(a[j], 0).contains(x);
    assert(a.contains(a[j]));
    assert(a.to_set().contains(a[j]));
    assert(b.to_set().contains(a[j]));
    assert(b.contains(a[j]));
    let k = choose|k: int| 0 <= k < b.len() && b[k] == a[j];
    assert(rel_prefixes(b[k], 0).contains(x));
}

} // verus!
