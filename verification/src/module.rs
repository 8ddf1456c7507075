use vstd::prelude::*;

use crate::dependency_tracker::{
    spec_add, spec_segments, spec_use_lines, tree_view, DependencyTracker, TreeV,
};
use crate::text::{push_indent, spec_indent};

verus! {

/// A block of output lines together with the qualified names they depend
/// on; serialization puts the grouped `use` declarations first.
pub struct Module {
    pub dependencies: DependencyTracker,
    pub code: Vec<String>,
}

/// The tracker state after tracking each name of `deps` in order,
/// starting from `i`.
pub open spec fn spec_track_all(t: TreeV, deps: Seq<Seq<char>>, i: int) -> TreeV
    decreases deps.len() - i,
{
    if i < 0 || i >= deps.len() {
        t
    } else {
        spec_track_all(spec_add(t, spec_segments(deps[i]), 0), deps, i + 1)
    }
}

/// Each line indented and ended with a newline.
pub open spec fn spec_code_lines(lines: Seq<Seq<char>>, level: nat) -> Seq<char>
    decreases lines,
{
    if lines.len() == 0 {
        Seq::empty()
    } else {
        spec_indent(level) + lines[0] + "\n"@ + spec_code_lines(lines.drop_first(), level)
    }
}

impl Module {
    pub fn new() -> (m: Module)
        ensures
            tree_view(m.dependencies.tree) == (TreeV {
                value: Option::None,
                children: Seq::empty(),
            }),
            m.code@.len() == 0,
    {
        Module { dependencies: DependencyTracker::new(), code: Vec::new() }
    }

    /// Appends one output line and tracks the names it depends on.
    pub fn add_line(&mut self, line: &str, dependencies: &[&str])
        ensures
            final(self).code.deep_view() == old(self).code.deep_view().push(line@),
            tree_view(final(self).dependencies.tree) == spec_track_all(
                tree_view(old(self).dependencies.tree),
                dependencies.deep_view(),
                0,
            ),
    {
        let ghost dv = dependencies.deep_view();
        self.code.push(String::from_str(line));
        proof {
            assert(self.code.deep_view() =~= old(self).code.deep_view().push(line@));
        }
        let ghost code_after = self.code.deep_view();
        let mut i: usize = 0;
        while i < dependencies.len()
            invariant
                i <= dependencies@.len(),
                dv == dependencies.deep_view(),
                dv.len() == dependencies@.len(),
                spec_track_all(tree_view(old(self).dependencies.tree), dv, 0) == spec_track_all(
                    tree_view(self.dependencies.tree),
                    dv,
                    i as int,
                ),
                self.code.deep_view() == code_after,
            decreases dependencies@.len() - i,
        {
            let dep: &str = dependencies[i];
            proof {
                assert(dv[i as int] == dependencies@[i as int]@);
            }
            self.dependencies.track(dep);
            i = i + 1;
        }
    }

    /// Serializes the module at the given indentation level: the grouped
    /// `use` declarations, then the lines in order.
    pub fn write(&self, indentation_level: usize) -> (r: String)
        ensures
            r@ == spec_use_lines(tree_view(self.dependencies.tree).children, indentation_level as nat)
                + spec_code_lines(self.code.deep_view(), indentation_level as nat),
    {
        let ghost lvl = indentation_level as nat;
        let ghost lines = self.code.deep_view();
        let mut out = self.dependencies.write(indentation_level);
        let ghost base = out@;
        let n = self.code.len();
        proof {
            assert(lines.subrange(0, n as int) =~= lines);
            assert(out@ + spec_code_lines(lines, lvl) =~= base + spec_code_lines(lines, lvl));
        }
        let mut i: usize = 0;
        while i < n
            invariant
                i <= n,
                n == self.code@.len(),
                lines == self.code.deep_view(),
                lines.len() == n,
                lvl == indentation_level as nat,
                out@ + spec_code_lines(lines.subrange(i as int, n as int), lvl) == base
                    + spec_code_lines(lines, lvl),
            decreases n - i,
        {
            let ghost suf = lines.subrange(i as int, n as int);
            proof {
                assert(suf[0] == lines[i as int]);
                assert(suf.drop_first() =~= lines.subrange(i + 1, n as int));
                assert(lines[i as int] == self.code@[i as int]@);
            }
            push_indent(&mut out, indentation_level);
            let line: &String = &self.code[i];
            out.append(line.as_str());
            out.append("\n");
            proof {
                assert(out@ + spec_code_lines(lines.subrange(i + 1, n as int), lvl) =~= base
                    + spec_code_lines(lines, lvl));
            }
            i = i + 1;
        }
        proof {
            assert(lines.subrange(n as int, n as int) =~= Seq::<Seq<char>>::empty());
            assert(out@ =~= base + spec_code_lines(lines, lvl));
        }
        out
    }
}

} // verus!
