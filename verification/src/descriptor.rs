use vstd::prelude::*;

use crate::command_parser::CommandDetails;

verus! {

/// The kind of value an attribute holds.  Paths are the only kind so
/// far; the enum leaves room for more.
#[derive(Debug, Clone, Copy, PartialEq, Eq, Structural)]
pub enum ParameterType {
    Path,
}

/// How an attribute takes part in hierarchical inheritance.
#[derive(Debug, Clone, Copy, PartialEq, Eq, Structural)]
pub enum GroupSetting {
    /// The value is taken from the node alone; groups never export it.
    NoInherit,
    /// The node's own value wins; an absent value falls back to the
    /// enclosing group's.
    Inherit,
    /// A present value is prefixed by the enclosing group's; an absent
    /// value stays absent.
    Prefix,
    /// The enclosing group's value is always applied as a prefix, and
    /// inherited alone when the node gives no value.
    InheritPrefix,
}

/// One attribute of a task element: its name, value kind, inheritance
/// setting, and whether a resolved value is mandatory.
#[derive(Debug, Clone)]
pub struct ParameterDescriptor {
    pub name: String,
    pub parameter_type: ParameterType,
    pub allow_group: GroupSetting,
    pub required: bool,
}

/// The compiled command templates for the three supported platforms.
#[derive(Debug, Clone)]
pub struct CommandLineDescriptor {
    pub linux: CommandDetails,
    pub windows: CommandDetails,
    pub osx: CommandDetails,
}

/// How a generated task runs its items: an inline code snippet with
/// `${name}` placeholders, or an external command invocation.
#[derive(Debug, Clone)]
pub enum Command {
    Snippet(String),
    CommandLine(CommandLineDescriptor),
}

/// The document element a task type binds to: its tag, the optional
/// parameter bound to the element text, and the attribute parameters.
#[derive(Debug, Clone)]
pub struct ElementDescriptor {
    pub tag: String,
    pub value: Option<ParameterDescriptor>,
    pub attributes: Vec<ParameterDescriptor>,
}

/// One task-type schema: the generated module's name, how the task
/// executes, and the element it parses.
#[derive(Debug, Clone)]
pub struct TaskDescriptor {
    pub name: String,
    pub command: Command,
    pub element: ElementDescriptor,
}

/// The platform the generated executor targets.
#[derive(Debug, Clone, Copy, PartialEq, Eq, Structural)]
pub enum Platform {
    Linux,
    Windows,
    Osx,
}

impl CommandLineDescriptor {
    /// The compiled template for the chosen platform.
    pub fn select(&self, platform: Platform) -> (r: &CommandDetails)
        ensures
            platform == Platform::Linux ==> r == &self.linux,
            platform == Platform::Windows ==> r == &self.windows,
            platform == Platform::Osx ==> r == &self.osx,
    {
        match platform {
            Platform::Linux => &self.linux,
            Platform::Windows => &self.windows,
            Platform::Osx => &self.osx,
        }
    }
}

impl ElementDescriptor {
    /// Whether any attribute takes part in inheritance, so that the
    /// generated `Group` type carries data at all.
    pub fn uses_groups(&self) -> (r: bool)
        ensures
            r == exists|i: int|
                0 <= i < self.attributes@.len() && self.attributes@[i].allow_group
                    != GroupSetting::NoInherit,
    {
        let n = self.attributes.len();
        let mut i: usize = 0;
        while i < n
            invariant
                i <= n,
                n == self.attributes@.len(),
                forall|k: int| 0 <= k < i ==> self.attributes@[k].allow_group
                    == GroupSetting::NoInherit,
            decreases n - i,
        {
            let allows = match self.attributes[i].allow_group {
                GroupSetting::NoInherit => false,
                _ => true,
            };
            if allows {
                return true;
            }
            i = i + 1;
        }
        false
    }
}

} // verus!

use crate::text::str_eq;

verus! {

/// The loaded descriptors' names, in load order.
pub open spec fn task_names(tasks: Seq<TaskDescriptor>) -> Seq<Seq<char>> {
    tasks.map_values(|t: TaskDescriptor| t.name@)
}

/// The first name (in load order) that repeats an earlier one.
pub open spec fn spec_first_duplicate(names: Seq<Seq<char>>, i: int) -> Option<Seq<char>>
    decreases names.len() - i,
{
    if i < 0 || i >= names.len() {
        Option::None
    } else if exists|j: int| 0 <= j < i && names[j] == names[i] {
        Option::Some(names[i])
    } else {
        spec_first_duplicate(names, i + 1)
    }
}

/// Finds the first descriptor whose name an earlier descriptor already
/// used: two loaded descriptors may not share a name, since each name
/// becomes a generated module and a dispatch variant.
#[verifier::loop_isolation(false)]
pub fn find_duplicate_name(tasks: &Vec<TaskDescriptor>) -> (r: Option<String>)
    ensures
        match r {
            Some(name) => spec_first_duplicate(task_names(tasks@), 0) == Some(name@),
            None => spec_first_duplicate(task_names(tasks@), 0) is None,
        },
{
    let ghost names = task_names(tasks@);
    let n = tasks.len();
    let mut i: usize = 0;
    while i < n
        invariant
            i <= n,
            spec_first_duplicate(names, 0) == spec_first_duplicate(names, i as int),
        decreases n - i,
    {
        let mut j: usize = 0;
        while j < i
            invariant
                j <= i < n,
                forall|k: int| 0 <= k < j ==> names[k] != names[i as int],
            decreases i - j,
        {
            if str_eq(tasks[j].name.as_str(), tasks[i].name.as_str()) {
                proof {
                    assert(names[j as int] == names[i as int]);
                    assert(spec_first_duplicate(names, i as int) == Some(names[i as int]));
                }
                return Some(tasks[i].name.clone());
            }
            j = j + 1;
        }
        proof {
            assert(!(exists|k: int| 0 <= k < i && names[k] == names[i as int]));
        }
        i = i + 1;
    }
    None
}

} // verus!
