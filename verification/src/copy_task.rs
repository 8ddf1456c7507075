use vstd::prelude::*;

use crate::element::{
    attr_of, element_view, lemma_children_view, Element, ElementV,
};
use crate::errors::{Error, ErrorV};
use crate::runtime::{vars_view, Runtime};
use crate::text::str_eq;
use crate::util::{
    evaluate_condition_from_element, interpolate_attribute, interpolate_text, spec_gate,
    spec_interp_attr, spec_interp_text, spec_join_path, ApplyPrefix, AttrR,
};

verus! {

/// The inherited scope a `group` node exports to its descendants: the
/// resolved source and destination prefixes.
#[derive(Debug)]
pub struct Group {
    pub source_prefix: Option<String>,
    pub destination_prefix: Option<String>,
}

/// One fully resolved unit of work: copy `source` to `destination`.
#[derive(Debug)]
pub struct Item {
    pub source: String,
    pub destination: String,
}

/// The built-in copy task: the items a document yielded, in document
/// order.
#[derive(Debug)]
pub struct CopyTask {
    pub items: Vec<Item>,
}

/// Ghost mirror of [`Group`].
#[verifier::ext_equal]
pub struct GroupV {
    pub source_prefix: Option<Seq<char>>,
    pub destination_prefix: Option<Seq<char>>,
}

/// Ghost mirror of [`Item`].
#[verifier::ext_equal]
pub struct ItemV {
    pub source: Seq<char>,
    pub destination: Seq<char>,
}

pub open spec fn group_view(g: Group) -> GroupV {
    GroupV {
        source_prefix: g.source_prefix.deep_view(),
        destination_prefix: g.destination_prefix.deep_view(),
    }
}

pub open spec fn item_view(i: Item) -> ItemV {
    ItemV { source: i.source@, destination: i.destination@ }
}

pub open spec fn items_seq_view(s: Seq<Item>) -> Seq<ItemV> {
    s.map_values(|i: Item| item_view(i))
}

pub open spec fn parent_source(parent: Option<GroupV>) -> Option<Seq<char>> {
    match parent {
        Option::Some(g) => g.source_prefix,
        Option::None => Option::None,
    }
}

pub open spec fn parent_destination(parent: Option<GroupV>) -> Option<Seq<char>> {
    match parent {
        Option::Some(g) => g.destination_prefix,
        Option::None => Option::None,
    }
}

/// The error a failed gate carries: the text of the condition that could
/// not be evaluated.
pub open spec fn gate_error(e: ElementV) -> ErrorV {
    ErrorV::ConditionFailure(attr_of(e.attributes, "condition"@)->Some_0)
}

/// What resolving a `group` node's exported scope comes to: both
/// attributes are interpolated, then joined onto the enclosing scope.
pub enum GroupR {
    Done(GroupV),
    Fail(ErrorV),
}

pub open spec fn spec_group_create(
    e: ElementV,
    parent: Option<GroupV>,
    vars: Seq<(Seq<char>, Seq<char>)>,
) -> GroupR {
    match spec_interp_attr(e, "source"@, vars) {
        AttrR::Missing(n) => GroupR::Fail(ErrorV::InterpolationFailure(n)),
        AttrR::Done(src) => match spec_interp_attr(e, "destination"@, vars) {
            AttrR::Missing(n) => GroupR::Fail(ErrorV::InterpolationFailure(n)),
            AttrR::Done(dst) => GroupR::Done(
                GroupV {
                    source_prefix: spec_join_path(parent_source(parent), src),
                    destination_prefix: spec_join_path(parent_destination(parent), dst),
                },
            ),
        },
    }
}

/// What resolving one `item` node comes to: gated by its condition, the
/// element text is the (required) source; the `destination` attribute,
/// defaulting to that text, is the destination; each is joined onto the
/// enclosing scope.
pub enum ItemR {
    Skip,
    One(ItemV),
    Fail(ErrorV),
}

pub open spec fn spec_parse_item(
    e: ElementV,
    parent: Option<GroupV>,
    vars: Seq<(Seq<char>, Seq<char>)>,
) -> ItemR {
    match spec_gate(e, vars) {
        Option::None => ItemR::Fail(gate_error(e)),
        Option::Some(false) => ItemR::Skip,
        Option::Some(true) => match spec_interp_text(e, vars) {
            AttrR::Missing(n) => ItemR::Fail(ErrorV::InterpolationFailure(n)),
            AttrR::Done(Option::None) => ItemR::Fail(ErrorV::MissingRequiredValue("source"@)),
            AttrR::Done(Option::Some(src)) => match spec_interp_attr(e, "destination"@, vars) {
                AttrR::Missing(n) => ItemR::Fail(ErrorV::InterpolationFailure(n)),
                AttrR::Done(dst) => ItemR::One(
                    ItemV {
                        source: spec_join_path(
                            parent_source(parent),
                            Option::Some(src),
                        )->Some_0,
                        destination: spec_join_path(
                            parent_destination(parent),
                            Option::Some(
                                match dst {
                                    Option::Some(d) => d,
                                    Option::None => src,
                                },
                            ),
                        )->Some_0,
                    },
                ),
            },
        },
    }
}

/// What walking a whole node comes to: a false condition skips the node
/// and everything below it; a true one resolves the node's scope and
/// walks the children in order, collecting their items.
pub enum ItemsR {
    Skip,
    Items(Seq<ItemV>),
    Fail(ErrorV),
}

pub open spec fn spec_parse_items(
    e: ElementV,
    group: Option<GroupV>,
    vars: Seq<(Seq<char>, Seq<char>)>,
) -> ItemsR
    decreases e, 1int,
{
    match spec_gate(e, vars) {
        Option::None => ItemsR::Fail(gate_error(e)),
        Option::Some(false) => ItemsR::Skip,
        Option::Some(true) => match spec_group_create(e, group, vars) {
            GroupR::Fail(err) => ItemsR::Fail(err),
            GroupR::Done(g) => spec_walk_children(e.children, g, vars),
        },
    }
}

/// Walks child nodes in order: an `item` child contributes zero or one
/// item, a `group` child contributes all items of its subtree, any other
/// child name is fatal; the first failure wins.
pub open spec fn spec_walk_children(
    cs: Seq<ElementV>,
    g: GroupV,
    vars: Seq<(Seq<char>, Seq<char>)>,
) -> ItemsR
    decreases cs, 0int,
{
    if cs.len() == 0 {
        ItemsR::Items(Seq::empty())
    } else if cs[0].name == "item"@ {
        match spec_parse_item(cs[0], Option::Some(g), vars) {
            ItemR::Fail(e) => ItemsR::Fail(e),
            ItemR::Skip => spec_walk_children(cs.drop_first(), g, vars),
            ItemR::One(it) => match spec_walk_children(cs.drop_first(), g, vars) {
                ItemsR::Fail(e) => ItemsR::Fail(e),
                ItemsR::Items(rest) => ItemsR::Items(seq![it] + rest),
                ItemsR::Skip => ItemsR::Skip,
            },
        }
    } else if cs[0].name == "group"@ {
        match spec_parse_items(cs[0], Option::Some(g), vars) {
            ItemsR::Fail(e) => ItemsR::Fail(e),
            ItemsR::Skip => spec_walk_children(cs.drop_first(), g, vars),
            ItemsR::Items(inner) => match spec_walk_children(cs.drop_first(), g, vars) {
                ItemsR::Fail(e) => ItemsR::Fail(e),
                ItemsR::Items(rest) => ItemsR::Items(inner + rest),
                ItemsR::Skip => ItemsR::Skip,
            },
        }
    } else {
        ItemsR::Fail(ErrorV::InvalidElement(cs[0].name))
    }
}

/// Law: a false condition gates a whole subtree out.  A `group` node
/// whose condition evaluates to false contributes no items, whatever its
/// descendants hold; an `item` node with a false condition contributes
/// none, and its siblings are resolved exactly as if it were not there.
pub proof fn lemma_condition_gates_subtree(
    e: ElementV,
    group: Option<GroupV>,
    g: GroupV,
    cs: Seq<ElementV>,
    vars: Seq<(Seq<char>, Seq<char>)>,
)
    requires
        spec_gate(e, vars) == Option::<bool>::Some(false),
    ensures
        spec_parse_items(e, group, vars) == ItemsR::Skip,
        spec_parse_item(e, group, vars) == ItemR::Skip,
        cs.len() > 0 && cs[0] == e && e.name == "item"@ ==> spec_walk_children(cs, g, vars)
            == spec_walk_children(cs.drop_first(), g, vars),
        cs.len() > 0 && cs[0] == e && e.name == "group"@ ==> spec_walk_children(cs, g, vars)
            == spec_walk_children(cs.drop_first(), g, vars),
{
    reveal_strlit("item");
    reveal_strlit("group");
    if cs.len() > 0 && cs[0] == e && e.name == "group"@ {
        assert("group"@.len() == 5);
        assert("item"@.len() == 4);
        assert(e.name != "item"@);
        assert(spec_parse_items(e, Option::Some(g), vars) == ItemsR::Skip);
        assert(spec_walk_children(cs, g, vars) == spec_walk_children(cs.drop_first(), g, vars));
    }
}

impl Group {
    /// Resolves a node's exported scope against the enclosing one: each
    /// prefix attribute is interpolated and joined onto the parent's
    /// resolved prefix.
    pub fn create(element: &Element, parent: Option<&Group>, runtime: &Runtime) -> (r: Result<
        Group,
        Error,
    >)
        ensures
            match spec_group_create(
                element_view(*element),
                match parent {
                    Option::Some(g) => Option::Some(group_view(*g)),
                    Option::None => Option::None,
                },
                vars_view(runtime.variables@),
            ) {
                GroupR::Done(gv) => (r matches Ok(g) && group_view(g) == gv),
                GroupR::Fail(e) => (r matches Err(err) && err@ == e),
            },
    {
        let source = match interpolate_attribute("source", element, runtime) {
            Ok(v) => v,
            Err(e) => {
                return Err(e);
            },
        };
        let destination = match interpolate_attribute("destination", element, runtime) {
            Ok(v) => v,
            Err(e) => {
                return Err(e);
            },
        };
        let source = match parent {
            Some(group) => source.apply_prefix(&group.source_prefix),
            None => source,
        };
        let destination = match parent {
            Some(group) => destination.apply_prefix(&group.destination_prefix),
            None => destination,
        };
        let g = Group { source_prefix: source, destination_prefix: destination };
        Ok(g)
    }
}

impl Item {
    /// Resolves one item against the enclosing scope: both paths are
    /// joined onto the scope's prefixes.
    pub fn create(source: &str, destination: &str, parent: Option<&Group>) -> (it: Item)
        ensures
            item_view(it).source == spec_join_path(
                parent_source(
                    match parent {
                        Option::Some(g) => Option::Some(group_view(*g)),
                        Option::None => Option::None,
                    },
                ),
                Option::Some(source@),
            )->Some_0,
            item_view(it).destination == spec_join_path(
                parent_destination(
                    match parent {
                        Option::Some(g) => Option::Some(group_view(*g)),
                        Option::None => Option::None,
                    },
                ),
                Option::Some(destination@),
            )->Some_0,
    {
        let source_opt: Option<String> = Some(String::from_str(source));
        let destination_opt: Option<String> = Some(String::from_str(destination));
        let source_opt = match parent {
            Some(group) => source_opt.apply_prefix(&group.source_prefix),
            None => source_opt,
        };
        let destination_opt = match parent {
            Some(group) => destination_opt.apply_prefix(&group.destination_prefix),
            None => destination_opt,
        };
        Item { source: source_opt.unwrap(), destination: destination_opt.unwrap() }
    }

    /// The item's paths anchored under the runtime's base directories.
    pub fn resolve(&self, runtime: &Runtime) -> (r: (String, String))
        ensures
            r.0@ == spec_join_path(
                runtime.source_base.deep_view(),
                Option::Some(self.source@),
            )->Some_0,
            r.1@ == spec_join_path(
                runtime.destination_base.deep_view(),
                Option::Some(self.destination@),
            )->Some_0,
    {
        let source_opt: Option<String> = Some(self.source.clone());
        let destination_opt: Option<String> = Some(self.destination.clone());
        let source = source_opt.apply_prefix(&runtime.source_base).unwrap();
        let destination = destination_opt.apply_prefix(&runtime.destination_base).unwrap();
        (source, destination)
    }
}

/// Resolves one `item` node, gated by its condition: `Ok(None)` when the
/// condition is false.  The element text is the item's (required)
/// source; the `destination` attribute, when absent, defaults to that
/// same text.
pub fn parse_item(runtime: &Runtime, element: &Element, parent: Option<&Group>) -> (r: Result<
    Option<Item>,
    Error,
>)
    ensures
        match spec_parse_item(
            element_view(*element),
            match parent {
                Option::Some(g) => Option::Some(group_view(*g)),
                Option::None => Option::None,
            },
            vars_view(runtime.variables@),
        ) {
            ItemR::Skip => r == Result::<Option<Item>, Error>::Ok(Option::None),
            ItemR::One(iv) => (r matches Ok(Some(it)) && item_view(it) == iv),
            ItemR::Fail(e) => (r matches Err(err) && err@ == e),
        },
{
    let condition = match evaluate_condition_from_element(runtime, element) {
        Ok(b) => b,
        Err(e) => {
            return Err(e);
        },
    };
    if condition {
        let source = match interpolate_text(element, runtime) {
            Ok(v) => v,
            Err(e) => {
                return Err(e);
            },
        };
        let source = match source {
            Some(s) => s,
            None => {
                return Err(Error::MissingRequiredValue(String::from_str("source")));
            },
        };
        let destination = match interpolate_attribute("destination", element, runtime) {
            Ok(v) => v,
            Err(e) => {
                return Err(e);
            },
        };
        let destination = match destination {
            Some(d) => d,
            None => source.clone(),
        };
        Ok(Some(Item::create(source.as_str(), destination.as_str(), parent)))
    } else {
        Ok(None)
    }
}

/// Walks one node: resolves its scope, then its children in document
/// order.  `Ok(None)` when the node's own condition is false, so the
/// whole subtree is skipped.
#[verifier::loop_isolation(false)]
pub fn parse_items(runtime: &Runtime, parent: &Element, group: Option<&Group>) -> (r: Result<
    Option<Vec<Item>>,
    Error,
>)
    ensures
        match spec_parse_items(
            element_view(*parent),
            match group {
                Option::Some(g) => Option::Some(group_view(*g)),
                Option::None => Option::None,
            },
            vars_view(runtime.variables@),
        ) {
            ItemsR::Skip => r == Result::<Option<Vec<Item>>, Error>::Ok(Option::None),
            ItemsR::Items(s) => (r matches Ok(Some(v)) && items_seq_view(v@) == s),
            ItemsR::Fail(e) => (r matches Err(err) && err@ == e),
        },
    decreases *parent,
{
    let ghost vars = vars_view(runtime.variables@);
    let ghost ev = element_view(*parent);
    let condition = match evaluate_condition_from_element(runtime, parent) {
        Ok(b) => b,
        Err(e) => {
            return Err(e);
        },
    };
    if !condition {
        return Ok(None);
    }
    let local_group = match Group::create(parent, group, runtime) {
        Ok(g) => g,
        Err(e) => {
            return Err(e);
        },
    };
    let ghost gv = group_view(local_group);
    let ghost cs = ev.children;
    proof {
        lemma_children_view(parent.children@);
        assert(cs.subrange(0, cs.len() as int) =~= cs);
    }
    let mut items: Vec<Item> = Vec::new();
    proof {
        assert(items_seq_view(items@) =~= Seq::<ItemV>::empty());
    }
    let n = parent.children.len();
    let mut i: usize = 0;
    while i < n
        invariant
            i <= n,
            n == parent.children@.len(),
            cs.len() == n,
            match spec_walk_children(cs.subrange(i as int, n as int), gv, vars) {
                ItemsR::Items(rest) => spec_walk_children(cs, gv, vars) == ItemsR::Items(
                    items_seq_view(items@) + rest,
                ),
                ItemsR::Fail(e) => spec_walk_children(cs, gv, vars) == ItemsR::Fail(e),
                ItemsR::Skip => spec_walk_children(cs, gv, vars) == ItemsR::Skip,
            },
        decreases n - i,
    {
        let ghost suf = cs.subrange(i as int, n as int);
        let ghost items0 = items_seq_view(items@);
        proof {
            assert(suf[0] == cs[i as int]);
            assert(suf.drop_first() =~= cs.subrange(i + 1, n as int));
        }
        let child: &Element = &parent.children[i];
        if str_eq(child.name.as_str(), "item") {
            let item = match parse_item(runtime, child, Some(&local_group)) {
                Ok(it) => it,
                Err(e) => {
                    return Err(e);
                },
            };
            match item {
                Some(it) => {
                    let ghost itv = item_view(it);
                    items.push(it);
                    proof {
                        assert(items_seq_view(items@) =~= items0.push(itv));
                        match spec_walk_children(cs.subrange(i + 1, n as int), gv, vars) {
                            ItemsR::Items(rest) => {
                                assert(items0 + (seq![itv] + rest) =~= items0.push(itv) + rest);
                            },
                            _ => {},
                        }
                    }
                },
                None => {},
            }
        } else if str_eq(child.name.as_str(), "group") {
            let inner = match parse_items(runtime, child, Some(&local_group)) {
                Ok(v) => v,
                Err(e) => {
                    return Err(e);
                },
            };
            match inner {
                Some(mut inner_items) => {
                    let ghost innerv = items_seq_view(inner_items@);
                    items.append(&mut inner_items);
                    proof {
                        assert(items_seq_view(items@) =~= items0 + innerv);
                        match spec_walk_children(cs.subrange(i + 1, n as int), gv, vars) {
                            ItemsR::Items(rest) => {
                                assert(items0 + (innerv + rest) =~= (items0 + innerv) + rest);
                            },
                            _ => {},
                        }
                    }
                },
                None => {},
            }
        } else {
            proof {
                assert(spec_walk_children(suf, gv, vars) == ItemsR::Fail(
                    ErrorV::InvalidElement(cs[i as int].name),
                ));
            }
            return Err(Error::InvalidElement(child.name.clone()));
        }
        i = i + 1;
    }
    proof {
        assert(cs.subrange(n as int, n as int) =~= Seq::<ElementV>::empty());
        match spec_walk_children(cs, gv, vars) {
            ItemsR::Items(s) => {
                assert(items_seq_view(items@) + Seq::<ItemV>::empty() =~= items_seq_view(items@));
            },
            _ => {},
        }
    }
    Ok(Some(items))
}

impl CopyTask {
    /// Parses a whole `copy` task document node: `Ok(None)` when the
    /// node's condition is false.
    pub fn parse(runtime: &Runtime, base_element: &Element) -> (r: Result<Option<CopyTask>, Error>)
        ensures
            match spec_parse_items(
                element_view(*base_element),
                Option::None,
                vars_view(runtime.variables@),
            ) {
                ItemsR::Skip => (r matches Ok(t) && t is None),
                ItemsR::Items(s) => (r matches Ok(Some(t)) && items_seq_view(t.items@) == s),
                ItemsR::Fail(e) => (r matches Err(err) && err@ == e),
            },
    {
        match parse_items(runtime, base_element, None) {
            Ok(Some(items)) => Ok(Some(CopyTask { items })),
            Ok(None) => Ok(None),
            Err(e) => Err(e),
        }
    }

    /// How many items the task holds.
    pub fn item_count(&self) -> (r: usize)
        ensures
            r == self.items@.len(),
    {
        self.items.len()
    }

    /// The task's document tag.
    pub fn get_name(&self) -> (r: &'static str)
        ensures
            r@ == "copy"@,
    {
        "copy"
    }
}

} // verus!
