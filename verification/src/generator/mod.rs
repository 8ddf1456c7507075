use vstd::prelude::*;

pub mod group;
pub mod item;

use crate::ast::{BodyItemV, Function};

verus! {

/// What convert_case's snake-case conversion yields; a function of the
/// input characters alone.
pub uninterp spec fn snake_of(s: Seq<char>) -> Seq<char>;

/// What convert_case's Pascal-case conversion yields; a function of the
/// input characters alone.
pub uninterp spec fn pascal_of(s: Seq<char>) -> Seq<char>;

/// Relies on convert_case's `Casing::to_case` with `Case::Snake`: the
/// result depends on the input characters alone.
#[verifier::external_body]
pub(crate) fn to_snake(s: &str) -> (r: String)
    ensures
        r@ == snake_of(s@),
{
    convert_case::Casing::to_case(&s, convert_case::Case::Snake)
}

/// Relies on convert_case's `Casing::to_case` with `Case::Pascal`: the
/// result depends on the input characters alone.
#[verifier::external_body]
pub(crate) fn to_pascal(s: &str) -> (r: String)
    ensures
        r@ == pascal_of(s@),
{
    convert_case::Casing::to_case(&s, convert_case::Case::Pascal)
}

/// The attribute-initialization statement both generated constructors
/// start each attribute with: read it, interpolate it, convert it to a
/// path.
pub open spec fn spec_init_line(n: Seq<char>) -> Seq<char> {
    "let "@ + n + " = interpolate_attribute(\""@ + n
        + "\", element, runtime)?.map(PathBuf::from);"@
}

pub(crate) fn build_init_line(n: &str) -> (r: String)
    ensures
        r@ == spec_init_line(n@),
{
    String::from_str("let ").concat(n).concat(" = interpolate_attribute(\"").concat(n).concat(
        "\", element, runtime)?.map(PathBuf::from);",
    )
}

/// A function with one more statement appended to its body.
pub open spec fn fn_plus_items(f: crate::ast::FunctionV, items: Seq<BodyItemV>)
    -> crate::ast::FunctionV {
    crate::ast::FunctionV { body: f.body + items, ..f }
}

} // verus!

use crate::ast::{
    join_strings_into, Block, BlockV, Enum, EnumV, Impl, ImplV, Struct, StructV, Type, TypeV,
    Variant, VariantV,
};
use crate::command_parser::{is_dep_token, CommandPart, PartV};
use crate::descriptor::{Command, CommandLineDescriptor, Platform, TaskDescriptor};

verus! {

/// The generated `parse_item`: evaluates the node's condition and
/// resolves one `Item` when it holds.
pub open spec fn spec_parse_item_fn() -> crate::ast::FunctionV {
    crate::ast::FunctionV {
        vis: Seq::empty(),
        name: "parse_item"@,
        self_arg: false,
        args: seq![
            ("runtime"@, TypeV { name: "&Runtime"@, generics: Seq::empty() }),
            ("element"@, TypeV { name: "&Element"@, generics: Seq::empty() }),
            ("parent"@, TypeV { name: "&Group"@, generics: Seq::empty() }),
        ],
        ret: Option::Some(
            TypeV { name: "Result<Option<Item>, Error>"@, generics: Seq::empty() },
        ),
        body: seq![
            BodyItemV::Line("let condition = evaluate_condition_from_element(runtime, element)?;"@),
            BodyItemV::Sub(
                BlockV {
                    before: "let item = if condition"@,
                    items: seq![
                        BodyItemV::Line("let item = Item::create(element, parent, runtime)?;"@),
                        BodyItemV::Line("Some(item)"@),
                    ],
                    after: Seq::empty(),
                },
            ),
            BodyItemV::Sub(
                BlockV {
                    before: "else"@,
                    items: seq![BodyItemV::Line("None"@)],
                    after: ";"@,
                },
            ),
            BodyItemV::Line("Ok(item)"@),
        ],
    }
}

pub fn generate_parse_item() -> (r: Function)
    ensures
        r@ == spec_parse_item_fn(),
{
    let if_block = Block::new("let item = if condition").line(
        "let item = Item::create(element, parent, runtime)?;",
    ).line("Some(item)");
    proof {
        assert(if_block@.items =~= seq![
            BodyItemV::Line("let item = Item::create(element, parent, runtime)?;"@),
            BodyItemV::Line("Some(item)"@),
        ]);
        assert(if_block@ == (BlockV {
            before: "let item = if condition"@,
            items: seq![
                BodyItemV::Line("let item = Item::create(element, parent, runtime)?;"@),
                BodyItemV::Line("Some(item)"@),
            ],
            after: Seq::empty(),
        }));
    }
    let else_block = Block::new("else").line("None").after(";");
    proof {
        assert(else_block@.items =~= seq![BodyItemV::Line("None"@)]);
        assert(else_block@ == (BlockV {
            before: "else"@,
            items: seq![BodyItemV::Line("None"@)],
            after: ";"@,
        }));
    }
    let r = Function::new("parse_item").arg("runtime", Type::new("&Runtime")).arg(
        "element",
        Type::new("&Element"),
    ).arg("parent", Type::new("&Group")).ret(Type::new("Result<Option<Item>, Error>")).line(
        "let condition = evaluate_condition_from_element(runtime, element)?;",
    ).push_block(if_block).push_block(else_block).line("Ok(item)");
    proof {
        assert(r@.args =~= spec_parse_item_fn().args);
        assert(r@.body =~= spec_parse_item_fn().body);
        assert(r@ == spec_parse_item_fn());
    }
    r
}

/// The arm of the generated loop that handles an `item` child.
pub open spec fn spec_item_arm() -> BlockV {
    BlockV {
        before: "\"item\" => "@,
        items: seq![
            BodyItemV::Line("let item = parse_item(runtime, item, &group)?;"@),
            BodyItemV::Sub(
                BlockV {
                    before: "if let Some(item) = item"@,
                    items: seq![BodyItemV::Line("items.push(item);"@)],
                    after: Seq::empty(),
                },
            ),
        ],
        after: Seq::empty(),
    }
}

/// The arm of the generated loop that recurses into a `group` child.
pub open spec fn spec_group_arm() -> BlockV {
    BlockV {
        before: "\"group\" => "@,
        items: seq![
            BodyItemV::Line("let inner_items = parse_items(runtime, item, Some(&group))?;"@),
            BodyItemV::Sub(
                BlockV {
                    before: "if let Some(mut inner_items) = inner_items"@,
                    items: seq![BodyItemV::Line("items.append(&mut inner_items);"@)],
                    after: Seq::empty(),
                },
            ),
        ],
        after: Seq::empty(),
    }
}

/// The arm of the generated loop that rejects any other child.
pub open spec fn spec_catch_all_arm() -> BlockV {
    BlockV {
        before: "_ =>"@,
        items: seq![
            BodyItemV::Line("Err(internal_error!(\"Invalid element: {}\", item.name()))?;"@),
        ],
        after: Seq::empty(),
    }
}

/// The generated child-walking loop: `item` children yield items,
/// `group` children recurse, anything else is fatal.
pub open spec fn spec_parse_items_loop() -> BlockV {
    BlockV {
        before: "for item in parent.children()"@,
        items: seq![
            BodyItemV::Sub(
                BlockV {
                    before: "match item.name()"@,
                    items: seq![
                        BodyItemV::Sub(spec_item_arm()),
                        BodyItemV::Sub(spec_group_arm()),
                        BodyItemV::Sub(spec_catch_all_arm()),
                    ],
                    after: Seq::empty(),
                },
            ),
        ],
        after: Seq::empty(),
    }
}

pub fn generate_parse_items_loop() -> (r: Block)
    ensures
        r@ == spec_parse_items_loop(),
{
    let push_inner = Block::new("if let Some(item) = item").line("items.push(item);");
    proof {
        assert(push_inner@.items =~= seq![BodyItemV::Line("items.push(item);"@)]);
        assert(push_inner@ == (BlockV {
            before: "if let Some(item) = item"@,
            items: seq![BodyItemV::Line("items.push(item);"@)],
            after: Seq::empty(),
        }));
    }
    let item_arm = Block::new("\"item\" => ").line(
        "let item = parse_item(runtime, item, &group)?;",
    ).push_block(push_inner);
    proof {
        assert(item_arm@.items =~= spec_item_arm().items);
        assert(item_arm@ == spec_item_arm());
    }
    let append_inner = Block::new("if let Some(mut inner_items) = inner_items").line(
        "items.append(&mut inner_items);",
    );
    proof {
        assert(append_inner@.items =~= seq![BodyItemV::Line("items.append(&mut inner_items);"@)]);
        assert(append_inner@ == (BlockV {
            before: "if let Some(mut inner_items) = inner_items"@,
            items: seq![BodyItemV::Line("items.append(&mut inner_items);"@)],
            after: Seq::empty(),
        }));
    }
    let group_arm = Block::new("\"group\" => ").line(
        "let inner_items = parse_items(runtime, item, Some(&group))?;",
    ).push_block(append_inner);
    proof {
        assert(group_arm@.items =~= spec_group_arm().items);
        assert(group_arm@ == spec_group_arm());
    }
    let catch_all_arm = Block::new("_ =>").line(
        "Err(internal_error!(\"Invalid element: {}\", item.name()))?;",
    );
    proof {
        assert(catch_all_arm@.items =~= spec_catch_all_arm().items);
        assert(catch_all_arm@ == spec_catch_all_arm());
    }
    let match_block = Block::new("match item.name()").push_block(item_arm).push_block(
        group_arm,
    ).push_block(catch_all_arm);
    proof {
        assert(match_block@.items =~= seq![
            BodyItemV::Sub(spec_item_arm()),
            BodyItemV::Sub(spec_group_arm()),
            BodyItemV::Sub(spec_catch_all_arm()),
        ]);
        assert(match_block@ == (BlockV {
            before: "match item.name()"@,
            items: seq![
                BodyItemV::Sub(spec_item_arm()),
                BodyItemV::Sub(spec_group_arm()),
                BodyItemV::Sub(spec_catch_all_arm()),
            ],
            after: Seq::empty(),
        }));
    }
    let r = Block::new("for item in parent.children()").push_block(match_block);
    proof {
        assert(r@.items =~= spec_parse_items_loop().items);
        assert(r@ == spec_parse_items_loop());
    }
    r
}

/// The generated `parse_items`: gated by the node's condition, it
/// resolves the node's group scope and walks the children.
pub open spec fn spec_parse_items_fn() -> crate::ast::FunctionV {
    crate::ast::FunctionV {
        vis: Seq::empty(),
        name: "parse_items"@,
        self_arg: false,
        args: seq![
            ("runtime"@, TypeV { name: "&Runtime"@, generics: Seq::empty() }),
            ("parent"@, TypeV { name: "&Element"@, generics: Seq::empty() }),
            ("group"@, TypeV { name: "Option<&Group>"@, generics: Seq::empty() }),
        ],
        ret: Option::Some(
            TypeV { name: "Result<Option<Vec<Item>>, Error>"@, generics: Seq::empty() },
        ),
        body: seq![
            BodyItemV::Line("let condition = evaluate_condition_from_element(runtime, parent)?;"@),
            BodyItemV::Sub(
                BlockV {
                    before: "let items = if condition"@,
                    items: seq![
                        BodyItemV::Line("let group = Group::create(parent, group, runtime)?;"@),
                        BodyItemV::Line("let mut items = Vec::new();"@),
                        BodyItemV::Sub(spec_parse_items_loop()),
                        BodyItemV::Line("Some(items)"@),
                    ],
                    after: Seq::empty(),
                },
            ),
            BodyItemV::Sub(
                BlockV {
                    before: "else"@,
                    items: seq![BodyItemV::Line("None"@)],
                    after: ";"@,
                },
            ),
            BodyItemV::Line("Ok(items)"@),
        ],
    }
}

pub fn generate_parse_items() -> (r: Function)
    ensures
        r@ == spec_parse_items_fn(),
{
    let if_block = Block::new("let items = if condition").line(
        "let group = Group::create(parent, group, runtime)?;",
    ).line("let mut items = Vec::new();").push_block(generate_parse_items_loop()).line(
        "Some(items)",
    );
    proof {
        assert(if_block@.items =~= seq![
            BodyItemV::Line("let group = Group::create(parent, group, runtime)?;"@),
            BodyItemV::Line("let mut items = Vec::new();"@),
            BodyItemV::Sub(spec_parse_items_loop()),
            BodyItemV::Line("Some(items)"@),
        ]);
        assert(if_block@ == (BlockV {
            before: "let items = if condition"@,
            items: seq![
                BodyItemV::Line("let group = Group::create(parent, group, runtime)?;"@),
                BodyItemV::Line("let mut items = Vec::new();"@),
                BodyItemV::Sub(spec_parse_items_loop()),
                BodyItemV::Line("Some(items)"@),
            ],
            after: Seq::empty(),
        }));
    }
    let else_block = Block::new("else").line("None").after(";");
    proof {
        assert(else_block@.items =~= seq![BodyItemV::Line("None"@)]);
        assert(else_block@ == (BlockV {
            before: "else"@,
            items: seq![BodyItemV::Line("None"@)],
            after: ";"@,
        }));
    }
    let r = Function::new("parse_items").arg("runtime", Type::new("&Runtime")).arg(
        "parent",
        Type::new("&Element"),
    ).arg("group", Type::new("Option<&Group>")).ret(
        Type::new("Result<Option<Vec<Item>>, Error>"),
    ).line("let condition = evaluate_condition_from_element(runtime, parent)?;").push_block(
        if_block,
    ).push_block(else_block).line("Ok(items)");
    proof {
        assert(r@.args =~= spec_parse_items_fn().args);
        assert(r@.body =~= spec_parse_items_fn().body);
        assert(r@ == spec_parse_items_fn());
    }
    r
}

/// The generated `Task` struct: the items the document yielded.
pub open spec fn spec_task_struct() -> StructV {
    StructV {
        vis: "pub"@,
        name: "Task"@,
        derives: seq!["Debug"@],
        fields: seq![
            crate::ast::FieldV {
                name: "items"@,
                ty: TypeV { name: "Vec<Item>"@, generics: Seq::empty() },
            },
        ],
    }
}

pub fn generate_task_struct() -> (r: Struct)
    ensures
        r@ == spec_task_struct(),
{
    let r = Struct::new("Task").derive("Debug").vis("pub").field("items", Type::new("Vec<Item>"));
    proof {
        assert(r@.derives =~= spec_task_struct().derives);
        assert(r@.fields =~= spec_task_struct().fields);
        assert(r@ == spec_task_struct());
    }
    r
}

/// The generated `Task::run`: executes each item in order through the
/// task's executor function.
pub open spec fn spec_task_impl(task_name: Seq<char>) -> ImplV {
    ImplV {
        target: "Task"@,
        fns: seq![
            crate::ast::FunctionV {
                vis: "pub"@,
                name: "run"@,
                self_arg: true,
                args: Seq::empty(),
                ret: Option::Some(
                    TypeV { name: "Result<(), Error>"@, generics: Seq::empty() },
                ),
                body: seq![
                    BodyItemV::Sub(
                        BlockV {
                            before: "for item in &self.items"@,
                            items: seq![
                                BodyItemV::Line(snake_of(task_name) + "(item)?;"@),
                            ],
                            after: Seq::empty(),
                        },
                    ),
                    BodyItemV::Line("Ok(())"@),
                ],
            },
        ],
    }
}

pub fn generate_task_impl(task: &TaskDescriptor) -> (r: Impl)
    ensures
        r@ == spec_task_impl(task.name@),
{
    let snake_name = to_snake(task.name.as_str());
    let call_line = snake_name.concat("(item)?;");
    let for_block = Block::new("for item in &self.items").line(call_line.as_str());
    proof {
        assert(for_block@.items =~= seq![BodyItemV::Line(snake_of(task.name@) + "(item)?;"@)]);
        assert(for_block@ == (BlockV {
            before: "for item in &self.items"@,
            items: seq![BodyItemV::Line(snake_of(task.name@) + "(item)?;"@)],
            after: Seq::empty(),
        }));
    }
    let run_fn = Function::new("run").vis("pub").arg_ref_self().ret(
        Type::new("Result<(), Error>"),
    ).push_block(for_block).line("Ok(())");
    proof {
        assert(run_fn@.args =~= spec_task_impl(task.name@).fns[0].args);
        assert(run_fn@.body =~= spec_task_impl(task.name@).fns[0].body);
        assert(run_fn@ == spec_task_impl(task.name@).fns[0]);
    }
    let r = Impl::new("Task").push_fn(run_fn);
    proof {
        assert(r@.fns =~= spec_task_impl(task.name@).fns);
        assert(r@ == spec_task_impl(task.name@));
    }
    r
}

/// The generated `parse_task`: the optional item list wrapped into the
/// task struct.
pub open spec fn spec_parse_task_fn() -> crate::ast::FunctionV {
    crate::ast::FunctionV {
        vis: "pub"@,
        name: "parse_task"@,
        self_arg: false,
        args: seq![
            ("runtime"@, TypeV { name: "&Runtime"@, generics: Seq::empty() }),
            ("parent"@, TypeV { name: "&Element"@, generics: Seq::empty() }),
        ],
        ret: Option::Some(
            TypeV { name: "Result<Option<Task>, Error>"@, generics: Seq::empty() },
        ),
        body: seq![
            BodyItemV::Line("let items = parse_items(runtime, parent, None)?;"@),
            BodyItemV::Sub(
                BlockV {
                    before: "let task = items.map(|items|"@,
                    items: seq![
                        BodyItemV::Sub(
                            BlockV {
                                before: "Task"@,
                                items: seq![BodyItemV::Line("items: items"@)],
                                after: Seq::empty(),
                            },
                        ),
                    ],
                    after: ");"@,
                },
            ),
            BodyItemV::Line("Ok(task)"@),
        ],
    }
}

pub fn generate_parse_task() -> (r: Function)
    ensures
        r@ == spec_parse_task_fn(),
{
    let constructor = Block::new("Task").line("items: items");
    proof {
        assert(constructor@.items =~= seq![BodyItemV::Line("items: items"@)]);
        assert(constructor@ == (BlockV {
            before: "Task"@,
            items: seq![BodyItemV::Line("items: items"@)],
            after: Seq::empty(),
        }));
    }
    let map_call = Block::new("let task = items.map(|items|").push_block(constructor).after(");");
    proof {
        assert(map_call@.items =~= spec_parse_task_fn().body[1]->Sub_0.items);
        assert(map_call@ == spec_parse_task_fn().body[1]->Sub_0);
    }
    let r = Function::new("parse_task").vis("pub").arg("runtime", Type::new("&Runtime")).arg(
        "parent",
        Type::new("&Element"),
    ).ret(Type::new("Result<Option<Task>, Error>")).line(
        "let items = parse_items(runtime, parent, None)?;",
    ).push_block(map_call).line("Ok(task)");
    proof {
        assert(r@.args =~= spec_parse_task_fn().args);
        assert(r@.body =~= spec_parse_task_fn().body);
        assert(r@ == spec_parse_task_fn());
    }
    r
}

/// The dispatch-enum variant for one task: its Pascal-case name wrapping
/// the task module's `Task` type.
pub open spec fn spec_variant(task_name: Seq<char>) -> VariantV {
    VariantV { name: pascal_of(task_name), tuple: seq![snake_of(task_name) + "::Task"@] }
}

pub fn generate_variant(task: &TaskDescriptor) -> (r: Variant)
    ensures
        r@ == spec_variant(task.name@),
{
    let pascal_name = to_pascal(task.name.as_str());
    let snake_name = to_snake(task.name.as_str());
    let task_type = snake_name.concat("::Task");
    let r = Variant::new(pascal_name.as_str()).tuple(task_type.as_str());
    proof {
        assert(r@.tuple =~= spec_variant(task.name@).tuple);
        assert(r@ == spec_variant(task.name@));
    }
    r
}

/// The dispatch enum: one variant per loaded descriptor, in load order.
pub open spec fn spec_task_enum_variants(tasks: Seq<TaskDescriptor>) -> Seq<VariantV>
    decreases tasks,
{
    if tasks.len() == 0 {
        Seq::empty()
    } else {
        seq![spec_variant(tasks[0].name@)] + spec_task_enum_variants(tasks.drop_first())
    }
}

pub open spec fn spec_task_enum(tasks: Seq<TaskDescriptor>) -> EnumV {
    EnumV {
        vis: "pub"@,
        name: "Task"@,
        derives: seq!["Debug"@],
        variants: spec_task_enum_variants(tasks),
    }
}

#[verifier::loop_isolation(false)]
pub fn generate_task_enum(tasks: &Vec<TaskDescriptor>) -> (r: Enum)
    ensures
        r@ == spec_task_enum(tasks@),
{
    let ghost ts = tasks@;
    let mut enum_definition = Enum::new("Task").derive("Debug").vis("pub");
    proof {
        assert(ts.subrange(0, ts.len() as int) =~= ts);
        assert(enum_definition@.derives =~= seq!["Debug"@]);
        assert(enum_definition@.variants + spec_task_enum_variants(ts) =~= spec_task_enum_variants(
            ts,
        ));
    }
    let n = tasks.len();
    let mut i: usize = 0;
    while i < n
        invariant
            i <= n,
            n == ts.len(),
            enum_definition@.vis == "pub"@,
            enum_definition@.name == "Task"@,
            enum_definition@.derives == seq!["Debug"@],
            enum_definition@.variants + spec_task_enum_variants(ts.subrange(i as int, n as int))
                == spec_task_enum_variants(ts),
        decreases n - i,
    {
        let ghost suf = ts.subrange(i as int, n as int);
        let ghost vars0 = enum_definition@.variants;
        proof {
            assert(suf[0] == ts[i as int]);
            assert(suf.drop_first() =~= ts.subrange(i + 1, n as int));
        }
        let variant = generate_variant(&tasks[i]);
        let ghost vv = variant@;
        enum_definition = enum_definition.push_variant(variant);
        proof {
            assert(vars0 + (seq![vv] + spec_task_enum_variants(ts.subrange(i + 1, n as int)))
                =~= vars0.push(vv) + spec_task_enum_variants(ts.subrange(i + 1, n as int)));
        }
        i = i + 1;
    }
    proof {
        assert(ts.subrange(n as int, n as int) =~= Seq::<TaskDescriptor>::empty());
        assert(enum_definition@.variants + Seq::<VariantV>::empty() =~= enum_definition@.variants);
        assert(enum_definition@ == spec_task_enum(ts));
    }
    enum_definition
}

} // verus!

verus! {

/// The dispatch `Task::run`: one match arm per descriptor, forwarding to
/// the wrapped task.
pub open spec fn spec_enum_arm_lines(tasks: Seq<TaskDescriptor>) -> Seq<BodyItemV>
    decreases tasks,
{
    if tasks.len() == 0 {
        Seq::empty()
    } else {
        seq![
            BodyItemV::Line(
                "Task::"@ + pascal_of(tasks[0].name@) + "("@ + snake_of(tasks[0].name@) + ") => "@
                    + snake_of(tasks[0].name@) + ".run(),"@,
            ),
        ] + spec_enum_arm_lines(tasks.drop_first())
    }
}

pub open spec fn spec_task_enum_impl(tasks: Seq<TaskDescriptor>) -> ImplV {
    ImplV {
        target: "Task"@,
        fns: seq![
            crate::ast::FunctionV {
                vis: "pub"@,
                name: "run"@,
                self_arg: true,
                args: Seq::empty(),
                ret: Option::Some(
                    TypeV { name: "Result<(), Error>"@, generics: Seq::empty() },
                ),
                body: seq![
                    BodyItemV::Sub(
                        BlockV {
                            before: "match &self"@,
                            items: spec_enum_arm_lines(tasks),
                            after: Seq::empty(),
                        },
                    ),
                ],
            },
        ],
    }
}

#[verifier::loop_isolation(false)]
pub fn generate_task_enum_impl(tasks: &Vec<TaskDescriptor>) -> (r: Impl)
    ensures
        r@ == spec_task_enum_impl(tasks@),
{
    let ghost ts = tasks@;
    let mut match_block = Block::new("match &self");
    proof {
        assert(ts.subrange(0, ts.len() as int) =~= ts);
        assert(match_block@.items + spec_enum_arm_lines(ts) =~= spec_enum_arm_lines(ts));
    }
    let n = tasks.len();
    let mut i: usize = 0;
    while i < n
        invariant
            i <= n,
            n == ts.len(),
            match_block@.before == "match &self"@,
            match_block@.after == Seq::<char>::empty(),
            match_block@.items + spec_enum_arm_lines(ts.subrange(i as int, n as int))
                == spec_enum_arm_lines(ts),
        decreases n - i,
    {
        let ghost suf = ts.subrange(i as int, n as int);
        let ghost items0 = match_block@.items;
        proof {
            assert(suf[0] == ts[i as int]);
            assert(suf.drop_first() =~= ts.subrange(i + 1, n as int));
        }
        let task = &tasks[i];
        let snake_name = to_snake(task.name.as_str());
        let pascal_name = to_pascal(task.name.as_str());
        let line = String::from_str("Task::").concat(pascal_name.as_str()).concat("(").concat(
            snake_name.as_str(),
        ).concat(") => ").concat(snake_name.as_str()).concat(".run(),");
        match_block = match_block.line(line.as_str());
        proof {
            let lv = BodyItemV::Line(
                "Task::"@ + pascal_of(ts[i as int].name@) + "("@ + snake_of(ts[i as int].name@)
                    + ") => "@ + snake_of(ts[i as int].name@) + ".run(),"@,
            );
            assert(items0 + (seq![lv] + spec_enum_arm_lines(ts.subrange(i + 1, n as int)))
                =~= items0.push(lv) + spec_enum_arm_lines(ts.subrange(i + 1, n as int)));
        }
        i = i + 1;
    }
    proof {
        assert(ts.subrange(n as int, n as int) =~= Seq::<TaskDescriptor>::empty());
        assert(match_block@.items + Seq::<BodyItemV>::empty() =~= match_block@.items);
    }
    let run_fn = Function::new("run").vis("pub").arg_ref_self().ret(
        Type::new("Result<(), Error>"),
    ).push_block(match_block);
    proof {
        assert(run_fn@.args =~= spec_task_enum_impl(ts).fns[0].args);
        assert(run_fn@.body =~= spec_task_enum_impl(ts).fns[0].body);
        assert(run_fn@ == spec_task_enum_impl(ts).fns[0]);
    }
    let r = Impl::new("Task").push_fn(run_fn);
    proof {
        assert(r@.fns =~= spec_task_enum_impl(ts).fns);
        assert(r@ == spec_task_enum_impl(ts));
    }
    r
}

/// The dispatch match of the generated `parse_input`: one arm per task
/// tag, and a fatal arm for anything else.
pub open spec fn spec_input_match_arms(tasks: Seq<TaskDescriptor>) -> Seq<BodyItemV>
    decreases tasks,
{
    if tasks.len() == 0 {
        Seq::empty()
    } else {
        seq![
            BodyItemV::Sub(
                BlockV {
                    before: "\""@ + snake_of(tasks[0].name@) + "\" =>"@,
                    items: seq![
                        BodyItemV::Line(
                            "let task = "@ + snake_of(tasks[0].name@)
                                + "::parse_task(runtime, task)?.map(|task| Task::"@ + pascal_of(
                                tasks[0].name@,
                            ) + "(task));"@,
                        ),
                        BodyItemV::Line("Ok(task)"@),
                    ],
                    after: ","@,
                },
            ),
        ] + spec_input_match_arms(tasks.drop_first())
    }
}

pub open spec fn spec_parse_input_match(tasks: Seq<TaskDescriptor>) -> BlockV {
    BlockV {
        before: "match task_name"@,
        items: spec_input_match_arms(tasks) + seq![
            BodyItemV::Line(
                "_ => Err(Error::from(format!(\"Invalid task '{}'\", task_name))),"@,
            ),
        ],
        after: Seq::empty(),
    }
}

#[verifier::loop_isolation(false)]
pub fn generate_parse_input_match(tasks: &Vec<TaskDescriptor>) -> (r: Block)
    ensures
        r@ == spec_parse_input_match(tasks@),
{
    let ghost ts = tasks@;
    let mut match_block = Block::new("match task_name");
    proof {
        assert(ts.subrange(0, ts.len() as int) =~= ts);
        assert(match_block@.items + spec_input_match_arms(ts) =~= spec_input_match_arms(ts));
    }
    let n = tasks.len();
    let mut i: usize = 0;
    while i < n
        invariant
            i <= n,
            n == ts.len(),
            match_block@.before == "match task_name"@,
            match_block@.after == Seq::<char>::empty(),
            match_block@.items + spec_input_match_arms(ts.subrange(i as int, n as int))
                == spec_input_match_arms(ts),
        decreases n - i,
    {
        let ghost suf = ts.subrange(i as int, n as int);
        let ghost items0 = match_block@.items;
        proof {
            assert(suf[0] == ts[i as int]);
            assert(suf.drop_first() =~= ts.subrange(i + 1, n as int));
        }
        let task = &tasks[i];
        let name_snake = to_snake(task.name.as_str());
        let name_pascal = to_pascal(task.name.as_str());
        let head = String::from_str("\"").concat(name_snake.as_str()).concat("\" =>");
        let call_line = String::from_str("let task = ").concat(name_snake.as_str()).concat(
            "::parse_task(runtime, task)?.map(|task| Task::",
        ).concat(name_pascal.as_str()).concat("(task));");
        let arm = Block::new(head.as_str()).line(call_line.as_str()).line("Ok(task)").after(",");
        proof {
            let armv = BlockV {
                before: "\""@ + snake_of(ts[i as int].name@) + "\" =>"@,
                items: seq![
                    BodyItemV::Line(
                        "let task = "@ + snake_of(ts[i as int].name@)
                            + "::parse_task(runtime, task)?.map(|task| Task::"@ + pascal_of(
                            ts[i as int].name@,
                        ) + "(task));"@,
                    ),
                    BodyItemV::Line("Ok(task)"@),
                ],
                after: ","@,
            };
            assert(arm@.items =~= armv.items);
            assert(arm@ == armv);
        }
        let ghost armv2 = arm@;
        match_block = match_block.push_block(arm);
        proof {
            assert(items0 + (seq![BodyItemV::Sub(armv2)] + spec_input_match_arms(
                ts.subrange(i + 1, n as int),
            )) =~= items0.push(BodyItemV::Sub(armv2)) + spec_input_match_arms(
                ts.subrange(i + 1, n as int),
            ));
        }
        i = i + 1;
    }
    proof {
        assert(ts.subrange(n as int, n as int) =~= Seq::<TaskDescriptor>::empty());
        assert(match_block@.items + Seq::<BodyItemV>::empty() =~= match_block@.items);
    }
    let r = match_block.line("_ => Err(Error::from(format!(\"Invalid task '{}'\", task_name))),");
    proof {
        assert(r@.items =~= spec_parse_input_match(ts).items);
        assert(r@ == spec_parse_input_match(ts));
    }
    r
}

/// The generated `parse_input`: parses the document, maps each top-level
/// child through the task dispatch, and collects the tasks whose
/// conditions held.
pub open spec fn spec_parse_input_fn(tasks: Seq<TaskDescriptor>) -> crate::ast::FunctionV {
    crate::ast::FunctionV {
        vis: Seq::empty(),
        name: "parse_input"@,
        self_arg: false,
        args: seq![
            ("runtime"@, TypeV { name: "&Runtime"@, generics: Seq::empty() }),
            ("input"@, TypeV { name: "&str"@, generics: Seq::empty() }),
        ],
        ret: Option::Some(
            TypeV { name: "Result<Vec<Task>, Error>"@, generics: Seq::empty() },
        ),
        body: seq![
            BodyItemV::Line("let xml_elements: Element = input.parse()?;"@),
            BodyItemV::Line("xml_elements"@),
            BodyItemV::Line("    .children()"@),
            BodyItemV::Sub(
                BlockV {
                    before: "    .map(|task|"@,
                    items: seq![
                        BodyItemV::Line("let task_name = task.name();"@),
                        BodyItemV::Sub(spec_parse_input_match(tasks)),
                    ],
                    after: ")"@,
                },
            ),
            BodyItemV::Sub(
                BlockV {
                    before: "    .filter_map(|x| match x"@,
                    items: seq![
                        BodyItemV::Line("Ok(task) => task.map(|task| Ok(task)),"@),
                        BodyItemV::Line("Err(err) => Some(Err(err)),"@),
                    ],
                    after: ")"@,
                },
            ),
            BodyItemV::Line("    .collect()"@),
        ],
    }
}

pub fn generate_parse_input(tasks: &Vec<TaskDescriptor>) -> (r: Function)
    ensures
        r@ == spec_parse_input_fn(tasks@),
{
    let map_block = Block::new("    .map(|task|").line("let task_name = task.name();").push_block(
        generate_parse_input_match(tasks),
    ).after(")");
    proof {
        assert(map_block@.items =~= seq![
            BodyItemV::Line("let task_name = task.name();"@),
            BodyItemV::Sub(spec_parse_input_match(tasks@)),
        ]);
        assert(map_block@ == (BlockV {
            before: "    .map(|task|"@,
            items: seq![
                BodyItemV::Line("let task_name = task.name();"@),
                BodyItemV::Sub(spec_parse_input_match(tasks@)),
            ],
            after: ")"@,
        }));
    }
    let filter_map_block = Block::new("    .filter_map(|x| match x").line(
        "Ok(task) => task.map(|task| Ok(task)),",
    ).line("Err(err) => Some(Err(err)),").after(")");
    proof {
        assert(filter_map_block@.items =~= seq![
            BodyItemV::Line("Ok(task) => task.map(|task| Ok(task)),"@),
            BodyItemV::Line("Err(err) => Some(Err(err)),"@),
        ]);
        assert(filter_map_block@ == (BlockV {
            before: "    .filter_map(|x| match x"@,
            items: seq![
                BodyItemV::Line("Ok(task) => task.map(|task| Ok(task)),"@),
                BodyItemV::Line("Err(err) => Some(Err(err)),"@),
            ],
            after: ")"@,
        }));
    }
    let r = Function::new("parse_input").arg("runtime", Type::new("&Runtime")).arg(
        "input",
        Type::new("&str"),
    ).ret(Type::new("Result<Vec<Task>, Error>")).line(
        "let xml_elements: Element = input.parse()?;",
    ).line("xml_elements").line("    .children()").push_block(map_block).push_block(
        filter_map_block,
    ).line("    .collect()");
    proof {
        assert(r@.args =~= spec_parse_input_fn(tasks@).args);
        assert(r@.body =~= spec_parse_input_fn(tasks@).body);
        assert(r@ == spec_parse_input_fn(tasks@));
    }
    r
}

} // verus!

verus! {

pub open spec fn is_snip_start(c: char) -> bool {
    'a' <= c && c <= 'z'
}

pub open spec fn is_snip_char(c: char) -> bool {
    is_snip_start(c) || ('0' <= c && c <= '9') || c == '_'
}

/// The first index at or after `from` that does not continue a snippet
/// placeholder name.
pub open spec fn snip_end(s: Seq<char>, from: int) -> int
    decreases s.len() - from,
{
    if from < 0 || from >= s.len() {
        s.len() as int
    } else if is_snip_char(s[from]) {
        snip_end(s, from + 1)
    } else {
        from
    }
}

pub proof fn lemma_snip_end(s: Seq<char>, from: int)
    requires
        0 <= from <= s.len(),
    ensures
        from <= snip_end(s, from) <= s.len(),
    decreases s.len() - from,
{
    if from < s.len() && is_snip_char(s[from]) {
        lemma_snip_end(s, from + 1);
    }
}

/// Whether a `${name}` placeholder starts at position `i`.
pub open spec fn snip_at(s: Seq<char>, i: int) -> bool {
    &&& s[i] == '$'
    &&& i + 1 < s.len()
    &&& s[i + 1] == '{'
    &&& i + 2 < s.len()
    &&& is_snip_start(s[i + 2])
    &&& snip_end(s, i + 3) < s.len()
    &&& s[snip_end(s, i + 3)] == '}'
}

pub open spec fn snip_var(s: Seq<char>, i: int) -> Seq<char> {
    s.subrange(i + 2, snip_end(s, i + 3))
}

/// The inline snippet with each `${name}` placeholder rewritten to the
/// item field access `&item.name`; anything else is copied as it is.
pub open spec fn spec_rewrite_snippet(s: Seq<char>, i: int) -> Seq<char>
    decreases s.len() - i,
    via spec_rewrite_snippet_dec
{
    if i < 0 || i >= s.len() {
        Seq::empty()
    } else if snip_at(s, i) {
        "&item."@ + snip_var(s, i) + spec_rewrite_snippet(s, snip_end(s, i + 3) + 1)
    } else {
        seq![s[i]] + spec_rewrite_snippet(s, i + 1)
    }
}

#[via_fn]
proof fn spec_rewrite_snippet_dec(s: Seq<char>, i: int) {
    if 0 <= i && i + 3 <= s.len() {
        lemma_snip_end(s, i + 3);
    }
}

/// Rewrites `${name}` placeholders to `&item.name`.
#[verifier::loop_isolation(false)]
pub fn rewrite_snippet(s: &str) -> (r: String)
    ensures
        r@ == spec_rewrite_snippet(s@, 0),
{
    let n = s.unicode_len();
    let mut out = String::new();
    proof {
        assert(out@ + spec_rewrite_snippet(s@, 0) =~= spec_rewrite_snippet(s@, 0));
    }
    let mut i: usize = 0;
    while i < n
        invariant
            i <= n,
            n == s@.len(),
            spec_rewrite_snippet(s@, 0) == out@ + spec_rewrite_snippet(s@, i as int),
        decreases n - i,
    {
        let ghost out0 = out@;
        let c = s.get_char(i);
        let mut matched = false;
        if c == '$' && i + 1 < n && s.get_char(i + 1) == '{' && i + 2 < n {
            let c2 = s.get_char(i + 2);
            if 'a' <= c2 && c2 <= 'z' {
                let e = snip_end_exec(s, i + 3);
                if e < n && s.get_char(e) == '}' {
                    matched = true;
                    proof {
                        assert(snip_at(s@, i as int));
                    }
                    let var = s.substring_char(i + 2, e);
                    out.append("&item.");
                    out.append(var);
                    proof {
                        assert(out0 + ("&item."@ + snip_var(s@, i as int) + spec_rewrite_snippet(
                            s@,
                            e + 1,
                        )) =~= out@ + spec_rewrite_snippet(s@, e + 1));
                    }
                    i = e + 1;
                }
            }
        }
        if !matched {
            proof {
                assert(!snip_at(s@, i as int));
            }
            let piece = s.substring_char(i, i + 1);
            out.append(piece);
            proof {
                assert(piece@ =~= seq![s@[i as int]]);
                assert(out0 + (seq![s@[i as int]] + spec_rewrite_snippet(s@, i + 1)) =~= out@
                    + spec_rewrite_snippet(s@, i + 1));
            }
            i = i + 1;
        }
    }
    proof {
        assert(out@ + spec_rewrite_snippet(s@, n as int) =~= out@);
    }
    out
}

/// First position at or after `from` that does not continue a snippet
/// placeholder name.
fn snip_end_exec(s: &str, from: usize) -> (r: usize)
    requires
        from <= s@.len(),
    ensures
        r == snip_end(s@, from as int),
        from <= r <= s@.len(),
{
    let n = s.unicode_len();
    let mut i: usize = from;
    while i < n
        invariant
            from <= i <= n,
            n == s@.len(),
            snip_end(s@, from as int) == snip_end(s@, i as int),
        decreases n - i,
    {
        let c = s.get_char(i);
        let cont = ('a' <= c && c <= 'z') || ('0' <= c && c <= '9') || c == '_';
        if !cont {
            return i;
        }
        i = i + 1;
    }
    n
}

/// The argument-append statement one token contributes: a `$`-token is
/// resolved through the bound variable, anything else is quoted literal
/// text.
pub open spec fn spec_opt_token_lines(ts: Seq<Seq<char>>) -> Seq<BodyItemV>
    decreases ts,
{
    if ts.len() == 0 {
        Seq::empty()
    } else {
        seq![
            if is_dep_token(ts[0]) {
                BodyItemV::Line(
                    "call.arg(&"@ + ts[0].subrange(1, ts[0].len() as int) + ");"@,
                )
            } else {
                BodyItemV::Line("call.arg(\""@ + ts[0] + "\");"@)
            },
        ] + spec_opt_token_lines(ts.drop_first())
    }
}

pub open spec fn spec_mand_token_lines(ts: Seq<Seq<char>>) -> Seq<BodyItemV>
    decreases ts,
{
    if ts.len() == 0 {
        Seq::empty()
    } else {
        seq![
            if is_dep_token(ts[0]) {
                BodyItemV::Line(
                    "call.arg(&item."@ + ts[0].subrange(1, ts[0].len() as int) + ");"@,
                )
            } else {
                BodyItemV::Line("call.arg(\""@ + ts[0] + "\");"@)
            },
        ] + spec_mand_token_lines(ts.drop_first())
    }
}

/// The presence test guarding an optional part: every dependency must be
/// bound before any of the part's arguments is emitted.
pub open spec fn spec_opt_guard(deps: Seq<Seq<char>>) -> Seq<char> {
    let lhs = crate::ast::spec_join_texts(
        deps.map_values(|d: Seq<char>| "Some("@ + d + ")"@),
        ", "@,
    );
    let rhs = crate::ast::spec_join_texts(
        deps.map_values(|d: Seq<char>| "&item."@ + d),
        ", "@,
    );
    if deps.len() > 1 {
        "if let ("@ + lhs + ") = ("@ + rhs + ")"@
    } else {
        "if let "@ + lhs + " = "@ + rhs
    }
}

/// The statements one compiled part contributes to the generated
/// executor: a mandatory part appends each argument unconditionally; an
/// optional part appends them all inside one presence-guarded block.
pub open spec fn spec_part_items(p: PartV) -> Seq<BodyItemV> {
    if p.optional {
        seq![
            BodyItemV::Sub(
                BlockV {
                    before: spec_opt_guard(p.dependencies),
                    items: spec_opt_token_lines(p.tokens),
                    after: Seq::empty(),
                },
            ),
        ]
    } else {
        spec_mand_token_lines(p.tokens)
    }
}

/// Builds the `Some(d)` / `&item.d` pieces of the presence guard.
#[verifier::loop_isolation(false)]
fn build_wrapped(deps: &Vec<String>, prefixed: bool) -> (r: Vec<String>)
    ensures
        prefixed ==> r.deep_view() == deps.deep_view().map_values(
            |d: Seq<char>| "&item."@ + d,
        ),
        !prefixed ==> r.deep_view() == deps.deep_view().map_values(
            |d: Seq<char>| "Some("@ + d + ")"@,
        ),
{
    let ghost dv = deps.deep_view();
    let ghost mapped: Seq<Seq<char>> = if prefixed {
        dv.map_values(|d: Seq<char>| "&item."@ + d)
    } else {
        dv.map_values(|d: Seq<char>| "Some("@ + d + ")"@)
    };
    let mut r: Vec<String> = Vec::new();
    proof {
        assert(r.deep_view() =~= mapped.subrange(0, 0));
    }
    let n = deps.len();
    let mut i: usize = 0;
    while i < n
        invariant
            i <= n,
            n == deps@.len(),
            dv.len() == n,
            r.deep_view() == mapped.subrange(0, i as int),
        decreases n - i,
    {
        let ghost r0 = r.deep_view();
        let d: &String = &deps[i];
        let text = if prefixed {
            String::from_str("&item.").concat(d.as_str())
        } else {
            String::from_str("Some(").concat(d.as_str()).concat(")")
        };
        proof {
            assert(dv[i as int] == deps@[i as int]@);
            assert(text@ == mapped[i as int]);
        }
        r.push(text);
        proof {
            assert(r.deep_view() =~= r0.push(mapped[i as int]));
            assert(r0.push(mapped[i as int]) =~= mapped.subrange(0, i + 1));
        }
        i = i + 1;
    }
    proof {
        assert(mapped.subrange(0, n as int) =~= mapped);
    }
    r
}

/// Appends one token's argument statement to a block (optional part) or
/// function (mandatory part); `bound` chooses the dependency access
/// form.
#[verifier::loop_isolation(false)]
fn token_line(token: &String, bound: bool) -> (r: String)
    ensures
        bound && is_dep_token(token@) ==> r@ == "call.arg(&"@ + token@.subrange(
            1,
            token@.len() as int,
        ) + ");"@,
        !bound && is_dep_token(token@) ==> r@ == "call.arg(&item."@ + token@.subrange(
            1,
            token@.len() as int,
        ) + ");"@,
        !is_dep_token(token@) ==> r@ == "call.arg(\""@ + token@ + "\");"@,
{
    let tn = token.as_str().unicode_len();
    if tn > 0 && token.as_str().get_char(0) == '$' {
        let stripped = token.as_str().substring_char(1, tn);
        if bound {
            String::from_str("call.arg(&").concat(stripped).concat(");")
        } else {
            String::from_str("call.arg(&item.").concat(stripped).concat(");")
        }
    } else {
        proof {
            assert(!is_dep_token(token@));
        }
        String::from_str("call.arg(\"").concat(token.as_str()).concat("\");")
    }
}

/// Appends the statements for one compiled command part.
#[verifier::loop_isolation(false)]
pub fn add_command_part_handling(function: Function, part: &CommandPart) -> (r: Function)
    ensures
        r@ == fn_plus_items(function@, spec_part_items(part@)),
{
    let ghost f0 = function@;
    if part.optional {
        let some_wraps = build_wrapped(&part.dependencies, false);
        let ref_wraps = build_wrapped(&part.dependencies, true);
        let mut lhs = String::new();
        join_strings_into(&some_wraps, ", ", &mut lhs);
        let mut rhs = String::new();
        join_strings_into(&ref_wraps, ", ", &mut rhs);
        let if_stmt = if part.dependencies.len() > 1 {
            String::from_str("if let (").concat(lhs.as_str()).concat(") = (").concat(
                rhs.as_str(),
            ).concat(")")
        } else {
            String::from_str("if let ").concat(lhs.as_str()).concat(" = ").concat(rhs.as_str())
        };
        proof {
            assert(lhs@ =~= lhs@ + Seq::<char>::empty());
            assert(if_stmt@ == spec_opt_guard(part@.dependencies));
        }
        let mut block = Block::new(if_stmt.as_str());
        let ghost tv = part@.tokens;
        proof {
            assert(tv.subrange(0, tv.len() as int) =~= tv);
            assert(block@.items + spec_opt_token_lines(tv) =~= spec_opt_token_lines(tv));
        }
        let n = part.tokens.len();
        let mut i: usize = 0;
        while i < n
            invariant
                i <= n,
                n == part.tokens@.len(),
                tv == part@.tokens,
                tv.len() == n,
                block@.before == spec_opt_guard(part@.dependencies),
                block@.after == Seq::<char>::empty(),
                block@.items + spec_opt_token_lines(tv.subrange(i as int, n as int))
                    == spec_opt_token_lines(tv),
            decreases n - i,
        {
            let ghost suf = tv.subrange(i as int, n as int);
            let ghost items0 = block@.items;
            proof {
                assert(suf[0] == tv[i as int]);
                assert(tv[i as int] == part.tokens@[i as int]@);
                assert(suf.drop_first() =~= tv.subrange(i + 1, n as int));
            }
            let line = token_line(&part.tokens[i], true);
            block = block.line(line.as_str());
            proof {
                let lv = if is_dep_token(tv[i as int]) {
                    BodyItemV::Line(
                        "call.arg(&"@ + tv[i as int].subrange(1, tv[i as int].len() as int)
                            + ");"@,
                    )
                } else {
                    BodyItemV::Line("call.arg(\""@ + tv[i as int] + "\");"@)
                };
                assert(items0 + (seq![lv] + spec_opt_token_lines(tv.subrange(i + 1, n as int)))
                    =~= items0.push(lv) + spec_opt_token_lines(tv.subrange(i + 1, n as int)));
            }
            i = i + 1;
        }
        proof {
            assert(tv.subrange(n as int, n as int) =~= Seq::<Seq<char>>::empty());
            assert(block@.items + Seq::<BodyItemV>::empty() =~= block@.items);
        }
        let ghost bv = block@;
        let r = function.push_block(block);
        proof {
            assert(f0.body.push(BodyItemV::Sub(bv)) =~= f0.body + spec_part_items(part@));
            assert(r@ == fn_plus_items(f0, spec_part_items(part@)));
        }
        r
    } else {
        let ghost tv = part@.tokens;
        let mut function = function;
        proof {
            assert(tv.subrange(0, tv.len() as int) =~= tv);
            assert(function@.body + spec_mand_token_lines(tv) =~= f0.body + spec_mand_token_lines(
                tv,
            ));
        }
        let n = part.tokens.len();
        let mut i: usize = 0;
        while i < n
            invariant
                i <= n,
                n == part.tokens@.len(),
                tv == part@.tokens,
                tv.len() == n,
                function@ == (crate::ast::FunctionV { body: function@.body, ..f0 }),
                function@.body + spec_mand_token_lines(tv.subrange(i as int, n as int)) == f0.body
                    + spec_mand_token_lines(tv),
            decreases n - i,
        {
            let ghost suf = tv.subrange(i as int, n as int);
            let ghost body0 = function@.body;
            proof {
                assert(suf[0] == tv[i as int]);
                assert(tv[i as int] == part.tokens@[i as int]@);
                assert(suf.drop_first() =~= tv.subrange(i + 1, n as int));
            }
            let line = token_line(&part.tokens[i], false);
            function = function.line(line.as_str());
            proof {
                let lv = if is_dep_token(tv[i as int]) {
                    BodyItemV::Line(
                        "call.arg(&item."@ + tv[i as int].subrange(1, tv[i as int].len() as int)
                            + ");"@,
                    )
                } else {
                    BodyItemV::Line("call.arg(\""@ + tv[i as int] + "\");"@)
                };
                assert(body0 + (seq![lv] + spec_mand_token_lines(tv.subrange(i + 1, n as int)))
                    =~= body0.push(lv) + spec_mand_token_lines(tv.subrange(i + 1, n as int)));
            }
            i = i + 1;
        }
        proof {
            assert(tv.subrange(n as int, n as int) =~= Seq::<Seq<char>>::empty());
            assert(function@.body + Seq::<BodyItemV>::empty() =~= function@.body);
            assert(function@ == fn_plus_items(f0, spec_part_items(part@)));
        }
        function
    }
}

} // verus!

use crate::command_parser::{parts_view, CommandDetails};

verus! {

/// The statements all parts of a compiled template contribute, in
/// template order.
pub open spec fn spec_parts_items(ps: Seq<PartV>) -> Seq<BodyItemV>
    decreases ps,
{
    if ps.len() == 0 {
        Seq::empty()
    } else {
        spec_part_items(ps[0]) + spec_parts_items(ps.drop_first())
    }
}

/// The whole body the generated executor gains for an external command:
/// build the invocation, append each part's arguments, run it, and turn
/// a non-zero exit into an error carrying the captured error output.
pub open spec fn spec_command_line_items(cd: crate::command_parser::CommandDetailsV) -> Seq<
    BodyItemV,
> {
    seq![
        BodyItemV::Line("use std::process::Command;"@),
        BodyItemV::Line("let mut call = Command::new(\""@ + cd.command_name + "\");"@),
    ] + spec_parts_items(cd.parts) + seq![
        BodyItemV::Line("let output = call.output()?;"@),
        BodyItemV::Line("let status = output.status;"@),
        BodyItemV::Sub(
            BlockV {
                before: "if status.success()"@,
                items: seq![BodyItemV::Line("Ok(())"@)],
                after: Seq::empty(),
            },
        ),
        BodyItemV::Sub(
            BlockV {
                before: "else"@,
                items: seq![
                    BodyItemV::Line("let std_err = std::str::from_utf8(&output.stderr)?;"@),
                    BodyItemV::Line("Err(Error::from(std_err))"@),
                ],
                after: Seq::empty(),
            },
        ),
    ]
}

/// The per-platform template the generator compiles against.
pub open spec fn spec_selected(cd: CommandLineDescriptor, platform: Platform)
    -> crate::command_parser::CommandDetailsV {
    match platform {
        Platform::Linux => cd.linux@,
        Platform::Windows => cd.windows@,
        Platform::Osx => cd.osx@,
    }
}

/// Appends the executor statements for the platform's compiled template.
#[verifier::rlimit(60)]
#[verifier::loop_isolation(false)]
pub fn generate_command_line_execute(
    descriptor: &CommandLineDescriptor,
    function: Function,
    platform: Platform,
) -> (r: Function)
    ensures
        r@ == fn_plus_items(function@, spec_command_line_items(spec_selected(*descriptor, platform))),
{
    let ghost f0 = function@;
    let command: &CommandDetails = descriptor.select(platform);
    let ghost cd = spec_selected(*descriptor, platform);
    proof {
        assert(command@ == cd);
    }
    let new_line = String::from_str("let mut call = Command::new(\"").concat(
        command.command_name.as_str(),
    ).concat("\");");
    let mut function = function.line("use std::process::Command;").line(new_line.as_str());
    let ghost pv = cd.parts;
    proof {
        assert(pv.subrange(0, pv.len() as int) =~= pv);
        assert(function@.body + spec_parts_items(pv) =~= (f0.body + seq![
            BodyItemV::Line("use std::process::Command;"@),
            BodyItemV::Line("let mut call = Command::new(\""@ + cd.command_name + "\");"@),
        ]) + spec_parts_items(pv));
    }
    let ghost base = function@.body;
    let n = command.parts.len();
    proof {
        assert(parts_view(command.parts@).len() == n);
    }
    let mut i: usize = 0;
    while i < n
        invariant
            i <= n,
            n == command.parts@.len(),
            pv == parts_view(command.parts@),
            pv.len() == n,
            function@ == (crate::ast::FunctionV { body: function@.body, ..f0 }),
            function@.body + spec_parts_items(pv.subrange(i as int, n as int)) == base
                + spec_parts_items(pv),
        decreases n - i,
    {
        let ghost suf = pv.subrange(i as int, n as int);
        let ghost body0 = function@.body;
        proof {
            assert(suf[0] == pv[i as int]);
            assert(pv[i as int] == command.parts@[i as int]@);
            assert(suf.drop_first() =~= pv.subrange(i + 1, n as int));
        }
        function = add_command_part_handling(function, &command.parts[i]);
        proof {
            assert(body0 + (spec_part_items(pv[i as int]) + spec_parts_items(
                pv.subrange(i + 1, n as int),
            )) =~= (body0 + spec_part_items(pv[i as int])) + spec_parts_items(
                pv.subrange(i + 1, n as int),
            ));
        }
        i = i + 1;
    }
    proof {
        assert(pv.subrange(n as int, n as int) =~= Seq::<PartV>::empty());
        assert(function@.body + Seq::<BodyItemV>::empty() =~= function@.body);
    }
    let success_block = Block::new("if status.success()").line("Ok(())");
    proof {
        assert(success_block@.items =~= seq![BodyItemV::Line("Ok(())"@)]);
        assert(success_block@ == (BlockV {
            before: "if status.success()"@,
            items: seq![BodyItemV::Line("Ok(())"@)],
            after: Seq::empty(),
        }));
    }
    let err_block = Block::new("else").line(
        "let std_err = std::str::from_utf8(&output.stderr)?;",
    ).line("Err(Error::from(std_err))");
    proof {
        assert(err_block@.items =~= seq![
            BodyItemV::Line("let std_err = std::str::from_utf8(&output.stderr)?;"@),
            BodyItemV::Line("Err(Error::from(std_err))"@),
        ]);
        assert(err_block@ == (BlockV {
            before: "else"@,
            items: seq![
                BodyItemV::Line("let std_err = std::str::from_utf8(&output.stderr)?;"@),
                BodyItemV::Line("Err(Error::from(std_err))"@),
            ],
            after: Seq::empty(),
        }));
    }
    let r = function.line("let output = call.output()?;").line(
        "let status = output.status;",
    ).push_block(success_block).push_block(err_block);
    proof {
        assert(r@.body =~= f0.body + spec_command_line_items(cd));
        assert(r@ == fn_plus_items(f0, spec_command_line_items(cd)));
    }
    r
}

/// The generated executor function for one task: named after the task,
/// it runs one item either through the inline snippet (placeholders
/// rewritten to field accesses) or through the platform's external
/// command.
pub open spec fn spec_execute_fn(task: TaskDescriptor, platform: Platform)
    -> crate::ast::FunctionV {
    crate::ast::FunctionV {
        vis: Seq::empty(),
        name: snake_of(task.name@),
        self_arg: false,
        args: seq![("item"@, TypeV { name: "&Item"@, generics: Seq::empty() })],
        ret: Option::Some(
            TypeV { name: "Result<(), Error>"@, generics: Seq::empty() },
        ),
        body: match task.command {
            Command::Snippet(code) => seq![BodyItemV::Line(spec_rewrite_snippet(code@, 0))],
            Command::CommandLine(cl) => spec_command_line_items(spec_selected(cl, platform)),
        },
    }
}

pub fn generate_execute_fn(task: &TaskDescriptor, platform: Platform) -> (r: Function)
    ensures
        r@ == spec_execute_fn(*task, platform),
{
    let snake_name = to_snake(task.name.as_str());
    let execute_fn = Function::new(snake_name.as_str()).arg("item", Type::new("&Item")).ret(
        Type::new("Result<(), Error>"),
    );
    proof {
        assert(execute_fn@.args =~= spec_execute_fn(*task, platform).args);
    }
    match &task.command {
        Command::Snippet(code) => {
            let output = rewrite_snippet(code.as_str());
            let r = execute_fn.line(output.as_str());
            proof {
                assert(r@.body =~= spec_execute_fn(*task, platform).body);
                assert(r@ == spec_execute_fn(*task, platform));
            }
            r
        },
        Command::CommandLine(command_line) => {
            let r = generate_command_line_execute(command_line, execute_fn, platform);
            proof {
                assert(r@.body =~= spec_execute_fn(*task, platform).body);
                assert(r@ == spec_execute_fn(*task, platform));
            }
            r
        },
    }
}

} // verus!

use crate::ast::{Module, ModuleItemV, ModuleV, Scope, ScopeItemV, ScopeV};
use crate::dependency_tracker::{spec_add, spec_segments, TreeV};
use crate::generator::group::{generate_group_definition, generate_group_impl};
use crate::generator::item::{generate_item_definition, generate_item_impl};

verus! {

/// The import set every generated module starts with.
pub open spec fn spec_module_imports() -> TreeV {
    let t0 = TreeV { value: Option::None, children: Seq::empty() };
    let t1 = spec_add(t0, spec_segments("std::path"@ + "::"@ + "PathBuf"@), 0);
    let t2 = spec_add(t1, spec_segments("minidom"@ + "::"@ + "Element"@), 0);
    let t3 = spec_add(t2, spec_segments("crate::runtime"@ + "::"@ + "Runtime"@), 0);
    let t4 = spec_add(t3, spec_segments("crate::error"@ + "::"@ + "Error"@), 0);
    let t5 = spec_add(t4, spec_segments("crate::util"@ + "::"@ + "interpolate_attribute"@), 0);
    let t6 = spec_add(t5, spec_segments("crate::util"@ + "::"@ + "ApplyPrefix"@), 0);
    let t7 = spec_add(
        t6,
        spec_segments("crate::util"@ + "::"@ + "evaluate_condition_from_element"@),
        0,
    );
    spec_add(t7, spec_segments("crate"@ + "::"@ + "internal_error"@), 0)
}

/// Everything one descriptor compiles to: the module named after the
/// task, holding the data model, the recursive parser and the executor.
pub open spec fn spec_task_module(task: TaskDescriptor, platform: Platform) -> ModuleV {
    ModuleV {
        name: task.name@,
        imports: spec_module_imports(),
        items: seq![
            ModuleItemV::Struct(group::spec_group_definition(task.element.attributes@)),
            ModuleItemV::Impl(group::spec_group_impl(task.element.attributes@)),
            ModuleItemV::Struct(item::spec_item_definition(task.element.attributes@)),
            ModuleItemV::Impl(item::spec_item_impl(task.element.attributes@)),
            ModuleItemV::Struct(spec_task_struct()),
            ModuleItemV::Impl(spec_task_impl(task.name@)),
            ModuleItemV::Fn(spec_execute_fn(task, platform)),
            ModuleItemV::Fn(spec_parse_item_fn()),
            ModuleItemV::Fn(spec_parse_items_fn()),
            ModuleItemV::Fn(spec_parse_task_fn()),
        ],
    }
}

impl TaskDescriptor {
    /// Compiles this descriptor into its generated module.
    pub fn generate(&self, platform: Platform) -> (r: Module)
        ensures
            r@ == spec_task_module(*self, platform),
    {
        let group_struct = generate_group_definition(&self.element);
        let group_impl = generate_group_impl(&self.element);
        let item_struct = generate_item_definition(&self.element);
        let item_impl = generate_item_impl(&self.element);
        let task_struct = generate_task_struct();
        let task_impl = generate_task_impl(self);
        let execute_fn = generate_execute_fn(self, platform);
        let parse_item_fn = generate_parse_item();
        let parse_items_fn = generate_parse_items();
        let parse_task_fn = generate_parse_task();
        let r = Module::new(self.name.as_str()).import("std::path", "PathBuf").import(
            "minidom",
            "Element",
        ).import("crate::runtime", "Runtime").import("crate::error", "Error").import(
            "crate::util",
            "interpolate_attribute",
        ).import("crate::util", "ApplyPrefix").import(
            "crate::util",
            "evaluate_condition_from_element",
        ).import("crate", "internal_error").push_struct(group_struct).push_impl(
            group_impl,
        ).push_struct(item_struct).push_impl(item_impl).push_struct(task_struct).push_impl(
            task_impl,
        ).push_fn(execute_fn).push_fn(parse_item_fn).push_fn(parse_items_fn).push_fn(
            parse_task_fn,
        );
        proof {
            assert(r@.items =~= spec_task_module(*self, platform).items);
            assert(r@ == spec_task_module(*self, platform));
        }
        r
    }
}

/// The generated modules of all descriptors, in load order.
pub open spec fn spec_unit_modules(tasks: Seq<TaskDescriptor>, platform: Platform) -> Seq<
    ScopeItemV,
>
    decreases tasks,
{
    if tasks.len() == 0 {
        Seq::empty()
    } else {
        seq![ScopeItemV::Module(spec_task_module(tasks[0], platform))] + spec_unit_modules(
            tasks.drop_first(),
            platform,
        )
    }
}

/// The whole output unit for a set of descriptors: their modules in
/// order, then the dispatch enum, its `run` implementation, and
/// `parse_input`.
pub open spec fn spec_output_unit(tasks: Seq<TaskDescriptor>, platform: Platform) -> ScopeV {
    ScopeV {
        items: spec_unit_modules(tasks, platform) + seq![
            ScopeItemV::Enum(spec_task_enum(tasks)),
            ScopeItemV::Impl(spec_task_enum_impl(tasks)),
            ScopeItemV::Fn(spec_parse_input_fn(tasks)),
        ],
    }
}

/// Compiles every descriptor and serializes the whole output unit.  The
/// text is a pure function of the descriptors and the platform, so
/// repeated runs over the same input produce byte-identical output.
#[verifier::loop_isolation(false)]
pub fn generate_unit(tasks: &Vec<TaskDescriptor>, platform: Platform) -> (r: String)
    ensures
        r@ == crate::ast::spec_render_scope(spec_output_unit(tasks@, platform)),
{
    let ghost ts = tasks@;
    let mut scope = Scope::new();
    proof {
        assert(ts.subrange(0, ts.len() as int) =~= ts);
        assert(scope@.items + spec_unit_modules(ts, platform) =~= spec_unit_modules(ts, platform));
    }
    let n = tasks.len();
    let mut i: usize = 0;
    while i < n
        invariant
            i <= n,
            n == ts.len(),
            scope@.items + spec_unit_modules(ts.subrange(i as int, n as int), platform)
                == spec_unit_modules(ts, platform),
        decreases n - i,
    {
        let ghost suf = ts.subrange(i as int, n as int);
        let ghost items0 = scope@.items;
        proof {
            assert(suf[0] == ts[i as int]);
            assert(suf.drop_first() =~= ts.subrange(i + 1, n as int));
        }
        let module = tasks[i].generate(platform);
        let ghost mv = module@;
        scope = scope.push_module(module);
        proof {
            assert(items0 + (seq![ScopeItemV::Module(mv)] + spec_unit_modules(
                ts.subrange(i + 1, n as int),
                platform,
            )) =~= items0.push(ScopeItemV::Module(mv)) + spec_unit_modules(
                ts.subrange(i + 1, n as int),
                platform,
            ));
        }
        i = i + 1;
    }
    proof {
        assert(ts.subrange(n as int, n as int) =~= Seq::<TaskDescriptor>::empty());
        assert(scope@.items + Seq::<ScopeItemV>::empty() =~= scope@.items);
    }
    let task_enum = generate_task_enum(tasks);
    let task_enum_impl = generate_task_enum_impl(tasks);
    let parse_input = generate_parse_input(tasks);
    let scope = scope.push_enum(task_enum).push_impl(task_enum_impl).push_fn(parse_input);
    proof {
        assert(scope@.items =~= spec_output_unit(ts, platform).items);
        assert(scope@ == spec_output_unit(ts, platform));
    }
    scope.to_string()
}

} // verus!
