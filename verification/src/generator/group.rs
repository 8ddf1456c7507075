use vstd::prelude::*;

use crate::ast::{
    Block, BlockV, BodyItemV, Field, FieldV, Function, FunctionV, Impl, ImplV, Struct, StructV,
    Type, TypeV,
};
use crate::descriptor::{ElementDescriptor, GroupSetting, ParameterDescriptor, ParameterType};
use crate::generator::{build_init_line, spec_init_line};

verus! {

/// The field a parameter contributes to the generated `Group` struct:
/// nothing for a non-inheriting parameter, an optional path otherwise.
pub open spec fn spec_group_field(p: ParameterDescriptor) -> Option<FieldV> {
    match p.allow_group {
        GroupSetting::NoInherit => Option::None,
        _ => Option::Some(
            FieldV { name: p.name@, ty: TypeV { name: "Option"@, generics: seq!["PathBuf"@] } },
        ),
    }
}

pub fn generate_field_definition(parameter: &ParameterDescriptor) -> (r: Option<Field>)
    ensures
        match (r, spec_group_field(*parameter)) {
            (Option::Some(f), Option::Some(fv)) => f@ == fv,
            (Option::None, Option::None) => true,
            _ => false,
        },
{
    match parameter.allow_group {
        GroupSetting::NoInherit => None,
        _ => {
            let inner_type = match parameter.parameter_type {
                ParameterType::Path => "PathBuf",
            };
            let field_type = Type::new("Option").generic(inner_type);
            let f = Field::new(parameter.name.as_str(), field_type);
            proof {
                assert(f@.ty.generics =~= seq!["PathBuf"@]);
            }
            Some(f)
        },
    }
}

/// The generated `Group` struct's fields, one per inheriting attribute,
/// in declaration order.
pub open spec fn spec_group_fields(attrs: Seq<ParameterDescriptor>) -> Seq<FieldV>
    decreases attrs,
{
    if attrs.len() == 0 {
        Seq::empty()
    } else {
        (match spec_group_field(attrs[0]) {
            Option::Some(f) => seq![f],
            Option::None => Seq::empty(),
        }) + spec_group_fields(attrs.drop_first())
    }
}

/// The generated `Group` struct: derives `Debug` and holds one optional
/// path per inheriting attribute.
pub open spec fn spec_group_definition(attrs: Seq<ParameterDescriptor>) -> StructV {
    StructV {
        vis: Seq::empty(),
        name: "Group"@,
        derives: seq!["Debug"@],
        fields: spec_group_fields(attrs),
    }
}

#[verifier::loop_isolation(false)]
pub fn generate_group_definition(element_descriptor: &ElementDescriptor) -> (r: Struct)
    ensures
        r@ == spec_group_definition(element_descriptor.attributes@),
{
    let ghost attrs = element_descriptor.attributes@;
    let mut struct_definition = Struct::new("Group").derive("Debug");
    proof {
        assert(attrs.subrange(0, attrs.len() as int) =~= attrs);
        assert(struct_definition@.derives =~= seq!["Debug"@]);
        assert(struct_definition@.fields + spec_group_fields(attrs) =~= spec_group_fields(attrs));
    }
    let n = element_descriptor.attributes.len();
    let mut i: usize = 0;
    while i < n
        invariant
            i <= n,
            n == attrs.len(),
            struct_definition@.vis == Seq::<char>::empty(),
            struct_definition@.name == "Group"@,
            struct_definition@.derives == seq!["Debug"@],
            struct_definition@.fields + spec_group_fields(attrs.subrange(i as int, n as int))
                == spec_group_fields(attrs),
        decreases n - i,
    {
        let ghost suf = attrs.subrange(i as int, n as int);
        let ghost fields0 = struct_definition@.fields;
        proof {
            assert(suf[0] == attrs[i as int]);
            assert(suf.drop_first() =~= attrs.subrange(i + 1, n as int));
        }
        let field = generate_field_definition(&element_descriptor.attributes[i]);
        match field {
            Some(f) => {
                let ghost fv = f@;
                struct_definition = struct_definition.push_field(f);
                proof {
                    assert(fields0 + (seq![fv] + spec_group_fields(
                        attrs.subrange(i + 1, n as int),
                    )) =~= fields0.push(fv) + spec_group_fields(attrs.subrange(i + 1, n as int)));
                }
            },
            None => {
                proof {
                    assert(fields0 + (Seq::<FieldV>::empty() + spec_group_fields(
                        attrs.subrange(i + 1, n as int),
                    )) =~= fields0 + spec_group_fields(attrs.subrange(i + 1, n as int)));
                }
            },
        }
        i = i + 1;
    }
    proof {
        assert(attrs.subrange(n as int, n as int) =~= Seq::<ParameterDescriptor>::empty());
        assert(struct_definition@.fields + Seq::<FieldV>::empty() =~= struct_definition@.fields);
        assert(struct_definition@ =~~= spec_group_definition(attrs));
    }
    struct_definition
}

/// The statements one parameter contributes to the generated
/// `Group::create`: nothing for a non-inheriting attribute; otherwise
/// the initialization statement followed by the setting's resolution
/// code.  `Prefix` only applies the parent's prefix to a present value,
/// `InheritPrefix` applies it unconditionally.
pub open spec fn spec_group_param_items(p: ParameterDescriptor) -> Seq<BodyItemV> {
    match p.allow_group {
        GroupSetting::NoInherit => Seq::empty(),
        GroupSetting::Inherit => seq![
            BodyItemV::Line(spec_init_line(p.name@)),
            BodyItemV::Line(
                "let "@ + p.name@ + " = "@ + p.name@ + ".or(parent.map(|group| group."@ + p.name@
                    + "));"@,
            ),
        ],
        GroupSetting::Prefix => seq![
            BodyItemV::Line(spec_init_line(p.name@)),
            BodyItemV::Line(
                "let "@ + p.name@ + " = if "@ + p.name@
                    + ".is_some() { if let Some(group) = parent { "@ + p.name@
                    + ".apply_prefix(&group."@ + p.name@ + ") } else { "@ + p.name@
                    + " } } else { None };"@,
            ),
        ],
        GroupSetting::InheritPrefix => seq![
            BodyItemV::Line(spec_init_line(p.name@)),
            BodyItemV::Sub(
                BlockV {
                    before: "let "@ + p.name@ + " = if let Some(group) = parent"@,
                    items: seq![
                        BodyItemV::Line(
                            p.name@ + ".apply_prefix(&group."@ + p.name@ + ")"@,
                        ),
                    ],
                    after: Seq::empty(),
                },
            ),
            BodyItemV::Sub(
                BlockV {
                    before: "else"@,
                    items: seq![BodyItemV::Line(p.name@)],
                    after: ";"@,
                },
            ),
        ],
    }
}

/// Appends one parameter's resolution statements to the constructor
/// being built.
pub fn add_parameter_code(function: Function, parameter: &ParameterDescriptor) -> (r: Function)
    ensures
        r@ == (FunctionV {
            body: function@.body + spec_group_param_items(*parameter),
            ..function@
        }),
{
    let ghost f0 = function@;
    let n = parameter.name.as_str();
    match parameter.allow_group {
        GroupSetting::NoInherit => {
            proof {
                assert(f0.body + Seq::<BodyItemV>::empty() =~= f0.body);
                assert(function@ =~~= (FunctionV {
                    body: f0.body + spec_group_param_items(*parameter),
                    ..f0
                }));
            }
            function
        },
        GroupSetting::Inherit => {
            let init = build_init_line(n);
            let or_line = String::from_str("let ").concat(n).concat(" = ").concat(n).concat(
                ".or(parent.map(|group| group.",
            ).concat(n).concat("));");
            let f = function.line(init.as_str()).line(or_line.as_str());
            proof {
                assert(f@ =~~= (FunctionV {
                    body: f0.body + spec_group_param_items(*parameter),
                    ..f0
                }));
            }
            f
        },
        GroupSetting::Prefix => {
            let init = build_init_line(n);
            let gated = String::from_str("let ").concat(n).concat(" = if ").concat(n).concat(
                ".is_some() { if let Some(group) = parent { ",
            ).concat(n).concat(".apply_prefix(&group.").concat(n).concat(") } else { ").concat(
                n,
            ).concat(" } } else { None };");
            let f = function.line(init.as_str()).line(gated.as_str());
            proof {
                assert(f@ =~~= (FunctionV {
                    body: f0.body + spec_group_param_items(*parameter),
                    ..f0
                }));
            }
            f
        },
        GroupSetting::InheritPrefix => {
            let init = build_init_line(n);
            let if_head = String::from_str("let ").concat(n).concat(
                " = if let Some(group) = parent",
            );
            let apply_line = String::from_str(n).concat(".apply_prefix(&group.").concat(n).concat(
                ")",
            );
            let if_block = Block::new(if_head.as_str()).line(apply_line.as_str());
            let else_block = Block::new("else").line(n).after(";");
            let f = function.line(init.as_str()).push_block(if_block).push_block(else_block);
            proof {
                assert(f@ =~~= (FunctionV {
                    body: f0.body + spec_group_param_items(*parameter),
                    ..f0
                }));
            }
            f
        },
    }
}

/// The constructor-call lines of the generated `Group` literal: one per
/// inheriting attribute.
pub open spec fn spec_group_ctor_lines(attrs: Seq<ParameterDescriptor>) -> Seq<BodyItemV>
    decreases attrs,
{
    if attrs.len() == 0 {
        Seq::empty()
    } else {
        (if attrs[0].allow_group == GroupSetting::NoInherit {
            Seq::empty()
        } else {
            seq![BodyItemV::Line(attrs[0].name@ + ": "@ + attrs[0].name@ + ","@)]
        }) + spec_group_ctor_lines(attrs.drop_first())
    }
}

/// The whole create-function bodies, inheriting case.
pub open spec fn spec_group_create_body(attrs: Seq<ParameterDescriptor>) -> Seq<BodyItemV>
    decreases attrs,
{
    if attrs.len() == 0 {
        Seq::empty()
    } else {
        spec_group_param_items(attrs[0]) + spec_group_create_body(attrs.drop_first())
    }
}

/// The generated `Group::create`: when any attribute inherits, it takes
/// the element, the optional parent group and the runtime, resolves each
/// inheriting attribute per its setting, and builds the struct; when
/// none does, it takes nothing and returns an empty group.
pub open spec fn spec_group_impl(attrs: Seq<ParameterDescriptor>) -> ImplV {
    ImplV { target: "Group"@, fns: seq![spec_group_create_fn(attrs)] }
}

pub open spec fn spec_group_create_fn(attrs: Seq<ParameterDescriptor>) -> FunctionV {
    FunctionV {
        vis: "pub"@,
        name: "create"@,
        self_arg: false,
        args: if group_uses_groups(attrs) {
            seq![
                ("element"@, TypeV { name: "&Element"@, generics: Seq::empty() }),
                ("parent"@, TypeV { name: "Option<&Group>"@, generics: Seq::empty() }),
                ("runtime"@, TypeV { name: "&Runtime"@, generics: Seq::empty() }),
            ]
        } else {
            Seq::empty()
        },
        ret: Option::Some(TypeV { name: "Result<Group, Error>"@, generics: Seq::empty() }),
        body: if group_uses_groups(attrs) {
            spec_group_create_body(attrs) + seq![
                BodyItemV::Sub(
                    BlockV {
                        before: "Ok(Group"@,
                        items: spec_group_ctor_lines(attrs),
                        after: ")"@,
                    },
                ),
            ]
        } else {
            seq![BodyItemV::Line("Ok(Group{})"@)]
        },
    }
}

/// Whether any attribute takes part in inheritance.
pub open spec fn group_uses_groups(attrs: Seq<ParameterDescriptor>) -> bool {
    exists|i: int| 0 <= i < attrs.len() && attrs[i].allow_group != GroupSetting::NoInherit
}

#[verifier::loop_isolation(false)]
pub fn generate_group_impl(element_descriptor: &ElementDescriptor) -> (r: Impl)
    ensures
        r@ == spec_group_impl(element_descriptor.attributes@),
{
    let ghost attrs = element_descriptor.attributes@;
    let mut create_function = Function::new("create").vis("pub").ret(
        Type::new("Result<Group, Error>"),
    );
    if element_descriptor.uses_groups() {
        create_function = create_function.arg("element", Type::new("&Element")).arg(
            "parent",
            Type::new("Option<&Group>"),
        ).arg("runtime", Type::new("&Runtime"));
        proof {
            assert(attrs.subrange(0, attrs.len() as int) =~= attrs);
            assert(create_function@.body + spec_group_create_body(attrs)
                =~= spec_group_create_body(attrs));
        }
        let mut constructor = Block::new("Ok(Group").after(")");
        proof {
            assert(constructor@.items + spec_group_ctor_lines(attrs) =~= spec_group_ctor_lines(
                attrs,
            ));
        }
        let n = element_descriptor.attributes.len();
        let mut i: usize = 0;
        while i < n
            invariant
                i <= n,
                n == attrs.len(),
                create_function@.vis == "pub"@,
                create_function@.name == "create"@,
                !create_function@.self_arg,
                create_function@.args =~= seq![
                    ("element"@, TypeV { name: "&Element"@, generics: Seq::<Seq<char>>::empty() }),
                    (
                        "parent"@,
                        TypeV { name: "Option<&Group>"@, generics: Seq::<Seq<char>>::empty() },
                    ),
                    ("runtime"@, TypeV { name: "&Runtime"@, generics: Seq::<Seq<char>>::empty() }),
                ],
                create_function@.ret == Option::Some(
                    TypeV { name: "Result<Group, Error>"@, generics: Seq::<Seq<char>>::empty() },
                ),
                create_function@.body + spec_group_create_body(attrs.subrange(i as int, n as int))
                    == spec_group_create_body(attrs),
                constructor@.before == "Ok(Group"@,
                constructor@.after == ")"@,
                constructor@.items + spec_group_ctor_lines(attrs.subrange(i as int, n as int))
                    == spec_group_ctor_lines(attrs),
            decreases n - i,
        {
            let ghost suf = attrs.subrange(i as int, n as int);
            let ghost body0 = create_function@.body;
            let ghost ctor0 = constructor@.items;
            proof {
                assert(suf[0] == attrs[i as int]);
                assert(suf.drop_first() =~= attrs.subrange(i + 1, n as int));
            }
            let attribute = &element_descriptor.attributes[i];
            create_function = add_parameter_code(create_function, attribute);
            proof {
                assert(body0 + (spec_group_param_items(attrs[i as int]) + spec_group_create_body(
                    attrs.subrange(i + 1, n as int),
                )) =~= (body0 + spec_group_param_items(attrs[i as int])) + spec_group_create_body(
                    attrs.subrange(i + 1, n as int),
                ));
            }
            let is_none = match attribute.allow_group {
                GroupSetting::NoInherit => true,
                _ => false,
            };
            if !is_none {
                let line = String::from_str(attribute.name.as_str()).concat(": ").concat(
                    attribute.name.as_str(),
                ).concat(",");
                constructor = constructor.line(line.as_str());
                proof {
                    assert(ctor0 + (seq![
                        BodyItemV::Line(
                            attrs[i as int].name@ + ": "@ + attrs[i as int].name@ + ","@,
                        ),
                    ] + spec_group_ctor_lines(attrs.subrange(i + 1, n as int))) =~= ctor0.push(
                        BodyItemV::Line(
                            attrs[i as int].name@ + ": "@ + attrs[i as int].name@ + ","@,
                        ),
                    ) + spec_group_ctor_lines(attrs.subrange(i + 1, n as int)));
                }
            } else {
                proof {
                    assert(ctor0 + (Seq::<BodyItemV>::empty() + spec_group_ctor_lines(
                        attrs.subrange(i + 1, n as int),
                    )) =~= ctor0 + spec_group_ctor_lines(attrs.subrange(i + 1, n as int)));
                }
            }
            i = i + 1;
        }
        proof {
            assert(attrs.subrange(n as int, n as int) =~= Seq::<ParameterDescriptor>::empty());
            assert(create_function@.body + Seq::<BodyItemV>::empty() =~= create_function@.body);
            assert(constructor@.items + Seq::<BodyItemV>::empty() =~= constructor@.items);
        }
        create_function = create_function.push_block(constructor);
        proof {
            assert(create_function@ =~~= spec_group_create_fn(attrs));
        }
    } else {
        create_function = create_function.line("Ok(Group{})");
        proof {
            assert(create_function@.body =~= seq![BodyItemV::Line("Ok(Group{})"@)]);
            assert(create_function@.args =~= Seq::<(Seq<char>, TypeV)>::empty());
            assert(create_function@ =~~= spec_group_create_fn(attrs));
        }
    }
    let result = Impl::new("Group").push_fn(create_function);
    proof {
        assert(result@ =~~= spec_group_impl(attrs));
    }
    result
}

} // verus!
