use vstd::prelude::*;

use crate::ast::{
    Block, BlockV, BodyItemV, Field, FieldV, Function, FunctionV, Impl, ImplV, Struct, StructV,
    Type, TypeV,
};
use crate::descriptor::{ElementDescriptor, GroupSetting, ParameterDescriptor, ParameterType};
use crate::generator::{build_init_line, spec_init_line};

verus! {

/// The field a parameter contributes to the generated `Item` struct: a
/// plain path when the value is required, an optional one otherwise.
pub open spec fn spec_item_field(p: ParameterDescriptor) -> FieldV {
    if p.required {
        FieldV { name: p.name@, ty: TypeV { name: "PathBuf"@, generics: Seq::empty() } }
    } else {
        FieldV { name: p.name@, ty: TypeV { name: "Option"@, generics: seq!["PathBuf"@] } }
    }
}

pub fn generate_field_definition(parameter: &ParameterDescriptor) -> (r: Field)
    ensures
        r@ == spec_item_field(*parameter),
{
    let field_type = match parameter.parameter_type {
        ParameterType::Path => "PathBuf",
    };
    if parameter.required {
        let f = Field::new(parameter.name.as_str(), Type::new(field_type));
        proof {
            assert(f@ =~~= spec_item_field(*parameter));
        }
        f
    } else {
        let field_type = Type::new("Option").generic(field_type);
        let f = Field::new(parameter.name.as_str(), field_type);
        proof {
            assert(f@ =~~= spec_item_field(*parameter));
        }
        f
    }
}

pub open spec fn spec_item_fields(attrs: Seq<ParameterDescriptor>) -> Seq<FieldV>
    decreases attrs,
{
    if attrs.len() == 0 {
        Seq::empty()
    } else {
        seq![spec_item_field(attrs[0])] + spec_item_fields(attrs.drop_first())
    }
}

/// The generated `Item` struct: one field per attribute.
pub open spec fn spec_item_definition(attrs: Seq<ParameterDescriptor>) -> StructV {
    StructV {
        vis: Seq::empty(),
        name: "Item"@,
        derives: Seq::empty(),
        fields: spec_item_fields(attrs),
    }
}

#[verifier::loop_isolation(false)]
pub fn generate_item_definition(element_descriptor: &ElementDescriptor) -> (r: Struct)
    ensures
        r@ == spec_item_definition(element_descriptor.attributes@),
{
    let ghost attrs = element_descriptor.attributes@;
    let mut struct_definition = Struct::new("Item");
    proof {
        assert(attrs.subrange(0, attrs.len() as int) =~= attrs);
        assert(struct_definition@.fields + spec_item_fields(attrs) =~= spec_item_fields(attrs));
    }
    let n = element_descriptor.attributes.len();
    let mut i: usize = 0;
    while i < n
        invariant
            i <= n,
            n == attrs.len(),
            struct_definition@.vis == Seq::<char>::empty(),
            struct_definition@.name == "Item"@,
            struct_definition@.derives == Seq::<Seq<char>>::empty(),
            struct_definition@.fields + spec_item_fields(attrs.subrange(i as int, n as int))
                == spec_item_fields(attrs),
        decreases n - i,
    {
        let ghost suf = attrs.subrange(i as int, n as int);
        let ghost fields0 = struct_definition@.fields;
        proof {
            assert(suf[0] == attrs[i as int]);
            assert(suf.drop_first() =~= attrs.subrange(i + 1, n as int));
        }
        let f = generate_field_definition(&element_descriptor.attributes[i]);
        let ghost fv = f@;
        struct_definition = struct_definition.push_field(f);
        proof {
            assert(fields0 + (seq![fv] + spec_item_fields(attrs.subrange(i + 1, n as int)))
                =~= fields0.push(fv) + spec_item_fields(attrs.subrange(i + 1, n as int)));
        }
        i = i + 1;
    }
    proof {
        assert(attrs.subrange(n as int, n as int) =~= Seq::<ParameterDescriptor>::empty());
        assert(struct_definition@.fields + Seq::<FieldV>::empty() =~= struct_definition@.fields);
        assert(struct_definition@ =~~= spec_item_definition(attrs));
    }
    struct_definition
}

/// The statement that enforces a required value at runtime: a resolved
/// `None` becomes a `MissingRequiredValue` failure.
pub open spec fn spec_required_line(n: Seq<char>) -> Seq<char> {
    "let "@ + n + " = "@ + n + ".ok_or(Error::from(\"Missing required value: '"@ + n
        + "'\"))?;"@
}

/// The statements one parameter contributes to the generated
/// `Item::create`: the initialization statement, the setting's
/// resolution code against the (always present) parent group, and, for
/// a required attribute, the enforcement statement.
pub open spec fn spec_item_param_items(p: ParameterDescriptor) -> Seq<BodyItemV> {
    (seq![BodyItemV::Line(spec_init_line(p.name@))] + (match p.allow_group {
        GroupSetting::NoInherit => Seq::<BodyItemV>::empty(),
        GroupSetting::Inherit => seq![
            BodyItemV::Line("let "@ + p.name@ + " = "@ + p.name@ + ".or(parent."@ + p.name@ + ");"@),
        ],
        GroupSetting::Prefix => seq![
            BodyItemV::Sub(
                BlockV {
                    before: "let "@ + p.name@ + " = if let Some("@ + p.name@ + ") = "@ + p.name@,
                    items: seq![
                        BodyItemV::Line(
                            "Some("@ + p.name@ + ").apply_prefix(&parent."@ + p.name@ + ")"@,
                        ),
                    ],
                    after: Seq::empty(),
                },
            ),
            BodyItemV::Sub(
                BlockV { before: "else"@, items: seq![BodyItemV::Line(p.name@)], after: ";"@ },
            ),
        ],
        GroupSetting::InheritPrefix => seq![
            BodyItemV::Line(
                "let "@ + p.name@ + " = "@ + p.name@ + ".apply_prefix(&parent."@ + p.name@
                    + ");"@,
            ),
        ],
    })) + (if p.required {
        seq![BodyItemV::Line(spec_required_line(p.name@))]
    } else {
        Seq::<BodyItemV>::empty()
    })
}

/// Appends one parameter's resolution statements to the constructor
/// being built.
pub fn add_parameter_code(function: Function, parameter: &ParameterDescriptor) -> (r: Function)
    ensures
        r@ == (FunctionV {
            body: function@.body + spec_item_param_items(*parameter),
            ..function@
        }),
{
    let ghost f0 = function@;
    let n = parameter.name.as_str();
    let init = build_init_line(n);
    let mut function = function.line(init.as_str());
    match parameter.allow_group {
        GroupSetting::NoInherit => {},
        GroupSetting::Inherit => {
            let or_line = String::from_str("let ").concat(n).concat(" = ").concat(n).concat(
                ".or(parent.",
            ).concat(n).concat(");");
            function = function.line(or_line.as_str());
        },
        GroupSetting::Prefix => {
            let if_head = String::from_str("let ").concat(n).concat(" = if let Some(").concat(
                n,
            ).concat(") = ").concat(n);
            let apply_line = String::from_str("Some(").concat(n).concat(").apply_prefix(&parent.")
                .concat(n).concat(")");
            let if_block = Block::new(if_head.as_str()).line(apply_line.as_str());
            let else_block = Block::new("else").line(n).after(";");
            function = function.push_block(if_block).push_block(else_block);
        },
        GroupSetting::InheritPrefix => {
            let line = String::from_str("let ").concat(n).concat(" = ").concat(n).concat(
                ".apply_prefix(&parent.",
            ).concat(n).concat(");");
            function = function.line(line.as_str());
        },
    }
    if parameter.required {
        let req = String::from_str("let ").concat(n).concat(" = ").concat(n).concat(
            ".ok_or(Error::from(\"Missing required value: '",
        ).concat(n).concat("'\"))?;");
        function = function.line(req.as_str());
    }
    proof {
        assert(function@ =~~= (FunctionV {
            body: f0.body + spec_item_param_items(*parameter),
            ..f0
        }));
    }
    function
}

pub open spec fn spec_item_ctor_lines(attrs: Seq<ParameterDescriptor>) -> Seq<BodyItemV>
    decreases attrs,
{
    if attrs.len() == 0 {
        Seq::empty()
    } else {
        seq![BodyItemV::Line(attrs[0].name@ + ": "@ + attrs[0].name@ + ","@)]
            + spec_item_ctor_lines(attrs.drop_first())
    }
}

pub open spec fn spec_item_create_body(attrs: Seq<ParameterDescriptor>) -> Seq<BodyItemV>
    decreases attrs,
{
    if attrs.len() == 0 {
        Seq::empty()
    } else {
        spec_item_param_items(attrs[0]) + spec_item_create_body(attrs.drop_first())
    }
}

/// The generated `Item::create`: resolves every attribute against the
/// enclosing group per its setting, enforces required values, and
/// builds the struct.
pub open spec fn spec_item_impl(attrs: Seq<ParameterDescriptor>) -> ImplV {
    ImplV {
        target: "Item"@,
        fns: seq![
            FunctionV {
                vis: "pub"@,
                name: "create"@,
                self_arg: false,
                args: seq![
                    ("element"@, TypeV { name: "&Element"@, generics: Seq::empty() }),
                    ("parent"@, TypeV { name: "&Group"@, generics: Seq::empty() }),
                    ("runtime"@, TypeV { name: "&Runtime"@, generics: Seq::empty() }),
                ],
                ret: Option::Some(
                    TypeV { name: "Result<Item, Error>"@, generics: Seq::empty() },
                ),
                body: spec_item_create_body(attrs) + seq![
                    BodyItemV::Sub(
                        BlockV {
                            before: "Ok(Item"@,
                            items: spec_item_ctor_lines(attrs),
                            after: ")"@,
                        },
                    ),
                ],
            },
        ],
    }
}

#[verifier::loop_isolation(false)]
pub fn generate_item_impl(element_descriptor: &ElementDescriptor) -> (r: Impl)
    ensures
        r@ == spec_item_impl(element_descriptor.attributes@),
{
    let ghost attrs = element_descriptor.attributes@;
    let mut create_function = Function::new("create").vis("pub").ret(
        Type::new("Result<Item, Error>"),
    ).arg("element", Type::new("&Element")).arg("parent", Type::new("&Group")).arg(
        "runtime",
        Type::new("&Runtime"),
    );
    let mut constructor = Block::new("Ok(Item").after(")");
    proof {
        assert(attrs.subrange(0, attrs.len() as int) =~= attrs);
        assert(create_function@.body + spec_item_create_body(attrs) =~= spec_item_create_body(
            attrs,
        ));
        assert(constructor@.items + spec_item_ctor_lines(attrs) =~= spec_item_ctor_lines(attrs));
    }
    let n = element_descriptor.attributes.len();
    let mut i: usize = 0;
    while i < n
        invariant
            i <= n,
            n == attrs.len(),
            create_function@.vis == "pub"@,
            create_function@.name == "create"@,
            !create_function@.self_arg,
            create_function@.args =~= seq![
                ("element"@, TypeV { name: "&Element"@, generics: Seq::<Seq<char>>::empty() }),
                ("parent"@, TypeV { name: "&Group"@, generics: Seq::<Seq<char>>::empty() }),
                ("runtime"@, TypeV { name: "&Runtime"@, generics: Seq::<Seq<char>>::empty() }),
            ],
            create_function@.ret == Option::Some(
                TypeV { name: "Result<Item, Error>"@, generics: Seq::<Seq<char>>::empty() },
            ),
            create_function@.body + spec_item_create_body(attrs.subrange(i as int, n as int))
                == spec_item_create_body(attrs),
            constructor@.before == "Ok(Item"@,
            constructor@.after == ")"@,
            constructor@.items + spec_item_ctor_lines(attrs.subrange(i as int, n as int))
                == spec_item_ctor_lines(attrs),
        decreases n - i,
    {
        let ghost suf = attrs.subrange(i as int, n as int);
        let ghost body0 = create_function@.body;
        let ghost ctor0 = constructor@.items;
        proof {
            assert(suf[0] == attrs[i as int]);
            assert(suf.drop_first() =~= attrs.subrange(i + 1, n as int));
        }
        let attribute = &element_descriptor.attributes[i];
        create_function = add_parameter_code(create_function, attribute);
        proof {
            assert(body0 + (spec_item_param_items(attrs[i as int]) + spec_item_create_body(
                attrs.subrange(i + 1, n as int),
            )) =~= (body0 + spec_item_param_items(attrs[i as int])) + spec_item_create_body(
                attrs.subrange(i + 1, n as int),
            ));
        }
        let line = String::from_str(attribute.name.as_str()).concat(": ").concat(
            attribute.name.as_str(),
        ).concat(",");
        constructor = constructor.line(line.as_str());
        proof {
            assert(ctor0 + (seq![
                BodyItemV::Line(attrs[i as int].name@ + ": "@ + attrs[i as int].name@ + ","@),
            ] + spec_item_ctor_lines(attrs.subrange(i + 1, n as int))) =~= ctor0.push(
                BodyItemV::Line(attrs[i as int].name@ + ": "@ + attrs[i as int].name@ + ","@),
            ) + spec_item_ctor_lines(attrs.subrange(i + 1, n as int)));
        }
        i = i + 1;
    }
    proof {
        assert(attrs.subrange(n as int, n as int) =~= Seq::<ParameterDescriptor>::empty());
        assert(create_function@.body + Seq::<BodyItemV>::empty() =~= create_function@.body);
        assert(constructor@.items + Seq::<BodyItemV>::empty() =~= constructor@.items);
    }
    let create_function = create_function.push_block(constructor);
    let result = Impl::new("Item").push_fn(create_function);
    proof {
        assert(result@ =~~= spec_item_impl(attrs));
    }
    result
}

} // verus!
