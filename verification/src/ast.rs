use vstd::prelude::*;

use crate::dependency_tracker::{
    spec_add, spec_segments, spec_use_lines, tree_view, DependencyTracker, TreeV,
};
use crate::text::spec_indent;

verus! {

// ------------------------------------------------------------------
// Node types
// ------------------------------------------------------------------

/// A type reference: a base name and optional generic arguments.
#[derive(Debug, Clone)]
pub struct Type {
    pub name: String,
    pub generics: Vec<String>,
}

/// A named struct field.
#[derive(Debug, Clone)]
pub struct Field {
    pub name: String,
    pub ty: Type,
}

/// An enum variant, optionally with tuple payload types.
#[derive(Debug, Clone)]
pub struct Variant {
    pub name: String,
    pub tuple: Vec<String>,
}

/// One element of a statement body: a plain line or a nested block.
#[derive(Debug)]
pub enum BodyItem {
    Line(String),
    Sub(Block),
}

/// A braced block: header text, contents in order, and a trailing suffix
/// written after the closing brace (for `;`, `,`, `)` and the like).
#[derive(Debug)]
pub struct Block {
    pub before: String,
    pub items: Vec<BodyItem>,
    pub after: String,
}

/// A free or associated function with its signature and body.
#[derive(Debug)]
pub struct Function {
    pub vis: String,
    pub name: String,
    pub self_arg: bool,
    pub args: Vec<(String, Type)>,
    pub ret: Option<Type>,
    pub body: Vec<BodyItem>,
}

/// A struct definition.
#[derive(Debug, Clone)]
pub struct Struct {
    pub vis: String,
    pub name: String,
    pub derives: Vec<String>,
    pub fields: Vec<Field>,
}

/// An enum definition.
#[derive(Debug, Clone)]
pub struct Enum {
    pub vis: String,
    pub name: String,
    pub derives: Vec<String>,
    pub variants: Vec<Variant>,
}

/// An implementation block.
#[derive(Debug)]
pub struct Impl {
    pub target: String,
    pub fns: Vec<Function>,
}

/// An item of a module body, kept in the order it was attached.
#[derive(Debug)]
pub enum ModuleItem {
    Struct(Struct),
    Impl(Impl),
    Fn(Function),
}

/// A named module: grouped imports first, then its items.
#[derive(Debug)]
pub struct Module {
    pub name: String,
    pub imports: DependencyTracker,
    pub items: Vec<ModuleItem>,
}

/// A top-level item of an output unit.
#[derive(Debug)]
pub enum ScopeItem {
    Module(Module),
    Struct(Struct),
    Enum(Enum),
    Impl(Impl),
    Fn(Function),
}

/// A whole output unit: top-level items in order.
#[derive(Debug)]
pub struct Scope {
    pub items: Vec<ScopeItem>,
}

// ------------------------------------------------------------------
// Ghost mirrors
// ------------------------------------------------------------------

#[verifier::ext_equal]
pub struct TypeV {
    pub name: Seq<char>,
    pub generics: Seq<Seq<char>>,
}

#[verifier::ext_equal]
pub struct FieldV {
    pub name: Seq<char>,
    pub ty: TypeV,
}

#[verifier::ext_equal]
pub struct VariantV {
    pub name: Seq<char>,
    pub tuple: Seq<Seq<char>>,
}

#[verifier::ext_equal]
pub enum BodyItemV {
    Line(Seq<char>),
    Sub(BlockV),
}

#[verifier::ext_equal]
pub struct BlockV {
    pub before: Seq<char>,
    pub items: Seq<BodyItemV>,
    pub after: Seq<char>,
}

#[verifier::ext_equal]
pub struct FunctionV {
    pub vis: Seq<char>,
    pub name: Seq<char>,
    pub self_arg: bool,
    pub args: Seq<(Seq<char>, TypeV)>,
    pub ret: Option<TypeV>,
    pub body: Seq<BodyItemV>,
}

#[verifier::ext_equal]
pub struct StructV {
    pub vis: Seq<char>,
    pub name: Seq<char>,
    pub derives: Seq<Seq<char>>,
    pub fields: Seq<FieldV>,
}

#[verifier::ext_equal]
pub struct EnumV {
    pub vis: Seq<char>,
    pub name: Seq<char>,
    pub derives: Seq<Seq<char>>,
    pub variants: Seq<VariantV>,
}

#[verifier::ext_equal]
pub struct ImplV {
    pub target: Seq<char>,
    pub fns: Seq<FunctionV>,
}

#[verifier::ext_equal]
pub enum ModuleItemV {
    Struct(StructV),
    Impl(ImplV),
    Fn(FunctionV),
}

#[verifier::ext_equal]
pub struct ModuleV {
    pub name: Seq<char>,
    pub imports: TreeV,
    pub items: Seq<ModuleItemV>,
}

#[verifier::ext_equal]
pub enum ScopeItemV {
    Module(ModuleV),
    Struct(StructV),
    Enum(EnumV),
    Impl(ImplV),
    Fn(FunctionV),
}

#[verifier::ext_equal]
pub struct ScopeV {
    pub items: Seq<ScopeItemV>,
}

// ------------------------------------------------------------------
// Views
// ------------------------------------------------------------------

impl View for Type {
    type V = TypeV;

    open spec fn view(&self) -> TypeV {
        TypeV { name: self.name@, generics: self.generics.deep_view() }
    }
}

impl View for Field {
    type V = FieldV;

    open spec fn view(&self) -> FieldV {
        FieldV { name: self.name@, ty: self.ty@ }
    }
}

impl View for Variant {
    type V = VariantV;

    open spec fn view(&self) -> VariantV {
        VariantV { name: self.name@, tuple: self.tuple.deep_view() }
    }
}

pub open spec fn body_item_view(b: BodyItem) -> BodyItemV
    decreases b, 2int,
{
    match b {
        BodyItem::Line(s) => BodyItemV::Line(s@),
        BodyItem::Sub(bl) => BodyItemV::Sub(block_view(bl)),
    }
}

pub open spec fn block_view(b: Block) -> BlockV
    decreases b, 1int,
{
    BlockV { before: b.before@, items: items_view(b.items@), after: b.after@ }
}

pub open spec fn items_view(s: Seq<BodyItem>) -> Seq<BodyItemV>
    decreases s, 3int,
{
    if s.len() == 0 {
        Seq::empty()
    } else {
        seq![body_item_view(s[0])] + items_view(s.drop_first())
    }
}

pub proof fn lemma_items_view(s: Seq<BodyItem>)
    ensures
        items_view(s).len() == s.len(),
        forall|i: int| 0 <= i < s.len() ==> items_view(s)[i] == body_item_view(s[i]),
    decreases s,
{
    if s.len() > 0 {
        lemma_items_view(s.drop_first());
        assert forall|i: int| 0 <= i < s.len() implies items_view(s)[i] == body_item_view(
            s[i],
        ) by {
            if i > 0 {
                assert(s.drop_first()[i - 1] == s[i]);
            }
        }
    }
}


pub proof fn lemma_items_view_push(s: Seq<BodyItem>, x: BodyItem)
    ensures
        items_view(s.push(x)) == items_view(s).push(body_item_view(x)),
{
    lemma_items_view(s);
    lemma_items_view(s.push(x));
    assert forall|k: int| 0 <= k < s.push(x).len() implies items_view(s.push(x))[k] == items_view(
        s,
    ).push(body_item_view(x))[k] by {
        if k < s.len() {
            assert(s.push(x)[k] == s[k]);
        } else {
            assert(s.push(x)[k] == x);
        }
    }
    assert(items_view(s.push(x)) =~= items_view(s).push(body_item_view(x)));
}

pub open spec fn args_view(s: Seq<(String, Type)>) -> Seq<(Seq<char>, TypeV)> {
    s.map_values(|p: (String, Type)| (p.0@, p.1@))
}

impl View for Block {
    type V = BlockV;

    open spec fn view(&self) -> BlockV {
        block_view(*self)
    }
}

impl View for Function {
    type V = FunctionV;

    open spec fn view(&self) -> FunctionV {
        FunctionV {
            vis: self.vis@,
            name: self.name@,
            self_arg: self.self_arg,
            args: args_view(self.args@),
            ret: match self.ret {
                Option::Some(t) => Option::Some(t@),
                Option::None => Option::None,
            },
            body: items_view(self.body@),
        }
    }
}

impl View for Struct {
    type V = StructV;

    open spec fn view(&self) -> StructV {
        StructV {
            vis: self.vis@,
            name: self.name@,
            derives: self.derives.deep_view(),
            fields: self.fields@.map_values(|f: Field| f@),
        }
    }
}

impl View for Enum {
    type V = EnumV;

    open spec fn view(&self) -> EnumV {
        EnumV {
            vis: self.vis@,
            name: self.name@,
            derives: self.derives.deep_view(),
            variants: self.variants@.map_values(|v: Variant| v@),
        }
    }
}

impl View for Impl {
    type V = ImplV;

    open spec fn view(&self) -> ImplV {
        ImplV { target: self.target@, fns: self.fns@.map_values(|f: Function| f@) }
    }
}

pub open spec fn module_item_view(m: ModuleItem) -> ModuleItemV {
    match m {
        ModuleItem::Struct(s) => ModuleItemV::Struct(s@),
        ModuleItem::Impl(i) => ModuleItemV::Impl(i@),
        ModuleItem::Fn(f) => ModuleItemV::Fn(f@),
    }
}

impl View for Module {
    type V = ModuleV;

    open spec fn view(&self) -> ModuleV {
        ModuleV {
            name: self.name@,
            imports: tree_view(self.imports.tree),
            items: self.items@.map_values(|m: ModuleItem| module_item_view(m)),
        }
    }
}

pub open spec fn scope_item_view(m: ScopeItem) -> ScopeItemV {
    match m {
        ScopeItem::Module(x) => ScopeItemV::Module(x@),
        ScopeItem::Struct(x) => ScopeItemV::Struct(x@),
        ScopeItem::Enum(x) => ScopeItemV::Enum(x@),
        ScopeItem::Impl(x) => ScopeItemV::Impl(x@),
        ScopeItem::Fn(x) => ScopeItemV::Fn(x@),
    }
}

impl View for Scope {
    type V = ScopeV;

    open spec fn view(&self) -> ScopeV {
        ScopeV { items: self.items@.map_values(|m: ScopeItem| scope_item_view(m)) }
    }
}

// ------------------------------------------------------------------
// Rendering specification
// ------------------------------------------------------------------

/// `xs` joined by `sep`, with nothing before or after.
pub open spec fn spec_join_texts(xs: Seq<Seq<char>>, sep: Seq<char>) -> Seq<char>
    decreases xs,
{
    if xs.len() == 0 {
        Seq::empty()
    } else if xs.len() == 1 {
        xs[0]
    } else {
        xs[0] + sep + spec_join_texts(xs.drop_first(), sep)
    }
}

pub open spec fn spec_render_type(t: TypeV) -> Seq<char> {
    if t.generics.len() == 0 {
        t.name
    } else {
        t.name + "<"@ + spec_join_texts(t.generics, ", "@) + ">"@
    }
}

/// `pub ` before an item, or nothing for private items.
pub open spec fn spec_vis(vis: Seq<char>) -> Seq<char> {
    if vis.len() == 0 {
        Seq::empty()
    } else {
        vis + " "@
    }
}

/// One `#[derive(..)]` line per derive.
pub open spec fn spec_render_derives(ds: Seq<Seq<char>>, ind: nat) -> Seq<char>
    decreases ds,
{
    if ds.len() == 0 {
        Seq::empty()
    } else {
        spec_indent(ind) + "#[derive("@ + ds[0] + ")]\n"@ + spec_render_derives(
            ds.drop_first(),
            ind,
        )
    }
}

pub open spec fn spec_render_fields(fs: Seq<FieldV>, ind: nat) -> Seq<char>
    decreases fs,
{
    if fs.len() == 0 {
        Seq::empty()
    } else {
        spec_indent(ind) + fs[0].name + ": "@ + spec_render_type(fs[0].ty) + ",\n"@
            + spec_render_fields(fs.drop_first(), ind)
    }
}

pub open spec fn spec_render_variants(vs: Seq<VariantV>, ind: nat) -> Seq<char>
    decreases vs,
{
    if vs.len() == 0 {
        Seq::empty()
    } else {
        spec_indent(ind) + vs[0].name + (if vs[0].tuple.len() == 0 {
            Seq::<char>::empty()
        } else {
            "("@ + spec_join_texts(vs[0].tuple, ", "@) + ")"@
        }) + ",\n"@ + spec_render_variants(vs.drop_first(), ind)
    }
}

/// A struct with no fields is a unit struct; otherwise its fields stand
/// one per line inside braces.
pub open spec fn spec_render_struct(s: StructV, ind: nat) -> Seq<char> {
    spec_render_derives(s.derives, ind) + spec_indent(ind) + spec_vis(s.vis) + "struct "@ + s.name
        + (if s.fields.len() == 0 {
        ";\n"@
    } else {
        " {\n"@ + spec_render_fields(s.fields, ind + 1) + spec_indent(ind) + "}\n"@
    })
}

pub open spec fn spec_render_enum(e: EnumV, ind: nat) -> Seq<char> {
    spec_render_derives(e.derives, ind) + spec_indent(ind) + spec_vis(e.vis) + "enum "@ + e.name
        + " {\n"@ + spec_render_variants(e.variants, ind + 1) + spec_indent(ind) + "}\n"@
}

pub open spec fn spec_render_body_item(b: BodyItemV, ind: nat) -> Seq<char>
    decreases b, 2int,
{
    match b {
        BodyItemV::Line(s) => spec_indent(ind) + s + "\n"@,
        BodyItemV::Sub(bl) => spec_render_block(bl, ind),
    }
}

pub open spec fn spec_render_block(b: BlockV, ind: nat) -> Seq<char>
    decreases b, 0int,
{
    spec_indent(ind) + b.before + " {\n"@ + spec_render_items(b.items, ind + 1) + spec_indent(ind)
        + "}"@ + b.after + "\n"@
}

pub open spec fn spec_render_items(items: Seq<BodyItemV>, ind: nat) -> Seq<char>
    decreases items, 1int,
{
    if items.len() == 0 {
        Seq::empty()
    } else {
        spec_render_body_item(items[0], ind) + spec_render_items(items.drop_first(), ind)
    }
}

pub open spec fn spec_render_arg(a: (Seq<char>, TypeV)) -> Seq<char> {
    a.0 + ": "@ + spec_render_type(a.1)
}

/// The parameter list: `&self` first when present, then `name: Type`
/// pairs, comma-separated.
pub open spec fn spec_render_args(f: FunctionV) -> Seq<char> {
    spec_join_texts(
        (if f.self_arg {
            seq!["&self"@]
        } else {
            Seq::empty()
        }) + f.args.map_values(|a: (Seq<char>, TypeV)| spec_render_arg(a)),
        ", "@,
    )
}

pub open spec fn spec_render_fn(f: FunctionV, ind: nat) -> Seq<char> {
    spec_indent(ind) + spec_vis(f.vis) + "fn "@ + f.name + "("@ + spec_render_args(f) + ")"@ + (
    match f.ret {
        Option::Some(t) => " -> "@ + spec_render_type(t),
        Option::None => Seq::empty(),
    }) + " {\n"@ + spec_render_items(f.body, ind + 1) + spec_indent(ind) + "}\n"@
}

pub open spec fn spec_render_fns(fs: Seq<FunctionV>, ind: nat) -> Seq<char>
    decreases fs,
{
    if fs.len() == 0 {
        Seq::empty()
    } else {
        spec_render_fn(fs[0], ind) + spec_render_fns(fs.drop_first(), ind)
    }
}

pub open spec fn spec_render_impl(i: ImplV, ind: nat) -> Seq<char> {
    spec_indent(ind) + "impl "@ + i.target + " {\n"@ + spec_render_fns(i.fns, ind + 1)
        + spec_indent(ind) + "}\n"@
}

pub open spec fn spec_render_module_item(m: ModuleItemV, ind: nat) -> Seq<char> {
    match m {
        ModuleItemV::Struct(s) => spec_render_struct(s, ind),
        ModuleItemV::Impl(i) => spec_render_impl(i, ind),
        ModuleItemV::Fn(f) => spec_render_fn(f, ind),
    }
}

pub open spec fn spec_render_module_items(ms: Seq<ModuleItemV>, ind: nat) -> Seq<char>
    decreases ms,
{
    if ms.len() == 0 {
        Seq::empty()
    } else {
        spec_render_module_item(ms[0], ind) + spec_render_module_items(ms.drop_first(), ind)
    }
}

pub open spec fn spec_render_module(m: ModuleV, ind: nat) -> Seq<char> {
    spec_indent(ind) + "mod "@ + m.name + " {\n"@ + spec_use_lines(m.imports.children, ind + 1)
        + spec_render_module_items(m.items, ind + 1) + spec_indent(ind) + "}\n"@
}

pub open spec fn spec_render_scope_item(m: ScopeItemV) -> Seq<char> {
    match m {
        ScopeItemV::Module(x) => spec_render_module(x, 0),
        ScopeItemV::Struct(x) => spec_render_struct(x, 0),
        ScopeItemV::Enum(x) => spec_render_enum(x, 0),
        ScopeItemV::Impl(x) => spec_render_impl(x, 0),
        ScopeItemV::Fn(x) => spec_render_fn(x, 0),
    }
}

/// The serialization of a whole output unit: its items in order, each a
/// pure function of the tree alone, so equal trees always serialize to
/// byte-identical text.
pub open spec fn spec_render_scope(s: ScopeV) -> Seq<char>
    decreases s.items.len(),
{
    if s.items.len() == 0 {
        Seq::empty()
    } else {
        spec_render_scope_item(s.items[0]) + spec_render_scope(
            ScopeV { items: s.items.drop_first() },
        )
    }
}

} // verus!

verus! {

// ------------------------------------------------------------------
// Builders
// ------------------------------------------------------------------

impl Type {
    pub fn new(name: &str) -> (t: Type)
        ensures
            t@ == (TypeV { name: name@, generics: Seq::empty() }),
    {
        let t = Type { name: String::from_str(name), generics: Vec::new() };
        proof {
            assert(t.generics.deep_view() =~= Seq::<Seq<char>>::empty());
        }
        t
    }

    /// Appends one generic argument.
    pub fn generic(self, g: &str) -> (t: Type)
        ensures
            t@ == (TypeV { name: self@.name, generics: self@.generics.push(g@) }),
    {
        let ghost g0 = self.generics.deep_view();
        let mut generics = self.generics;
        generics.push(String::from_str(g));
        proof {
            assert(generics.deep_view() =~= g0.push(g@));
        }
        Type { name: self.name, generics }
    }
}

impl Field {
    pub fn new(name: &str, ty: Type) -> (f: Field)
        ensures
            f@ == (FieldV { name: name@, ty: ty@ }),
    {
        Field { name: String::from_str(name), ty }
    }
}

impl Variant {
    pub fn new(name: &str) -> (v: Variant)
        ensures
            v@ == (VariantV { name: name@, tuple: Seq::empty() }),
    {
        let v = Variant { name: String::from_str(name), tuple: Vec::new() };
        proof {
            assert(v.tuple.deep_view() =~= Seq::<Seq<char>>::empty());
        }
        v
    }

    /// Appends one tuple payload type.
    pub fn tuple(self, ty: &str) -> (v: Variant)
        ensures
            v@ == (VariantV { name: self@.name, tuple: self@.tuple.push(ty@) }),
    {
        let ghost t0 = self.tuple.deep_view();
        let mut tuple = self.tuple;
        tuple.push(String::from_str(ty));
        proof {
            assert(tuple.deep_view() =~= t0.push(ty@));
        }
        Variant { name: self.name, tuple }
    }
}

impl Block {
    pub fn new(before: &str) -> (b: Block)
        ensures
            b@ == (BlockV { before: before@, items: Seq::empty(), after: Seq::empty() }),
    {
        let b = Block { before: String::from_str(before), items: Vec::new(), after: String::new() };
        proof {
            assert(items_view(b.items@) =~= Seq::<BodyItemV>::empty());
        }
        b
    }

    /// Appends one statement line.
    pub fn line(self, l: &str) -> (b: Block)
        ensures
            b@ == (BlockV {
                before: self@.before,
                items: self@.items.push(BodyItemV::Line(l@)),
                after: self@.after,
            }),
    {
        let ghost old_items = self.items@;
        let mut items = self.items;
        let item = BodyItem::Line(String::from_str(l));
        proof {
            lemma_items_view_push(old_items, item);
        }
        items.push(item);
        Block { before: self.before, items, after: self.after }
    }

    /// Appends one nested block.
    pub fn push_block(self, inner: Block) -> (b: Block)
        ensures
            b@ == (BlockV {
                before: self@.before,
                items: self@.items.push(BodyItemV::Sub(inner@)),
                after: self@.after,
            }),
    {
        let ghost old_items = self.items@;
        let mut items = self.items;
        let item = BodyItem::Sub(inner);
        proof {
            lemma_items_view_push(old_items, item);
        }
        items.push(item);
        Block { before: self.before, items, after: self.after }
    }

    /// Sets the text written after the closing brace.
    pub fn after(self, a: &str) -> (b: Block)
        ensures
            b@ == (BlockV { before: self@.before, items: self@.items, after: a@ }),
    {
        Block { before: self.before, items: self.items, after: String::from_str(a) }
    }
}

impl Function {
    pub fn new(name: &str) -> (f: Function)
        ensures
            f@ == (FunctionV {
                vis: Seq::empty(),
                name: name@,
                self_arg: false,
                args: Seq::empty(),
                ret: Option::None,
                body: Seq::empty(),
            }),
    {
        let f = Function {
            vis: String::new(),
            name: String::from_str(name),
            self_arg: false,
            args: Vec::new(),
            ret: None,
            body: Vec::new(),
        };
        proof {
            assert(args_view(f.args@) =~= Seq::<(Seq<char>, TypeV)>::empty());
            assert(items_view(f.body@) =~= Seq::<BodyItemV>::empty());
        }
        f
    }

    pub fn vis(self, v: &str) -> (f: Function)
        ensures
            f@ == (FunctionV { vis: v@, ..self@ }),
    {
        Function { vis: String::from_str(v), ..self }
    }

    /// Appends one named parameter.
    pub fn arg(self, name: &str, ty: Type) -> (f: Function)
        ensures
            f@ == (FunctionV { args: self@.args.push((name@, ty@)), ..self@ }),
    {
        let ghost a0 = args_view(self.args@);
        let ghost tyv = ty@;
        let mut args = self.args;
        args.push((String::from_str(name), ty));
        proof {
            assert(args_view(args@) =~= a0.push((name@, tyv)));
        }
        Function { args, ..self }
    }

    /// Makes the function take `&self` as its first parameter.
    pub fn arg_ref_self(self) -> (f: Function)
        ensures
            f@ == (FunctionV { self_arg: true, ..self@ }),
    {
        Function { self_arg: true, ..self }
    }

    pub fn ret(self, ty: Type) -> (f: Function)
        ensures
            f@ == (FunctionV { ret: Option::Some(ty@), ..self@ }),
    {
        Function { ret: Some(ty), ..self }
    }

    /// Appends one statement line to the body.
    pub fn line(self, l: &str) -> (f: Function)
        ensures
            f@ == (FunctionV { body: self@.body.push(BodyItemV::Line(l@)), ..self@ }),
    {
        let ghost old_body = self.body@;
        let mut body = self.body;
        let item = BodyItem::Line(String::from_str(l));
        proof {
            lemma_items_view_push(old_body, item);
        }
        body.push(item);
        Function { body, ..self }
    }

    /// Appends one nested block to the body.
    pub fn push_block(self, b: Block) -> (f: Function)
        ensures
            f@ == (FunctionV { body: self@.body.push(BodyItemV::Sub(b@)), ..self@ }),
    {
        let ghost old_body = self.body@;
        let mut body = self.body;
        let item = BodyItem::Sub(b);
        proof {
            lemma_items_view_push(old_body, item);
        }
        body.push(item);
        Function { body, ..self }
    }
}

impl Struct {
    pub fn new(name: &str) -> (s: Struct)
        ensures
            s@ == (StructV {
                vis: Seq::empty(),
                name: name@,
                derives: Seq::empty(),
                fields: Seq::empty(),
            }),
    {
        let s = Struct {
            vis: String::new(),
            name: String::from_str(name),
            derives: Vec::new(),
            fields: Vec::new(),
        };
        proof {
            assert(s.derives.deep_view() =~= Seq::<Seq<char>>::empty());
            assert(s.fields@.map_values(|f: Field| f@) =~= Seq::<FieldV>::empty());
        }
        s
    }

    pub fn vis(self, v: &str) -> (s: Struct)
        ensures
            s@ == (StructV { vis: v@, ..self@ }),
    {
        Struct { vis: String::from_str(v), ..self }
    }

    /// Appends one `#[derive(..)]` attribute.
    pub fn derive(self, d: &str) -> (s: Struct)
        ensures
            s@ == (StructV { derives: self@.derives.push(d@), ..self@ }),
    {
        let ghost d0 = self.derives.deep_view();
        let mut derives = self.derives;
        derives.push(String::from_str(d));
        proof {
            assert(derives.deep_view() =~= d0.push(d@));
        }
        Struct { derives, ..self }
    }

    /// Appends one named field.
    pub fn field(self, name: &str, ty: Type) -> (s: Struct)
        ensures
            s@ == (StructV { fields: self@.fields.push(FieldV { name: name@, ty: ty@ }), ..self@ }),
    {
        self.push_field(Field::new(name, ty))
    }

    pub fn push_field(self, f: Field) -> (s: Struct)
        ensures
            s@ == (StructV { fields: self@.fields.push(f@), ..self@ }),
    {
        let ghost f0 = self.fields@.map_values(|f: Field| f@);
        let ghost fv = f@;
        let mut fields = self.fields;
        fields.push(f);
        proof {
            assert(fields@.map_values(|f: Field| f@) =~= f0.push(fv));
        }
        Struct { fields, ..self }
    }
}

impl Enum {
    pub fn new(name: &str) -> (e: Enum)
        ensures
            e@ == (EnumV {
                vis: Seq::empty(),
                name: name@,
                derives: Seq::empty(),
                variants: Seq::empty(),
            }),
    {
        let e = Enum {
            vis: String::new(),
            name: String::from_str(name),
            derives: Vec::new(),
            variants: Vec::new(),
        };
        proof {
            assert(e.derives.deep_view() =~= Seq::<Seq<char>>::empty());
            assert(e.variants@.map_values(|v: Variant| v@) =~= Seq::<VariantV>::empty());
        }
        e
    }

    pub fn vis(self, v: &str) -> (e: Enum)
        ensures
            e@ == (EnumV { vis: v@, ..self@ }),
    {
        Enum { vis: String::from_str(v), ..self }
    }

    /// Appends one `#[derive(..)]` attribute.
    pub fn derive(self, d: &str) -> (e: Enum)
        ensures
            e@ == (EnumV { derives: self@.derives.push(d@), ..self@ }),
    {
        let ghost d0 = self.derives.deep_view();
        let mut derives = self.derives;
        derives.push(String::from_str(d));
        proof {
            assert(derives.deep_view() =~= d0.push(d@));
        }
        Enum { derives, ..self }
    }

    /// Appends one variant.
    pub fn push_variant(self, v: Variant) -> (e: Enum)
        ensures
            e@ == (EnumV { variants: self@.variants.push(v@), ..self@ }),
    {
        let ghost v0 = self.variants@.map_values(|v: Variant| v@);
        let ghost vv = v@;
        let mut variants = self.variants;
        variants.push(v);
        proof {
            assert(variants@.map_values(|v: Variant| v@) =~= v0.push(vv));
        }
        Enum { variants, ..self }
    }
}

impl Impl {
    pub fn new(target: &str) -> (i: Impl)
        ensures
            i@ == (ImplV { target: target@, fns: Seq::empty() }),
    {
        let i = Impl { target: String::from_str(target), fns: Vec::new() };
        proof {
            assert(i.fns@.map_values(|f: Function| f@) =~= Seq::<FunctionV>::empty());
        }
        i
    }

    /// Appends one associated function.
    pub fn push_fn(self, f: Function) -> (i: Impl)
        ensures
            i@ == (ImplV { target: self@.target, fns: self@.fns.push(f@) }),
    {
        let ghost f0 = self.fns@.map_values(|f: Function| f@);
        let ghost fv = f@;
        let mut fns = self.fns;
        fns.push(f);
        proof {
            assert(fns@.map_values(|f: Function| f@) =~= f0.push(fv));
        }
        Impl { target: self.target, fns }
    }
}

impl Module {
    pub fn new(name: &str) -> (m: Module)
        ensures
            m@ == (ModuleV {
                name: name@,
                imports: TreeV { value: Option::None, children: Seq::empty() },
                items: Seq::empty(),
            }),
    {
        let m = Module {
            name: String::from_str(name),
            imports: DependencyTracker::new(),
            items: Vec::new(),
        };
        proof {
            assert(m.items@.map_values(|x: ModuleItem| module_item_view(x)) =~= Seq::<
                ModuleItemV,
            >::empty());
        }
        m
    }

    /// Tracks one imported name, given as its path and the item name.
    pub fn import(self, path: &str, item: &str) -> (m: Module)
        ensures
            m@ == (ModuleV {
                imports: spec_add(
                    self@.imports,
                    spec_segments(path@ + "::"@ + item@),
                    0,
                ),
                ..self@
            }),
    {
        let full = String::from_str(path).concat("::").concat(item);
        let mut imports = self.imports;
        imports.track(full.as_str());
        Module { name: self.name, imports, items: self.items }
    }

    pub fn push_struct(self, s: Struct) -> (m: Module)
        ensures
            m@ == (ModuleV { items: self@.items.push(ModuleItemV::Struct(s@)), ..self@ }),
    {
        let ghost i0 = self.items@.map_values(|x: ModuleItem| module_item_view(x));
        let ghost sv = s@;
        let mut items = self.items;
        items.push(ModuleItem::Struct(s));
        proof {
            assert(items@.map_values(|x: ModuleItem| module_item_view(x)) =~= i0.push(
                ModuleItemV::Struct(sv),
            ));
        }
        Module { name: self.name, imports: self.imports, items }
    }

    pub fn push_impl(self, i: Impl) -> (m: Module)
        ensures
            m@ == (ModuleV { items: self@.items.push(ModuleItemV::Impl(i@)), ..self@ }),
    {
        let ghost i0 = self.items@.map_values(|x: ModuleItem| module_item_view(x));
        let ghost iv = i@;
        let mut items = self.items;
        items.push(ModuleItem::Impl(i));
        proof {
            assert(items@.map_values(|x: ModuleItem| module_item_view(x)) =~= i0.push(
                ModuleItemV::Impl(iv),
            ));
        }
        Module { name: self.name, imports: self.imports, items }
    }

    pub fn push_fn(self, f: Function) -> (m: Module)
        ensures
            m@ == (ModuleV { items: self@.items.push(ModuleItemV::Fn(f@)), ..self@ }),
    {
        let ghost i0 = self.items@.map_values(|x: ModuleItem| module_item_view(x));
        let ghost fv = f@;
        let mut items = self.items;
        items.push(ModuleItem::Fn(f));
        proof {
            assert(items@.map_values(|x: ModuleItem| module_item_view(x)) =~= i0.push(
                ModuleItemV::Fn(fv),
            ));
        }
        Module { name: self.name, imports: self.imports, items }
    }
}

impl Scope {
    pub fn new() -> (s: Scope)
        ensures
            s@ == (ScopeV { items: Seq::empty() }),
    {
        let s = Scope { items: Vec::new() };
        proof {
            assert(s.items@.map_values(|x: ScopeItem| scope_item_view(x)) =~= Seq::<
                ScopeItemV,
            >::empty());
        }
        s
    }

    pub fn push_module(self, m: Module) -> (s: Scope)
        ensures
            s@ == (ScopeV { items: self@.items.push(ScopeItemV::Module(m@)) }),
    {
        let ghost i0 = self.items@.map_values(|x: ScopeItem| scope_item_view(x));
        let ghost mv = m@;
        let mut items = self.items;
        items.push(ScopeItem::Module(m));
        proof {
            assert(items@.map_values(|x: ScopeItem| scope_item_view(x)) =~= i0.push(
                ScopeItemV::Module(mv),
            ));
        }
        Scope { items }
    }

    pub fn push_struct(self, x: Struct) -> (s: Scope)
        ensures
            s@ == (ScopeV { items: self@.items.push(ScopeItemV::Struct(x@)) }),
    {
        let ghost i0 = self.items@.map_values(|x: ScopeItem| scope_item_view(x));
        let ghost xv = x@;
        let mut items = self.items;
        items.push(ScopeItem::Struct(x));
        proof {
            assert(items@.map_values(|x: ScopeItem| scope_item_view(x)) =~= i0.push(
                ScopeItemV::Struct(xv),
            ));
        }
        Scope { items }
    }

    pub fn push_enum(self, x: Enum) -> (s: Scope)
        ensures
            s@ == (ScopeV { items: self@.items.push(ScopeItemV::Enum(x@)) }),
    {
        let ghost i0 = self.items@.map_values(|x: ScopeItem| scope_item_view(x));
        let ghost xv = x@;
        let mut items = self.items;
        items.push(ScopeItem::Enum(x));
        proof {
            assert(items@.map_values(|x: ScopeItem| scope_item_view(x)) =~= i0.push(
                ScopeItemV::Enum(xv),
            ));
        }
        Scope { items }
    }

    pub fn push_impl(self, x: Impl) -> (s: Scope)
        ensures
            s@ == (ScopeV { items: self@.items.push(ScopeItemV::Impl(x@)) }),
    {
        let ghost i0 = self.items@.map_values(|x: ScopeItem| scope_item_view(x));
        let ghost xv = x@;
        let mut items = self.items;
        items.push(ScopeItem::Impl(x));
        proof {
            assert(items@.map_values(|x: ScopeItem| scope_item_view(x)) =~= i0.push(
                ScopeItemV::Impl(xv),
            ));
        }
        Scope { items }
    }

    pub fn push_fn(self, x: Function) -> (s: Scope)
        ensures
            s@ == (ScopeV { items: self@.items.push(ScopeItemV::Fn(x@)) }),
    {
        let ghost i0 = self.items@.map_values(|x: ScopeItem| scope_item_view(x));
        let ghost xv = x@;
        let mut items = self.items;
        items.push(ScopeItem::Fn(x));
        proof {
            assert(items@.map_values(|x: ScopeItem| scope_item_view(x)) =~= i0.push(
                ScopeItemV::Fn(xv),
            ));
        }
        Scope { items }
    }
}

} // verus!

verus! {

// ------------------------------------------------------------------
// Serialization
// ------------------------------------------------------------------

/// Everything after the first element: each further element is preceded
/// by the separator.
pub open spec fn spec_sep_tail(xs: Seq<Seq<char>>, sep: Seq<char>) -> Seq<char>
    decreases xs,
{
    if xs.len() == 0 {
        Seq::empty()
    } else {
        sep + xs[0] + spec_sep_tail(xs.drop_first(), sep)
    }
}

proof fn lemma_join_texts_tail(xs: Seq<Seq<char>>, sep: Seq<char>)
    requires
        xs.len() >= 1,
    ensures
        spec_join_texts(xs, sep) == xs[0] + spec_sep_tail(xs.drop_first(), sep),
    decreases xs,
{
    if xs.len() == 1 {
        assert(xs.drop_first().len() == 0);
        assert(xs[0] + spec_sep_tail(xs.drop_first(), sep) =~= xs[0]);
    } else {
        lemma_join_texts_tail(xs.drop_first(), sep);
        assert(xs[0] + (sep + spec_join_texts(xs.drop_first(), sep)) =~= xs[0] + sep
            + spec_join_texts(xs.drop_first(), sep));
        assert(xs.drop_first()[0] + spec_sep_tail(xs.drop_first().drop_first(), sep)
            == spec_join_texts(xs.drop_first(), sep));
        assert(xs[0] + (sep + (xs.drop_first()[0] + spec_sep_tail(
            xs.drop_first().drop_first(),
            sep,
        ))) =~= xs[0] + spec_sep_tail(xs.drop_first(), sep));
    }
}

/// Appends the elements of `xs` joined by `sep`.
pub(crate) fn join_strings_into(xs: &Vec<String>, sep: &str, out: &mut String)
    ensures
        final(out)@ == old(out)@ + spec_join_texts(xs.deep_view(), sep@),
{
    let ghost dv = xs.deep_view();
    let ghost target = old(out)@ + spec_join_texts(dv, sep@);
    let n = xs.len();
    if n == 0 {
        proof {
            assert(out@ =~= target);
        }
        return ;
    }
    proof {
        lemma_join_texts_tail(dv, sep@);
        assert(dv[0] == xs@[0]@);
    }
    let first: &String = &xs[0];
    out.append(first.as_str());
    proof {
        assert(dv.drop_first() =~= dv.subrange(1, n as int));
        assert(out@ + spec_sep_tail(dv.subrange(1, n as int), sep@) =~= target);
    }
    let mut i: usize = 1;
    while i < n
        invariant
            1 <= i <= n,
            n == xs@.len(),
            dv == xs.deep_view(),
            dv.len() == n,
            out@ + spec_sep_tail(dv.subrange(i as int, n as int), sep@) == target,
        decreases n - i,
    {
        let ghost suf = dv.subrange(i as int, n as int);
        proof {
            assert(suf[0] == dv[i as int]);
            assert(dv[i as int] == xs@[i as int]@);
            assert(suf.drop_first() =~= dv.subrange(i + 1, n as int));
        }
        out.append(sep);
        let x: &String = &xs[i];
        out.append(x.as_str());
        proof {
            assert(out@ + spec_sep_tail(dv.subrange(i + 1, n as int), sep@) =~= target);
        }
        i = i + 1;
    }
    proof {
        assert(dv.subrange(n as int, n as int) =~= Seq::<Seq<char>>::empty());
        assert(out@ =~= target);
    }
}

impl Type {
    /// The rendered type reference.
    pub fn to_text(&self) -> (r: String)
        ensures
            r@ == spec_render_type(self@),
    {
        let mut out = self.name.clone();
        if self.generics.len() > 0 {
            out.append("<");
            join_strings_into(&self.generics, ", ", &mut out);
            out.append(">");
            proof {
                assert(out@ =~= spec_render_type(self@));
            }
        } else {
            proof {
                assert(out@ =~= spec_render_type(self@));
            }
        }
        out
    }
}

fn render_derives_into(ds: &Vec<String>, indent: &String, Ghost(lvl): Ghost<nat>, out: &mut String)
    requires
        indent@ == spec_indent(lvl),
    ensures
        final(out)@ == old(out)@ + spec_render_derives(ds.deep_view(), lvl),
{
    let ghost dv = ds.deep_view();
    let ghost target = old(out)@ + spec_render_derives(dv, lvl);
    let n = ds.len();
    proof {
        assert(dv.subrange(0, n as int) =~= dv);
        assert(out@ + spec_render_derives(dv, lvl) =~= target);
    }
    let mut i: usize = 0;
    while i < n
        invariant
            i <= n,
            n == ds@.len(),
            dv == ds.deep_view(),
            dv.len() == n,
            indent@ == spec_indent(lvl),
            out@ + spec_render_derives(dv.subrange(i as int, n as int), lvl) == target,
        decreases n - i,
    {
        let ghost suf = dv.subrange(i as int, n as int);
        proof {
            assert(suf[0] == dv[i as int]);
            assert(dv[i as int] == ds@[i as int]@);
            assert(suf.drop_first() =~= dv.subrange(i + 1, n as int));
        }
        out.append(indent.as_str());
        out.append("#[derive(");
        let d: &String = &ds[i];
        out.append(d.as_str());
        out.append(")]\n");
        proof {
            assert(out@ + spec_render_derives(dv.subrange(i + 1, n as int), lvl) =~= target);
        }
        i = i + 1;
    }
    proof {
        assert(dv.subrange(n as int, n as int) =~= Seq::<Seq<char>>::empty());
        assert(out@ =~= target);
    }
}

fn render_fields_into(fs: &Vec<Field>, indent: &String, Ghost(lvl): Ghost<nat>, out: &mut String)
    requires
        indent@ == spec_indent(lvl),
    ensures
        final(out)@ == old(out)@ + spec_render_fields(
            fs@.map_values(|f: Field| f@),
            lvl,
        ),
{
    let ghost fv = fs@.map_values(|f: Field| f@);
    let ghost target = old(out)@ + spec_render_fields(fv, lvl);
    let n = fs.len();
    proof {
        assert(fv.subrange(0, n as int) =~= fv);
        assert(out@ + spec_render_fields(fv, lvl) =~= target);
    }
    let mut i: usize = 0;
    while i < n
        invariant
            i <= n,
            n == fs@.len(),
            fv == fs@.map_values(|f: Field| f@),
            fv.len() == n,
            indent@ == spec_indent(lvl),
            out@ + spec_render_fields(fv.subrange(i as int, n as int), lvl) == target,
        decreases n - i,
    {
        let ghost suf = fv.subrange(i as int, n as int);
        proof {
            assert(suf[0] == fv[i as int]);
            assert(fv[i as int] == fs@[i as int]@);
            assert(suf.drop_first() =~= fv.subrange(i + 1, n as int));
        }
        out.append(indent.as_str());
        let f: &Field = &fs[i];
        out.append(f.name.as_str());
        out.append(": ");
        let ty = f.ty.to_text();
        out.append(ty.as_str());
        out.append(",\n");
        proof {
            assert(out@ + spec_render_fields(fv.subrange(i + 1, n as int), lvl) =~= target);
        }
        i = i + 1;
    }
    proof {
        assert(fv.subrange(n as int, n as int) =~= Seq::<FieldV>::empty());
        assert(out@ =~= target);
    }
}

fn render_variants_into(
    vs: &Vec<Variant>,
    indent: &String,
    Ghost(lvl): Ghost<nat>,
    out: &mut String,
)
    requires
        indent@ == spec_indent(lvl),
    ensures
        final(out)@ == old(out)@ + spec_render_variants(
            vs@.map_values(|v: Variant| v@),
            lvl,
        ),
{
    let ghost vv = vs@.map_values(|v: Variant| v@);
    let ghost target = old(out)@ + spec_render_variants(vv, lvl);
    let n = vs.len();
    proof {
        assert(vv.subrange(0, n as int) =~= vv);
        assert(out@ + spec_render_variants(vv, lvl) =~= target);
    }
    let mut i: usize = 0;
    while i < n
        invariant
            i <= n,
            n == vs@.len(),
            vv == vs@.map_values(|v: Variant| v@),
            vv.len() == n,
            indent@ == spec_indent(lvl),
            out@ + spec_render_variants(vv.subrange(i as int, n as int), lvl) == target,
        decreases n - i,
    {
        let ghost suf = vv.subrange(i as int, n as int);
        proof {
            assert(suf[0] == vv[i as int]);
            assert(vv[i as int] == vs@[i as int]@);
            assert(suf.drop_first() =~= vv.subrange(i + 1, n as int));
        }
        out.append(indent.as_str());
        let v: &Variant = &vs[i];
        out.append(v.name.as_str());
        if v.tuple.len() > 0 {
            out.append("(");
            join_strings_into(&v.tuple, ", ", out);
            out.append(")");
        }
        out.append(",\n");
        proof {
            assert(out@ + spec_render_variants(vv.subrange(i + 1, n as int), lvl) =~= target);
        }
        i = i + 1;
    }
    proof {
        assert(vv.subrange(n as int, n as int) =~= Seq::<VariantV>::empty());
        assert(out@ =~= target);
    }
}

/// Appends `vis` followed by one space, or nothing when `vis` is empty.
fn render_vis_into(vis: &String, out: &mut String)
    ensures
        final(out)@ == old(out)@ + spec_vis(vis@),
{
    if vis.as_str().unicode_len() > 0 {
        out.append(vis.as_str());
        out.append(" ");
    } else {
        proof {
            assert(vis@ =~= Seq::<char>::empty());
            assert(out@ =~= old(out)@ + spec_vis(vis@));
        }
    }
}

/// One more indentation level than `indent`.
fn deeper(indent: &String, Ghost(lvl): Ghost<nat>) -> (r: String)
    requires
        indent@ == spec_indent(lvl),
    ensures
        r@ == spec_indent(lvl + 1),
{
    let mut r = indent.clone();
    r.append("    ");
    r
}

impl Struct {
    /// The serialized definition at the given indentation level.
    fn render_into(&self, indent: &String, Ghost(lvl): Ghost<nat>, out: &mut String)
        requires
            indent@ == spec_indent(lvl),
        ensures
            final(out)@ == old(out)@ + spec_render_struct(self@, lvl),
    {
        render_derives_into(&self.derives, indent, Ghost(lvl), out);
        out.append(indent.as_str());
        render_vis_into(&self.vis, out);
        out.append("struct ");
        out.append(self.name.as_str());
        if self.fields.len() == 0 {
            out.append(";\n");
            proof {
                assert(self@.fields.len() == 0);
                assert(out@ =~= old(out)@ + spec_render_struct(self@, lvl));
            }
        } else {
            out.append(" {\n");
            let ind2 = deeper(indent, Ghost(lvl));
            render_fields_into(&self.fields, &ind2, Ghost(lvl + 1), out);
            out.append(indent.as_str());
            out.append("}\n");
            proof {
                assert(out@ =~= old(out)@ + spec_render_struct(self@, lvl));
            }
        }
    }

    /// The serialized definition, as a top-level item.
    pub fn to_text(&self) -> (r: String)
        ensures
            r@ == spec_render_struct(self@, 0),
    {
        let mut out = String::new();
        let ind = String::new();
        proof {
            assert(ind@ =~= spec_indent(0));
        }
        self.render_into(&ind, Ghost(0), &mut out);
        proof {
            assert(out@ =~= spec_render_struct(self@, 0));
        }
        out
    }
}

impl Enum {
    fn render_into(&self, indent: &String, Ghost(lvl): Ghost<nat>, out: &mut String)
        requires
            indent@ == spec_indent(lvl),
        ensures
            final(out)@ == old(out)@ + spec_render_enum(self@, lvl),
    {
        render_derives_into(&self.derives, indent, Ghost(lvl), out);
        out.append(indent.as_str());
        render_vis_into(&self.vis, out);
        out.append("enum ");
        out.append(self.name.as_str());
        out.append(" {\n");
        let ind2 = deeper(indent, Ghost(lvl));
        render_variants_into(&self.variants, &ind2, Ghost(lvl + 1), out);
        out.append(indent.as_str());
        out.append("}\n");
        proof {
            assert(out@ =~= old(out)@ + spec_render_enum(self@, lvl));
        }
    }

    /// The serialized definition, as a top-level item.
    pub fn to_text(&self) -> (r: String)
        ensures
            r@ == spec_render_enum(self@, 0),
    {
        let mut out = String::new();
        let ind = String::new();
        proof {
            assert(ind@ =~= spec_indent(0));
        }
        self.render_into(&ind, Ghost(0), &mut out);
        proof {
            assert(out@ =~= spec_render_enum(self@, 0));
        }
        out
    }
}

} // verus!

verus! {

fn render_body_item_into(
    bi: &BodyItem,
    indent: &String,
    Ghost(lvl): Ghost<nat>,
    out: &mut String,
)
    requires
        indent@ == spec_indent(lvl),
    ensures
        final(out)@ == old(out)@ + spec_render_body_item(body_item_view(*bi), lvl),
    decreases *bi, 2int,
{
    match bi {
        BodyItem::Line(s) => {
            out.append(indent.as_str());
            out.append(s.as_str());
            out.append("\n");
            proof {
                assert(out@ =~= old(out)@ + spec_render_body_item(body_item_view(*bi), lvl));
            }
        },
        BodyItem::Sub(bl) => {
            render_block_into(bl, indent, Ghost(lvl), out);
        },
    }
}

fn render_block_into(b: &Block, indent: &String, Ghost(lvl): Ghost<nat>, out: &mut String)
    requires
        indent@ == spec_indent(lvl),
    ensures
        final(out)@ == old(out)@ + spec_render_block(block_view(*b), lvl),
    decreases *b, 0int,
{
    out.append(indent.as_str());
    out.append(b.before.as_str());
    out.append(" {\n");
    let ind2 = deeper(indent, Ghost(lvl));
    render_items_into(&b.items, &ind2, Ghost(lvl + 1), out);
    out.append(indent.as_str());
    out.append("}");
    out.append(b.after.as_str());
    out.append("\n");
    proof {
        assert(out@ =~= old(out)@ + spec_render_block(block_view(*b), lvl));
    }
}

fn render_items_into(
    items: &Vec<BodyItem>,
    indent: &String,
    Ghost(lvl): Ghost<nat>,
    out: &mut String,
)
    requires
        indent@ == spec_indent(lvl),
    ensures
        final(out)@ == old(out)@ + spec_render_items(items_view(items@), lvl),
    decreases *items, 1int,
{
    let ghost iv = items_view(items@);
    let ghost target = old(out)@ + spec_render_items(iv, lvl);
    proof {
        lemma_items_view(items@);
        assert(iv.subrange(0, iv.len() as int) =~= iv);
        assert(out@ + spec_render_items(iv, lvl) =~= target);
    }
    let n = items.len();
    let mut i: usize = 0;
    while i < n
        invariant
            i <= n,
            n == items@.len(),
            iv == items_view(items@),
            iv.len() == n,
            forall|k: int| 0 <= k < n ==> iv[k] == body_item_view(items@[k]),
            indent@ == spec_indent(lvl),
            out@ + spec_render_items(iv.subrange(i as int, n as int), lvl) == target,
        decreases n - i,
    {
        let ghost suf = iv.subrange(i as int, n as int);
        proof {
            assert(suf[0] == iv[i as int]);
            assert(suf.drop_first() =~= iv.subrange(i + 1, n as int));
        }
        render_body_item_into(&items[i], indent, Ghost(lvl), out);
        proof {
            assert(out@ + spec_render_items(iv.subrange(i + 1, n as int), lvl) =~= target);
        }
        i = i + 1;
    }
    proof {
        assert(iv.subrange(n as int, n as int) =~= Seq::<BodyItemV>::empty());
        assert(out@ =~= target);
    }
}

/// The rendered parameter texts: `&self` first when present, then each
/// argument as `name: Type`.
fn arg_texts(f: &Function) -> (r: Vec<String>)
    ensures
        r.deep_view() == (if f@.self_arg {
            seq!["&self"@]
        } else {
            Seq::<Seq<char>>::empty()
        }) + f@.args.map_values(|a: (Seq<char>, TypeV)| spec_render_arg(a)),
{
    let ghost mapped = f@.args.map_values(|a: (Seq<char>, TypeV)| spec_render_arg(a));
    let ghost prefix: Seq<Seq<char>> = if f@.self_arg {
        seq!["&self"@]
    } else {
        Seq::<Seq<char>>::empty()
    };
    let mut r: Vec<String> = Vec::new();
    if f.self_arg {
        r.push(String::from_str("&self"));
    }
    proof {
        assert(r.deep_view() =~= prefix + mapped.subrange(0, 0));
    }
    let n = f.args.len();
    proof {
        assert(mapped.len() == n);
    }
    let mut i: usize = 0;
    while i < n
        invariant
            i <= n,
            n == f.args@.len(),
            mapped == f@.args.map_values(|a: (Seq<char>, TypeV)| spec_render_arg(a)),
            prefix == (if f@.self_arg {
                seq!["&self"@]
            } else {
                Seq::<Seq<char>>::empty()
            }),
            mapped.len() == n,
            f@.args.len() == n,
            r.deep_view() == prefix + mapped.subrange(0, i as int),
        decreases n - i,
    {
        let ghost r0 = r.deep_view();
        let pair: &(String, Type) = &f.args[i];
        let mut text = pair.0.clone();
        text.append(": ");
        let ty = pair.1.to_text();
        text.append(ty.as_str());
        proof {
            assert(f@.args[i as int] == (f.args@[i as int].0@, f.args@[i as int].1@));
            assert(mapped[i as int] == spec_render_arg(f@.args[i as int]));
            assert(text@ == mapped[i as int]);
        }
        r.push(text);
        proof {
            assert(r.deep_view() =~= r0.push(mapped[i as int]));
            assert(r0.push(mapped[i as int]) =~= prefix + mapped.subrange(0, i + 1));
        }
        i = i + 1;
    }
    proof {
        assert(mapped.subrange(0, n as int) =~= mapped);
    }
    r
}

impl Function {
    fn render_into(&self, indent: &String, Ghost(lvl): Ghost<nat>, out: &mut String)
        requires
            indent@ == spec_indent(lvl),
        ensures
            final(out)@ == old(out)@ + spec_render_fn(self@, lvl),
    {
        out.append(indent.as_str());
        render_vis_into(&self.vis, out);
        out.append("fn ");
        out.append(self.name.as_str());
        out.append("(");
        let args = arg_texts(self);
        join_strings_into(&args, ", ", out);
        out.append(")");
        match &self.ret {
            Some(t) => {
                out.append(" -> ");
                let ty = t.to_text();
                out.append(ty.as_str());
            },
            None => {},
        }
        out.append(" {\n");
        let ind2 = deeper(indent, Ghost(lvl));
        render_items_into(&self.body, &ind2, Ghost(lvl + 1), out);
        out.append(indent.as_str());
        out.append("}\n");
        proof {
            assert(out@ =~= old(out)@ + spec_render_fn(self@, lvl));
        }
    }

    /// The serialized definition, as a top-level item.
    pub fn to_text(&self) -> (r: String)
        ensures
            r@ == spec_render_fn(self@, 0),
    {
        let mut out = String::new();
        let ind = String::new();
        proof {
            assert(ind@ =~= spec_indent(0));
        }
        self.render_into(&ind, Ghost(0), &mut out);
        proof {
            assert(out@ =~= spec_render_fn(self@, 0));
        }
        out
    }
}

fn render_fns_into(fs: &Vec<Function>, indent: &String, Ghost(lvl): Ghost<nat>, out: &mut String)
    requires
        indent@ == spec_indent(lvl),
    ensures
        final(out)@ == old(out)@ + spec_render_fns(fs@.map_values(|f: Function| f@), lvl),
{
    let ghost fv = fs@.map_values(|f: Function| f@);
    let ghost target = old(out)@ + spec_render_fns(fv, lvl);
    let n = fs.len();
    proof {
        assert(fv.subrange(0, n as int) =~= fv);
        assert(out@ + spec_render_fns(fv, lvl) =~= target);
    }
    let mut i: usize = 0;
    while i < n
        invariant
            i <= n,
            n == fs@.len(),
            fv == fs@.map_values(|f: Function| f@),
            fv.len() == n,
            indent@ == spec_indent(lvl),
            out@ + spec_render_fns(fv.subrange(i as int, n as int), lvl) == target,
        decreases n - i,
    {
        let ghost suf = fv.subrange(i as int, n as int);
        proof {
            assert(suf[0] == fv[i as int]);
            assert(fv[i as int] == fs@[i as int]@);
            assert(suf.drop_first() =~= fv.subrange(i + 1, n as int));
        }
        fs[i].render_into(indent, Ghost(lvl), out);
        proof {
            assert(out@ + spec_render_fns(fv.subrange(i + 1, n as int), lvl) =~= target);
        }
        i = i + 1;
    }
    proof {
        assert(fv.subrange(n as int, n as int) =~= Seq::<FunctionV>::empty());
        assert(out@ =~= target);
    }
}

impl Impl {
    fn render_into(&self, indent: &String, Ghost(lvl): Ghost<nat>, out: &mut String)
        requires
            indent@ == spec_indent(lvl),
        ensures
            final(out)@ == old(out)@ + spec_render_impl(self@, lvl),
    {
        out.append(indent.as_str());
        out.append("impl ");
        out.append(self.target.as_str());
        out.append(" {\n");
        let ind2 = deeper(indent, Ghost(lvl));
        render_fns_into(&self.fns, &ind2, Ghost(lvl + 1), out);
        out.append(indent.as_str());
        out.append("}\n");
        proof {
            assert(out@ =~= old(out)@ + spec_render_impl(self@, lvl));
        }
    }

    /// The serialized definition, as a top-level item.
    pub fn to_text(&self) -> (r: String)
        ensures
            r@ == spec_render_impl(self@, 0),
    {
        let mut out = String::new();
        let ind = String::new();
        proof {
            assert(ind@ =~= spec_indent(0));
        }
        self.render_into(&ind, Ghost(0), &mut out);
        proof {
            assert(out@ =~= spec_render_impl(self@, 0));
        }
        out
    }
}

impl Module {
    fn render_into(&self, indent: &String, Ghost(lvl): Ghost<nat>, out: &mut String)
        requires
            indent@ == spec_indent(lvl),
        ensures
            final(out)@ == old(out)@ + spec_render_module(self@, lvl),
    {
        out.append(indent.as_str());
        out.append("mod ");
        out.append(self.name.as_str());
        out.append(" {\n");
        proof {
            crate::text::lemma_indent_len(lvl);
        }
        let n_ind = indent.as_str().unicode_len();
        proof {
            assert(n_ind / 4 == lvl) by (nonlinear_arith)
                requires n_ind == 4 * lvl;
        }
        let uses = self.imports.write(n_ind / 4 + 1);
        out.append(uses.as_str());
        let ind2 = deeper(indent, Ghost(lvl));
        render_module_items_into(&self.items, &ind2, Ghost(lvl + 1), out);
        out.append(indent.as_str());
        out.append("}\n");
        proof {
            assert(out@ =~= old(out)@ + spec_render_module(self@, lvl));
        }
    }
}

fn render_module_items_into(
    ms: &Vec<ModuleItem>,
    indent: &String,
    Ghost(lvl): Ghost<nat>,
    out: &mut String,
)
    requires
        indent@ == spec_indent(lvl),
    ensures
        final(out)@ == old(out)@ + spec_render_module_items(
            ms@.map_values(|m: ModuleItem| module_item_view(m)),
            lvl,
        ),
{
    let ghost mv = ms@.map_values(|m: ModuleItem| module_item_view(m));
    let ghost target = old(out)@ + spec_render_module_items(mv, lvl);
    let n = ms.len();
    proof {
        assert(mv.subrange(0, n as int) =~= mv);
        assert(out@ + spec_render_module_items(mv, lvl) =~= target);
    }
    let mut i: usize = 0;
    while i < n
        invariant
            i <= n,
            n == ms@.len(),
            mv == ms@.map_values(|m: ModuleItem| module_item_view(m)),
            mv.len() == n,
            indent@ == spec_indent(lvl),
            out@ + spec_render_module_items(mv.subrange(i as int, n as int), lvl) == target,
        decreases n - i,
    {
        let ghost suf = mv.subrange(i as int, n as int);
        proof {
            assert(suf[0] == mv[i as int]);
            assert(mv[i as int] == module_item_view(ms@[i as int]));
            assert(suf.drop_first() =~= mv.subrange(i + 1, n as int));
        }
        match &ms[i] {
            ModuleItem::Struct(s) => s.render_into(indent, Ghost(lvl), out),
            ModuleItem::Impl(x) => x.render_into(indent, Ghost(lvl), out),
            ModuleItem::Fn(f) => f.render_into(indent, Ghost(lvl), out),
        }
        proof {
            assert(out@ + spec_render_module_items(mv.subrange(i + 1, n as int), lvl) =~= target);
        }
        i = i + 1;
    }
    proof {
        assert(mv.subrange(n as int, n as int) =~= Seq::<ModuleItemV>::empty());
        assert(out@ =~= target);
    }
}

impl Scope {
    /// Serializes the whole output unit.  The result is a pure function
    /// of the tree: rendering the same tree twice yields byte-identical
    /// text.
    pub fn to_string(&self) -> (r: String)
        ensures
            r@ == spec_render_scope(self@),
    {
        let ghost sv = self@;
        let mut out = String::new();
        let ind = String::new();
        proof {
            assert(ind@ =~= spec_indent(0));
        }
        let n = self.items.len();
        proof {
            assert(sv.items.len() == n);
            assert((ScopeV { items: sv.items.subrange(0, n as int) }) =~= sv);
            assert(out@ + spec_render_scope(ScopeV { items: sv.items.subrange(0, n as int) })
                =~= spec_render_scope(sv));
        }
        let mut i: usize = 0;
        while i < n
            invariant
                i <= n,
                n == self.items@.len(),
                sv == self@,
                sv.items.len() == n,
                ind@ == spec_indent(0),
                out@ + spec_render_scope(ScopeV { items: sv.items.subrange(i as int, n as int) })
                    == spec_render_scope(sv),
            decreases n - i,
        {
            let ghost suf = sv.items.subrange(i as int, n as int);
            proof {
                assert(suf[0] == sv.items[i as int]);
                assert(sv.items[i as int] == scope_item_view(self.items@[i as int]));
                assert(suf.drop_first() =~= sv.items.subrange(i + 1, n as int));
                assert((ScopeV { items: suf }).items.drop_first() =~= sv.items.subrange(
                    i + 1,
                    n as int,
                ));
            }
            match &self.items[i] {
                ScopeItem::Module(m) => m.render_into(&ind, Ghost(0), &mut out),
                ScopeItem::Struct(s) => s.render_into(&ind, Ghost(0), &mut out),
                ScopeItem::Enum(e) => e.render_into(&ind, Ghost(0), &mut out),
                ScopeItem::Impl(x) => x.render_into(&ind, Ghost(0), &mut out),
                ScopeItem::Fn(f) => f.render_into(&ind, Ghost(0), &mut out),
            }
            proof {
                assert(out@ + spec_render_scope(
                    ScopeV { items: sv.items.subrange(i + 1, n as int) },
                ) =~= spec_render_scope(sv));
            }
            i = i + 1;
        }
        proof {
            assert(sv.items.subrange(n as int, n as int) =~= Seq::<ScopeItemV>::empty());
            assert(out@ =~= spec_render_scope(sv));
        }
        out
    }
}

/// Law: serialization is deterministic.  Any two serializations of the
/// same tree are character-for-character identical, so serializing a
/// tree twice yields byte-identical text.
pub proof fn lemma_serialization_deterministic(sv: ScopeV, t1: Seq<char>, t2: Seq<char>)
    requires
        t1 == spec_render_scope(sv),
        t2 == spec_render_scope(sv),
    ensures
        t1 == t2,
{
}

} // verus!
