//! A source file in outline: its items without their bodies, as text, and
//! what it declares, with the lines where each thing stands.

use vstd::prelude::*;
use vstd::string::StringExecFns;

verus! {

/// A parameter of a function.
#[derive(Debug)]
pub enum Param {
    /// `self` in any form.
    Receiver,
    /// A pattern and its type, each as its tokens write it.
    Typed { name: String, ty: String },
}

/// The mathematical value of a [`Param`].
pub ghost enum ParamView {
    Receiver,
    Typed { name: Seq<char>, ty: Seq<char> },
}

impl View for Param {
    type V = ParamView;

    open spec fn view(&self) -> ParamView {
        match self {
            Param::Receiver => ParamView::Receiver,
            Param::Typed { name, ty } => ParamView::Typed { name: name@, ty: ty@ },
        }
    }
}

/// The head of a function: its name, its parameters and the type it
/// returns, where it names one.
#[derive(Debug)]
pub struct FnSignature {
    pub name: String,
    pub params: Vec<Param>,
    pub return_type: Option<String>,
}

/// The mathematical value of a [`FnSignature`].
pub ghost struct SignatureView {
    pub name: Seq<char>,
    pub params: Seq<ParamView>,
    pub return_type: Option<Seq<char>>,
}

impl View for FnSignature {
    type V = SignatureView;

    open spec fn view(&self) -> SignatureView {
        SignatureView {
            name: self.name@,
            params: Seq::new(self.params@.len(), |i: int| self.params@[i]@),
            return_type: crate::text::text_view(self.return_type),
        }
    }
}

/// The values of a row of signatures.
pub open spec fn signatures_view(methods: Seq<FnSignature>) -> Seq<SignatureView> {
    Seq::new(methods.len(), |i: int| methods[i]@)
}

/// The items of a file or of a module in it, in order.
#[derive(Debug)]
pub struct Outline {
    pub items: Vec<OutlineItem>,
}

/// An item of a source file, as far as its outline shows it.
#[derive(Debug)]
pub enum OutlineItem {
    Struct { name: String },
    Enum { name: String },
    Fn(FnSignature),
    /// An `impl` block: the type as its tokens write it, and the functions
    /// in the block.
    Impl { self_type: String, methods: Vec<FnSignature> },
    /// A module with its items between braces.
    Mod { name: String, body: Outline },
    /// A macro defined by `macro_rules!`.
    MacroRules { name: String },
    /// A macro called where an item stands: its path as its tokens write
    /// it.
    MacroCall { path: String },
    Const { name: String, ty: String },
    Static { mutable: bool, name: String, ty: String },
    /// A trait, and the functions it declares.
    Trait { name: String, methods: Vec<FnSignature> },
}

/// The mathematical value of an [`Outline`].
pub ghost struct OutlineView {
    pub items: Seq<OutlineItemView>,
}

/// The mathematical value of an [`OutlineItem`].
pub ghost enum OutlineItemView {
    Struct { name: Seq<char> },
    Enum { name: Seq<char> },
    Fn(SignatureView),
    Impl { self_type: Seq<char>, methods: Seq<SignatureView> },
    Mod { name: Seq<char>, body: OutlineView },
    MacroRules { name: Seq<char> },
    MacroCall { path: Seq<char> },
    Const { name: Seq<char>, ty: Seq<char> },
    Static { mutable: bool, name: Seq<char>, ty: Seq<char> },
    Trait { name: Seq<char>, methods: Seq<SignatureView> },
}

impl Outline {
    /// The value of the outline: the values of its items.
    pub open spec fn outline(self) -> OutlineView
        decreases self,
    {
        OutlineView {
            items: Seq::new(
                self.items@.len(),
                |i: int|
                    if 0 <= i < self.items@.len() {
                        self.items@[i].item()
                    } else {
                        arbitrary()
                    },
            ),
        }
    }
}

impl OutlineItem {
    /// The value of the item.
    pub open spec fn item(self) -> OutlineItemView
        decreases self,
    {
        match self {
            OutlineItem::Struct { name } => OutlineItemView::Struct { name: name@ },
            OutlineItem::Enum { name } => OutlineItemView::Enum { name: name@ },
            OutlineItem::Fn(f) => OutlineItemView::Fn(f@),
            OutlineItem::Impl { self_type, methods } => OutlineItemView::Impl {
                self_type: self_type@,
                methods: signatures_view(methods@),
            },
            OutlineItem::Mod { name, body } => OutlineItemView::Mod {
                name: name@,
                body: body.outline(),
            },
            OutlineItem::MacroRules { name } => OutlineItemView::MacroRules { name: name@ },
            OutlineItem::MacroCall { path } => OutlineItemView::MacroCall { path: path@ },
            OutlineItem::Const { name, ty } => OutlineItemView::Const { name: name@, ty: ty@ },
            OutlineItem::Static { mutable, name, ty } => OutlineItemView::Static {
                mutable,
                name: name@,
                ty: ty@,
            },
            OutlineItem::Trait { name, methods } => OutlineItemView::Trait {
                name: name@,
                methods: signatures_view(methods@),
            },
        }
    }
}

impl View for Outline {
    type V = OutlineView;

    open spec fn view(&self) -> OutlineView {
        self.outline()
    }
}

impl View for OutlineItem {
    type V = OutlineItemView;

    open spec fn view(&self) -> OutlineItemView {
        self.item()
    }
}

/// A parameter as text.
pub open spec fn param_text(p: ParamView) -> Seq<char> {
    match p {
        ParamView::Receiver => "self"@,
        ParamView::Typed { name, ty } => name + ": "@ + ty,
    }
}

/// The first `count` parameters as text, commas between them.
pub open spec fn params_text(params: Seq<ParamView>, count: int) -> Seq<char>
    decreases count,
{
    if count <= 0 || count > params.len() {
        Seq::empty()
    } else if count == 1 {
        param_text(params[0])
    } else {
        params_text(params, count - 1) + ", "@ + param_text(params[count - 1])
    }
}

/// The head of a function as text.
pub open spec fn signature_text(f: SignatureView) -> Seq<char> {
    "fn "@ + f.name + "("@ + params_text(f.params, f.params.len() as int) + ")"@ + (
    match f.return_type {
        Some(ty) => " -> "@ + ty,
        None => Seq::<char>::empty(),
    })
}

/// The first `count` functions of a block as lines: each behind the
/// indentation, with `ending` behind its head.
pub open spec fn methods_text(
    methods: Seq<SignatureView>,
    indent: Seq<char>,
    ending: Seq<char>,
    count: int,
) -> Seq<char>
    decreases count,
{
    if count <= 0 || count > methods.len() {
        Seq::empty()
    } else {
        methods_text(methods, indent, ending, count - 1) + indent + signature_text(
            methods[count - 1],
        ) + ending
    }
}

/// An item in outline: its head, and dots for its body. The items of a
/// module, and the functions of a block or a trait, stand four spaces
/// further in.
pub open spec fn item_text(item: OutlineItemView, indent: Seq<char>) -> Seq<char>
    decreases item, 0nat,
{
    match item {
        OutlineItemView::Struct { name } => indent + "struct "@ + name + " { ... }\n"@,
        OutlineItemView::Enum { name } => indent + "enum "@ + name + " { ... }\n"@,
        OutlineItemView::Fn(f) => indent + signature_text(f) + " { ... }\n"@,
        OutlineItemView::Impl { self_type, methods } => indent + "impl "@ + self_type + " {\n"@
            + methods_text(methods, indent + "    "@, " { ... }\n"@, methods.len() as int)
            + indent + "}\n"@,
        OutlineItemView::Mod { name, body } => indent + "mod "@ + name + " {\n"@ + outline_text(
            body,
            indent + "    "@,
            body.items.len() as int,
        ) + indent + "}\n"@,
        OutlineItemView::MacroRules { name } => indent + "macro_rules! "@ + name
            + " { ... }\n"@,
        OutlineItemView::MacroCall { path } => indent + path + "! { ... }\n"@,
        OutlineItemView::Const { name, ty } => indent + "const "@ + name + ": "@ + ty
            + " = ...;\n"@,
        OutlineItemView::Static { mutable, name, ty } => indent + "static "@ + (if mutable {
            "mut "@
        } else {
            Seq::<char>::empty()
        }) + name + ": "@ + ty + " = ...;\n"@,
        OutlineItemView::Trait { name, methods } => indent + "trait "@ + name + " {\n"@
            + methods_text(methods, indent + "    "@, ";\n"@, methods.len() as int) + indent
            + "}\n"@,
    }
}

/// The first `count` items of an outline as text, one after the other.
pub open spec fn outline_text(outline: OutlineView, indent: Seq<char>, count: int) -> Seq<char>
    decreases outline, count,
{
    if count <= 0 || count > outline.items.len() {
        Seq::empty()
    } else {
        outline_text(outline, indent, count - 1) + item_text(outline.items[count - 1], indent)
    }
}

/// The indentation of a depth: four spaces for each level.
pub open spec fn indentation(depth: nat) -> Seq<char>
    decreases depth,
{
    if depth == 0 {
        Seq::empty()
    } else {
        indentation((depth - 1) as nat) + "    "@
    }
}

fn signature_of(f: &FnSignature) -> (text: String)
    ensures
        text@ == signature_text(f@),
{
    let ghost params = f@.params;
    let mut list = String::new();
    let mut i: usize = 0;
    assert(list@ =~= params_text(params, 0));
    while i < f.params.len()
        invariant
            i <= f.params.len(),
            params == f@.params,
            list@ == params_text(params, i as int),
        decreases f.params.len() - i,
    {
        assert(params[i as int] == f.params@[i as int]@);
        if i > 0 {
            list.append(", ");
        }
        match &f.params[i] {
            Param::Receiver => { list.append("self"); },
            Param::Typed { name, ty } => {
                let mut one = name.clone();
                one.append(": ");
                one.append(ty.as_str());
                list.append(one.as_str());
            },
        }
        proof {
            if i == 0 {
                assert(list@ =~= param_text(params[0]));
            }
        }
        i += 1;
    }
    let mut text = "fn ".to_owned();
    text.append(f.name.as_str());
    text.append("(");
    text.append(list.as_str());
    text.append(")");
    match &f.return_type {
        Some(ty) => {
            let mut arrow = " -> ".to_owned();
            arrow.append(ty.as_str());
            text.append(arrow.as_str());
        },
        None => {
            assert(text@ + Seq::<char>::empty() =~= text@);
        },
    }
    text
}

fn methods_of(methods: &Vec<FnSignature>, indent: &str, ending: &str) -> (text: String)
    ensures
        text@ == methods_text(signatures_view(methods@), indent@, ending@, methods.len() as int),
{
    let ghost all = signatures_view(methods@);
    let mut text = String::new();
    let mut i: usize = 0;
    assert(text@ =~= methods_text(all, indent@, ending@, 0));
    while i < methods.len()
        invariant
            i <= methods.len(),
            all == signatures_view(methods@),
            text@ == methods_text(all, indent@, ending@, i as int),
        decreases methods.len() - i,
    {
        assert(all[i as int] == methods@[i as int]@);
        let mut line = indent.to_owned();
        line.append(signature_of(&methods[i]).as_str());
        line.append(ending);
        text.append(line.as_str());
        i += 1;
        assert(text@ =~= methods_text(all, indent@, ending@, i as int));
    }
    text
}

fn block_of(indent: &str, head: &str, name: &str, body: &str) -> (text: String)
    ensures
        text@ == indent@ + head@ + name@ + " {\n"@ + body@ + indent@ + "}\n"@,
{
    let mut text = indent.to_owned();
    text.append(head);
    text.append(name);
    text.append(" {\n");
    text.append(body);
    text.append(indent);
    text.append("}\n");
    text
}

fn line_of(indent: &str, head: &str, name: &str, tail: &str) -> (text: String)
    ensures
        text@ == indent@ + head@ + name@ + tail@,
{
    let mut text = indent.to_owned();
    text.append(head);
    text.append(name);
    text.append(tail);
    text
}

fn item_of(item: &OutlineItem, indent: &str) -> (text: String)
    ensures
        text@ == item_text(item@, indent@),
    decreases item, 0nat,
{
    let mut inner = indent.to_owned();
    inner.append("    ");
    match item {
        OutlineItem::Struct { name } => line_of(indent, "struct ", name.as_str(), " { ... }\n"),
        OutlineItem::Enum { name } => line_of(indent, "enum ", name.as_str(), " { ... }\n"),
        OutlineItem::Fn(f) => {
            let mut text = indent.to_owned();
            text.append(signature_of(f).as_str());
            text.append(" { ... }\n");
            text
        },
        OutlineItem::Impl { self_type, methods } => {
            let body = methods_of(methods, inner.as_str(), " { ... }\n");
            block_of(indent, "impl ", self_type.as_str(), body.as_str())
        },
        OutlineItem::Mod { name, body } => {
            let nested = outline_of(body, inner.as_str());
            block_of(indent, "mod ", name.as_str(), nested.as_str())
        },
        OutlineItem::MacroRules { name } => line_of(
            indent,
            "macro_rules! ",
            name.as_str(),
            " { ... }\n",
        ),
        OutlineItem::MacroCall { path } => {
            let empty = String::new();
            let text = line_of(indent, empty.as_str(), path.as_str(), "! { ... }\n");
            assert(indent@ + empty@ =~= indent@);
            text
        },
        OutlineItem::Const { name, ty } => {
            let mut text = indent.to_owned();
            text.append("const ");
            text.append(name.as_str());
            text.append(": ");
            text.append(ty.as_str());
            text.append(" = ...;\n");
            text
        },
        OutlineItem::Static { mutable, name, ty } => {
            let mut text = indent.to_owned();
            text.append("static ");
            if *mutable {
                text.append("mut ");
            } else {
                assert(text@ + Seq::<char>::empty() =~= text@);
            }
            text.append(name.as_str());
            text.append(": ");
            text.append(ty.as_str());
            text.append(" = ...;\n");
            text
        },
        OutlineItem::Trait { name, methods } => {
            let body = methods_of(methods, inner.as_str(), ";\n");
            block_of(indent, "trait ", name.as_str(), body.as_str())
        },
    }
}

fn outline_of(outline: &Outline, indent: &str) -> (text: String)
    ensures
        text@ == outline_text(outline@, indent@, outline@.items.len() as int),
    decreases outline, 1nat,
{
    let ghost all = outline@;
    let mut text = String::new();
    let mut i: usize = 0;
    assert(text@ =~= outline_text(all, indent@, 0));
    while i < outline.items.len()
        invariant
            i <= outline.items.len(),
            all == outline@,
            text@ == outline_text(all, indent@, i as int),
        decreases outline.items.len() - i,
    {
        assert(all.items[i as int] == outline.items@[i as int]@);
        let one = item_of(&outline.items[i], indent);
        text.append(one.as_str());
        i += 1;
    }
    text
}

/// A file, or a module of one, in outline: each item by its head, with
/// dots for its body, the items of a module within their module; all of
/// it `depth` levels in.
pub fn compress_mod(outline: &Outline, depth: usize) -> (text: String)
    ensures
        text@ == outline_text(outline@, indentation(depth as nat), outline@.items.len() as int),
{
    let mut indent = String::new();
    let mut d: usize = 0;
    assert(indent@ =~= indentation(0));
    while d < depth
        invariant
            d <= depth,
            indent@ == indentation(d as nat),
        decreases depth - d,
    {
        indent.append("    ");
        d += 1;
    }
    outline_of(outline, indent.as_str())
}

/// A thing that a file declares, with the lines where it begins and ends.
#[derive(Debug, PartialEq, Eq)]
pub struct Declared {
    pub name: String,
    pub start_line: usize,
    pub end_line: usize,
}

/// The mathematical value of a [`Declared`].
pub ghost struct DeclaredView {
    pub name: Seq<char>,
    pub start_line: usize,
    pub end_line: usize,
}

impl View for Declared {
    type V = DeclaredView;

    open spec fn view(&self) -> DeclaredView {
        DeclaredView { name: self.name@, start_line: self.start_line, end_line: self.end_line }
    }
}

/// The values of a row of declared things.
pub open spec fn declared_view(row: Seq<Declared>) -> Seq<DeclaredView> {
    Seq::new(row.len(), |i: int| row[i]@)
}

/// A struct with the functions of its blocks and the traits it has.
#[derive(Debug, PartialEq, Eq)]
pub struct ParsedStruct {
    pub name: String,
    pub methods: Vec<Declared>,
    pub traits: Vec<String>,
    pub start_line: usize,
    pub end_line: usize,
}

/// The mathematical value of a [`ParsedStruct`].
pub ghost struct StructView {
    pub name: Seq<char>,
    pub methods: Seq<DeclaredView>,
    pub traits: Seq<Seq<char>>,
    pub start_line: usize,
    pub end_line: usize,
}

impl View for ParsedStruct {
    type V = StructView;

    open spec fn view(&self) -> StructView {
        StructView {
            name: self.name@,
            methods: declared_view(self.methods@),
            traits: crate::config::strings_view(self.traits@),
            start_line: self.start_line,
            end_line: self.end_line,
        }
    }
}

/// The values of a row of structs.
pub open spec fn structs_view(row: Seq<ParsedStruct>) -> Seq<StructView> {
    Seq::new(row.len(), |i: int| row[i]@)
}

/// A trait with the functions it declares.
#[derive(Debug, PartialEq, Eq)]
pub struct ParsedTrait {
    pub name: String,
    pub methods: Vec<Declared>,
    pub start_line: usize,
    pub end_line: usize,
}

/// The mathematical value of a [`ParsedTrait`].
pub ghost struct TraitView {
    pub name: Seq<char>,
    pub methods: Seq<DeclaredView>,
    pub start_line: usize,
    pub end_line: usize,
}

impl View for ParsedTrait {
    type V = TraitView;

    open spec fn view(&self) -> TraitView {
        TraitView {
            name: self.name@,
            methods: declared_view(self.methods@),
            start_line: self.start_line,
            end_line: self.end_line,
        }
    }
}

/// The values of a row of traits.
pub open spec fn traits_view(row: Seq<ParsedTrait>) -> Seq<TraitView> {
    Seq::new(row.len(), |i: int| row[i]@)
}

/// What a file declares: its structs, its functions, its statics and
/// constants, the macros it defines and its traits, each kind in the
/// order of the file, what a module holds where the module stands.
#[derive(Debug)]
pub struct ParsedItems {
    pub structs: Vec<ParsedStruct>,
    pub functions: Vec<Declared>,
    pub variables: Vec<Declared>,
    pub macros: Vec<Declared>,
    pub traits: Vec<ParsedTrait>,
}

/// The mathematical value of a [`ParsedItems`].
pub ghost struct ParsedView {
    pub structs: Seq<StructView>,
    pub functions: Seq<DeclaredView>,
    pub variables: Seq<DeclaredView>,
    pub macros: Seq<DeclaredView>,
    pub traits: Seq<TraitView>,
}

impl View for ParsedItems {
    type V = ParsedView;

    open spec fn view(&self) -> ParsedView {
        ParsedView {
            structs: structs_view(self.structs@),
            functions: declared_view(self.functions@),
            variables: declared_view(self.variables@),
            macros: declared_view(self.macros@),
            traits: traits_view(self.traits@),
        }
    }
}

/// The items of a file or of a module in it, as far as they declare
/// something.
#[derive(Debug)]
pub struct Module {
    pub items: Vec<SourceItem>,
}

/// An item of a source file.
#[derive(Debug)]
pub enum SourceItem {
    Struct(Declared),
    /// An `impl` block: the first word of the type's path, where the type
    /// is a path; the last word of the trait's path, where the block is
    /// for a trait; and the functions in the block.
    Impl { self_type: Option<String>, trait_name: Option<String>, methods: Vec<Declared> },
    Fn(Declared),
    /// A static or a constant.
    Variable(Declared),
    /// A macro defined under a name.
    Macro(Declared),
    Trait(ParsedTrait),
    /// A module with its items between braces.
    Mod(Module),
    /// Anything else.
    Other,
}

/// The mathematical value of a [`Module`].
pub ghost struct ModuleView {
    pub items: Seq<SourceView>,
}

/// The mathematical value of a [`SourceItem`].
pub ghost enum SourceView {
    Struct(DeclaredView),
    Impl { self_type: Option<Seq<char>>, trait_name: Option<Seq<char>>, methods: Seq<DeclaredView> },
    Fn(DeclaredView),
    Variable(DeclaredView),
    Macro(DeclaredView),
    Trait(TraitView),
    Mod(ModuleView),
    Other,
}

impl Module {
    /// The value of the module: the values of its items.
    pub open spec fn module(self) -> ModuleView
        decreases self,
    {
        ModuleView {
            items: Seq::new(
                self.items@.len(),
                |i: int|
                    if 0 <= i < self.items@.len() {
                        self.items@[i].source()
                    } else {
                        arbitrary()
                    },
            ),
        }
    }
}

impl SourceItem {
    /// The value of the item.
    pub open spec fn source(self) -> SourceView
        decreases self,
    {
        match self {
            SourceItem::Struct(d) => SourceView::Struct(d@),
            SourceItem::Impl { self_type, trait_name, methods } => SourceView::Impl {
                self_type: crate::text::text_view(self_type),
                trait_name: crate::text::text_view(trait_name),
                methods: declared_view(methods@),
            },
            SourceItem::Fn(d) => SourceView::Fn(d@),
            SourceItem::Variable(d) => SourceView::Variable(d@),
            SourceItem::Macro(d) => SourceView::Macro(d@),
            SourceItem::Trait(t) => SourceView::Trait(t@),
            SourceItem::Mod(m) => SourceView::Mod(m.module()),
            SourceItem::Other => SourceView::Other,
        }
    }
}

impl View for Module {
    type V = ModuleView;

    open spec fn view(&self) -> ModuleView {
        self.module()
    }
}

impl View for SourceItem {
    type V = SourceView;

    open spec fn view(&self) -> SourceView {
        self.source()
    }
}

/// What is known of a module while its items are read: what it declares
/// so far, and for each struct of the module itself the functions of the
/// blocks met for it, the structs in the order in which they came.
pub ghost struct Reading {
    pub found: ParsedView,
    pub blocks: Seq<(Seq<char>, Seq<DeclaredView>)>,
}

/// The place of a struct's name among the blocks; the number of blocks
/// where it is not among them.
pub open spec fn block_index(blocks: Seq<(Seq<char>, Seq<DeclaredView>)>, name: Seq<char>, from: int) -> int
    decreases blocks.len() - from,
{
    if from < 0 || from >= blocks.len() {
        blocks.len() as int
    } else if blocks[from].0 == name {
        from
    } else {
        block_index(blocks, name, from + 1)
    }
}

/// The place of the first struct of a name in a row; the length of the
/// row where it holds none.
pub open spec fn struct_index(structs: Seq<StructView>, name: Seq<char>, from: int) -> int
    decreases structs.len() - from,
{
    if from < 0 || from >= structs.len() {
        structs.len() as int
    } else if structs[from].name == name {
        from
    } else {
        struct_index(structs, name, from + 1)
    }
}

/// The blocks with no function under a name: a name that is among them
/// starts again, a new name comes last.
pub open spec fn with_struct(blocks: Seq<(Seq<char>, Seq<DeclaredView>)>, name: Seq<char>) -> Seq<
    (Seq<char>, Seq<DeclaredView>),
> {
    let at = block_index(blocks, name, 0);
    if at < blocks.len() {
        blocks.update(at, (name, Seq::empty()))
    } else {
        blocks.push((name, Seq::empty()))
    }
}

/// The blocks with more functions under a name that is among them.
pub open spec fn with_methods(
    blocks: Seq<(Seq<char>, Seq<DeclaredView>)>,
    name: Seq<char>,
    methods: Seq<DeclaredView>,
) -> Seq<(Seq<char>, Seq<DeclaredView>)> {
    let at = block_index(blocks, name, 0);
    if at < blocks.len() {
        blocks.update(at, (name, blocks[at].1 + methods))
    } else {
        blocks
    }
}

/// Structs with one more trait for the first struct of a name, where
/// there is one.
pub open spec fn with_trait(structs: Seq<StructView>, name: Seq<char>, t: Seq<char>) -> Seq<
    StructView,
> {
    let at = struct_index(structs, name, 0);
    if at < structs.len() {
        structs.update(at, StructView { traits: structs[at].traits.push(t), ..structs[at] })
    } else {
        structs
    }
}

/// What is known after one more item that is no module. A struct is
/// declared, and the blocks for it start. A block for a trait gives the
/// trait to the first struct of its type's name, wherever that was
/// declared; its functions go to the struct of that name in this module,
/// if one was declared before. Functions, variables, macros and traits are
/// declared.
pub open spec fn after_item(r: Reading, item: SourceView) -> Reading {
    match item {
        SourceView::Struct(d) => Reading {
            found: ParsedView {
                structs: r.found.structs.push(
                    StructView {
                        name: d.name,
                        methods: Seq::empty(),
                        traits: Seq::empty(),
                        start_line: d.start_line,
                        end_line: d.end_line,
                    },
                ),
                ..r.found
            },
            blocks: with_struct(r.blocks, d.name),
        },
        SourceView::Impl { self_type: Some(name), trait_name, methods } => Reading {
            found: ParsedView {
                structs: match trait_name {
                    Some(t) => with_trait(r.found.structs, name, t),
                    None => r.found.structs,
                },
                ..r.found
            },
            blocks: with_methods(r.blocks, name, methods),
        },
        SourceView::Impl { self_type: None, .. } => r,
        SourceView::Fn(d) => Reading {
            found: ParsedView { functions: r.found.functions.push(d), ..r.found },
            ..r
        },
        SourceView::Variable(d) => Reading {
            found: ParsedView { variables: r.found.variables.push(d), ..r.found },
            ..r
        },
        SourceView::Macro(d) => Reading {
            found: ParsedView { macros: r.found.macros.push(d), ..r.found },
            ..r
        },
        SourceView::Trait(t) => Reading {
            found: ParsedView { traits: r.found.traits.push(t), ..r.found },
            ..r
        },
        SourceView::Mod(_) => r,
        SourceView::Other => r,
    }
}

/// What is known with all that a module inside declares.
pub open spec fn with_nested(r: Reading, nested: ParsedView) -> Reading {
    Reading {
        found: ParsedView {
            structs: r.found.structs + nested.structs,
            functions: r.found.functions + nested.functions,
            variables: r.found.variables + nested.variables,
            macros: r.found.macros + nested.macros,
            traits: r.found.traits + nested.traits,
        },
        ..r
    }
}

/// The first `count` structs, each with the functions of the blocks that
/// are still to be given out for its name; a name gives out its blocks
/// once, to the first struct that has it.
pub open spec fn attached(
    structs: Seq<StructView>,
    blocks: Seq<(Seq<char>, Seq<DeclaredView>)>,
    count: int,
) -> (Seq<StructView>, Seq<(Seq<char>, Seq<DeclaredView>)>)
    decreases count,
{
    if count <= 0 || count > structs.len() {
        (Seq::empty(), blocks)
    } else {
        let (earlier, left) = attached(structs, blocks, count - 1);
        let s = structs[count - 1];
        let at = block_index(left, s.name, 0);
        if at < left.len() {
            (earlier.push(StructView { methods: left[at].1, ..s }), left.remove(at))
        } else {
            (earlier.push(s), left)
        }
    }
}

/// What is known after the first `count` items of a module.
pub open spec fn reading(module: ModuleView, count: int) -> Reading
    decreases module, count,
{
    if count <= 0 || count > module.items.len() {
        Reading {
            found: ParsedView {
                structs: Seq::empty(),
                functions: Seq::empty(),
                variables: Seq::empty(),
                macros: Seq::empty(),
                traits: Seq::empty(),
            },
            blocks: Seq::empty(),
        }
    } else {
        let earlier = reading(module, count - 1);
        match module.items[count - 1] {
            SourceView::Mod(inner) => with_nested(earlier, parsed(inner)),
            item => after_item(earlier, item),
        }
    }
}

/// What a module declares: what its items declare, with each struct's
/// functions given to it.
pub open spec fn parsed(module: ModuleView) -> ParsedView
    decreases module, module.items.len() + 1,
{
    let r = reading(module, module.items.len() as int);
    ParsedView {
        structs: attached(r.found.structs, r.blocks, r.found.structs.len() as int).0,
        ..r.found
    }
}

impl Declared {
    /// A copy.
    pub fn duplicate(&self) -> (copy: Declared)
        ensures
            copy@ == self@,
    {
        Declared { name: self.name.clone(), start_line: self.start_line, end_line: self.end_line }
    }
}

fn copy_declared(row: &Vec<Declared>) -> (copy: Vec<Declared>)
    ensures
        declared_view(copy@) == declared_view(row@),
{
    let mut copy: Vec<Declared> = Vec::new();
    let mut i: usize = 0;
    while i < row.len()
        invariant
            i <= row.len(),
            copy.len() == i,
            forall|k: int| 0 <= k < i ==> copy@[k]@ == row@[k]@,
        decreases row.len() - i,
    {
        copy.push(row[i].duplicate());
        i += 1;
    }
    assert(declared_view(copy@) =~= declared_view(row@));
    copy
}

fn append_declared(to: &mut Vec<Declared>, row: &Vec<Declared>)
    ensures
        declared_view(final(to)@) == declared_view(old(to)@) + declared_view(row@),
{
    let ghost before = declared_view(to@);
    let ghost more = declared_view(row@);
    let mut i: usize = 0;
    assert(declared_view(to@) =~= before + more.take(0));
    while i < row.len()
        invariant
            i <= row.len(),
            more == declared_view(row@),
            declared_view(to@) == before + more.take(i as int),
        decreases row.len() - i,
    {
        let ghost prev = declared_view(to@);
        assert(more[i as int] == row@[i as int]@);
        to.push(row[i].duplicate());
        assert(declared_view(to@) =~= prev.push(more[i as int]));
        assert(prev.push(more[i as int]) =~= before + more.take(i + 1));
        i += 1;
    }
    assert(more.take(row.len() as int) =~= more);
}

fn take_declared(to: &mut Vec<Declared>, row: Vec<Declared>)
    ensures
        declared_view(final(to)@) == declared_view(old(to)@) + declared_view(row@),
{
    append_declared(to, &row);
}

/// The values of the blocks met for the structs of a module.
pub open spec fn blocks_view(blocks: Seq<(String, Vec<Declared>)>) -> Seq<
    (Seq<char>, Seq<DeclaredView>),
> {
    Seq::new(blocks.len(), |i: int| (blocks[i].0@, declared_view(blocks[i].1@)))
}

fn find_block(blocks: &Vec<(String, Vec<Declared>)>, name: &str) -> (at: usize)
    ensures
        at == block_index(blocks_view(blocks@), name@, 0),
        at <= blocks.len(),
{
    let ghost all = blocks_view(blocks@);
    let mut i: usize = 0;
    while i < blocks.len()
        invariant
            i <= blocks.len(),
            all == blocks_view(blocks@),
            block_index(all, name@, 0) == block_index(all, name@, i as int),
        decreases blocks.len() - i,
    {
        assert(all[i as int].0 == blocks@[i as int].0@);
        if crate::text::same_text(blocks[i].0.as_str(), name) {
            return i;
        }
        i += 1;
    }
    i
}

fn find_struct(structs: &Vec<ParsedStruct>, name: &str) -> (at: usize)
    ensures
        at == struct_index(structs_view(structs@), name@, 0),
        at <= structs.len(),
{
    let ghost all = structs_view(structs@);
    let mut i: usize = 0;
    while i < structs.len()
        invariant
            i <= structs.len(),
            all == structs_view(structs@),
            struct_index(all, name@, 0) == struct_index(all, name@, i as int),
        decreases structs.len() - i,
    {
        assert(all[i as int].name == structs@[i as int].name@);
        if crate::text::same_text(structs[i].name.as_str(), name) {
            return i;
        }
        i += 1;
    }
    i
}

fn start_blocks(blocks: &mut Vec<(String, Vec<Declared>)>, name: &str)
    ensures
        blocks_view(final(blocks)@) == with_struct(blocks_view(old(blocks)@), name@),
{
    let ghost all = blocks_view(blocks@);
    let at = find_block(blocks, name);
    let fresh: Vec<Declared> = Vec::new();
    assert(declared_view(fresh@) =~= Seq::<DeclaredView>::empty());
    if at < blocks.len() {
        let _ = blocks.remove(at);
        blocks.insert(at, (name.to_owned(), fresh));
        assert(blocks_view(blocks@) =~= all.update(at as int, (name@, Seq::empty())));
    } else {
        blocks.push((name.to_owned(), fresh));
        assert(blocks_view(blocks@) =~= all.push((name@, Seq::empty())));
    }
}

fn add_methods(blocks: &mut Vec<(String, Vec<Declared>)>, name: &str, methods: &Vec<Declared>)
    ensures
        blocks_view(final(blocks)@) == with_methods(
            blocks_view(old(blocks)@),
            name@,
            declared_view(methods@),
        ),
{
    let ghost all = blocks_view(blocks@);
    let at = find_block(blocks, name);
    if at < blocks.len() {
        let entry = blocks.remove(at);
        let mut row = entry.1;
        assert(declared_view(row@) == all[at as int].1);
        append_declared(&mut row, methods);
        blocks.insert(at, (name.to_owned(), row));
        assert(blocks_view(blocks@) =~= all.update(
            at as int,
            (name@, all[at as int].1 + declared_view(methods@)),
        ));
    }
}

fn copy_struct_with(s: &ParsedStruct, methods: Vec<Declared>, more: Option<&str>) -> (copy:
    ParsedStruct)
    ensures
        copy@ == (StructView {
            methods: declared_view(methods@),
            traits: match more {
                Some(t) => s@.traits.push(t@),
                None => s@.traits,
            },
            ..s@
        }),
{
    let mut traits = crate::config::copy_strings(&s.traits);
    match more {
        Some(t) => {
            let ghost before = crate::config::strings_view(traits@);
            traits.push(t.to_owned());
            assert(crate::config::strings_view(traits@) =~= before.push(t@));
        },
        None => {},
    }
    ParsedStruct {
        name: s.name.clone(),
        methods,
        traits,
        start_line: s.start_line,
        end_line: s.end_line,
    }
}

fn add_trait(structs: &mut Vec<ParsedStruct>, name: &str, t: &str)
    ensures
        structs_view(final(structs)@) == with_trait(structs_view(old(structs)@), name@, t@),
{
    let ghost all = structs_view(structs@);
    let at = find_struct(structs, name);
    if at < structs.len() {
        let found = structs.remove(at);
        assert(found@ == all[at as int]);
        let changed = copy_struct_with(&found, copy_declared(&found.methods), Some(t));
        structs.insert(at, changed);
        assert(structs_view(structs@) =~= all.update(
            at as int,
            StructView { traits: all[at as int].traits.push(t@), ..all[at as int] },
        ));
    }
}

fn copy_trait(t: &ParsedTrait) -> (copy: ParsedTrait)
    ensures
        copy@ == t@,
{
    ParsedTrait {
        name: t.name.clone(),
        methods: copy_declared(&t.methods),
        start_line: t.start_line,
        end_line: t.end_line,
    }
}

fn take_structs(to: &mut Vec<ParsedStruct>, row: Vec<ParsedStruct>)
    ensures
        structs_view(final(to)@) == structs_view(old(to)@) + structs_view(row@),
{
    let ghost before = structs_view(to@);
    let ghost more = structs_view(row@);
    let mut i: usize = 0;
    assert(structs_view(to@) =~= before + more.take(0));
    while i < row.len()
        invariant
            i <= row.len(),
            more == structs_view(row@),
            structs_view(to@) == before + more.take(i as int),
        decreases row.len() - i,
    {
        let ghost prev = structs_view(to@);
        assert(more[i as int] == row@[i as int]@);
        to.push(copy_struct_with(&row[i], copy_declared(&row[i].methods), None));
        assert(structs_view(to@) =~= prev.push(more[i as int]));
        assert(prev.push(more[i as int]) =~= before + more.take(i + 1));
        i += 1;
    }
    assert(more.take(row.len() as int) =~= more);
}

fn take_traits(to: &mut Vec<ParsedTrait>, row: Vec<ParsedTrait>)
    ensures
        traits_view(final(to)@) == traits_view(old(to)@) + traits_view(row@),
{
    let ghost before = traits_view(to@);
    let ghost more = traits_view(row@);
    let mut i: usize = 0;
    assert(traits_view(to@) =~= before + more.take(0));
    while i < row.len()
        invariant
            i <= row.len(),
            more == traits_view(row@),
            traits_view(to@) == before + more.take(i as int),
        decreases row.len() - i,
    {
        let ghost prev = traits_view(to@);
        assert(more[i as int] == row@[i as int]@);
        to.push(copy_trait(&row[i]));
        assert(traits_view(to@) =~= prev.push(more[i as int]));
        assert(prev.push(more[i as int]) =~= before + more.take(i + 1));
        i += 1;
    }
    assert(more.take(row.len() as int) =~= more);
}

fn attach(structs: Vec<ParsedStruct>, blocks: Vec<(String, Vec<Declared>)>) -> (done: Vec<
    ParsedStruct,
>)
    ensures
        structs_view(done@) == attached(
            structs_view(structs@),
            blocks_view(blocks@),
            structs.len() as int,
        ).0,
{
    let ghost all = structs_view(structs@);
    let ghost start = blocks_view(blocks@);
    let mut left = blocks;
    let mut done: Vec<ParsedStruct> = Vec::new();
    let mut i: usize = 0;
    assert(structs_view(done@) =~= attached(all, start, 0).0);
    while i < structs.len()
        invariant
            i <= structs.len(),
            all == structs_view(structs@),
            structs_view(done@) == attached(all, start, i as int).0,
            blocks_view(left@) == attached(all, start, i as int).1,
        decreases structs.len() - i,
    {
        let ghost before = structs_view(done@);
        let ghost open = blocks_view(left@);
        assert(all[i as int] == structs@[i as int]@);
        let at = find_block(&left, structs[i].name.as_str());
        if at < left.len() {
            let entry = left.remove(at);
            assert(declared_view(entry.1@) == open[at as int].1);
            assert(blocks_view(left@) =~= open.remove(at as int));
            let with = copy_struct_with(&structs[i], entry.1, None);
            done.push(with);
            assert(structs_view(done@) =~= before.push(
                StructView { methods: open[at as int].1, ..all[i as int] },
            ));
        } else {
            let same = copy_struct_with(&structs[i], copy_declared(&structs[i].methods), None);
            done.push(same);
            assert(structs_view(done@) =~= before.push(all[i as int]));
        }
        i += 1;
    }
    done
}

/// What is known of a module while its items are read.
struct Progress {
    structs: Vec<ParsedStruct>,
    functions: Vec<Declared>,
    variables: Vec<Declared>,
    macros: Vec<Declared>,
    traits: Vec<ParsedTrait>,
    blocks: Vec<(String, Vec<Declared>)>,
}

impl Progress {
    spec fn reading(self) -> Reading {
        Reading {
            found: ParsedView {
                structs: structs_view(self.structs@),
                functions: declared_view(self.functions@),
                variables: declared_view(self.variables@),
                macros: declared_view(self.macros@),
                traits: traits_view(self.traits@),
            },
            blocks: blocks_view(self.blocks@),
        }
    }
}

fn read_item(p: &mut Progress, item: &SourceItem)
    requires
        !(item is Mod),
    ensures
        final(p).reading() == after_item(old(p).reading(), item@),
{
    match item {
        SourceItem::Struct(d) => {
            let ghost before = structs_view(p.structs@);
            p.structs.push(
                ParsedStruct {
                    name: d.name.clone(),
                    methods: Vec::new(),
                    traits: Vec::new(),
                    start_line: d.start_line,
                    end_line: d.end_line,
                },
            );
            assert(structs_view(p.structs@) =~= before.push(
                StructView {
                    name: d@.name,
                    methods: Seq::empty(),
                    traits: Seq::empty(),
                    start_line: d@.start_line,
                    end_line: d@.end_line,
                },
            )) by {
                let last = p.structs@.last()@;
                assert(last.methods =~= Seq::<DeclaredView>::empty());
                assert(last.traits =~= Seq::<Seq<char>>::empty());
            }
            start_blocks(&mut p.blocks, d.name.as_str());
        },
        SourceItem::Impl { self_type, trait_name, methods } => {
            match self_type {
                Some(name) => {
                    match trait_name {
                        Some(t) => { add_trait(&mut p.structs, name.as_str(), t.as_str()); },
                        None => {},
                    }
                    add_methods(&mut p.blocks, name.as_str(), methods);
                },
                None => {},
            }
        },
        SourceItem::Fn(d) => {
            let ghost before = declared_view(p.functions@);
            p.functions.push(d.duplicate());
            assert(declared_view(p.functions@) =~= before.push(d@));
        },
        SourceItem::Variable(d) => {
            let ghost before = declared_view(p.variables@);
            p.variables.push(d.duplicate());
            assert(declared_view(p.variables@) =~= before.push(d@));
        },
        SourceItem::Macro(d) => {
            let ghost before = declared_view(p.macros@);
            p.macros.push(d.duplicate());
            assert(declared_view(p.macros@) =~= before.push(d@));
        },
        SourceItem::Trait(t) => {
            let ghost before = traits_view(p.traits@);
            p.traits.push(copy_trait(t));
            assert(traits_view(p.traits@) =~= before.push(t@));
        },
        SourceItem::Mod(_) => {},
        SourceItem::Other => {},
    }
}

/// What a file, or a module of one, declares. A struct has the functions
/// of the blocks that stand for it behind it in its own module, and the
/// traits of the blocks for traits; what a module inside declares comes
/// where the module stands.
pub fn parse_mod(module: &Module) -> (found: ParsedItems)
    ensures
        found@ == parsed(module@),
    decreases module,
{
    let ghost all = module@;
    let mut p = Progress {
        structs: Vec::new(),
        functions: Vec::new(),
        variables: Vec::new(),
        macros: Vec::new(),
        traits: Vec::new(),
        blocks: Vec::new(),
    };
    assert(p.reading() == reading(all, 0)) by {
        assert(structs_view(p.structs@) =~= Seq::<StructView>::empty());
        assert(declared_view(p.functions@) =~= Seq::<DeclaredView>::empty());
        assert(declared_view(p.variables@) =~= Seq::<DeclaredView>::empty());
        assert(declared_view(p.macros@) =~= Seq::<DeclaredView>::empty());
        assert(traits_view(p.traits@) =~= Seq::<TraitView>::empty());
        assert(blocks_view(p.blocks@) =~= Seq::<(Seq<char>, Seq<DeclaredView>)>::empty());
    }
    let mut i: usize = 0;
    while i < module.items.len()
        invariant
            i <= module.items.len(),
            all == module@,
            p.reading() == reading(all, i as int),
        decreases module.items.len() - i,
    {
        assert(all.items[i as int] == module.items@[i as int]@);
        match &module.items[i] {
            SourceItem::Mod(inner) => {
                let nested = parse_mod(inner);
                take_structs(&mut p.structs, nested.structs);
                take_declared(&mut p.functions, nested.functions);
                take_declared(&mut p.variables, nested.variables);
                take_declared(&mut p.macros, nested.macros);
                take_traits(&mut p.traits, nested.traits);
            },
            item => { read_item(&mut p, item); },
        }
        i += 1;
    }
    let structs = attach(p.structs, p.blocks);
    ParsedItems {
        structs,
        functions: p.functions,
        variables: p.variables,
        macros: p.macros,
        traits: p.traits,
    }
}

/// The indentation of an outline: every item begins with the
/// indentation it is given, each level is four spaces deep, and the items
/// of a module stand one level further in than the module itself.
pub proof fn lemma_outline_indentation(
    item: OutlineItemView,
    indent: Seq<char>,
    name: Seq<char>,
    body: OutlineView,
    depth: nat,
)
    ensures
        crate::text::starts_with(item_text(item, indent), indent),
        indentation(depth + 1) == indentation(depth) + "    "@,
        item_text(OutlineItemView::Mod { name, body }, indentation(depth)) == indentation(depth)
            + "mod "@ + name + " {\n"@ + outline_text(
            body,
            indentation(depth + 1),
            body.items.len() as int,
        ) + indentation(depth) + "}\n"@,
{
    let text = item_text(item, indent);
    assert(text.len() >= indent.len() && text.subrange(0, indent.len() as int) =~= indent);
}

/// The attachment of blocks: a struct has the functions of the block
/// that stands for it behind it in its module, and the trait that the
/// block is for, where it is for one.
pub proof fn lemma_block_is_attached(
    d: DeclaredView,
    trait_name: Option<Seq<char>>,
    methods: Seq<DeclaredView>,
)
    ensures
        parsed(
            ModuleView {
                items: seq![
                    SourceView::Struct(d),
                    SourceView::Impl { self_type: Some(d.name), trait_name, methods },
                ],
            },
        ).structs == seq![
            (StructView {
                name: d.name,
                methods,
                traits: match trait_name {
                    Some(t) => seq![t],
                    None => Seq::empty(),
                },
                start_line: d.start_line,
                end_line: d.end_line,
            }),
        ],
{
    let module = ModuleView {
        items: seq![
            SourceView::Struct(d),
            SourceView::Impl { self_type: Some(d.name), trait_name, methods },
        ],
    };
    let empty = reading(module, 0);
    let first = reading(module, 1);
    let second = reading(module, 2);
    assert(first == after_item(empty, module.items[0]));
    assert(second == after_item(first, module.items[1]));
    let declared = StructView {
        name: d.name,
        methods: Seq::empty(),
        traits: Seq::empty(),
        start_line: d.start_line,
        end_line: d.end_line,
    };
    assert(first.found.structs =~= seq![declared]);
    assert(block_index(empty.blocks, d.name, 0) == 0);
    assert(first.blocks =~= seq![(d.name, Seq::<DeclaredView>::empty())]);
    assert(block_index(first.blocks, d.name, 0) == 0);
    assert(second.blocks =~= seq![(d.name, Seq::<DeclaredView>::empty() + methods)]);
    assert(Seq::<DeclaredView>::empty() + methods =~= methods);
    assert(struct_index(first.found.structs, d.name, 0) == 0);
    let traits = match trait_name {
        Some(t) => seq![t],
        None => Seq::<Seq<char>>::empty(),
    };
    assert(second.found.structs =~= seq![(StructView { traits, ..declared })]) by {
        if let Some(t) = trait_name {
            assert(Seq::<Seq<char>>::empty().push(t) =~= seq![t]);
        }
    }
    let (none, all) = attached(second.found.structs, second.blocks, 0);
    let (one, left) = attached(second.found.structs, second.blocks, 1);
    assert(none =~= Seq::<StructView>::empty() && all == second.blocks);
    assert(block_index(all, d.name, 0) == 0);
    assert(one =~= seq![(StructView { methods, traits, ..declared })]);
    assert(parsed(module).structs == one);
}

} // verus!
