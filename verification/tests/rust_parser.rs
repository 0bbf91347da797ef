use rustforger_tracer::rust_parser::{
    compress_mod, parse_mod, Declared, FnSignature, Module, Outline, OutlineItem, Param,
    ParsedTrait, SourceItem,
};

fn d(name: &str, start_line: usize, end_line: usize) -> Declared {
    Declared { name: name.to_string(), start_line, end_line }
}

fn typed(name: &str, ty: &str) -> Param {
    Param::Typed { name: name.to_string(), ty: ty.to_string() }
}

fn sig(name: &str, params: Vec<Param>, return_type: Option<&str>) -> FnSignature {
    FnSignature { name: name.to_string(), params, return_type: return_type.map(|t| t.to_string()) }
}

fn block(self_type: &str, trait_name: Option<&str>, methods: Vec<Declared>) -> SourceItem {
    SourceItem::Impl {
        self_type: Some(self_type.to_string()),
        trait_name: trait_name.map(|t| t.to_string()),
        methods,
    }
}

#[test]
fn an_outline() {
    let outline = Outline {
        items: vec![
            OutlineItem::Struct { name: "Engine".to_string() },
            OutlineItem::Enum { name: "Gear".to_string() },
            OutlineItem::Fn(sig("run", vec![], None)),
            OutlineItem::Fn(sig(
                "drive",
                vec![typed("engine", "& mut Engine"), typed("gear", "Gear")],
                Some("Result < () , Error >"),
            )),
            OutlineItem::Impl {
                self_type: "Engine".to_string(),
                methods: vec![
                    sig("new", vec![], Some("Self")),
                    sig("start", vec![Param::Receiver, typed("key", "Key")], None),
                ],
            },
            OutlineItem::Mod {
                name: "inner".to_string(),
                body: Outline {
                    items: vec![
                        OutlineItem::Const { name: "LIMIT".to_string(), ty: "usize".to_string() },
                        OutlineItem::Mod {
                            name: "deep".to_string(),
                            body: Outline {
                                items: vec![OutlineItem::Trait {
                                    name: "Walk".to_string(),
                                    methods: vec![sig("walk", vec![Param::Receiver], Some("u8"))],
                                }],
                            },
                        },
                    ],
                },
            },
            OutlineItem::MacroRules { name: "my_macro".to_string() },
            OutlineItem::MacroCall { path: "lazy_static".to_string() },
            OutlineItem::Static { mutable: true, name: "COUNT".to_string(), ty: "u8".to_string() },
            OutlineItem::Static { mutable: false, name: "NAME".to_string(), ty: "& str".to_string() },
            OutlineItem::Trait { name: "Empty".to_string(), methods: vec![] },
            OutlineItem::Mod { name: "hollow".to_string(), body: Outline { items: vec![] } },
        ],
    };
    let expected = "struct Engine { ... }
enum Gear { ... }
fn run() { ... }
fn drive(engine: & mut Engine, gear: Gear) -> Result < () , Error > { ... }
impl Engine {
    fn new() -> Self { ... }
    fn start(self, key: Key) { ... }
}
mod inner {
    const LIMIT: usize = ...;
    mod deep {
        trait Walk {
            fn walk(self) -> u8;
        }
    }
}
macro_rules! my_macro { ... }
lazy_static! { ... }
static mut COUNT: u8 = ...;
static NAME: & str = ...;
trait Empty {
}
mod hollow {
}
";
    assert_eq!(compress_mod(&outline, 0), expected);
    assert_eq!(compress_mod(&Outline { items: vec![] }, 3), "");
    let small = Outline { items: vec![OutlineItem::Struct { name: "A".to_string() }] };
    assert_eq!(compress_mod(&small, 2), "        struct A { ... }\n");
}

#[test]
fn what_a_module_declares() {
    let module = Module {
        items: vec![
            // A block before its struct is lost.
            block("Engine", None, vec![d("early", 1, 2)]),
            SourceItem::Struct(d("Engine", 3, 5)),
            block("Engine", None, vec![d("new", 7, 9), d("start", 10, 12)]),
            SourceItem::Fn(d("run", 14, 16)),
            block("Engine", Some("Drop"), vec![d("drop", 18, 20)]),
            SourceItem::Variable(d("LIMIT", 22, 22)),
            SourceItem::Macro(d("my_macro", 24, 26)),
            SourceItem::Other,
            SourceItem::Trait(ParsedTrait {
                name: "Walk".to_string(),
                methods: vec![d("walk", 29, 29)],
                start_line: 28,
                end_line: 30,
            }),
            SourceItem::Impl { self_type: None, trait_name: None, methods: vec![d("lost", 31, 31)] },
            block("Motor", Some("Clone"), vec![d("clone", 32, 33)]),
        ],
    };
    let found = parse_mod(&module);
    assert_eq!(found.structs.len(), 1);
    assert_eq!(found.structs[0].name, "Engine");
    assert_eq!((found.structs[0].start_line, found.structs[0].end_line), (3, 5));
    assert_eq!(
        found.structs[0].methods,
        vec![d("new", 7, 9), d("start", 10, 12), d("drop", 18, 20)]
    );
    assert_eq!(found.structs[0].traits, vec!["Drop"]);
    assert_eq!(found.functions, vec![d("run", 14, 16)]);
    assert_eq!(found.variables, vec![d("LIMIT", 22, 22)]);
    assert_eq!(found.macros, vec![d("my_macro", 24, 26)]);
    assert_eq!(found.traits.len(), 1);
    assert_eq!(found.traits[0].name, "Walk");
    assert_eq!(found.traits[0].methods, vec![d("walk", 29, 29)]);
}

#[test]
fn what_the_modules_inside_declare() {
    let module = Module {
        items: vec![
            SourceItem::Mod(Module {
                items: vec![
                    SourceItem::Struct(d("Inner", 2, 3)),
                    block("Inner", Some("Debug"), vec![d("fmt", 4, 5)]),
                    SourceItem::Fn(d("helper", 6, 7)),
                    SourceItem::Struct(d("Shared", 8, 9)),
                    block("Shared", None, vec![d("inside", 10, 11)]),
                ],
            }),
            SourceItem::Struct(d("Shared", 20, 21)),
            // The trait goes to the first struct of the name, the one of the
            // module inside; the functions go to the struct of this module,
            // and are given to the first struct of the name in the end.
            block("Shared", Some("Clone"), vec![d("outside", 22, 23)]),
            // A block for a struct of a module inside adds no function.
            block("Inner", Some("Clone"), vec![d("clone", 24, 25)]),
            SourceItem::Fn(d("run", 26, 27)),
        ],
    };
    let found = parse_mod(&module);
    let names: Vec<&str> = found.structs.iter().map(|s| s.name.as_str()).collect();
    assert_eq!(names, vec!["Inner", "Shared", "Shared"]);
    assert_eq!(found.structs[0].methods, vec![d("fmt", 4, 5)]);
    assert_eq!(found.structs[0].traits, vec!["Debug", "Clone"]);
    assert_eq!(found.structs[1].methods, vec![d("outside", 22, 23)]);
    assert_eq!(found.structs[1].traits, vec!["Clone"]);
    assert_eq!((found.structs[1].start_line, found.structs[1].end_line), (8, 9));
    assert!(found.structs[2].methods.is_empty());
    assert!(found.structs[2].traits.is_empty());
    assert_eq!(found.functions, vec![d("helper", 6, 7), d("run", 26, 27)]);
}

#[test]
fn a_struct_declared_twice_starts_again() {
    let module = Module {
        items: vec![
            SourceItem::Struct(d("A", 1, 1)),
            block("A", None, vec![d("first", 2, 2)]),
            SourceItem::Struct(d("A", 3, 3)),
            block("A", Some("T"), vec![d("second", 4, 4)]),
        ],
    };
    let found = parse_mod(&module);
    assert_eq!(found.structs.len(), 2);
    assert_eq!(found.structs[0].methods, vec![d("second", 4, 4)]);
    assert_eq!(found.structs[0].traits, vec!["T"]);
    assert!(found.structs[1].methods.is_empty());
    assert!(found.structs[1].traits.is_empty());
    let nothing = parse_mod(&Module { items: vec![] });
    assert!(nothing.structs.is_empty() && nothing.functions.is_empty());
    assert_eq!(d("x", 1, 2).duplicate(), d("x", 1, 2));
}
