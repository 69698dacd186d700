use slint_python_gen::ast::{Declaration, File};
use slint_python_gen::generator::{
    generate, generate_global, generate_named_exports, Document, ExportEntry, ExportTarget, GenerateError,
    GlobalComponent, PublicComponent, PublicProperty,
};
use slint_python_gen::ident::{ident, is_python_keyword};
use slint_python_gen::paths::{relative_path, AbsPath};
use slint_python_gen::types::{
    python_type_name, Enumeration, Function, StructField, StructType, Type, TypeError,
};

fn s(x: &str) -> String {
    x.to_string()
}

fn path(parts: &[&str]) -> AbsPath {
    AbsPath { components: parts.iter().map(|p| p.to_string()).collect() }
}

fn point() -> StructType {
    StructType {
        name: Some(s("Point")),
        has_declaration: true,
        fields: vec![
            StructField { name: s("x"), ty: Type::Float32 },
            StructField { name: s("y"), ty: Type::Float32 },
        ],
    }
}

fn direction() -> Enumeration {
    Enumeration { name: s("Direction"), values: vec![s("Left"), s("Right")] }
}

fn empty_doc() -> Document {
    Document {
        used_types: vec![],
        globals: vec![],
        public_components: vec![],
        exports: vec![],
        main_file: Some(path(&["src", "ui", "main.lang"])),
    }
}

fn decl_texts(f: &File) -> Vec<String> {
    f.declarations.iter().map(|d| d.render()).collect()
}

#[test]
fn struct_becomes_class_with_keyword_constructor() {
    let mut doc = empty_doc();
    doc.used_types.push(Type::Struct(point()));
    let f = generate(&doc, None).unwrap();
    assert_eq!(f.declarations.len(), 1);
    match &f.declarations[0] {
        Declaration::Class(c) => {
            assert_eq!(c.name, "Point");
            assert_eq!(c.fields.len(), 2);
            assert_eq!(c.fields[0].ty.as_ref().unwrap().name, "float");
            assert!(!c.fields[0].ty.as_ref().unwrap().optional);
            let ctor = &c.function_declarations[0];
            assert_eq!(ctor.name, "__init__");
            assert!(ctor.positional_parameters.is_empty());
            assert_eq!(ctor.keyword_parameters.len(), 2);
            assert!(ctor.keyword_parameters[1].ty.as_ref().unwrap().optional);
            assert_eq!(ctor.keyword_parameters[1].default_value.as_deref(), Some("None"));
        }
        _ => panic!("expected a class"),
    }
    assert_eq!(
        decl_texts(&f)[0],
        "class Point:\n    x: float\n    y: float\n\n    def __init__(self, *, x: typing.Optional[float] = None, y: typing.Optional[float] = None) -> None: ...\n\n"
    );
    assert_eq!(f.imports, vec![s("slint"), s("typing")]);
}

#[test]
fn enumeration_becomes_str_enum_and_imports_enum() {
    let mut doc = empty_doc();
    doc.used_types.push(Type::Enumeration(direction()));
    let f = generate(&doc, None).unwrap();
    assert_eq!(
        decl_texts(&f)[0],
        "class Direction(enum.StrEnum):\n    Left = \"Left\"\n    Right = \"Right\"\n\n"
    );
    assert_eq!(f.imports, vec![s("slint"), s("typing"), s("enum")]);
}

#[test]
fn export_aliases_only_for_renamed_entries() {
    let exports = vec![
        ExportEntry { name: s("Pt"), target: ExportTarget::Type(Type::Struct(point())) },
        ExportEntry { name: s("Point"), target: ExportTarget::Type(Type::Struct(point())) },
    ];
    let decls = generate_named_exports(&exports);
    assert_eq!(decls.len(), 1);
    assert_eq!(decls[0].render(), "Pt = Point\n");
}

#[test]
fn export_of_global_or_anonymous_struct_has_no_alias() {
    let exports = vec![
        ExportEntry {
            name: s("G"),
            target: ExportTarget::Component { id: s("Glob"), is_global: true },
        },
        ExportEntry {
            name: s("T"),
            target: ExportTarget::Type(Type::Struct(StructType {
                name: None,
                has_declaration: false,
                fields: vec![],
            })),
        },
        ExportEntry {
            name: s("Win"),
            target: ExportTarget::Component { id: s("main-window"), is_global: false },
        },
        ExportEntry { name: s("Dir"), target: ExportTarget::Type(Type::Enumeration(direction())) },
    ];
    let texts: Vec<String> = generate_named_exports(&exports).iter().map(|d| d.render()).collect();
    assert_eq!(texts, vec![s("Win = main_window\n"), s("Dir = Direction\n")]);
}

#[test]
fn global_with_aliases() {
    let mut doc = empty_doc();
    doc.globals.push(GlobalComponent {
        name: s("AppState"),
        public_properties: vec![PublicProperty { name: s("count"), ty: Type::Int32 }],
        aliases: vec![s("State"), s("Shared")],
        exported: true,
        must_generate: true,
    });
    let f = generate(&doc, None).unwrap();
    let texts = decl_texts(&f);
    assert_eq!(texts.len(), 3);
    assert!(texts[0].starts_with("class AppState:\n    count: "));
    assert_eq!(texts[1], "State = AppState\n");
    assert_eq!(texts[2], "Shared = AppState\n");
}

#[test]
fn component_receives_generated_globals() {
    let mut doc = empty_doc();
    doc.globals.push(GlobalComponent {
        name: s("app-state"),
        public_properties: vec![],
        aliases: vec![],
        exported: true,
        must_generate: true,
    });
    doc.globals.push(GlobalComponent {
        name: s("Hidden"),
        public_properties: vec![],
        aliases: vec![],
        exported: false,
        must_generate: true,
    });
    doc.public_components.push(PublicComponent {
        name: s("MainWindow"),
        public_properties: vec![PublicProperty { name: s("title-text"), ty: Type::String }],
        global_dependencies: vec![s("app-state")],
    });
    let f = generate(&doc, None).unwrap();
    let texts = decl_texts(&f);
    assert_eq!(texts.len(), 2);
    assert_eq!(texts[0], "class app_state:\n    pass\n");
    assert_eq!(
        texts[1],
        "class MainWindow(slint.Component):\n    title_text: str\n    app_state: app_state\n\n"
    );
}

#[test]
fn destination_adds_load_statement() {
    let doc = empty_doc();
    let dest = path(&["out", "ui", "app.ext"]);
    let f = generate(&doc, Some(&dest)).unwrap();
    assert_eq!(f.imports, vec![s("slint"), s("typing"), s("os")]);
    assert_eq!(
        f.trailing_code,
        vec![s("globals().update(vars(slint.load_file(os.path.join(os.path.dirname(__file__), '../../src/ui/main.lang'))))")]
    );
}

#[test]
fn destination_beside_main_file() {
    let doc = empty_doc();
    let dest = path(&["src", "ui", "gen.py"]);
    let f = generate(&doc, Some(&dest)).unwrap();
    assert_eq!(
        f.trailing_code,
        vec![s("globals().update(vars(slint.load_file(os.path.join(os.path.dirname(__file__), 'main.lang'))))")]
    );
}

#[test]
fn no_destination_no_load_statement() {
    let doc = empty_doc();
    let f = generate(&doc, None).unwrap();
    assert!(f.trailing_code.is_empty());
    assert!(!f.imports.contains(&s("os")));
}

#[test]
fn missing_main_file_is_an_error() {
    let mut doc = empty_doc();
    doc.main_file = None;
    assert!(matches!(generate(&doc, None), Err(GenerateError::MissingMainFile)));
}

#[test]
fn type_error_aborts_generation() {
    let mut doc = empty_doc();
    doc.main_file = None;
    doc.public_components.push(PublicComponent {
        name: s("W"),
        public_properties: vec![PublicProperty { name: s("p"), ty: Type::Invalid }],
        global_dependencies: vec![],
    });
    assert!(matches!(generate(&doc, None), Err(GenerateError::Type(TypeError::Invalid))));
    let mut doc = empty_doc();
    doc.used_types.push(Type::Struct(StructType {
        name: Some(s("S")),
        has_declaration: true,
        fields: vec![StructField { name: s("e"), ty: Type::Easing }],
    }));
    assert!(matches!(generate(&doc, None), Err(GenerateError::Type(TypeError::Unsupported))));
}

#[test]
fn rendering_twice_gives_the_same_text() {
    let mut doc = empty_doc();
    doc.used_types.push(Type::Struct(point()));
    doc.used_types.push(Type::Enumeration(direction()));
    let dest = path(&["out", "app.py"]);
    let a = generate(&doc, Some(&dest)).unwrap().render();
    let b = generate(&doc, Some(&dest)).unwrap().render();
    assert_eq!(a, b);
    assert!(a.starts_with("# This file is auto-generated\n\nimport slint\nimport typing\nimport enum\nimport os\n\nclass Point:\n"));
    assert!(a.ends_with("'../src/ui/main.lang'))))\n"));
}

#[test]
fn mapper_covers_the_supported_types() {
    let cases = vec![
        (Type::Void, "None"),
        (Type::String, "str"),
        (Type::Color, "slint.Color"),
        (Type::Int32, "float"),
        (Type::Duration, "float"),
        (Type::Angle, "float"),
        (Type::PhysicalLength, "float"),
        (Type::LogicalLength, "float"),
        (Type::Percent, "float"),
        (Type::UnitProduct, "float"),
        (Type::Image, "slint.Image"),
        (Type::Bool, "bool"),
        (Type::Brush, "Brush"),
        (Type::Enumeration(direction()), "Direction"),
    ];
    for (t, expected) in cases {
        assert_eq!(python_type_name(&t).unwrap(), expected);
    }
}

#[test]
fn mapper_composes() {
    let arr = Type::Array(Box::new(Type::Struct(point())));
    assert_eq!(python_type_name(&arr).unwrap(), "slint.Model[Point]");
    let tuple = Type::Struct(StructType {
        name: None,
        has_declaration: false,
        fields: vec![
            StructField { name: s("a"), ty: Type::String },
            StructField { name: s("b"), ty: Type::Bool },
        ],
    });
    assert_eq!(python_type_name(&tuple).unwrap(), "typing.Tuple[str, bool]");
    let cb = Type::Callback(Function {
        args: vec![Type::String, Type::Float32],
        return_type: Box::new(Type::Bool),
    });
    assert_eq!(python_type_name(&cb).unwrap(), "typing.Callable[[str, float], bool]");
    let f = Type::Function(Function { args: vec![], return_type: Box::new(Type::Void) });
    assert_eq!(python_type_name(&f).unwrap(), "typing.Callable[[], None]");
    let named = Type::Struct(StructType {
        name: Some(s("my-struct")),
        has_declaration: true,
        fields: vec![],
    });
    assert_eq!(python_type_name(&named).unwrap(), "my_struct");
}

#[test]
fn mapper_errors() {
    assert_eq!(python_type_name(&Type::Invalid).unwrap_err(), TypeError::Invalid);
    assert_eq!(python_type_name(&Type::Model).unwrap_err(), TypeError::Unsupported);
    assert_eq!(python_type_name(&Type::Rem).unwrap_err(), TypeError::Unsupported);
    let undeclared = Type::Struct(StructType {
        name: Some(s("Runtime")),
        has_declaration: false,
        fields: vec![],
    });
    assert_eq!(python_type_name(&undeclared).unwrap_err(), TypeError::Unsupported);
    let nested = Type::Array(Box::new(Type::Invalid));
    assert_eq!(python_type_name(&nested).unwrap_err(), TypeError::Invalid);
}

#[test]
fn ident_sanitizes() {
    assert_eq!(ident("foo-bar-baz"), "foo_bar_baz");
    assert_eq!(ident("counter"), "counter");
    assert_eq!(ident("class"), "class_");
    assert_eq!(ident("None"), "None_");
    assert_eq!(ident("i-f"), "i_f");
    assert_eq!(ident("class"), ident("class"));
    assert_eq!(ident(""), "");
}

#[test]
fn keywords() {
    assert!(is_python_keyword("lambda"));
    assert!(is_python_keyword("False"));
    assert!(!is_python_keyword("false"));
    assert!(!is_python_keyword("print"));
    assert!(!is_python_keyword(""));
}

#[test]
fn relative_paths() {
    let r = relative_path(&path(&["src", "ui"]), &path(&["out", "ui"]));
    assert_eq!(r, vec![s(".."), s(".."), s("src"), s("ui")]);
    let r = relative_path(&path(&["a", "b", "c"]), &path(&["a"]));
    assert_eq!(r, vec![s("b"), s("c")]);
    let r = relative_path(&path(&["a"]), &path(&["a", "b"]));
    assert_eq!(r, vec![s("..")]);
    let r = relative_path(&path(&["a"]), &path(&["a"]));
    assert!(r.is_empty());
}

#[test]
fn class_names_are_sanitized() {
    let mut doc = empty_doc();
    doc.used_types.push(Type::Struct(StructType {
        name: Some(s("my-struct")),
        has_declaration: true,
        fields: vec![StructField { name: s("in"), ty: Type::Bool }],
    }));
    doc.used_types.push(Type::Enumeration(Enumeration {
        name: s("class"),
        values: vec![s("top-left"), s("None")],
    }));
    let f = generate(&doc, None).unwrap();
    let texts = decl_texts(&f);
    assert!(texts[0].starts_with("class my_struct:\n    in_: bool\n"));
    assert_eq!(
        texts[1],
        "class class_(enum.StrEnum):\n    top_left = \"top-left\"\n    None_ = \"None\"\n\n"
    );
}

#[test]
fn export_under_the_sanitized_name_has_no_alias() {
    let exports = vec![
        ExportEntry {
            name: s("class_"),
            target: ExportTarget::Type(Type::Enumeration(Enumeration {
                name: s("class"),
                values: vec![],
            })),
        },
        ExportEntry {
            name: s("main_window"),
            target: ExportTarget::Component { id: s("main-window"), is_global: false },
        },
        ExportEntry {
            name: s("Klass"),
            target: ExportTarget::Type(Type::Enumeration(Enumeration {
                name: s("class"),
                values: vec![],
            })),
        },
    ];
    let texts: Vec<String> = generate_named_exports(&exports).iter().map(|d| d.render()).collect();
    assert_eq!(texts, vec![s("Klass = class_\n")]);
}

#[test]
fn component_without_dependencies_gets_no_global_fields() {
    let mut doc = empty_doc();
    doc.globals.push(GlobalComponent {
        name: s("Shared"),
        public_properties: vec![],
        aliases: vec![],
        exported: true,
        must_generate: true,
    });
    doc.public_components.push(PublicComponent {
        name: s("Plain"),
        public_properties: vec![],
        global_dependencies: vec![],
    });
    let f = generate(&doc, None).unwrap();
    assert_eq!(decl_texts(&f)[1], "class Plain(slint.Component):\n    pass\n");
}

#[test]
fn global_class_and_aliases_in_order() {
    let g = GlobalComponent {
        name: s("app-state"),
        public_properties: vec![PublicProperty { name: s("n"), ty: Type::Bool }],
        aliases: vec![s("A"), s("b-c")],
        exported: true,
        must_generate: true,
    };
    let texts: Vec<String> = generate_global(&g).unwrap().iter().map(|d| d.render()).collect();
    assert_eq!(
        texts,
        vec![s("class app_state:\n    n: bool\n\n"), s("A = app_state\n"), s("b_c = app_state\n")]
    );
}

#[test]
fn nested_type_expression_is_balanced() {
    let t = Type::Callback(Function {
        args: vec![
            Type::Array(Box::new(Type::Struct(StructType {
                name: None,
                has_declaration: false,
                fields: vec![
                    StructField { name: s("a"), ty: Type::Int32 },
                    StructField { name: s("b"), ty: Type::Array(Box::new(Type::Bool)) },
                ],
            }))),
            Type::Struct(point()),
        ],
        return_type: Box::new(Type::Array(Box::new(Type::Color))),
    });
    let text = python_type_name(&t).unwrap();
    assert_eq!(
        text,
        "typing.Callable[[slint.Model[typing.Tuple[float, slint.Model[bool]]], Point], slint.Model[slint.Color]]"
    );
    let mut depth: i32 = 0;
    for c in text.chars() {
        if c == '[' {
            depth += 1;
        } else if c == ']' {
            depth -= 1;
        }
        assert!(depth >= 0);
    }
    assert_eq!(depth, 0);
}

#[test]
fn export_whose_raw_name_differs_gets_an_alias() {
    let exports = vec![
        ExportEntry {
            name: s("a-b"),
            target: ExportTarget::Type(Type::Enumeration(Enumeration {
                name: s("a_b"),
                values: vec![],
            })),
        },
        ExportEntry {
            name: s("class"),
            target: ExportTarget::Type(Type::Enumeration(Enumeration {
                name: s("class"),
                values: vec![],
            })),
        },
    ];
    let texts: Vec<String> = generate_named_exports(&exports).iter().map(|d| d.render()).collect();
    assert_eq!(texts, vec![s("a_b = a_b\n")]);
}
