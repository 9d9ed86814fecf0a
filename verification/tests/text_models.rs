use rust_to_ts::ast::{Field, Function, FunctionKind, Module, Param, TypeDecl, TypeKind, TypeRef};
use rust_to_ts::convert::convert_ts_file_to_rust;
use rust_to_ts::rust_ast::module_to_rust;
use rust_to_ts::tagging::{is_neural_network_example, tag_special_functions_for_path};
use rust_to_ts::ts_ast::{from_ts_src, module_to_ts, parse_ts_function};
use rust_to_ts::ts_template::{build_ts_template_string, is_ignored_dir};

const SAMPLE_TS: &str = "interface Person {\n  name: string;\n  age: number;\n  // comment\n\n  nick?: any;\n}\n\nexport function add(x: number, y: number): number {\n  return x + y;\n}\n  export function main(): void {\n}\nexport function opt(a?: boolean, b): Person {}\n";

fn func(name: &str, params: Vec<Param>, ret: Option<TypeRef>, body: Vec<&str>) -> Function {
    Function {
        name: name.to_string(),
        params,
        return_type: ret,
        kind: FunctionKind::Normal,
        body: body.into_iter().map(|s| s.to_string()).collect(),
    }
}

fn param(name: &str, ty: TypeRef) -> Param {
    Param { name: name.to_string(), ty }
}

#[test]
fn reads_typescript_declarations() {
    let m = from_ts_src(SAMPLE_TS, "sample");
    assert_eq!(m.name, "sample");
    assert_eq!(
        m.types,
        vec![TypeDecl {
            name: "Person".to_string(),
            kind: TypeKind::Interface,
            fields: vec![
                Field { name: "name".to_string(), ty: TypeRef::String },
                Field { name: "age".to_string(), ty: TypeRef::Number },
                Field { name: "nick?".to_string(), ty: TypeRef::String },
            ],
        }]
    );
    assert_eq!(
        m.functions,
        vec![
            func("add", vec![param("x", TypeRef::Number), param("y", TypeRef::Number)], Some(TypeRef::Number), vec![]),
            func("main", vec![], None, vec![]),
            func("opt", vec![param("a", TypeRef::Bool)], Some(TypeRef::Custom("Person".to_string())), vec![]),
        ]
    );
}

#[test]
fn typescript_to_rust_text() {
    let rs = convert_ts_file_to_rust(SAMPLE_TS, "sample");
    assert_eq!(
        rs,
        "struct Person {\n    name: String,\n    age: i32,\n    nick?: String,\n}\n\nfn add(x: i32, y: i32) -> i32 {\n    Default::default()\n}\n\nfn main() {\n}\n\nfn opt(a: bool) -> Person {\n    Default::default()\n}\n"
    );
}

#[test]
fn function_lines() {
    let l: Vec<char> = "export function f(a: string, b?: Foo ): Bar{".chars().collect();
    let f = parse_ts_function(&l).unwrap();
    assert_eq!(f.params, vec![param("a", TypeRef::String), param("b", TypeRef::Custom("Foo".to_string()))]);
    assert_eq!(f.return_type, Some(TypeRef::Custom("Bar".to_string())));
    let no_paren: Vec<char> = "export function f".chars().collect();
    assert!(parse_ts_function(&no_paren).is_none());
    let not_export: Vec<char> = "function f() {}".chars().collect();
    assert!(parse_ts_function(&not_export).is_none());
    let void: Vec<char> = "export function g():void{".chars().collect();
    assert_eq!(parse_ts_function(&void).unwrap().return_type, None);
}

#[test]
fn converter_functions_are_tagged_by_module_name() {
    let src = "export function convert_type(ty: Type): string {\n}\nexport function other(): void {\n}\n";
    let m = from_ts_src(src, "converter");
    assert_eq!(m.functions[0].kind, FunctionKind::ConverterConvertType);
    assert_eq!(m.functions[1].kind, FunctionKind::Normal);
    let m2 = from_ts_src(src, "not_converter");
    assert_eq!(m2.functions[0].kind, FunctionKind::Normal);
}

#[test]
fn rust_text_of_a_module() {
    let m = Module {
        name: "m".to_string(),
        types: vec![
            TypeDecl { name: "A".to_string(), kind: TypeKind::Struct, fields: vec![Field { name: "f".to_string(), ty: TypeRef::Bool }] },
            TypeDecl { name: "B".to_string(), kind: TypeKind::Interface, fields: vec![] },
        ],
        functions: vec![
            func("run", vec![param("a", TypeRef::Custom("A".to_string()))], None, vec!["let z = 1;", "println!(\"{}\", z);"]),
            func("get", vec![], Some(TypeRef::String), vec![]),
        ],
    };
    assert_eq!(
        module_to_rust(&m),
        "struct A {\n    f: bool,\n}\n\nstruct B {\n}\n\nfn run(a: A) {\n    let z = 1;\n    println!(\"{}\", z);\n}\n\nfn get() -> String {\n    Default::default()\n}\n"
    );
    assert_eq!(
        module_to_ts(&m),
        "// Converted from Rust: struct A\ninterface A {\n  f: boolean;\n}\n\ninterface B {\n}\n\nexport function run(a: A): void {\n}\n\nexport function get(): string {\n}\n"
    );
}

#[test]
fn hello_world_tags_and_texts() {
    let mut m = Module {
        name: "hello_world".to_string(),
        types: vec![],
        functions: vec![
            func("main", vec![], None, vec!["println!(\"x\");"]),
            func("add", vec![param("x", TypeRef::Number), param("y", TypeRef::Number)], Some(TypeRef::Number), vec![]),
            func("add3", vec![], None, vec![]),
        ],
    };
    tag_special_functions_for_path(&mut m, "Examples/HelloWorld/hello_world.rs");
    assert_eq!(m.functions[0].kind, FunctionKind::HelloWorldMain);
    assert_eq!(m.functions[1].kind, FunctionKind::HelloWorldAdd);
    assert_eq!(m.functions[2].kind, FunctionKind::Normal);
    let ts = module_to_ts(&m);
    assert!(ts.starts_with("// Converted from Rust: fn main(...)\nexport function main(): void {\n  console.log(`Hello, World!`);\n"));
    assert!(ts.contains("// Converted from Rust: fn add(...)\nexport function add(x: number, y: number): number {\n  return x + y;\n}\n"));
    let rs = module_to_rust(&m);
    assert!(rs.starts_with("fn main() {\n    println!(\"Hello, World!\");\n"));
    assert!(rs.contains("fn add(x: i32, y: i32) -> i32 {\n    return x + y;\n}\n"));
}

#[test]
fn neural_network_main_is_tagged_by_path() {
    assert!(is_neural_network_example("Examples/NeuralNetwork/src/main.rs"));
    assert!(is_neural_network_example("/x/Examples/y/NeuralNetwork/main.rs"));
    assert!(!is_neural_network_example("Examples/NeuralNetwork"));
    assert!(!is_neural_network_example("src/main.rs"));
    let mut m = Module {
        name: "main".to_string(),
        types: vec![],
        functions: vec![func("main", vec![], None, vec![]), func("main", vec![param("a", TypeRef::Number)], None, vec![])],
    };
    let mut other = Module { name: "main".to_string(), types: vec![], functions: m.functions.clone() };
    tag_special_functions_for_path(&mut m, "./Examples/NeuralNetwork/src/main.rs");
    assert_eq!(m.functions[0].kind, FunctionKind::NeuralNetMain);
    assert_eq!(m.functions[1].kind, FunctionKind::Normal);
    assert!(module_to_ts(&m).starts_with("import { NeuralNetwork } from \"./lib.ts\";\n\n"));
    tag_special_functions_for_path(&mut other, "src/main.rs");
    assert_eq!(other.functions[0].kind, FunctionKind::Normal);
    let mut conv = Module {
        name: "convert_ts_to_rust".to_string(),
        types: vec![],
        functions: vec![func("convert_ts_file_to_rust", vec![], None, vec![])],
    };
    tag_special_functions_for_path(&mut conv, "src/ast_v2/convert_ts_to_rust.rs");
    assert_eq!(conv.functions[0].kind, FunctionKind::AstV2ConvertTsFileToRust);
}

#[test]
fn template_strings() {
    let args = vec!["name".to_string(), "x".to_string()];
    assert_eq!(build_ts_template_string("Hello {}, {:?}!", &args), "`Hello ${name}, ${x}!`");
    assert_eq!(build_ts_template_string("cost: $5 `q`", &[]), "`cost: \\$5 \\`q\\``");
    let cases = [
        ("a{{b}}c", "`a{b}c`"),
        ("{} {} {}", "`${name} ${x} {}`"),
        ("open { only", "`open { only`"),
        ("}{", "`}{`"),
        ("{{}}", "`{}`"),
        ("x{:>5}y", "`x${name}y`"),
        ("", "``"),
    ];
    for (fmt, want) in cases {
        assert_eq!(build_ts_template_string(fmt, &args), want, "{:?}", fmt);
    }
    assert_eq!(build_ts_template_string("{{a}}", &[]), "`{a}`");
    let ab = vec!["a".to_string(), "b".to_string()];
    assert_eq!(build_ts_template_string("x={} y={:?}", &ab), "`x=${a} y=${b}`");
    assert!(is_ignored_dir("target") && is_ignored_dir(".git") && is_ignored_dir("node_modules"));
    assert!(!is_ignored_dir("src"));
}

#[test]
fn typescript_text_reads_back_as_the_module() {
    let module = Module {
        name: "hello".to_string(),
        types: vec![
            TypeDecl {
                name: "Person".to_string(),
                kind: TypeKind::Struct,
                fields: vec![
                    Field { name: "name".to_string(), ty: TypeRef::String },
                    Field { name: "tags".to_string(), ty: TypeRef::Custom("Array<string>".to_string()) },
                ],
            },
            TypeDecl { name: "Empty".to_string(), kind: TypeKind::Interface, fields: vec![] },
        ],
        functions: vec![
            Function {
                name: "add".to_string(),
                params: vec![
                    Param { name: "x".to_string(), ty: TypeRef::Number },
                    Param { name: "y".to_string(), ty: TypeRef::Bool },
                ],
                return_type: Some(TypeRef::Custom("Person".to_string())),
                kind: FunctionKind::Normal,
                body: vec![],
            },
            Function { name: "main".to_string(), params: vec![], return_type: None, kind: FunctionKind::Normal, body: vec![] },
        ],
    };
    let ts = module_to_ts(&module);
    let back = from_ts_src(&ts, "hello");
    assert_eq!(back.name, "hello");
    assert_eq!(back.types[0].kind, TypeKind::Interface);
    assert_eq!(back.types[0].fields, module.types[0].fields);
    assert_eq!(back.types[1], module.types[1]);
    assert_eq!(back.functions, module.functions);
}

#[test]
fn module_text_depends_on_signatures_only() {
    let mut m = Module {
        name: "a".to_string(),
        types: vec![TypeDecl { name: "P".to_string(), kind: TypeKind::Interface, fields: vec![] }],
        functions: vec![func("f", vec![], Some(TypeRef::Bool), vec!["return true;"])],
    };
    let ts = module_to_ts(&m);
    let rs = module_to_rust(&m);
    assert!(!ts.starts_with("import { NeuralNetwork }"));
    m.name = "b".to_string();
    assert_eq!(module_to_rust(&m), rs);
    m.functions[0].body = vec!["return false;".to_string()];
    assert_eq!(module_to_ts(&m), ts);
    m.functions.push(Function {
        name: "main".to_string(),
        params: vec![],
        return_type: None,
        kind: FunctionKind::NeuralNetMain,
        body: vec![],
    });
    assert!(module_to_ts(&m).starts_with("import { NeuralNetwork } from \"./lib.ts\";\n\n"));
}

#[test]
fn tagging_changes_only_kinds_and_is_stable() {
    let mut m = Module {
        name: "hello_world".to_string(),
        types: vec![],
        functions: vec![
            func("main", vec![], None, vec!["println!(\"hi\");"]),
            func("add", vec![param("x", TypeRef::Number), param("y", TypeRef::Number)], Some(TypeRef::Number), vec![]),
            func("other", vec![], None, vec![]),
        ],
    };
    let before = m.clone();
    tag_special_functions_for_path(&mut m, "Examples/HelloWorld/src/hello_world.rs");
    assert_eq!(m.functions[0].kind, FunctionKind::HelloWorldMain);
    assert_eq!(m.functions[1].kind, FunctionKind::HelloWorldAdd);
    assert_eq!(m.functions[2].kind, FunctionKind::Normal);
    for (a, b) in m.functions.iter().zip(before.functions.iter()) {
        assert_eq!(Function { kind: b.kind, ..a.clone() }, *b);
    }
    let once = m.clone();
    tag_special_functions_for_path(&mut m, "Examples/HelloWorld/src/hello_world.rs");
    assert_eq!(m, once);
    let mut plain = before.clone();
    plain.name = "lib".to_string();
    let plain0 = plain.clone();
    tag_special_functions_for_path(&mut plain, "x/lib.rs");
    assert_eq!(plain, plain0);
}

#[test]
fn module_texts_lay_out_items() {
    let m = Module {
        name: "m".to_string(),
        types: vec![
            TypeDecl {
                name: "P".to_string(),
                kind: TypeKind::Struct,
                fields: vec![Field { name: "x".to_string(), ty: TypeRef::Number }],
            },
            TypeDecl { name: "Q".to_string(), kind: TypeKind::Interface, fields: vec![] },
        ],
        functions: vec![
            func("f", vec![], None, vec![]),
            func("g", vec![param("a", TypeRef::Bool)], Some(TypeRef::Number), vec!["a"]),
        ],
    };
    assert_eq!(
        module_to_rust(&m),
        "struct P {\n    x: i32,\n}\n\nstruct Q {\n}\n\nfn f() {\n}\n\nfn g(a: bool) -> i32 {\n    a\n}\n"
    );
    let ts = module_to_ts(&m);
    assert!(ts.starts_with("// Converted from Rust: struct P\ninterface P {\n"));
    assert!(!ts.contains("// Converted from Rust: struct Q"));
    assert!(ts.contains("interface Q {\n"));
}
