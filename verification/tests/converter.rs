use rust_to_ts::converter::convert_rust_to_ts;
use rust_to_ts::rust_syntax::{
    RsBinOp, RsExpr, RsField, RsFile, RsFn, RsFnArg, RsItem, RsLit, RsMacroArgs, RsPat, RsStmt, RsType, RsUnOp,
};

fn path(segs: &[&str]) -> RsExpr {
    RsExpr::Path(segs.iter().map(|s| s.to_string()).collect())
}

fn lit_int(d: &str) -> RsExpr {
    RsExpr::Lit(RsLit::Int(d.to_string()))
}

fn ty(name: &str) -> RsType {
    RsType::Path { ident: name.to_string(), arg: None }
}

fn ty_of(name: &str, arg: RsType) -> RsType {
    RsType::Path { ident: name.to_string(), arg: Some(Box::new(arg)) }
}

fn ident(name: &str, mutable: bool) -> RsPat {
    RsPat::Ident { name: name.to_string(), mutable }
}

fn param(name: &str, t: RsType) -> RsFnArg {
    RsFnArg::Typed { pat: Some(name.to_string()), ty: t, pat_text: String::new() }
}

fn call(func: RsExpr, args: Vec<RsExpr>) -> RsExpr {
    RsExpr::Call { func: Box::new(func), args }
}

fn semi(e: RsExpr, text: &str) -> RsStmt {
    RsStmt::Expr { expr: e, semi: true, text: text.to_string() }
}

fn tail(e: RsExpr) -> RsStmt {
    RsStmt::Expr { expr: e, semi: false, text: String::new() }
}

fn func(name: &str, generics: &[&str], inputs: Vec<RsFnArg>, output: Option<RsType>, stmts: Vec<RsStmt>) -> RsFn {
    RsFn {
        name: name.to_string(),
        generics: generics.iter().map(|g| g.to_string()).collect(),
        inputs,
        output,
        stmt_texts: stmts.iter().map(|_| String::new()).collect(),
        stmts,
    }
}

fn convert(items: Vec<RsItem>) -> String {
    convert_rust_to_ts(&RsFile { items }, "", false)
}

#[test]
fn structs_become_interfaces() {
    let s = RsItem::Struct {
        name: "Point".to_string(),
        generics: vec!["T".to_string()],
        named_fields: Some(vec![
            RsField { name: "x".to_string(), ty: ty_of("Vec", ty("T")) },
            RsField { name: "y".to_string(), ty: ty_of("Option", RsType::Reference(Box::new(ty("str")))) },
            RsField { name: "z".to_string(), ty: ty("Vec") },
            RsField { name: "w".to_string(), ty: RsType::Other },
        ]),
    };
    assert_eq!(
        convert(vec![s]),
        "// Converted from Rust: struct Point\ninterface Point<T> {\n  x: T[];\n  y: string | undefined;\n  z: any[];\n  w: any;\n}\n\n"
    );
    let unit = RsItem::Struct { name: "NeuralNetwork".to_string(), generics: vec![], named_fields: None };
    assert_eq!(
        convert(vec![unit]),
        "// Converted from Rust: struct NeuralNetwork\ninterface NeuralNetwork {\n}\n\nexport const NeuralNetwork: any = {};\n\n"
    );
}

#[test]
fn function_bodies_statement_by_statement() {
    let println = RsStmt::Macro {
        path: vec!["println".to_string()],
        args: RsMacroArgs::Exprs(vec![RsExpr::Lit(RsLit::Str("i = {}".to_string())), path(&["i"])]),
        tokens: "\"i = {}\" , i".to_string(),
        text: "println ! (\"i = {}\" , i) ;".to_string(),
    };
    let for_loop = RsExpr::ForLoop {
        pat: ident("i", false),
        iter: Box::new(RsExpr::Range {
            start: Some(Box::new(lit_int("0"))),
            end: Some(Box::new(path(&["k"]))),
            closed: true,
            text: "0 ..= k".to_string(),
        }),
        body: vec![println],
        text: String::new(),
        pat_text: String::new(),
        iter_text: String::new(),
    };
    let if_let = RsExpr::If {
        cond: Box::new(RsExpr::Let {
            pat: RsPat::TupleStruct { path: vec!["Some".to_string()], elems: vec![ident("v", false)] },
            expr: Box::new(path(&["opt"])),
            text: String::new(),
        }),
        then_branch: vec![semi(call(path(&["g"]), vec![path(&["v"])]), "g (v)")],
        else_branch: Some(Box::new(RsExpr::Block {
            stmts: vec![semi(call(path(&["h"]), vec![]), "h ()")],
            text: String::new(),
        })),
        text: String::new(),
    };
    let f = func(
        "f",
        &["T"],
        vec![
            param("a", ty("i32")),
            RsFnArg::Typed { pat: None, ty: ty("u8"), pat_text: "pt . pat".to_string() },
        ],
        Some(ty("bool")),
        vec![
            RsStmt::Local {
                pat: RsPat::Tuple(vec![ident("p", false), RsPat::Other]),
                init: Some(RsExpr::Tuple(vec![path(&["a"]), lit_int("2")])),
            },
            RsStmt::Local {
                pat: RsPat::Typed(Box::new(ident("k", true))),
                init: Some(RsExpr::MethodCall {
                    receiver: Box::new(path(&["a"])),
                    method: "max".to_string(),
                    args: vec![lit_int("3")],
                }),
            },
            tail(for_loop),
            tail(if_let),
            tail(RsExpr::Unary { op: RsUnOp::Not, expr: Box::new(path(&["done"])) }),
        ],
    );
    assert_eq!(
        convert(vec![RsItem::Fn(f)]),
        [
            "// Converted from Rust: fn f(...)\n",
            "export function f<T>(a: number, pt . pat: u8): boolean {\n",
            "  // Rust variable declaration\n",
            "  const [p, _tmp1] = [a, 2] as any;\n",
            "  // Rust variable declaration\n",
            "  let k = Math.max(a, 3);\n",
            "  // Rust for-loop\n",
            "  for (let i = 0; i <= k; i++) {\n",
            "  // Rust macro\n",
            "  console.log(`i = ${i}`);\n",
            "  }\n",
            "  // Rust if-let\n",
            "  const __tmp = opt;\n",
            "  if (__tmp !== undefined) {\n",
            "    const v = __tmp;\n",
            "  // Rust expression\n",
            "  g(v);\n",
            "  } else {\n",
            "  // Rust expression\n",
            "  h();\n",
            "  }\n",
            "  return !done;\n",
            "}\n\n",
        ]
        .concat()
    );
}

#[test]
fn inherent_impls_become_prefixed_functions() {
    let get = func(
        "get",
        &["U", "T"],
        vec![RsFnArg::Receiver, param("i", ty("usize"))],
        Some(ty_of("Option", ty("T"))),
        vec![tail(RsExpr::Field { base: Box::new(path(&["self"])), member: "cells".to_string() })],
    );
    let new = func("new", &[], vec![], Some(ty("Self")), vec![tail(call(path(&["Vec", "new"]), vec![]))]);
    let imp = RsItem::Impl {
        is_trait: false,
        self_ty: ty_of("Grid", ty("T")),
        generics: vec!["T".to_string()],
        fns: vec![get, new],
    };
    assert_eq!(
        convert(vec![imp]),
        [
            "// Converted from Rust: impl Grid<T>::get\n",
            "function Grid_get<T, U>(selfObj: Grid<T>, i: number): T | undefined {\n",
            "  return selfObj.cells;\n",
            "}\n\n",
            "// Converted from Rust: impl Grid<T>::new\n",
            "function Grid_new<T>(): any {\n",
            "  return Vec.new();\n",
            "}\n\n",
        ]
        .concat()
    );
}

#[test]
fn items_without_a_typescript_form() {
    let trait_impl = RsItem::Impl { is_trait: true, self_ty: ty("X"), generics: vec![], fns: vec![] };
    let file = RsFile {
        items: vec![RsItem::Use, RsItem::Mod, trait_impl, RsItem::Other("const C : u8 = 1 ;".to_string())],
    };
    assert_eq!(
        convert_rust_to_ts(&file, "use x;", true),
        [
            "import { NeuralNetwork, make_rng_from_args } from \"./lib.ts\";\n\n",
            "// Skipped trait implementation (not yet supported)\n\n",
            "// Unsupported Rust item: const C : u8 = 1 ;\n\n",
        ]
        .concat()
    );
    assert_eq!(convert_rust_to_ts(&RsFile { items: vec![] }, "", false), "");
}

#[test]
fn neural_network_runtime_forms() {
    let new = func("new_with_value", &[], vec![], None, vec![]);
    let imp = RsItem::Impl { is_trait: false, self_ty: ty("NeuralNetwork"), generics: vec![], fns: vec![new] };
    let out = convert(vec![imp]);
    assert!(out.starts_with(
        "// Converted from Rust: impl NeuralNetwork associated functions\nObject.assign(NeuralNetwork, {\n  new_with_value: function(x_layers: number, y_nodes: number, z_weights: number, value: any) {\n"
    ));
    assert!(!out.contains("random_uniform: function"));
    assert!(out.ends_with("});\n\n// Converted from Rust: impl NeuralNetwork::new_with_value\nfunction NeuralNetwork_new_with_value(): void {\n}\n\n"));

    let ru = func("random_uniform", &[], vec![], None, vec![]);
    let method = func("random_uniform", &[], vec![RsFnArg::Receiver], None, vec![]);
    let imp = RsItem::Impl { is_trait: false, self_ty: ty("NeuralNetwork"), generics: vec![], fns: vec![method] };
    assert!(!convert(vec![imp]).contains("Object.assign"));
    let imp = RsItem::Impl { is_trait: false, self_ty: ty("NeuralNetwork"), generics: vec![], fns: vec![ru] };
    let out = convert(vec![imp]);
    assert!(out.contains("    else if (rngName === 'chacha8' || rngName === 'chacha8rng') { rand = chacha8Factory(seedU64); }\n"));
    assert!(!out.contains("new_with_value: function"));
}

#[test]
fn calls_unsupported_expressions_and_macros() {
    let body = vec![
        RsStmt::Local {
            pat: ident("r", false),
            init: Some(call(path(&["rng_name_from_args"]), vec![path(&["args"])])),
        },
        RsStmt::Local {
            pat: ident("x", false),
            init: Some(RsExpr::Range { start: None, end: None, closed: false, text: "..".to_string() }),
        },
        RsStmt::Local {
            pat: ident("nn", false),
            init: Some(call(
                path(&["NeuralNetwork", "random_uniform_f32_with"]),
                vec![lit_int("1"), lit_int("2"), path(&["rng"])],
            )),
        },
        semi(RsExpr::While { body: vec![], text: "while c { }".to_string() }, "while c { }"),
        RsStmt::Macro {
            path: vec!["print".to_string()],
            args: RsMacroArgs::Exprs(vec![RsExpr::Lit(RsLit::Str("a{}".to_string())), path(&["b"])]),
            tokens: String::new(),
            text: String::new(),
        },
        RsStmt::Macro {
            path: vec!["eprintln".to_string()],
            args: RsMacroArgs::Unparsed,
            tokens: "x".to_string(),
            text: "eprintln ! (x) ;".to_string(),
        },
        RsStmt::Macro {
            path: vec!["println".to_string()],
            args: RsMacroArgs::Unparsed,
            tokens: "=>".to_string(),
            text: "println ! (=>) ;".to_string(),
        },
        semi(
            RsExpr::Binary {
                op: RsBinOp::Eq,
                left: Box::new(RsExpr::Unary { op: RsUnOp::Neg, expr: Box::new(lit_int("1")) }),
                right: Box::new(RsExpr::Lit(RsLit::Float("2.5".to_string()))),
            },
            "",
        ),
        RsStmt::Item,
        tail(RsExpr::Macro {
            path: vec!["format".to_string()],
            args: RsMacroArgs::Str("x".to_string()),
            tokens: "\"x\"".to_string(),
            text: "format ! (\"x\")".to_string(),
        }),
    ];
    let f = func("main", &[], vec![], None, body);
    assert_eq!(
        convert(vec![RsItem::Fn(f)]),
        [
            "// Converted from Rust: fn main(...)\n",
            "export function main(): void {\n",
            "  // Rust variable declaration\n",
            "  const r = (((globalThis as any).__RUST_TO_TS_RNG||'default') as string);\n",
            "  // Rust variable declaration\n",
            "  // Unsupported initializer omitted\n",
            "  // Rust variable declaration\n",
            "  const nn = NeuralNetwork.random_uniform(1, 2);\n",
            "  // Unsupported statement: while c { }\n",
            "  // Rust macro\n",
            "  Deno.stdout.writeSync(new TextEncoder().encode(`a${b}`));\n",
            "  // Unsupported macro: eprintln!\\n  // Original: eprintln ! (x) ;\n",
            "  // Rust macro\n",
            "  console.log(=>); // raw args\n",
            "  // Original: println ! (=>) ;\n",
            "  // Rust expression\n",
            "  -1 === 2.5;\n",
            "  // Unsupported statement (unhandled variant)\n",
            "  // Unsupported trailing expression\n",
            "}\n\n",
        ]
        .concat()
    );
}

#[test]
fn loops_the_converter_cannot_count() {
    let by_pattern = RsExpr::ForLoop {
        pat: RsPat::Tuple(vec![]),
        iter: Box::new(path(&["v"])),
        body: vec![],
        text: "for () in v { }".to_string(),
        pat_text: "for () in v { } . pat".to_string(),
        iter_text: "v".to_string(),
    };
    let by_iter = RsExpr::ForLoop {
        pat: ident("x", false),
        iter: Box::new(path(&["v"])),
        body: vec![],
        text: "for x in v { }".to_string(),
        pat_text: String::new(),
        iter_text: "v".to_string(),
    };
    let else_if = RsExpr::If {
        cond: Box::new(path(&["a"])),
        then_branch: vec![],
        else_branch: Some(Box::new(RsExpr::If {
            cond: Box::new(path(&["b"])),
            then_branch: vec![],
            else_branch: None,
            text: "if b { }".to_string(),
        })),
        text: String::new(),
    };
    let f = func("m", &[], vec![], None, vec![tail(by_pattern), tail(by_iter), tail(else_if)]);
    assert_eq!(
        convert(vec![RsItem::Fn(f)]),
        [
            "// Converted from Rust: fn m(...)\n",
            "export function m(): void {\n",
            "  // Unsupported for-loop pattern: for () in v { } . pat\n",
            "  // Original: for () in v { }\n",
            "  // Unsupported for-loop iterator: v\n",
            "  // Original: for x in v { }\n",
            "  // Rust if\n",
            "  if (a) {\n",
            "  } else {\n",
            "    // Unsupported else expression: if b { }\n",
            "  }\n",
            "}\n\n",
        ]
        .concat()
    );
}
