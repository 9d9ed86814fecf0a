use rust_to_ts::bpmn::from_rust::{expr_to_pretty, extract_main_actions, main_contains_control_flow, MainAction};
use rust_to_ts::bpmn::rust_source::{rust_source_to_bpmn_process, should_embed_lossless_rust_source, split_rust_lines};
use rust_to_ts::bpmn::{
    convert_bpmn_xml_to_rust_code, convert_rust_code_to_bpmn_xml, convert_rust_code_to_bpmn_xml_with_path,
    parse_bpmn_xml, rust_code_to_bpmn_process, BpmnNode,
};
use rust_to_ts::convert::convert_rust_file_to_ts;
use rust_to_ts::rust_ast::from_rust_syntax;
use rust_to_ts::ast::{FunctionKind, TypeRef};
use rust_to_ts::rust_syntax::{RsExpr, RsField, RsFile, RsFn, RsFnArg, RsItem, RsLit, RsMacroArgs, RsPat, RsStmt, RsType, RsUnOp};

fn path(segs: &[&str]) -> RsExpr {
    RsExpr::Path(segs.iter().map(|s| s.to_string()).collect())
}

fn lit_int(d: &str) -> RsExpr {
    RsExpr::Lit(RsLit::Int(d.to_string()))
}

fn call(name: &str, args: Vec<RsExpr>) -> RsExpr {
    RsExpr::Call { func: Box::new(path(&[name])), args }
}

fn ident(name: &str, mutable: bool) -> RsPat {
    RsPat::Ident { name: name.to_string(), mutable }
}

fn local(name: &str, mutable: bool, init: RsExpr) -> RsStmt {
    RsStmt::Local { pat: ident(name, mutable), init: Some(init) }
}

fn stmt(e: RsExpr) -> RsStmt {
    RsStmt::Expr { expr: e, semi: true, text: String::from("...") }
}

fn println(args: RsMacroArgs) -> RsStmt {
    RsStmt::Macro { path: vec!["println".to_string()], args, tokens: String::new(), text: String::new() }
}

fn func(name: &str, stmts: Vec<RsStmt>) -> RsItem {
    let texts = stmts.iter().map(|_| String::from("...")).collect();
    RsItem::Fn(RsFn { name: name.to_string(), generics: vec![], inputs: vec![], output: None, stmts, stmt_texts: texts })
}

fn ty(name: &str) -> RsType {
    RsType::Path { ident: name.to_string(), arg: None }
}

fn hello_bpmn_file() -> RsFile {
    RsFile {
        items: vec![
            func(
                "main",
                vec![
                    local("x", false, lit_int("7")),
                    local("y", true, lit_int("1")),
                    stmt(RsExpr::Assign { left: Box::new(path(&["y"])), right: Box::new(lit_int("2")), text: "y = 2".to_string() }),
                    println(RsMacroArgs::Str("Hello, BPMN!".to_string())),
                    println(RsMacroArgs::Exprs(vec![RsExpr::Lit(RsLit::Str("{}".to_string())), path(&["x"])])),
                    stmt(call("noop", vec![])),
                ],
            ),
            func("noop", vec![]),
        ],
    }
}

#[test]
fn main_actions_become_standard_tasks() {
    let file = hello_bpmn_file();
    let actions = extract_main_actions(&file);
    assert_eq!(actions.len(), 6);
    assert_eq!(actions[1], MainAction::Let { name: "y".to_string(), expr: "1".to_string(), mutable: true });
    assert_eq!(actions[4], MainAction::PrintlnVar("x".to_string()));
    let p = rust_code_to_bpmn_process(&file);
    assert_eq!(p.id, "rust_process");
    assert_eq!(p.nodes.len(), 8);
    assert_eq!(
        p.nodes[3],
        BpmnNode::ServiceTask { id: "ServiceTask_3".to_string(), name: Some("set: y = 2".to_string()) }
    );
    assert_eq!(p.flows.len(), 7);
    assert_eq!(p.flows[6].id, "Flow_7");
    assert_eq!(p.flows[6].source_ref, "ServiceTask_6");
    assert_eq!(p.flows[6].target_ref, "EndEvent_1");
}

#[test]
fn standard_bpmn_reads_back_as_the_example_program() {
    let file = hello_bpmn_file();
    let xml = convert_rust_code_to_bpmn_xml("fn main() {}", &Ok(file)).unwrap();
    let rust = convert_bpmn_xml_to_rust_code(&xml).unwrap();
    assert_eq!(
        rust,
        "fn noop() {\n    // TODO: implement called function\n}\n\nfn main() {\n    let x = 7;\n    let mut y = 1;\n    y = 2;\n    println!(\"Hello, BPMN!\");\n    println!(\"{}\", x);\n    noop();\n    // Skipping BPMN node id=\"EndEvent_1\" (not a task)\n}\n"
    );
}

#[test]
fn functions_without_main_actions_are_called_in_order() {
    let file = RsFile { items: vec![func("a", vec![]), func("main", vec![]), RsItem::Other("const C : u8 = 1 ;".to_string()), func("b", vec![])] };
    let p = rust_code_to_bpmn_process(&file);
    let names: Vec<Option<String>> = p.nodes.iter().filter_map(|n| match n {
        BpmnNode::ServiceTask { name, .. } => Some(name.clone()),
        _ => None,
    }).collect();
    assert_eq!(names, vec![Some("call: a".to_string()), Some("call: b".to_string())]);
}

#[test]
fn control_flow_is_embedded_with_an_outline() {
    let body = vec![stmt(RsExpr::ForLoop {
        pat: ident("i", false),
        iter: Box::new(RsExpr::Range {
            start: Some(Box::new(lit_int("0"))),
            end: Some(Box::new(lit_int("3"))),
            closed: false,
            text: "0 .. 3".to_string(),
        }),
        body: vec![stmt(call("work", vec![]))],
        text: String::new(),
        pat_text: String::new(),
        iter_text: String::new(),
    })];
    let file = RsFile { items: vec![func("main", body)] };
    let parsed = Ok(file);
    assert!(main_contains_control_flow(&parsed));
    let src = "fn main() {\r\n    for i in 0..3 { work(); }\n}";
    let p = rust_source_to_bpmn_process(src, &parsed, Some("m.rs".to_string()));
    assert_eq!(p.id, "rust_source");
    // start, source, 3 lines, end, then the outline
    assert_eq!(p.nodes[2], BpmnNode::RustLine {
        id: "RustLine_1".to_string(),
        path: Some("m.rs".to_string()),
        line: 1,
        eol: "CRLF".to_string(),
        text: "fn main() {".to_string(),
        text_hex: "666e206d61696e2829207b".to_string(),
    });
    let outline: Vec<(String, Option<String>)> = p.nodes[6..].iter().map(|n| match n {
        BpmnNode::ServiceTask { id, name } | BpmnNode::ExclusiveGateway { id, name } => (id.clone(), name.clone()),
        other => panic!("unexpected node {:?}", other),
    }).collect();
    assert_eq!(outline, vec![
        ("Task_1".to_string(), Some("comment: structured main()".to_string())),
        ("ExclusiveGateway_2".to_string(), Some("for: i in 0..3".to_string())),
        ("Task_3".to_string(), Some("comment: loop body i".to_string())),
        ("Task_4".to_string(), Some("call: work()".to_string())),
        ("Task_5".to_string(), Some("comment: end for i".to_string())),
    ]);
    let flows: Vec<(&str, &str, &str, Option<&str>)> = p.flows.iter().map(|f| {
        (f.id.as_str(), f.source_ref.as_str(), f.target_ref.as_str(), f.name.as_deref())
    }).collect();
    assert_eq!(flows, vec![
        ("Flow_1", "StartEvent_1", "RustSource_1", None),
        ("Flow_S_1", "RustSource_1", "Task_1", None),
        ("Flow_S_2", "Task_1", "ExclusiveGateway_2", None),
        ("Flow_S_3", "ExclusiveGateway_2", "Task_3", Some("loop")),
        ("Flow_S_4", "Task_3", "Task_4", None),
        ("Flow_S_5", "Task_4", "ExclusiveGateway_2", Some("next")),
        ("Flow_S_6", "ExclusiveGateway_2", "Task_5", Some("exit")),
        ("Flow_S_7", "Task_5", "EndEvent_1", None),
    ]);
    let xml = convert_rust_code_to_bpmn_xml_with_path(src, &parsed, Some("m.rs".to_string())).unwrap();
    assert!(xml.contains("<rustSource id=\"RustSource_1\" path=\"m.rs\""));
    assert!(parse_bpmn_xml(&xml).is_ok());
}

#[test]
fn if_chains_meet_at_a_merge_gateway() {
    let chain = RsExpr::If {
        cond: Box::new(path(&["a"])),
        then_branch: vec![stmt(call("x", vec![]))],
        else_branch: Some(Box::new(RsExpr::If {
            cond: Box::new(RsExpr::Let { pat: RsPat::Other, expr: Box::new(path(&["b"])), text: String::new() }),
            then_branch: vec![],
            else_branch: Some(Box::new(RsExpr::Block { stmts: vec![stmt(call("z", vec![]))], text: String::new() })),
            text: String::new(),
        })),
        text: String::new(),
    };
    let parsed = Ok(RsFile { items: vec![func("main", vec![stmt(chain)])] });
    let p = rust_source_to_bpmn_process("fn main() {}", &parsed, None);
    let names: Vec<String> = p.nodes[4..].iter().map(|n| match n {
        BpmnNode::ServiceTask { name: Some(n), .. } | BpmnNode::ExclusiveGateway { name: Some(n), .. } => n.clone(),
        other => panic!("unexpected node {:?}", other),
    }).collect();
    assert_eq!(names, vec![
        "comment: structured main()",
        "merge",
        "if: a",
        "comment: then",
        "call: x()",
        "iflet: _ = b",
        "comment: then",
        "comment: else",
        "comment: expr <expr>",
    ]);
    let labelled: Vec<(&str, &str, Option<&str>)> = p.flows.iter().filter(|f| f.name.is_some()).map(|f| {
        (f.source_ref.as_str(), f.target_ref.as_str(), f.name.as_deref())
    }).collect();
    assert_eq!(labelled, vec![
        ("ExclusiveGateway_3", "Task_4", Some("yes")),
        ("ExclusiveGateway_3", "ExclusiveGateway_6", Some("no")),
        ("ExclusiveGateway_6", "Task_7", Some("yes")),
        ("ExclusiveGateway_6", "Task_8", Some("no")),
    ]);
}

#[test]
fn readable_expressions() {
    let e = RsExpr::MethodCall {
        receiver: Box::new(path(&["std", "io"])),
        method: "read".to_string(),
        args: vec![
            lit_int("1"),
            RsExpr::Unary { op: RsUnOp::Not, expr: Box::new(path(&["x"])) },
            RsExpr::Lit(RsLit::Str("q\"".to_string())),
            RsExpr::Match("match x { }".to_string()),
        ],
    };
    assert_eq!(expr_to_pretty(&e), "std::io.read(1, -x, \"q\"\", <expr>)");
    assert_eq!(expr_to_pretty(&RsExpr::Range { start: None, end: None, closed: false, text: "..".to_string() }), "..");
    assert_eq!(expr_to_pretty(&RsExpr::Lit(RsLit::Other("'c'".to_string()))), "<lit>");
}

#[test]
fn lines_and_embedding() {
    let lines = split_rust_lines("a\r\nb\n\nc");
    let got: Vec<(&str, &str)> = lines.iter().map(|(t, e)| (t.as_str(), e.as_str())).collect();
    assert_eq!(got, vec![("a", "CRLF"), ("b", "LF"), ("", "LF"), ("c", "NONE")]);
    assert_eq!(split_rust_lines("x\n").len(), 1);
    assert!(split_rust_lines("").is_empty());
    assert!(should_embed_lossless_rust_source("struct NeuralNetwork;"));
    assert!(should_embed_lossless_rust_source(&"é".repeat(2001)));
    assert!(!should_embed_lossless_rust_source(&"é".repeat(2000)));
    assert!(!should_embed_lossless_rust_source("fn main() {}"));
}

#[test]
fn parse_errors_and_module_fallback() {
    let err: Result<RsFile, String> = Err("expected item".to_string());
    assert_eq!(convert_rust_code_to_bpmn_xml("garbage", &err), Err("Rust parse error: expected item".to_string()));
    let embedded = convert_rust_code_to_bpmn_xml("NeuralNetwork garbage", &err).unwrap();
    assert!(embedded.contains("<rustSource id=\"RustSource_1\""));
    assert_eq!(
        convert_rust_file_to_ts(&err, "x", "x.rs"),
        Err("Failed to parse Rust source: expected item".to_string())
    );

    let file = RsFile {
        items: vec![
            RsItem::Struct {
                name: "P".to_string(),
                generics: vec![],
                named_fields: Some(vec![RsField { name: "n".to_string(), ty: ty("u64") }]),
            },
            RsItem::Fn(RsFn {
                name: "main".to_string(),
                generics: vec![],
                inputs: vec![
                    RsFnArg::Receiver,
                    RsFnArg::Typed { pat: None, ty: RsType::Reference(Box::new(ty("u8"))), pat_text: String::new() },
                ],
                output: Some(ty("str")),
                stmts: vec![RsStmt::Local { pat: RsPat::Other, init: Some(lit_int("1")) }],
                stmt_texts: vec!["let _ = 1 ;".to_string()],
            }),
        ],
    };
    let m = from_rust_syntax(&file, "rust_process");
    assert_eq!(m.types[0].fields.len(), 1);
    assert_eq!(m.types[0].fields[0].ty, TypeRef::Number);
    assert_eq!(m.functions[0].params[0].name, "_");
    assert_eq!(m.functions[0].params[0].ty, TypeRef::Custom("unknown".to_string()));
    assert_eq!(m.functions[0].return_type, Some(TypeRef::String));
    assert_eq!(m.functions[0].kind, FunctionKind::Normal);
    let parsed = Ok(file);
    let xml = convert_rust_code_to_bpmn_xml("fn main() { let _ = 1; }", &parsed).unwrap();
    assert!(xml.contains("<rustFunction id=\"RustFunction_main\" name=\"main\""));
    assert!(xml.contains("<rustType id=\"RustType_P\" name=\"P\" kind=\"struct\" fields=\"n:number\"/>"));
}

#[test]
fn source_lines_rejoin_to_the_source() {
    let src = "a\r\nb\n\nc";
    let lines = rust_to_ts::bpmn::rust_source::split_rust_lines(src);
    let want: Vec<(String, String)> = [("a", "CRLF"), ("b", "LF"), ("", "LF"), ("c", "NONE")]
        .iter()
        .map(|(t, e)| (t.to_string(), e.to_string()))
        .collect();
    assert_eq!(lines, want);
    let rejoined: String = lines
        .iter()
        .map(|(t, e)| {
            t.clone()
                + match e.as_str() {
                    "LF" => "\n",
                    "CRLF" => "\r\n",
                    _ => "",
                }
        })
        .collect();
    assert_eq!(rejoined, src);
    let ended = rust_to_ts::bpmn::rust_source::split_rust_lines("x\n");
    assert_eq!(ended, vec![("x".to_string(), "LF".to_string())]);
    assert!(rust_to_ts::bpmn::rust_source::split_rust_lines("").is_empty());
}
