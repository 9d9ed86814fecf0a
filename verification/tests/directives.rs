use rust_to_ts::bpmn::directive::{
    is_float_text, parse_assignment_rhs, parse_call_target, parse_ident, parse_simple_expr,
    parse_task_directive, rust_escape_string, sanitize_ident,
};

fn chars(s: &str) -> Vec<char> {
    s.chars().collect()
}

fn line(s: &str) -> Option<String> {
    parse_task_directive(&chars(s)).map(|v| {
        assert_eq!(v.len(), 1);
        v[0].clone()
    })
}

#[test]
fn println_directives() {
    assert_eq!(line("println: Hello, BPMN!").as_deref(), Some("println!(\"Hello, BPMN!\");"));
    assert_eq!(line("  PRINT :  say \"hi\"\t ").as_deref(), Some("println!(\"say \\\"hi\\\"\");"));
    assert_eq!(line("console.log: x").as_deref(), Some("println!(\"x\");"));
    assert_eq!(line("log: a\\b").as_deref(), Some("println!(\"a\\\\b\");"));
    assert_eq!(line("println_var: x").as_deref(), Some("println!(\"{}\", x);"));
    assert_eq!(line("println_var: 1x"), None);
}

#[test]
fn assignment_directives() {
    assert_eq!(line("let: x = 7").as_deref(), Some("let x = 7;"));
    assert_eq!(line("letmut: y = 1").as_deref(), Some("let mut y = 1;"));
    assert_eq!(line("Let-Mut: y=-2.5e3").as_deref(), Some("let mut y = -2.5e3;"));
    assert_eq!(line("let_mut: flag = TRUE").as_deref(), Some("let mut flag = true;"));
    assert_eq!(line("set: y = 2").as_deref(), Some("y = 2;"));
    assert_eq!(line("let: s = \"a\"b\"").as_deref(), Some("let s = \"a\\\"b\";"));
    assert_eq!(line("let: v = other_var").as_deref(), Some("let v = other_var;"));
    assert_eq!(line("let: x = 1 + 2"), None);
    assert_eq!(line("let: 2x = 1"), None);
    assert_eq!(line("let: x"), None);
}

#[test]
fn other_directives() {
    assert_eq!(line("call: noop").as_deref(), Some("noop();"));
    assert_eq!(line("comment:   keep  this  ").as_deref(), Some("// keep  this"));
    assert_eq!(line("unknown: x"), None);
    assert_eq!(line("println:"), None);
    assert_eq!(line("println:    "), None);
    assert_eq!(line("no colon here"), None);
    assert_eq!(parse_call_target(&chars(" CALL : do_it ")).as_deref(), Some("do_it"));
    assert_eq!(parse_call_target(&chars("println: x")), None);
    assert_eq!(parse_call_target(&chars("call: not an ident")), None);
}

#[test]
fn simple_values() {
    let v = |s: &str| parse_simple_expr(&chars(s));
    assert_eq!(v(" 42 ").as_deref(), Some("42"));
    assert_eq!(v("+7").as_deref(), Some("+7"));
    assert_eq!(v("1.").as_deref(), Some("1."));
    assert_eq!(v(".5").as_deref(), Some(".5"));
    assert_eq!(v("1e10").as_deref(), Some("1e10"));
    assert_eq!(v("-Infinity").as_deref(), Some("-Infinity"));
    assert_eq!(v("NaN").as_deref(), Some("NaN"));
    assert_eq!(v("False").as_deref(), Some("false"));
    assert_eq!(v("\"\"").as_deref(), Some("\"\""));
    assert_eq!(v("\"line\nbreak\"").as_deref(), Some("\"line\\nbreak\""));
    assert_eq!(v("_tmp1").as_deref(), Some("_tmp1"));
    assert_eq!(v("."), None);
    assert_eq!(v("1e"), None);
    assert_eq!(v("\""), None);
    assert_eq!(v(""), None);
    assert_eq!(v("a-b"), None);
}

#[test]
fn float_grammar_matches_std() {
    for s in [
        "0", "-0", "+1", "12.5", "1.", ".5", ".", "e", "1e", "1e+", "1e-3", "1E3", "inf", "-inf",
        "INFINITY", "nan", "+nan", "1.2.3", "1e3.5", "--1", "", " 1", "0x10", "1_000",
    ] {
        assert_eq!(is_float_text(&chars(s)), s.parse::<f64>().is_ok(), "{:?}", s);
    }
}

#[test]
fn identifiers_and_names() {
    assert_eq!(parse_ident(&chars("  foo_1 ")).as_deref(), Some("foo_1"));
    assert_eq!(parse_ident(&chars("_")).as_deref(), Some("_"));
    assert_eq!(parse_ident(&chars("9a")), None);
    assert_eq!(parse_ident(&chars("é")), None);
    assert_eq!(sanitize_ident("Check order #2"), "Check_order__2");
    assert_eq!(sanitize_ident(""), "_task");
    assert_eq!(rust_escape_string("a\"b\\c\td\re\n"), "a\\\"b\\\\c\\td\\re\\n");
    assert!(parse_assignment_rhs(&chars(" total = 3 = 4")).is_none());
    let p = parse_assignment_rhs(&chars("total=3")).unwrap();
    assert_eq!((p.0.as_str(), p.1.as_str()), ("total", "3"));
}
