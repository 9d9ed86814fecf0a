//! From parsed Rust source to BPMN: the readable form of expressions, the
//! standard task directives that the statements of `main` stand for, and
//! the check for control flow in `main`.

use vstd::prelude::*;
use crate::rust_syntax::{RsExpr, RsFile, RsFn, RsItem, RsLit, RsMacroArgs, RsPat, RsStmt, RsUnOp};
use crate::text::{chars_of, spec_decimal, str_eq, usize_to_decimal};
use super::model::{opt_view, BpmnNode, BpmnNodeV, BpmnProcess, BpmnProcessV, BpmnSequenceFlow};
use super::from_module::{chain_flow, end_node, start_node};
use super::to_module::names_view;
use super::directive::{push_rust_escaped, spec_rust_escape};
use super::emit::{join_lines, spec_join};

verus! {

/// The readable text of an expression: paths joined by `::`, literals by
/// their digits or value, calls with their arguments joined by `, `,
/// ranges, negations; anything else is `<expr>` (`<lit>` for other literals).
pub open spec fn pretty(e: RsExpr) -> Seq<char>
    decreases e,
{
    match e {
        RsExpr::Path(segs) => spec_join(segs@.map_values(|s: String| s@), "::"@),
        RsExpr::Lit(l) => match l {
            RsLit::Int(d) => d@,
            RsLit::Float(d) => d@,
            RsLit::Str(v) => "\""@ + v@ + "\""@,
            RsLit::Bool(b) => if b { "true"@ } else { "false"@ },
            RsLit::Other(_) => "<lit>"@,
        },
        RsExpr::MethodCall { receiver, method, args } => pretty(*receiver) + "."@ + method@ + "("@
            + pretty_list(args@) + ")"@,
        RsExpr::Call { func, args } => pretty(*func) + "("@ + pretty_list(args@) + ")"@,
        RsExpr::Range { start, end, .. } => (match start {
            Some(b) => pretty(*b),
            None => Seq::empty(),
        }) + ".."@ + (match end {
            Some(b) => pretty(*b),
            None => Seq::empty(),
        }),
        RsExpr::Unary { expr, .. } => "-"@ + pretty(*expr),
        _ => "<expr>"@,
    }
}

/// The readable texts of expressions, joined by `, `.
pub open spec fn pretty_list(args: Seq<RsExpr>) -> Seq<char>
    decreases args,
{
    if args.len() == 0 {
        Seq::empty()
    } else if args.len() == 1 {
        pretty(args[0])
    } else {
        pretty_list(args.drop_last()) + ", "@ + pretty(args.last())
    }
}

/// The readable text of an expression (see [`pretty`]).
pub fn expr_to_pretty(e: &RsExpr) -> (r: String)
    ensures
        r@ == pretty(*e),
    decreases e,
{
    match e {
        RsExpr::Path(segs) => {
            let r = join_lines(segs, "::");
            assert(segs@.map_values(|l: String| l@) =~= segs@.map_values(|s: String| s@));
            r
        },
        RsExpr::Lit(l) => match l {
            RsLit::Int(d) => d.clone(),
            RsLit::Float(d) => d.clone(),
            RsLit::Str(v) => {
                let mut out = String::new();
                out.push_str("\"");
                out.push_str(v.as_str());
                out.push_str("\"");
                out
            },
            RsLit::Bool(b) => if *b {
                "true".to_owned()
            } else {
                "false".to_owned()
            },
            RsLit::Other(_) => "<lit>".to_owned(),
        },
        RsExpr::MethodCall { receiver, method, args } => {
            let mut out = expr_to_pretty(receiver);
            out.push_str(".");
            out.push_str(method.as_str());
            out.push_str("(");
            let a = pretty_args(args);
            out.push_str(a.as_str());
            out.push_str(")");
            out
        },
        RsExpr::Call { func, args } => {
            let mut out = expr_to_pretty(func);
            out.push_str("(");
            let a = pretty_args(args);
            out.push_str(a.as_str());
            out.push_str(")");
            out
        },
        RsExpr::Range { start, end, .. } => {
            let mut out = match start {
                Some(b) => expr_to_pretty(b),
                None => String::new(),
            };
            out.push_str("..");
            match end {
                Some(b) => {
                    let t = expr_to_pretty(b);
                    out.push_str(t.as_str());
                },
                None => {},
            }
            out
        },
        RsExpr::Unary { expr, .. } => {
            let mut out = String::new();
            out.push_str("-");
            let t = expr_to_pretty(expr);
            out.push_str(t.as_str());
            out
        },
        _ => "<expr>".to_owned(),
    }
}

fn pretty_args(args: &Vec<RsExpr>) -> (r: String)
    ensures
        r@ == pretty_list(args@),
    decreases args,
{
    let mut out = String::new();
    let mut i: usize = 0;
    while i < args.len()
        invariant
            i <= args@.len(),
            out@ == pretty_list(args@.subrange(0, i as int)),
        decreases args@.len() - i,
    {
        if i > 0 {
            out.push_str(", ");
        }
        let t = expr_to_pretty(&args[i]);
        out.push_str(t.as_str());
        assert(args@.subrange(0, i + 1).drop_last() =~= args@.subrange(0, i as int));
        i += 1;
    }
    assert(args@.subrange(0, args@.len() as int) =~= args@);
    out
}

/// Text escaped for a directive (as for a Rust string literal).
pub fn rust_escape_for_directive(s: &str) -> (r: String)
    ensures
        r@ == spec_rust_escape(s@),
{
    let cs = chars_of(s);
    let mut out = String::new();
    push_rust_escaped(&mut out, cs.as_slice());
    out
}

/// The value side of a directive an expression can be written as:
/// a literal (strings re-quoted and escaped), a negated number, or a
/// one-segment path.
pub open spec fn simple_directive(e: RsExpr) -> Option<Seq<char>> {
    match e {
        RsExpr::Lit(l) => match l {
            RsLit::Int(d) => Some(d@),
            RsLit::Float(d) => Some(d@),
            RsLit::Bool(b) => Some(if b { "true"@ } else { "false"@ }),
            RsLit::Str(v) => Some("\""@ + spec_rust_escape(v@) + "\""@),
            RsLit::Other(_) => None,
        },
        RsExpr::Unary { op: RsUnOp::Neg, expr } => match *expr {
            RsExpr::Lit(RsLit::Int(d)) => Some("-"@ + d@),
            RsExpr::Lit(RsLit::Float(d)) => Some("-"@ + d@),
            _ => None,
        },
        RsExpr::Path(segs) => if segs@.len() == 1 {
            Some(segs@[0]@)
        } else {
            None
        },
        _ => None,
    }
}

pub fn expr_to_simple_directive(e: &RsExpr) -> (r: Option<String>)
    ensures
        opt_view(r) == simple_directive(*e),
{
    match e {
        RsExpr::Lit(l) => match l {
            RsLit::Int(d) => Some(d.clone()),
            RsLit::Float(d) => Some(d.clone()),
            RsLit::Bool(b) => Some(if *b { "true".to_owned() } else { "false".to_owned() }),
            RsLit::Str(v) => {
                let mut out = String::new();
                out.push_str("\"");
                let esc = rust_escape_for_directive(v.as_str());
                out.push_str(esc.as_str());
                out.push_str("\"");
                Some(out)
            },
            RsLit::Other(_) => None,
        },
        RsExpr::Unary { op: RsUnOp::Neg, expr } => {
            {
                match &**expr {
                    RsExpr::Lit(RsLit::Int(d)) => {
                        let mut out = String::new();
                        out.push_str("-");
                        out.push_str(d.as_str());
                        Some(out)
                    },
                    RsExpr::Lit(RsLit::Float(d)) => {
                        let mut out = String::new();
                        out.push_str("-");
                        out.push_str(d.as_str());
                        Some(out)
                    },
                    _ => None,
                }
            }
        },
        RsExpr::Path(segs) => {
            if segs.len() == 1 {
                Some(segs[0].clone())
            } else {
                None
            }
        },
        _ => None,
    }
}

/// A statement of `main` that a standard task directive can stand for.
#[derive(Debug, PartialEq, Eq)]
pub enum MainAction {
    Println(String),
    PrintlnVar(String),
    Let { name: String, expr: String, mutable: bool },
    SetVar { name: String, expr: String },
    Call(String),
}

/// The directive a `main` action becomes as a task name.
pub open spec fn action_text(a: MainAction) -> Seq<char> {
    match a {
        MainAction::Println(s) => "println: "@ + s@,
        MainAction::PrintlnVar(v) => "println_var: "@ + v@,
        MainAction::Let { name, expr, mutable } => (if mutable { "letmut: "@ } else { "let: "@ })
            + name@ + " = "@ + expr@,
        MainAction::SetVar { name, expr } => "set: "@ + name@ + " = "@ + expr@,
        MainAction::Call(f) => "call: "@ + f@,
    }
}

/// The directive texts of a list of actions.
pub open spec fn action_texts(v: Seq<MainAction>) -> Seq<Seq<char>> {
    v.map_values(|a: MainAction| action_text(a))
}

/// What a `println!` call prints: a lone string literal, or `"{}"` with a
/// one-segment path.
pub open spec fn println_text(args: RsMacroArgs) -> Option<Seq<char>> {
    match args {
        RsMacroArgs::Str(v) => Some("println: "@ + v@),
        RsMacroArgs::Exprs(es) => if es@.len() == 2 {
            match (es@[0], es@[1]) {
                (RsExpr::Lit(RsLit::Str(f)), RsExpr::Path(segs)) => if f@ == "{}"@ && segs@.len() == 1 {
                    Some("println_var: "@ + segs@[0]@)
                } else {
                    None
                },
                _ => None,
            }
        } else {
            None
        },
        RsMacroArgs::Unparsed => None,
    }
}

pub fn extract_println_action(args: &RsMacroArgs) -> (r: Option<MainAction>)
    ensures
        match r {
            Some(a) => println_text(*args) == Some(action_text(a)) && (a is Println || a is PrintlnVar),
            None => println_text(*args).is_none(),
        },
{
    match args {
        RsMacroArgs::Str(v) => Some(MainAction::Println(v.clone())),
        RsMacroArgs::Exprs(es) => {
            if es.len() == 2 {
                match (&es[0], &es[1]) {
                    (RsExpr::Lit(RsLit::Str(f)), RsExpr::Path(segs)) => {
                        if str_eq(f.as_str(), "{}") && segs.len() == 1 {
                            Some(MainAction::PrintlnVar(segs[0].clone()))
                        } else {
                            None
                        }
                    },
                    _ => None,
                }
            } else {
                None
            }
        },
        RsMacroArgs::Unparsed => None,
    }
}

/// The directive a statement of `main` stands for, if any: `let` of an
/// identifier with a simple value, `println!` (a one-segment path), an
/// assignment of a simple value to a one-segment path, or a call of a
/// one-segment path other than `println`.
pub open spec fn stmt_directive(s: RsStmt) -> Option<Seq<char>> {
    match s {
        RsStmt::Local { pat, init } => match (pat, init) {
            (RsPat::Ident { name, mutable }, Some(e)) => match simple_directive(e) {
                Some(x) => Some((if mutable { "letmut: "@ } else { "let: "@ }) + name@ + " = "@ + x),
                None => None,
            },
            _ => None,
        },
        RsStmt::Macro { path, args, .. } => if path@.len() == 1 && path@[0]@ == "println"@ {
            println_text(args)
        } else {
            None
        },
        RsStmt::Expr { expr: e, .. } => match e {
            RsExpr::Assign { left, right, .. } => match *left {
                RsExpr::Path(segs) => if segs@.len() == 1 {
                    match simple_directive(*right) {
                        Some(x) => Some("set: "@ + segs@[0]@ + " = "@ + x),
                        None => None,
                    }
                } else {
                    None
                },
                _ => None,
            },
            RsExpr::Call { func, args } => match *func {
                RsExpr::Path(segs) => if segs@.len() == 1 && segs@[0]@ != "println"@ {
                    Some("call: "@ + segs@[0]@)
                } else {
                    None
                },
                _ => None,
            },
            _ => None,
        },
        RsStmt::Item => None,
    }
}

/// The directives of a list of statements, in order.
pub open spec fn stmts_directives(ss: Seq<RsStmt>) -> Seq<Seq<char>>
    decreases ss.len(),
{
    if ss.len() == 0 {
        Seq::empty()
    } else {
        stmts_directives(ss.drop_last()) + match stmt_directive(ss.last()) {
            Some(t) => seq![t],
            None => Seq::empty(),
        }
    }
}

/// The first function item named `main`.
pub open spec fn find_main(items: Seq<RsItem>) -> Option<RsFn>
    decreases items.len(),
{
    if items.len() == 0 {
        None
    } else {
        match items[0] {
            RsItem::Fn(f) => if f.name@ == "main"@ {
                Some(f)
            } else {
                find_main(items.drop_first())
            },
            _ => find_main(items.drop_first()),
        }
    }
}

/// The directives the statements of `main` stand for (none without a `main`).
pub open spec fn main_directives(file: RsFile) -> Seq<Seq<char>> {
    match find_main(file.items@) {
        Some(f) => stmts_directives(f.stmts@),
        None => Seq::empty(),
    }
}

pub fn find_main_fn(file: &RsFile) -> (r: Option<&RsFn>)
    ensures
        match r {
            Some(f) => find_main(file.items@) == Some(*f),
            None => find_main(file.items@).is_none(),
        },
{
    let ghost items = file.items@;
    let mut i: usize = 0;
    assert(items.subrange(0, items.len() as int) =~= items);
    while i < file.items.len()
        invariant
            i <= items.len(),
            items == file.items@,
            find_main(items) == find_main(items.subrange(i as int, items.len() as int)),
        decreases items.len() - i,
    {
        let ghost rest = items.subrange(i as int, items.len() as int);
        assert(rest[0] == items[i as int]);
        assert(rest.drop_first() =~= items.subrange(i + 1, items.len() as int));
        match &file.items[i] {
            RsItem::Fn(f) => {
                if str_eq(f.name.as_str(), "main") {
                    return Some(f);
                }
            },
            _ => {},
        }
        i += 1;
    }
    None
}

/// The action a statement of `main` stands for (see [`stmt_directive`]).
fn stmt_action(s: &RsStmt) -> (r: Option<MainAction>)
    ensures
        match r {
            Some(a) => stmt_directive(*s) == Some(action_text(a)),
            None => stmt_directive(*s).is_none(),
        },
{
    match s {
        RsStmt::Local { pat, init } => match (pat, init) {
            (RsPat::Ident { name, mutable }, Some(e)) => match expr_to_simple_directive(e) {
                Some(x) => Some(MainAction::Let { name: name.clone(), expr: x, mutable: *mutable }),
                None => None,
            },
            _ => None,
        },
        RsStmt::Macro { path, args, .. } => {
            if path.len() == 1 && str_eq(path[0].as_str(), "println") {
                extract_println_action(args)
            } else {
                None
            }
        },
        RsStmt::Expr { expr: e, .. } => match e {
            RsExpr::Assign { left, right, .. } => match &**left {
                RsExpr::Path(segs) => {
                    if segs.len() == 1 {
                        match expr_to_simple_directive(right) {
                            Some(x) => Some(MainAction::SetVar { name: segs[0].clone(), expr: x }),
                            None => None,
                        }
                    } else {
                        None
                    }
                },
                _ => None,
            },
            RsExpr::Call { func, args: _ } => match &**func {
                RsExpr::Path(segs) => {
                    if segs.len() == 1 && !str_eq(segs[0].as_str(), "println") {
                        Some(MainAction::Call(segs[0].clone()))
                    } else {
                        None
                    }
                },
                _ => None,
            },
            _ => None,
        },
        RsStmt::Item => None,
    }
}

/// The actions of the statements of `main`, in order (none without a `main`).
pub fn extract_main_actions(file: &RsFile) -> (r: Vec<MainAction>)
    ensures
        action_texts(r@) == main_directives(*file),
{
    let mut out: Vec<MainAction> = Vec::new();
    let f = match find_main_fn(file) {
        Some(f) => f,
        None => {
            assert(action_texts(out@) =~= Seq::<Seq<char>>::empty());
            return out;
        },
    };
    let ghost ss = f.stmts@;
    let mut i: usize = 0;
    assert(action_texts(out@) =~= stmts_directives(ss.subrange(0, 0)));
    while i < f.stmts.len()
        invariant
            i <= ss.len(),
            ss == f.stmts@,
            action_texts(out@) == stmts_directives(ss.subrange(0, i as int)),
        decreases ss.len() - i,
    {
        let ghost before = out@;
        assert(ss.subrange(0, i + 1).drop_last() =~= ss.subrange(0, i as int));
        match stmt_action(&f.stmts[i]) {
            Some(a) => {
                out.push(a);
                assert(action_texts(out@) =~= action_texts(before).push(action_text(a)));
            },
            None => {},
        }
        i += 1;
    }
    assert(ss.subrange(0, ss.len() as int) =~= ss);
    out
}

/// The names of the function items, in order.
pub open spec fn fn_names(items: Seq<RsItem>) -> Seq<Seq<char>>
    decreases items.len(),
{
    if items.len() == 0 {
        Seq::empty()
    } else {
        fn_names(items.drop_last()) + match items.last() {
            RsItem::Fn(f) => seq![f.name@],
            _ => Seq::empty(),
        }
    }
}

/// `call:` directives for every function name but `main`.
pub open spec fn call_directives(names: Seq<Seq<char>>) -> Seq<Seq<char>>
    decreases names.len(),
{
    if names.len() == 0 {
        Seq::empty()
    } else {
        call_directives(names.drop_last()) + if names.last() == "main"@ {
            Seq::empty()
        } else {
            seq!["call: "@ + names.last()]
        }
    }
}

/// The task directives of a source file: those of `main`, or, when there
/// are none, a call of every function other than `main`.
pub open spec fn ordered_directives(file: RsFile) -> Seq<Seq<char>> {
    if main_directives(file).len() > 0 {
        main_directives(file)
    } else {
        call_directives(fn_names(file.items@))
    }
}

/// The task ids `ServiceTask_1`, `ServiceTask_2`, ...
pub open spec fn task_ids(n: nat) -> Seq<Seq<char>> {
    Seq::new(n, |i: int| "ServiceTask_"@ + spec_decimal((i + 1) as nat))
}

/// The standard process of a source file: a start event, one service
/// task per directive (see [`ordered_directives`]) and an end event,
/// chained by flows.
pub open spec fn spec_rust_code_process(file: RsFile) -> BpmnProcessV {
    let ds = ordered_directives(file);
    let ids = task_ids(ds.len());
    BpmnProcessV {
        id: "rust_process"@,
        name: None,
        nodes: seq![start_node()] + Seq::new(
            ds.len(),
            |i: int| BpmnNodeV::ServiceTask { id: ids[i], name: Some(ds[i]) },
        ) + seq![end_node()],
        flows: Seq::new(ds.len() + 1, |k: int| chain_flow(ids, k)),
    }
}

fn action_directive(a: &MainAction) -> (r: String)
    ensures
        r@ == action_text(*a),
{
    let mut out = String::new();
    match a {
        MainAction::Println(s) => {
            out.push_str("println: ");
            out.push_str(s.as_str());
        },
        MainAction::PrintlnVar(v) => {
            out.push_str("println_var: ");
            out.push_str(v.as_str());
        },
        MainAction::Let { name, expr, mutable } => {
            if *mutable {
                out.push_str("letmut: ");
            } else {
                out.push_str("let: ");
            }
            out.push_str(name.as_str());
            out.push_str(" = ");
            out.push_str(expr.as_str());
        },
        MainAction::SetVar { name, expr } => {
            out.push_str("set: ");
            out.push_str(name.as_str());
            out.push_str(" = ");
            out.push_str(expr.as_str());
        },
        MainAction::Call(f) => {
            out.push_str("call: ");
            out.push_str(f.as_str());
        },
    }
    out
}

pub(crate) fn numbered(prefix: &str, n: usize) -> (r: String)
    ensures
        r@ == prefix@ + spec_decimal(n as nat),
{
    let mut out = String::new();
    out.push_str(prefix);
    let d = usize_to_decimal(n);
    out.push_str(d.as_str());
    out
}

/// The directive texts of the file (see [`ordered_directives`]).
fn directive_texts(file: &RsFile) -> (r: Vec<String>)
    ensures
        names_view(r@) == ordered_directives(*file),
{
    let actions = extract_main_actions(file);
    let mut out: Vec<String> = Vec::new();
    if actions.len() > 0 {
        let mut i: usize = 0;
        while i < actions.len()
            invariant
                i <= actions@.len(),
                out@.len() == i,
                forall|k: int| 0 <= k < i ==> (#[trigger] out@[k])@ == action_text(actions@[k]),
            decreases actions@.len() - i,
        {
            out.push(action_directive(&actions[i]));
            i += 1;
        }
        assert(names_view(out@) =~= action_texts(actions@));
        return out;
    }
    let ghost items = file.items@;
    let mut j: usize = 0;
    while j < file.items.len()
        invariant
            j <= items.len(),
            items == file.items@,
            names_view(out@) == call_directives(fn_names(items.subrange(0, j as int))),
        decreases items.len() - j,
    {
        let ghost before = names_view(out@);
        let ghost names0 = fn_names(items.subrange(0, j as int));
        assert(items.subrange(0, j + 1).drop_last() =~= items.subrange(0, j as int));
        match &file.items[j] {
            RsItem::Fn(f) => {
                assert(fn_names(items.subrange(0, j + 1)) == names0.push(f.name@));
                assert(names0.push(f.name@).drop_last() =~= names0);
                if !str_eq(f.name.as_str(), "main") {
                    let mut t = String::new();
                    t.push_str("call: ");
                    t.push_str(f.name.as_str());
                    out.push(t);
                    assert(names_view(out@) =~= before.push(t@));
                }
            },
            _ => {
                assert(fn_names(items.subrange(0, j + 1)) =~= names0);
            },
        }
        j += 1;
    }
    assert(items.subrange(0, items.len() as int) =~= items);
    out
}

/// The standard process of a parsed source file (see [`spec_rust_code_process`]).
pub fn rust_code_to_bpmn_process(file: &RsFile) -> (r: BpmnProcess)
    ensures
        r@ == spec_rust_code_process(*file),
{
    let ds = directive_texts(file);
    let ghost dv = names_view(ds@);
    let n = ds.len();
    let ghost ids = task_ids(n as nat);
    let mut nodes: Vec<BpmnNode> = Vec::new();
    nodes.push(BpmnNode::StartEvent { id: "StartEvent_1".to_owned(), name: Some("Start".to_owned()) });
    let mut task_ids_v: Vec<String> = Vec::new();
    let mut i: usize = 0;
    while i < n
        invariant
            i <= n == ds@.len(),
            dv == names_view(ds@),
            ids == task_ids(n as nat),
            names_view(task_ids_v@) == ids.subrange(0, i as int),
            nodes@.map_values(|x: BpmnNode| x@) == seq![start_node()] + Seq::new(
                i as nat,
                |k: int| BpmnNodeV::ServiceTask { id: ids[k], name: Some(dv[k]) },
            ),
        decreases n - i,
    {
        let id = numbered("ServiceTask_", i + 1);
        let ghost pre = nodes@.map_values(|x: BpmnNode| x@);
        let ghost pre_ids = names_view(task_ids_v@);
        task_ids_v.push(id.clone());
        let node = BpmnNode::ServiceTask { id, name: Some(ds[i].clone()) };
        nodes.push(node);
        assert(nodes@.map_values(|x: BpmnNode| x@) =~= pre.push(node@));
        assert(names_view(task_ids_v@) =~= pre_ids.push(ids[i as int]));
        i += 1;
        assert(nodes@.map_values(|x: BpmnNode| x@) =~= seq![start_node()] + Seq::new(
            i as nat,
            |k: int| BpmnNodeV::ServiceTask { id: ids[k], name: Some(dv[k]) },
        ));
        assert(names_view(task_ids_v@) =~= ids.subrange(0, i as int));
    }
    let _count = nodes.len();
    assert(n < usize::MAX);
    nodes.push(BpmnNode::EndEvent { id: "EndEvent_1".to_owned(), name: Some("End".to_owned()) });
    assert(ids.subrange(0, n as int) =~= ids);
    let mut flows: Vec<BpmnSequenceFlow> = Vec::new();
    let mut prev: String = "StartEvent_1".to_owned();
    let mut k: usize = 0;
    while k < n
        invariant
            k <= n == task_ids_v@.len(),
            n < usize::MAX,
            names_view(task_ids_v@) == ids,
            ids.len() == n,
            prev@ == (if k == 0 { "StartEvent_1"@ } else { ids[k - 1] }),
            flows@.len() == k,
            forall|q: int| 0 <= q < k ==> (#[trigger] flows@[q])@ == chain_flow(ids, q),
        decreases n - k,
    {
        let f = BpmnSequenceFlow {
            id: numbered("Flow_", k + 1),
            source_ref: prev,
            target_ref: task_ids_v[k].clone(),
            name: None,
        };
        flows.push(f);
        prev = task_ids_v[k].clone();
        k += 1;
    }
    flows.push(BpmnSequenceFlow {
        id: numbered("Flow_", n + 1),
        source_ref: prev,
        target_ref: "EndEvent_1".to_owned(),
        name: None,
    });
    let r = BpmnProcess { id: "rust_process".to_owned(), name: None, nodes, flows };
    assert(r@.flows =~= Seq::new((n + 1) as nat, |q: int| chain_flow(ids, q)));
    assert(r@.nodes =~= spec_rust_code_process(*file).nodes);
    r
}

/// Whether an expression holds control flow: `if`, loops and `match`
/// anywhere in it (inside blocks, conditions, calls, operands, indexing,
/// field access and `return`).
pub open spec fn expr_cf(e: RsExpr) -> bool
    decreases e,
{
    match e {
        RsExpr::If { .. } => true,
        RsExpr::ForLoop { .. } => true,
        RsExpr::While { .. } => true,
        RsExpr::Loop { .. } => true,
        RsExpr::Match(_) => true,
        RsExpr::Block { stmts, .. } => stmts_cf(stmts@),
        RsExpr::Let { expr, .. } => expr_cf(*expr),
        RsExpr::Call { func, args } => expr_cf(*func) || exprs_cf(args@),
        RsExpr::MethodCall { receiver, method, args } => expr_cf(*receiver) || exprs_cf(args@),
        RsExpr::Assign { left, right, .. } => expr_cf(*left) || expr_cf(*right),
        RsExpr::Binary { left, right, .. } => expr_cf(*left) || expr_cf(*right),
        RsExpr::Unary { expr, .. } => expr_cf(*expr),
        RsExpr::Paren { expr: x, .. } => expr_cf(*x),
        RsExpr::Group { expr: x, .. } => expr_cf(*x),
        RsExpr::Reference { expr: x, .. } => expr_cf(*x),
        RsExpr::Index { expr, index, .. } => expr_cf(*expr) || expr_cf(*index),
        RsExpr::Field { base: x, .. } => expr_cf(*x),
        RsExpr::Return(r) => match r {
            Some(x) => expr_cf(*x),
            None => false,
        },
        _ => false,
    }
}

pub open spec fn exprs_cf(es: Seq<RsExpr>) -> bool
    decreases es,
{
    if es.len() == 0 {
        false
    } else {
        exprs_cf(es.drop_last()) || expr_cf(es.last())
    }
}

/// Whether a statement holds control flow (in its expression or `let` initializer).
pub open spec fn stmt_cf(s: RsStmt) -> bool
    decreases s,
{
    match s {
        RsStmt::Expr { expr: e, .. } => expr_cf(e),
        RsStmt::Local { pat, init } => match init {
            Some(e) => expr_cf(e),
            None => false,
        },
        _ => false,
    }
}

pub open spec fn stmts_cf(ss: Seq<RsStmt>) -> bool
    decreases ss,
{
    if ss.len() == 0 {
        false
    } else {
        stmts_cf(ss.drop_last()) || stmt_cf(ss.last())
    }
}

fn expr_has_control_flow(e: &RsExpr) -> (r: bool)
    ensures
        r == expr_cf(*e),
    decreases e,
{
    match e {
        RsExpr::If { .. } => true,
        RsExpr::ForLoop { .. } => true,
        RsExpr::While { .. } => true,
        RsExpr::Loop { .. } => true,
        RsExpr::Match(_) => true,
        RsExpr::Block { stmts, .. } => stmts_have_control_flow(stmts),
        RsExpr::Let { expr, .. } => expr_has_control_flow(expr),
        RsExpr::Call { func, args } => expr_has_control_flow(func) || exprs_have_control_flow(args),
        RsExpr::MethodCall { receiver, method: _, args } => expr_has_control_flow(receiver)
            || exprs_have_control_flow(args),
        RsExpr::Assign { left, right, .. } => expr_has_control_flow(left) || expr_has_control_flow(right),
        RsExpr::Binary { left, right, .. } => expr_has_control_flow(left) || expr_has_control_flow(right),
        RsExpr::Unary { expr, .. } => expr_has_control_flow(expr),
        RsExpr::Paren { expr: x, .. } => expr_has_control_flow(x),
        RsExpr::Group { expr: x, .. } => expr_has_control_flow(x),
        RsExpr::Reference { expr: x, .. } => expr_has_control_flow(x),
        RsExpr::Index { expr, index, .. } => expr_has_control_flow(expr) || expr_has_control_flow(index),
        RsExpr::Field { base: x, .. } => expr_has_control_flow(x),
        RsExpr::Return(r) => match r {
            Some(x) => expr_has_control_flow(x),
            None => false,
        },
        _ => false,
    }
}

fn exprs_have_control_flow(es: &Vec<RsExpr>) -> (r: bool)
    ensures
        r == exprs_cf(es@),
    decreases es,
{
    let mut i: usize = 0;
    while i < es.len()
        invariant
            i <= es@.len(),
            !exprs_cf(es@.subrange(0, i as int)),
        decreases es@.len() - i,
    {
        assert(es@.subrange(0, i + 1).drop_last() =~= es@.subrange(0, i as int));
        if expr_has_control_flow(&es[i]) {
            proof {
                lemma_exprs_cf_prefix(es@, i + 1);
            }
            return true;
        }
        i += 1;
    }
    assert(es@.subrange(0, es@.len() as int) =~= es@);
    false
}

proof fn lemma_exprs_cf_prefix(es: Seq<RsExpr>, n: int)
    requires
        0 <= n <= es.len(),
        exprs_cf(es.subrange(0, n)),
    ensures
        exprs_cf(es),
    decreases es.len() - n,
{
    if n < es.len() {
        assert(es.subrange(0, n + 1).drop_last() =~= es.subrange(0, n));
        lemma_exprs_cf_prefix(es, n + 1);
    } else {
        assert(es.subrange(0, n) =~= es);
    }
}

proof fn lemma_stmts_cf_prefix(ss: Seq<RsStmt>, n: int)
    requires
        0 <= n <= ss.len(),
        stmts_cf(ss.subrange(0, n)),
    ensures
        stmts_cf(ss),
    decreases ss.len() - n,
{
    if n < ss.len() {
        assert(ss.subrange(0, n + 1).drop_last() =~= ss.subrange(0, n));
        lemma_stmts_cf_prefix(ss, n + 1);
    } else {
        assert(ss.subrange(0, n) =~= ss);
    }
}

fn stmt_has_control_flow(s: &RsStmt) -> (r: bool)
    ensures
        r == stmt_cf(*s),
    decreases s,
{
    match s {
        RsStmt::Expr { expr: e, .. } => expr_has_control_flow(e),
        RsStmt::Local { pat: _, init } => match init {
            Some(e) => expr_has_control_flow(e),
            None => false,
        },
        _ => false,
    }
}

fn stmts_have_control_flow(ss: &Vec<RsStmt>) -> (r: bool)
    ensures
        r == stmts_cf(ss@),
    decreases ss,
{
    let mut i: usize = 0;
    while i < ss.len()
        invariant
            i <= ss@.len(),
            !stmts_cf(ss@.subrange(0, i as int)),
        decreases ss@.len() - i,
    {
        assert(ss@.subrange(0, i + 1).drop_last() =~= ss@.subrange(0, i as int));
        if stmt_has_control_flow(&ss[i]) {
            proof {
                lemma_stmts_cf_prefix(ss@, i + 1);
            }
            return true;
        }
        i += 1;
    }
    assert(ss@.subrange(0, ss@.len() as int) =~= ss@);
    false
}

/// Whether the `main` of a parsed file holds control flow (false when the
/// source did not parse or has no `main`).
pub open spec fn spec_main_has_control_flow(parsed: Result<RsFile, String>) -> bool {
    match parsed {
        Ok(file) => match find_main(file.items@) {
            Some(f) => stmts_cf(f.stmts@),
            None => false,
        },
        Err(_) => false,
    }
}

pub fn main_contains_control_flow(parsed: &Result<RsFile, String>) -> (r: bool)
    ensures
        r == spec_main_has_control_flow(*parsed),
{
    match parsed {
        Ok(file) => match find_main_fn(file) {
            Some(f) => stmts_have_control_flow(&f.stmts),
            None => false,
        },
        Err(_) => false,
    }
}

/// A negated number keeps its sign in the directive written for it: the
/// value written for `-d` is `-` followed by the value written for `d`
/// (so the two differ), and `let x = -d;` becomes `let: x = -d`.
pub proof fn lemma_negated_number_directive(d: String, float: bool, name: String, mutable: bool)
    ensures
        ({
            let lit = if float {
                RsExpr::Lit(RsLit::Float(d))
            } else {
                RsExpr::Lit(RsLit::Int(d))
            };
            let neg = RsExpr::Unary { op: RsUnOp::Neg, expr: Box::new(lit) };
            &&& simple_directive(lit) == Some(d@)
            &&& simple_directive(neg) == Some(seq!['-'] + d@)
            &&& simple_directive(neg) != simple_directive(lit)
            &&& stmt_directive(RsStmt::Local { pat: RsPat::Ident { name, mutable }, init: Some(neg) }) == Some(
                (if mutable {
                    "letmut: "@
                } else {
                    "let: "@
                }) + name@ + " = "@ + seq!['-'] + d@,
            )
        }),
{
    reveal_strlit("-");
    let lit = if float {
        RsExpr::Lit(RsLit::Float(d))
    } else {
        RsExpr::Lit(RsLit::Int(d))
    };
    let neg = RsExpr::Unary { op: RsUnOp::Neg, expr: Box::new(lit) };
    assert(simple_directive(neg) == Some(seq!['-'] + d@));
    assert((seq!['-'] + d@).len() != d@.len());
    let pre = (if mutable {
        "letmut: "@
    } else {
        "let: "@
    }) + name@ + " = "@;
    assert(pre + (seq!['-'] + d@) =~= pre + seq!['-'] + d@);
}

} // verus!
