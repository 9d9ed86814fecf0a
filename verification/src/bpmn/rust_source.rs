//! The lossless BPMN form of Rust source: the whole text (and every line)
//! embedded in non-standard nodes, followed by an informational outline of
//! `main` built from tasks and gateways.

use vstd::prelude::*;
use vstd::string::StringSliceAdditionalSpecFns;
use vstd::utf8::encode_utf8;
use crate::rust_syntax::{RsExpr, RsFile, RsPat, RsStmt};
use crate::text::{chars_of, contains_str, contains_text, spec_decimal, string_from_range, usize_to_decimal};
use super::xmltext::{hex_encode, lacks, spec_hex_encode, split_on};
use super::from_module::{end_node, start_node};
use super::from_rust::{find_main, find_main_fn};
use super::from_rust::{expr_to_pretty, extract_println_action, pretty, println_text, MainAction};
use super::model::{BpmnNode, BpmnNodeV, BpmnProcess, BpmnProcessV, BpmnSequenceFlow, FlowV};


verus! {

/// Hands out node and flow ids while the outline of `main` is built.
pub struct BpmnBuild {
    pub next_node: usize,
    pub next_flow: usize,
}

/// The nodes and flows built so far, with the next free numbers.
pub struct BuildV {
    pub nodes: Seq<BpmnNodeV>,
    pub flows: Seq<FlowV>,
    pub next_node: usize,
    pub next_flow: usize,
}

pub open spec fn build_state(p: BpmnProcessV, b: BpmnBuild) -> BuildV {
    BuildV { nodes: p.nodes, flows: p.flows, next_node: b.next_node, next_flow: b.next_flow }
}

/// A service task named `name`, with id `Task_<n>`.
pub open spec fn b_task(st: BuildV, name: Seq<char>) -> (BuildV, Seq<char>) {
    let id = "Task"@ + "_"@ + spec_decimal(st.next_node as nat);
    (
        BuildV {
            nodes: st.nodes.push(BpmnNodeV::ServiceTask { id, name: Some(name) }),
            next_node: st.next_node.wrapping_add(1),
            ..st
        },
        id,
    )
}

/// An exclusive gateway named `name`, with id `ExclusiveGateway_<n>`.
pub open spec fn b_gate(st: BuildV, name: Seq<char>) -> (BuildV, Seq<char>) {
    let id = "ExclusiveGateway"@ + "_"@ + spec_decimal(st.next_node as nat);
    (
        BuildV {
            nodes: st.nodes.push(BpmnNodeV::ExclusiveGateway { id, name: Some(name) }),
            next_node: st.next_node.wrapping_add(1),
            ..st
        },
        id,
    )
}

/// A flow with id `Flow_S_<n>`.
pub open spec fn b_flow(st: BuildV, src: Seq<char>, tgt: Seq<char>, name: Option<Seq<char>>) -> BuildV {
    BuildV {
        flows: st.flows.push(
            FlowV { id: "Flow_S_"@ + spec_decimal(st.next_flow as nat), source_ref: src, target_ref: tgt, name },
        ),
        next_flow: st.next_flow.wrapping_add(1),
        ..st
    }
}

/// A task linked from `prev`.
pub open spec fn b_link(st: BuildV, prev: Seq<char>, name: Seq<char>) -> (BuildV, Seq<char>) {
    let (s1, t) = b_task(st, name);
    (b_flow(s1, prev, t, None), t)
}

/// The task name of a `let` statement.
pub open spec fn let_text(pat: RsPat, init: Option<RsExpr>) -> Seq<char> {
    let (name, mutable) = match pat {
        RsPat::Ident { name: n, mutable: m } => (n@, m),
        _ => ("_"@, false),
    };
    let rhs = match init {
        Some(e) => pretty(e),
        None => "<init>"@,
    };
    (if mutable { "letmut: "@ } else { "let: "@ }) + name + " = "@ + rhs
}

/// The label of an `if` gateway: `iflet: pat = expr` or `if: cond`.
pub open spec fn cond_label(c: RsExpr) -> Seq<char> {
    match c {
        RsExpr::Let { pat, expr, .. } => "iflet: "@ + (match pat {
            RsPat::Ident { name: p, .. } => p@,
            _ => "_"@,
        }) + " = "@ + pretty(*expr),
        _ => "if: "@ + pretty(c),
    }
}

/// The last identifier of a macro path (empty for an empty path).
pub open spec fn macro_name(path: Seq<String>) -> Seq<char> {
    if path.len() > 0 {
        path.last()@
    } else {
        Seq::empty()
    }
}

/// The outline of one statement, linked from `prev`; gives the node the
/// next statement links from.
pub open spec fn stmt_nodes(st: BuildV, prev: Seq<char>, s: RsStmt) -> (BuildV, Seq<char>)
    decreases s, 0int,
{
    match s {
        RsStmt::Local { pat, init } => b_link(st, prev, let_text(pat, init)),
        RsStmt::Expr { expr: e, .. } => expr_nodes(st, prev, e),
        RsStmt::Item => (st, prev),
        RsStmt::Macro { path, args, .. } => {
            let name = macro_name(path@);
            if name == "println"@ && println_text(args) is Some {
                b_link(st, prev, println_text(args)->0)
            } else {
                b_link(st, prev, "comment: macro "@ + name + "(...)"@)
            }
        },
    }
}

/// The outline of statements in order.
pub open spec fn stmts_nodes(st: BuildV, prev: Seq<char>, ss: Seq<RsStmt>) -> (BuildV, Seq<char>)
    decreases ss, 0int,
{
    if ss.len() == 0 {
        (st, prev)
    } else {
        let r = stmts_nodes(st, prev, ss.drop_last());
        stmt_nodes(r.0, r.1, ss.last())
    }
}

/// The outline of an expression statement: a `for` loop becomes a gateway
/// with a loop body and an exit, an `if` chain gateways joined at a merge
/// gateway, a call a `call:` task, anything else a comment task.
pub open spec fn expr_nodes(st: BuildV, prev: Seq<char>, e: RsExpr) -> (BuildV, Seq<char>)
    decreases e, 1int,
{
    match e {
        RsExpr::ForLoop { pat, iter, body, .. } => {
            let p = match pat {
                RsPat::Ident { name: p, .. } => p@,
                _ => "_"@,
            };
            let (s1, gate) = b_gate(st, "for: "@ + p + " in "@ + pretty(*iter));
            let s2 = b_flow(s1, prev, gate, None);
            let (s3, entry) = b_task(s2, "comment: loop body "@ + p);
            let s4 = b_flow(s3, gate, entry, Some("loop"@));
            let (s5, cur) = stmts_nodes(s4, entry, body@);
            let s6 = b_flow(s5, cur, gate, Some("next"@));
            let (s7, after) = b_task(s6, "comment: end for "@ + p);
            (b_flow(s7, gate, after, Some("exit"@)), after)
        },
        RsExpr::If { .. } => {
            let (s1, merge) = b_gate(st, "merge"@);
            (if_nodes(s1, prev, None, e, merge), merge)
        },
        RsExpr::Call { .. } => b_link(st, prev, "call: "@ + pretty(e)),
        RsExpr::MethodCall { .. } => b_link(st, prev, "call: "@ + pretty(e)),
        _ => b_link(st, prev, "comment: expr "@ + pretty(e)),
    }
}

/// One `if` of a chain: its gateway (reached from `from`), the `yes`
/// branch into `merge`, and the `no` branch: the next `if` of the chain,
/// an `else` branch, or straight to `merge`.
pub open spec fn if_nodes(st: BuildV, from: Seq<char>, incoming: Option<Seq<char>>, e: RsExpr, merge: Seq<char>) -> BuildV
    decreases e, 0int,
{
    match e {
        RsExpr::If { cond, then_branch, else_branch, .. } => {
            let (s1, gate) = b_gate(st, cond_label(*cond));
            let s2 = b_flow(s1, from, gate, incoming);
            let (s3, then_entry) = b_task(s2, "comment: then"@);
            let s4 = b_flow(s3, gate, then_entry, Some("yes"@));
            let (s5, then_cur) = stmts_nodes(s4, then_entry, then_branch@);
            let s6 = b_flow(s5, then_cur, merge, None);
            match else_branch {
                Some(eb) => match *eb {
                    RsExpr::If { .. } => if_nodes(s6, gate, Some("no"@), *eb, merge),
                    _ => {
                        let (s7, else_entry) = b_task(s6, "comment: else"@);
                        let s8 = b_flow(s7, gate, else_entry, Some("no"@));
                        let (s9, else_cur) = expr_nodes(s8, else_entry, *eb);
                        b_flow(s9, else_cur, merge, None)
                    },
                },
                None => b_flow(s6, gate, merge, Some("no"@)),
            }
        },
        _ => st,
    }
}

impl BpmnBuild {
    pub fn new() -> (r: Self)
        ensures
            r.next_node == 1 && r.next_flow == 1,
    {
        BpmnBuild { next_node: 1, next_flow: 1 }
    }

    /// `<prefix>_<n>` for the next node number.
    pub fn fresh_node_id(&mut self, prefix: &str) -> (r: String)
        ensures
            r@ == prefix@ + "_"@ + spec_decimal(old(self).next_node as nat),
            final(self).next_node == old(self).next_node.wrapping_add(1),
            final(self).next_flow == old(self).next_flow,
    {
        let mut id = String::new();
        id.push_str(prefix);
        id.push_str("_");
        let d = usize_to_decimal(self.next_node);
        id.push_str(d.as_str());
        self.next_node = self.next_node.wrapping_add(1);
        id
    }

    /// `Flow_S_<n>` for the next flow number.
    pub fn fresh_flow_id(&mut self) -> (r: String)
        ensures
            r@ == "Flow_S_"@ + spec_decimal(old(self).next_flow as nat),
            final(self).next_flow == old(self).next_flow.wrapping_add(1),
            final(self).next_node == old(self).next_node,
    {
        let mut id = String::new();
        id.push_str("Flow_S_");
        let d = usize_to_decimal(self.next_flow);
        id.push_str(d.as_str());
        self.next_flow = self.next_flow.wrapping_add(1);
        id
    }

    pub fn push_flow(&mut self, proc: &mut BpmnProcess, source: String, target: String, name: Option<String>)
        ensures
            build_state(final(proc)@, *final(self)) == b_flow(
                build_state(old(proc)@, *old(self)),
                source@,
                target@,
                super::model::opt_view(name),
            ),
            final(proc)@.id == old(proc)@.id,
            final(proc)@.name == old(proc)@.name,
    {
        let id = self.fresh_flow_id();
        let f = BpmnSequenceFlow { id, source_ref: source, target_ref: target, name };
        let ghost before = proc@.flows;
        proc.flows.push(f);
        assert(proc@.flows =~= before.push(f@));
    }

    pub fn push_task(&mut self, proc: &mut BpmnProcess, name: String) -> (r: String)
        ensures
            build_state(final(proc)@, *final(self)) == b_task(build_state(old(proc)@, *old(self)), name@).0,
            r@ == b_task(build_state(old(proc)@, *old(self)), name@).1,
            final(proc)@.id == old(proc)@.id,
            final(proc)@.name == old(proc)@.name,
    {
        let id = self.fresh_node_id("Task");
        let node = BpmnNode::ServiceTask { id: id.clone(), name: Some(name) };
        let ghost before = proc@.nodes;
        proc.nodes.push(node);
        assert(proc@.nodes =~= before.push(node@));
        id
    }

    /// A gateway of the given kind (`ParallelGateway`, otherwise exclusive).
    pub fn push_gateway(&mut self, proc: &mut BpmnProcess, kind: &str, name: String) -> (r: String)
        ensures
            r@ == kind@ + "_"@ + spec_decimal(old(self).next_node as nat),
            final(self).next_node == old(self).next_node.wrapping_add(1),
            final(self).next_flow == old(self).next_flow,
            final(proc)@.nodes == old(proc)@.nodes.push(
                if kind@ == "ParallelGateway"@ {
                    BpmnNodeV::ParallelGateway { id: r@, name: Some(name@) }
                } else {
                    BpmnNodeV::ExclusiveGateway { id: r@, name: Some(name@) }
                },
            ),
            final(proc)@.flows == old(proc)@.flows,
            final(proc)@.id == old(proc)@.id,
            final(proc)@.name == old(proc)@.name,
    {
        let id = self.fresh_node_id(kind);
        let node = if crate::text::str_eq(kind, "ParallelGateway") {
            BpmnNode::ParallelGateway { id: id.clone(), name: Some(name) }
        } else {
            BpmnNode::ExclusiveGateway { id: id.clone(), name: Some(name) }
        };
        let ghost before = proc@.nodes;
        proc.nodes.push(node);
        assert(proc@.nodes =~= before.push(node@));
        id
    }
}

/// An exclusive gateway, as the outline uses them.
fn push_exclusive(b: &mut BpmnBuild, proc: &mut BpmnProcess, name: String) -> (r: String)
    ensures
        build_state(final(proc)@, *final(b)) == b_gate(build_state(old(proc)@, *old(b)), name@).0,
        r@ == b_gate(build_state(old(proc)@, *old(b)), name@).1,
        final(proc)@.id == old(proc)@.id,
        final(proc)@.name == old(proc)@.name,
{
    proof {
        reveal_strlit("ExclusiveGateway");
        reveal_strlit("ParallelGateway");
    }
    b.push_gateway(proc, "ExclusiveGateway", name)
}

fn link_task(b: &mut BpmnBuild, proc: &mut BpmnProcess, prev: String, name: String) -> (r: String)
    ensures
        build_state(final(proc)@, *final(b)) == b_link(build_state(old(proc)@, *old(b)), prev@, name@).0,
        r@ == b_link(build_state(old(proc)@, *old(b)), prev@, name@).1,
        final(proc)@.id == old(proc)@.id,
        final(proc)@.name == old(proc)@.name,
{
    let tid = b.push_task(proc, name);
    b.push_flow(proc, prev, tid.clone(), None);
    tid
}

fn let_task_name(pat: &RsPat, init: &Option<RsExpr>) -> (r: String)
    ensures
        r@ == let_text(*pat, *init),
{
    let mut out = String::new();
    let mutable = match pat {
        RsPat::Ident { mutable: m, .. } => *m,
        _ => false,
    };
    if mutable {
        out.push_str("letmut: ");
    } else {
        out.push_str("let: ");
    }
    match pat {
        RsPat::Ident { name: n, .. } => out.push_str(n.as_str()),
        _ => out.push_str("_"),
    }
    out.push_str(" = ");
    match init {
        Some(e) => {
            let t = expr_to_pretty(e);
            out.push_str(t.as_str());
        },
        None => out.push_str("<init>"),
    }
    out
}

fn stmt_to_nodes(proc: &mut BpmnProcess, b: &mut BpmnBuild, prev: String, stmt: &RsStmt) -> (r: String)
    ensures
        build_state(final(proc)@, *final(b)) == stmt_nodes(build_state(old(proc)@, *old(b)), prev@, *stmt).0,
        r@ == stmt_nodes(build_state(old(proc)@, *old(b)), prev@, *stmt).1,
        final(proc)@.id == old(proc)@.id,
        final(proc)@.name == old(proc)@.name,
    decreases stmt, 0int,
{
    match stmt {
        RsStmt::Local { pat, init } => {
            let name = let_task_name(pat, init);
            link_task(b, proc, prev, name)
        },
        RsStmt::Expr { expr: e, .. } => expr_to_nodes(proc, b, prev, e),
        RsStmt::Item => prev,
        RsStmt::Macro { path, args, .. } => {
            let last = if path.len() > 0 { path[path.len() - 1].clone() } else { String::new() };
            assert(last@ == macro_name(path@));
            if crate::text::str_eq(last.as_str(), "println") {
                match extract_println_action(args) {
                    Some(action) => {
                        let name = match action {
                            MainAction::Println(s) => {
                                let mut n = String::new();
                                n.push_str("println: ");
                                n.push_str(s.as_str());
                                n
                            },
                            MainAction::PrintlnVar(v) => {
                                let mut n = String::new();
                                n.push_str("println_var: ");
                                n.push_str(v.as_str());
                                n
                            },
                            _ => "println: <args>".to_owned(),
                        };
                        return link_task(b, proc, prev, name);
                    },
                    None => {},
                }
            }
            let mut name = String::new();
            name.push_str("comment: macro ");
            name.push_str(last.as_str());
            name.push_str("(...)");
            link_task(b, proc, prev, name)
        },
    }
}

fn stmts_to_nodes(proc: &mut BpmnProcess, b: &mut BpmnBuild, prev: String, stmts: &Vec<RsStmt>) -> (r: String)
    ensures
        build_state(final(proc)@, *final(b)) == stmts_nodes(build_state(old(proc)@, *old(b)), prev@, stmts@).0,
        r@ == stmts_nodes(build_state(old(proc)@, *old(b)), prev@, stmts@).1,
        final(proc)@.id == old(proc)@.id,
        final(proc)@.name == old(proc)@.name,
    decreases stmts, 0int,
{
    let ghost st0 = build_state(proc@, *b);
    let mut cur = prev;
    let mut i: usize = 0;
    assert(stmts@.subrange(0, 0) =~= Seq::<RsStmt>::empty());
    while i < stmts.len()
        invariant
            i <= stmts@.len(),
            build_state(proc@, *b) == stmts_nodes(st0, prev@, stmts@.subrange(0, i as int)).0,
            cur@ == stmts_nodes(st0, prev@, stmts@.subrange(0, i as int)).1,
            proc@.id == old(proc)@.id,
            proc@.name == old(proc)@.name,
        decreases stmts@.len() - i,
    {
        assert(stmts@.subrange(0, i + 1).drop_last() =~= stmts@.subrange(0, i as int));
        cur = stmt_to_nodes(proc, b, cur, &stmts[i]);
        i += 1;
    }
    assert(stmts@.subrange(0, stmts@.len() as int) =~= stmts@);
    cur
}

fn cond_text(c: &RsExpr) -> (r: String)
    ensures
        r@ == cond_label(*c),
{
    let mut out = String::new();
    match c {
        RsExpr::Let { pat, expr, .. } => {
            out.push_str("iflet: ");
            match pat {
                RsPat::Ident { name: p, .. } => out.push_str(p.as_str()),
                _ => out.push_str("_"),
            }
            out.push_str(" = ");
            let t = expr_to_pretty(expr);
            out.push_str(t.as_str());
        },
        _ => {
            out.push_str("if: ");
            let t = expr_to_pretty(c);
            out.push_str(t.as_str());
        },
    }
    out
}

fn if_to_nodes(
    proc: &mut BpmnProcess,
    b: &mut BpmnBuild,
    from: String,
    incoming: Option<String>,
    e: &RsExpr,
    merge: &String,
)
    ensures
        build_state(final(proc)@, *final(b)) == if_nodes(
            build_state(old(proc)@, *old(b)),
            from@,
            super::model::opt_view(incoming),
            *e,
            merge@,
        ),
        final(proc)@.id == old(proc)@.id,
        final(proc)@.name == old(proc)@.name,
    decreases e, 0int,
{
    match e {
        RsExpr::If { cond, then_branch, else_branch, .. } => {
            let label = cond_text(cond);
            let gate = push_exclusive(b, proc, label);
            b.push_flow(proc, from, gate.clone(), incoming);
            let then_entry = b.push_task(proc, "comment: then".to_owned());
            b.push_flow(proc, gate.clone(), then_entry.clone(), Some("yes".to_owned()));
            let then_cur = stmts_to_nodes(proc, b, then_entry, then_branch);
            b.push_flow(proc, then_cur, merge.clone(), None);
            match else_branch {
                Some(eb) => match &**eb {
                    RsExpr::If { .. } => {
                        if_to_nodes(proc, b, gate, Some("no".to_owned()), eb, merge);
                    },
                    _ => {
                        let else_entry = b.push_task(proc, "comment: else".to_owned());
                        b.push_flow(proc, gate, else_entry.clone(), Some("no".to_owned()));
                        let else_cur = expr_to_nodes(proc, b, else_entry, eb);
                        b.push_flow(proc, else_cur, merge.clone(), None);
                    },
                },
                None => {
                    b.push_flow(proc, gate, merge.clone(), Some("no".to_owned()));
                },
            }
        },
        _ => {},
    }
}

fn expr_to_nodes(proc: &mut BpmnProcess, b: &mut BpmnBuild, prev: String, expr: &RsExpr) -> (r: String)
    ensures
        build_state(final(proc)@, *final(b)) == expr_nodes(build_state(old(proc)@, *old(b)), prev@, *expr).0,
        r@ == expr_nodes(build_state(old(proc)@, *old(b)), prev@, *expr).1,
        final(proc)@.id == old(proc)@.id,
        final(proc)@.name == old(proc)@.name,
    decreases expr, 1int,
{
    match expr {
        RsExpr::ForLoop { pat, iter, body, .. } => {
            let p = match pat {
                RsPat::Ident { name: p, .. } => p.clone(),
                _ => "_".to_owned(),
            };
            let mut label = String::new();
            label.push_str("for: ");
            label.push_str(p.as_str());
            label.push_str(" in ");
            let it = expr_to_pretty(iter);
            label.push_str(it.as_str());
            let gate = push_exclusive(b, proc, label);
            b.push_flow(proc, prev, gate.clone(), None);
            let mut body_name = String::new();
            body_name.push_str("comment: loop body ");
            body_name.push_str(p.as_str());
            let entry = b.push_task(proc, body_name);
            b.push_flow(proc, gate.clone(), entry.clone(), Some("loop".to_owned()));
            let cur = stmts_to_nodes(proc, b, entry, body);
            b.push_flow(proc, cur, gate.clone(), Some("next".to_owned()));
            let mut after_name = String::new();
            after_name.push_str("comment: end for ");
            after_name.push_str(p.as_str());
            let after = b.push_task(proc, after_name);
            b.push_flow(proc, gate, after.clone(), Some("exit".to_owned()));
            after
        },
        RsExpr::If { .. } => {
            let merge = push_exclusive(b, proc, "merge".to_owned());
            if_to_nodes(proc, b, prev, None, expr, &merge);
            merge
        },
        RsExpr::Call { .. } | RsExpr::MethodCall { .. } => {
            let mut name = String::new();
            name.push_str("call: ");
            let t = expr_to_pretty(expr);
            name.push_str(t.as_str());
            link_task(b, proc, prev, name)
        },
        _ => {
            let mut name = String::new();
            name.push_str("comment: expr ");
            let t = expr_to_pretty(expr);
            name.push_str(t.as_str());
            link_task(b, proc, prev, name)
        },
    }
}

/// One line of source with its ending: `LF`, `CRLF`, or `NONE` for a last
/// line without a line break.
pub open spec fn line_with_eol(p: Seq<char>) -> (Seq<char>, Seq<char>) {
    if p.len() > 0 && p.last() == '\r' {
        (p.drop_last(), "CRLF"@)
    } else {
        (p, "LF"@)
    }
}

/// The lines of a source text with their endings; empty lines and
/// trailing spaces are kept, and no empty line follows a final line break.
pub open spec fn spec_rust_lines(src: Seq<char>) -> Seq<(Seq<char>, Seq<char>)> {
    let parts = split_on(src, '\n');
    let body = parts.subrange(0, parts.len() - 1).map_values(|p: Seq<char>| line_with_eol(p));
    if parts.last().len() > 0 {
        body.push((parts.last(), "NONE"@))
    } else {
        body
    }
}

pub open spec fn line_pairs_view(v: Seq<(String, String)>) -> Seq<(Seq<char>, Seq<char>)> {
    v.map_values(|p: (String, String)| (p.0@, p.1@))
}

/// The line break an ending stands for: `LF` is `\n`, `CRLF` is `\r\n`,
/// anything else none.
pub open spec fn eol_text(e: Seq<char>) -> Seq<char> {
    if e == "LF"@ {
        "\n"@
    } else if e == "CRLF"@ {
        "\r\n"@
    } else {
        Seq::empty()
    }
}

/// Lines put back together, each followed by its line break.
pub open spec fn rejoin_lines(ls: Seq<(Seq<char>, Seq<char>)>) -> Seq<char>
    decreases ls.len(),
{
    if ls.len() == 0 {
        Seq::empty()
    } else {
        rejoin_lines(ls.drop_last()) + ls.last().0 + eol_text(ls.last().1)
    }
}

/// Pieces joined with `c` between them.
pub open spec fn join_with(parts: Seq<Seq<char>>, c: char) -> Seq<char>
    decreases parts.len(),
{
    if parts.len() == 0 {
        Seq::empty()
    } else if parts.len() == 1 {
        parts[0]
    } else {
        join_with(parts.drop_last(), c) + seq![c] + parts.last()
    }
}

/// Splitting at `c` and joining with `c` gives the text back; no piece
/// holds `c`; the last piece is empty exactly when the text is empty or
/// ends with `c`.
pub proof fn lemma_split_join_on(s: Seq<char>, c: char)
    ensures
        join_with(split_on(s, c), c) == s,
        forall|i: int| 0 <= i < split_on(s, c).len() ==> lacks(#[trigger] split_on(s, c)[i], c),
        split_on(s, c).len() >= 1,
        (split_on(s, c).last().len() == 0) == (s.len() == 0 || s.last() == c),
    decreases s.len(),
{
    if s.len() == 0 {
        assert(split_on(s, c) == seq![Seq::<char>::empty()]);
        assert(s =~= Seq::<char>::empty());
    } else {
        let t = s.drop_last();
        lemma_split_join_on(t, c);
        let pt = split_on(t, c);
        let ps = split_on(s, c);
        let x = s.last();
        if x == c {
            assert(ps == pt.push(Seq::<char>::empty()));
            assert(ps.drop_last() =~= pt);
            assert(join_with(ps, c) == join_with(pt, c) + seq![c] + Seq::<char>::empty());
            assert(t.push(x) =~= s);
            assert forall|i: int| 0 <= i < ps.len() implies lacks(#[trigger] ps[i], c) by {
                if i < pt.len() {
                    assert(ps[i] == pt[i]);
                }
            }
        } else {
            let l2 = pt.last().push(x);
            assert(ps == pt.update(pt.len() - 1, l2));
            assert(lacks(pt[pt.len() - 1], c));
            assert forall|i: int| 0 <= i < ps.len() implies lacks(#[trigger] ps[i], c) by {
                if i < pt.len() - 1 {
                    assert(ps[i] == pt[i]);
                } else {
                    assert(ps[i] == l2);
                    assert forall|k: int| 0 <= k < l2.len() implies #[trigger] l2[k] != c by {
                        if k < pt.last().len() {
                            assert(l2[k] == pt.last()[k]);
                        }
                    }
                }
            }
            if pt.len() == 1 {
                assert(join_with(pt, c) == pt[0]);
                assert(join_with(ps, c) == l2);
                assert(l2 =~= s);
            } else {
                assert(ps.drop_last() =~= pt.drop_last());
                assert(join_with(pt, c) == join_with(pt.drop_last(), c) + seq![c] + pt.last());
                assert(join_with(ps, c) == join_with(pt.drop_last(), c) + seq![c] + l2);
                assert(join_with(ps, c) =~= join_with(pt, c).push(x));
                assert(t.push(x) =~= s);
            }
        }
    }
}

/// The first `k` pieces, each given its ending, put back together are the
/// first `k` pieces joined, with a final line break.
proof fn lemma_rejoin_prefix(parts: Seq<Seq<char>>, k: int)
    requires
        1 <= k <= parts.len(),
    ensures
        rejoin_lines(parts.subrange(0, k).map_values(|p: Seq<char>| line_with_eol(p))) == join_with(
            parts.subrange(0, k),
            '\n',
        ) + "\n"@,
    decreases k,
{
    reveal_strlit("\n");
    reveal_strlit("\r\n");
    reveal_strlit("LF");
    reveal_strlit("CRLF");
    let ls = parts.subrange(0, k).map_values(|p: Seq<char>| line_with_eol(p));
    let p = parts[k - 1];
    assert(ls.last() == line_with_eol(p));
    assert(ls.last().0 + eol_text(ls.last().1) =~= p + "\n"@) by {
        if p.len() > 0 && p.last() == '\r' {
            assert("LF"@ != "CRLF"@) by {
                assert("LF"@.len() != "CRLF"@.len());
            }
            assert(p.drop_last() + "\r\n"@ =~= p + "\n"@);
        }
    }
    if k == 1 {
        assert(ls.drop_last() =~= Seq::<(Seq<char>, Seq<char>)>::empty());
        assert(parts.subrange(0, 1) =~= seq![p]);
        assert(rejoin_lines(ls.drop_last()) == Seq::<char>::empty());
        assert(rejoin_lines(ls) == Seq::<char>::empty() + ls.last().0 + eol_text(ls.last().1));
        assert(rejoin_lines(ls) =~= p + "\n"@);
    } else {
        lemma_rejoin_prefix(parts, k - 1);
        assert(ls.drop_last() =~= parts.subrange(0, k - 1).map_values(|p: Seq<char>| line_with_eol(p)));
        assert(parts.subrange(0, k).drop_last() =~= parts.subrange(0, k - 1));
        assert(join_with(parts.subrange(0, k), '\n') == join_with(parts.subrange(0, k - 1), '\n') + seq!['\n'] + p);
        assert("\n"@ =~= seq!['\n']);
        assert(rejoin_lines(ls) =~= join_with(parts.subrange(0, k), '\n') + "\n"@);
    }
}

/// The lines of a source text put back together, each with the line break
/// its ending names, give the text; no line holds a line break; every
/// ending is `LF`, `CRLF` or `NONE`, and only the last line can end in
/// `NONE`, which it does exactly when the text is not empty and does not
/// end with a line break.
pub proof fn lemma_rust_lines_rejoin(src: Seq<char>)
    ensures
        rejoin_lines(spec_rust_lines(src)) == src,
        forall|i: int|
            0 <= i < spec_rust_lines(src).len() ==> lacks(#[trigger] spec_rust_lines(src)[i].0, '\n'),
        forall|i: int|
            0 <= i < spec_rust_lines(src).len() ==> {
                let e = (#[trigger] spec_rust_lines(src)[i]).1;
                e == "LF"@ || e == "CRLF"@ || (e == "NONE"@ && i == spec_rust_lines(src).len() - 1)
            },
        (spec_rust_lines(src).len() > 0 && spec_rust_lines(src).last().1 == "NONE"@) == (src.len() > 0
            && src.last() != '\n'),
{
    reveal_strlit("LF");
    reveal_strlit("CRLF");
    reveal_strlit("NONE");
    assert("NONE"@ != "LF"@ && "NONE"@ != "CRLF"@) by {
        assert("NONE"@.len() != "LF"@.len());
        assert("NONE"@[0] != "CRLF"@[0]);
    }
    lemma_split_join_on(src, '\n');
    let parts = split_on(src, '\n');
    let n = parts.len() as int;
    let body = parts.subrange(0, n - 1).map_values(|p: Seq<char>| line_with_eol(p));
    let ls = spec_rust_lines(src);
    assert forall|i: int| 0 <= i < body.len() implies lacks(#[trigger] body[i].0, '\n') && body[i].1 != "NONE"@
        && (body[i].1 == "LF"@ || body[i].1 == "CRLF"@) by {
        assert(lacks(parts[i], '\n'));
        let q = parts[i];
        if q.len() > 0 && q.last() == '\r' {
            assert forall|k: int| 0 <= k < q.drop_last().len() implies #[trigger] q.drop_last()[k] != '\n' by {
                assert(q.drop_last()[k] == q[k]);
            }
        }
    }
    if n == 1 {
        assert(body =~= Seq::<(Seq<char>, Seq<char>)>::empty());
        assert(join_with(parts, '\n') == parts[0]);
        if parts.last().len() > 0 {
            assert(ls =~= seq![(parts[0], "NONE"@)]);
            assert(ls.drop_last() =~= Seq::<(Seq<char>, Seq<char>)>::empty());
            assert(rejoin_lines(ls.drop_last()) == Seq::<char>::empty());
            assert(eol_text("NONE"@) == Seq::<char>::empty());
            assert(rejoin_lines(ls) == Seq::<char>::empty() + parts[0] + Seq::<char>::empty());
            assert(rejoin_lines(ls) =~= parts[0]);
            assert(lacks(parts[0], '\n'));
        } else {
            assert(ls =~= body);
            assert(src =~= Seq::<char>::empty());
        }
    } else {
        lemma_rejoin_prefix(parts, n - 1);
        assert(parts.drop_last() =~= parts.subrange(0, n - 1));
        reveal_strlit("\n");
        assert("\n"@ =~= seq!['\n']);
        assert(join_with(parts, '\n') == join_with(parts.subrange(0, n - 1), '\n') + seq!['\n'] + parts.last());
        if parts.last().len() > 0 {
            assert(ls == body.push((parts.last(), "NONE"@)));
            assert(ls.drop_last() =~= body);
            assert(lacks(parts[n - 1], '\n'));
            assert(rejoin_lines(ls) =~= src);
        } else {
            assert(ls == body);
            assert(rejoin_lines(ls) =~= src);
        }
    }
}

/// Splits source text into lines with their endings (see [`spec_rust_lines`]).
pub fn split_rust_lines(src: &str) -> (r: Vec<(String, String)>)
    ensures
        line_pairs_view(r@) == spec_rust_lines(src@),
{
    let cs = chars_of(src);
    let ghost s = cs@;
    let n = cs.len();
    let mut out: Vec<(String, String)> = Vec::new();
    let mut start: usize = 0;
    let mut i: usize = 0;
    while i < n
        invariant
            start <= i <= n == s.len(),
            s == cs@,
            s == src@,
            split_on(s.subrange(0, i as int), '\n').len() >= 1,
            split_on(s.subrange(0, i as int), '\n').last() == s.subrange(start as int, i as int),
            line_pairs_view(out@) == split_on(s.subrange(0, i as int), '\n').drop_last().map_values(
                |p: Seq<char>| line_with_eol(p),
            ),
        decreases n - i,
    {
        let ghost pre = split_on(s.subrange(0, i as int), '\n');
        assert(s.subrange(0, i + 1).drop_last() =~= s.subrange(0, i as int));
        if cs[i] == '\n' {
            let ghost cur = s.subrange(start as int, i as int);
            let item = if i > start && cs[i - 1] == '\r' {
                assert(cur.drop_last() =~= s.subrange(start as int, i - 1));
                (string_from_range(cs.as_slice(), start, i - 1), "CRLF".to_owned())
            } else {
                (string_from_range(cs.as_slice(), start, i), "LF".to_owned())
            };
            assert((item.0@, item.1@) == line_with_eol(cur));
            let ghost before = out@;
            out.push(item);
            assert(line_pairs_view(out@) =~= line_pairs_view(before).push(line_with_eol(cur)));
            let ghost post = split_on(s.subrange(0, i + 1), '\n');
            assert(post == pre.push(Seq::empty()));
            assert(post.drop_last() =~= pre);
            assert(pre =~= pre.drop_last().push(pre.last()));
            assert(line_pairs_view(out@) =~= post.drop_last().map_values(|p: Seq<char>| line_with_eol(p)));
            i += 1;
            start = i;
            assert(s.subrange(start as int, i as int) =~= Seq::<char>::empty());
        } else {
            let ghost post = split_on(s.subrange(0, i + 1), '\n');
            assert(post == pre.update(pre.len() - 1, pre.last().push(s[i as int])));
            assert(post.drop_last() =~= pre.drop_last());
            assert(s.subrange(start as int, i + 1) =~= s.subrange(start as int, i as int).push(s[i as int]));
            i += 1;
        }
    }
    assert(s.subrange(0, n as int) =~= s);
    let ghost parts = split_on(s, '\n');
    assert(parts.subrange(0, parts.len() - 1) =~= parts.drop_last());
    if start < n {
        let ghost before = out@;
        let item = (string_from_range(cs.as_slice(), start, n), "NONE".to_owned());
        out.push(item);
        assert(line_pairs_view(out@) =~= line_pairs_view(before).push((parts.last(), "NONE"@)));
    }
    assert(line_pairs_view(out@) =~= spec_rust_lines(src@));
    out
}

/// The flow from the source node straight to the end event, which the
/// outline of `main` replaces.
pub open spec fn is_source_to_end(f: FlowV) -> bool {
    f.source_ref == "RustSource_1"@ && f.target_ref == "EndEvent_1"@
}

pub open spec fn kept_flows(fs: Seq<FlowV>) -> Seq<FlowV>
    decreases fs.len(),
{
    if fs.len() == 0 {
        Seq::empty()
    } else {
        kept_flows(fs.drop_last()) + if is_source_to_end(fs.last()) {
            Seq::empty()
        } else {
            seq![fs.last()]
        }
    }
}

/// The process with the outline of `main` added: the source-to-end flow
/// is replaced by `structured main()` → the statements → the end event.
/// A process without that flow is left as it is.
pub open spec fn spec_append_structured(p: BpmnProcessV, stmts: Seq<RsStmt>) -> BpmnProcessV {
    let kept = kept_flows(p.flows);
    if kept.len() == p.flows.len() {
        p
    } else {
        let st0 = BuildV { nodes: p.nodes, flows: kept, next_node: 1, next_flow: 1 };
        let (s1, entry) = b_task(st0, "comment: structured main()"@);
        let s2 = b_flow(s1, "RustSource_1"@, entry, None);
        let (s3, cur) = stmts_nodes(s2, entry, stmts);
        let s4 = b_flow(s3, cur, "EndEvent_1"@, None);
        BpmnProcessV { nodes: s4.nodes, flows: s4.flows, ..p }
    }
}

proof fn lemma_kept_len(fs: Seq<FlowV>)
    ensures
        kept_flows(fs).len() <= fs.len(),
    decreases fs.len(),
{
    if fs.len() > 0 {
        lemma_kept_len(fs.drop_last());
    }
}

/// Adds the outline of `main`'s statements (see [`spec_append_structured`]).
pub fn append_structured_main(proc: &mut BpmnProcess, stmts: &Vec<RsStmt>) -> (r: Result<(), String>)
    ensures
        r is Ok,
        final(proc)@ == spec_append_structured(old(proc)@, stmts@),
{
    let ghost fs = proc@.flows;
    let mut kept: Vec<BpmnSequenceFlow> = Vec::new();
    let mut removed = false;
    let mut i: usize = 0;
    while i < proc.flows.len()
        invariant
            i <= fs.len(),
            fs == proc@.flows,
            proc@ == old(proc)@,
            kept@.map_values(|f: BpmnSequenceFlow| f@) == kept_flows(fs.subrange(0, i as int)),
            removed == (kept@.len() < i),
            kept@.len() <= i,
        decreases fs.len() - i,
    {
        let ghost before = kept@.map_values(|f: BpmnSequenceFlow| f@);
        assert(fs.subrange(0, i + 1).drop_last() =~= fs.subrange(0, i as int));
        let f = &proc.flows[i];
        if crate::text::str_eq(f.source_ref.as_str(), "RustSource_1") && crate::text::str_eq(
            f.target_ref.as_str(),
            "EndEvent_1",
        ) {
            removed = true;
        } else {
            let c = super::graph::copy_flow(f);
            kept.push(c);
            assert(kept@.map_values(|f: BpmnSequenceFlow| f@) =~= before.push(c@));
        }
        i += 1;
    }
    assert(fs.subrange(0, fs.len() as int) =~= fs);
    if !removed {
        return Ok(());
    }
    proc.flows = kept;
    let mut b = BpmnBuild::new();
    let entry = b.push_task(proc, "comment: structured main()".to_owned());
    b.push_flow(proc, "RustSource_1".to_owned(), entry.clone(), None);
    let cur = stmts_to_nodes(proc, &mut b, entry, stmts);
    b.push_flow(proc, cur, "EndEvent_1".to_owned(), None);
    Ok(())
}

/// The source process before the outline: a start event, the `rustSource`
/// node with the whole text, one `rustLine` node per line, an end event,
/// and the flows start → source → end.
pub open spec fn spec_source_base(src: Seq<char>, label: Option<Seq<char>>) -> BpmnProcessV {
    let lines = spec_rust_lines(src);
    BpmnProcessV {
        id: "rust_source"@,
        name: None,
        nodes: seq![
            start_node(),
            BpmnNodeV::RustSource {
                id: "RustSource_1"@,
                path: label,
                content_hex: spec_hex_encode(encode_utf8(src)),
            },
        ] + Seq::new(
            lines.len(),
            |i: int|
                BpmnNodeV::RustLine {
                    id: "RustLine_"@ + spec_decimal((i + 1) as nat),
                    path: label,
                    line: (i + 1) as usize,
                    eol: lines[i].1,
                    text: lines[i].0,
                    text_hex: spec_hex_encode(encode_utf8(lines[i].0)),
                },
        ) + seq![end_node()],
        flows: seq![
            FlowV { id: "Flow_1"@, source_ref: "StartEvent_1"@, target_ref: "RustSource_1"@, name: None },
            FlowV { id: "Flow_2"@, source_ref: "RustSource_1"@, target_ref: "EndEvent_1"@, name: None },
        ],
    }
}

/// The lossless process of Rust source: [`spec_source_base`], with the
/// outline of `main` added when the source parsed and has a `main`.
pub open spec fn spec_rust_source_process(
    src: Seq<char>,
    parsed: Result<RsFile, String>,
    label: Option<Seq<char>>,
) -> BpmnProcessV {
    let base = spec_source_base(src, label);
    match parsed {
        Ok(file) => match find_main(file.items@) {
            Some(m) => spec_append_structured(base, m.stmts@),
            None => base,
        },
        Err(_) => base,
    }
}

fn numbered(prefix: &str, n: usize) -> (r: String)
    ensures
        r@ == prefix@ + spec_decimal(n as nat),
{
    let mut out = String::new();
    out.push_str(prefix);
    let d = usize_to_decimal(n);
    out.push_str(d.as_str());
    out
}

/// The lossless process of Rust source (see [`spec_rust_source_process`]).
pub fn rust_source_to_bpmn_process(
    rust_text: &str,
    parsed: &Result<RsFile, String>,
    label: Option<String>,
) -> (r: BpmnProcess)
    ensures
        r@ == spec_rust_source_process(rust_text@, *parsed, super::model::opt_view(label)),
{
    let ghost lab = super::model::opt_view(label);
    let lines = split_rust_lines(rust_text);
    let ghost lv = line_pairs_view(lines@);
    let mut nodes: Vec<BpmnNode> = Vec::new();
    nodes.push(BpmnNode::StartEvent { id: "StartEvent_1".to_owned(), name: Some("Start".to_owned()) });
    let hex = hex_encode(rust_text.as_bytes());
    nodes.push(BpmnNode::RustSource {
        id: "RustSource_1".to_owned(),
        path: super::model::copy_opt(&label),
        content_hex: hex,
    });
    let ghost head = nodes@.map_values(|x: BpmnNode| x@);
    assert(head =~= seq![
        start_node(),
        BpmnNodeV::RustSource {
            id: "RustSource_1"@,
            path: lab,
            content_hex: spec_hex_encode(encode_utf8(rust_text@)),
        },
    ]);
    let mut i: usize = 0;
    while i < lines.len()
        invariant
            i <= lines@.len(),
            lv == line_pairs_view(lines@),
            lab == super::model::opt_view(label),
            nodes@.map_values(|x: BpmnNode| x@) == head + Seq::new(
                i as nat,
                |k: int|
                    BpmnNodeV::RustLine {
                        id: "RustLine_"@ + spec_decimal((k + 1) as nat),
                        path: lab,
                        line: (k + 1) as usize,
                        eol: lv[k].1,
                        text: lv[k].0,
                        text_hex: spec_hex_encode(encode_utf8(lv[k].0)),
                    },
            ),
        decreases lines@.len() - i,
    {
        let ghost pre = nodes@.map_values(|x: BpmnNode| x@);
        let (text, eol) = &lines[i];
        let node = BpmnNode::RustLine {
            id: numbered("RustLine_", i + 1),
            path: super::model::copy_opt(&label),
            line: i + 1,
            eol: eol.clone(),
            text: text.clone(),
            text_hex: hex_encode(text.as_str().as_bytes()),
        };
        nodes.push(node);
        assert(nodes@.map_values(|x: BpmnNode| x@) =~= pre.push(node@));
        i += 1;
        assert(nodes@.map_values(|x: BpmnNode| x@) =~= head + Seq::new(
            i as nat,
            |k: int|
                BpmnNodeV::RustLine {
                    id: "RustLine_"@ + spec_decimal((k + 1) as nat),
                    path: lab,
                    line: (k + 1) as usize,
                    eol: lv[k].1,
                    text: lv[k].0,
                    text_hex: spec_hex_encode(encode_utf8(lv[k].0)),
                },
        ));
    }
    let ghost body = nodes@.map_values(|x: BpmnNode| x@);
    nodes.push(BpmnNode::EndEvent { id: "EndEvent_1".to_owned(), name: Some("End".to_owned()) });
    assert(nodes@.map_values(|x: BpmnNode| x@) =~= body.push(end_node()));
    let mut flows: Vec<BpmnSequenceFlow> = Vec::new();
    flows.push(BpmnSequenceFlow {
        id: "Flow_1".to_owned(),
        source_ref: "StartEvent_1".to_owned(),
        target_ref: "RustSource_1".to_owned(),
        name: None,
    });
    flows.push(BpmnSequenceFlow {
        id: "Flow_2".to_owned(),
        source_ref: "RustSource_1".to_owned(),
        target_ref: "EndEvent_1".to_owned(),
        name: None,
    });
    let mut proc = BpmnProcess { id: "rust_source".to_owned(), name: None, nodes, flows };
    assert(lv == spec_rust_lines(rust_text@));
    assert(proc@.nodes =~= spec_source_base(rust_text@, lab).nodes);
    assert(proc@.flows =~= spec_source_base(rust_text@, lab).flows);
    assert(proc@ == spec_source_base(rust_text@, lab));
    match parsed {
        Ok(file) => match find_main_fn(file) {
            Some(main) => {
                let _ = append_structured_main(&mut proc, &main.stmts);
            },
            None => {},
        },
        Err(_) => {},
    }
    proc
}

/// Sources that are always embedded whole: the neural-network example
/// (the text mentions `NeuralNetwork`) and texts over 4000 bytes.
pub open spec fn spec_should_embed(src: Seq<char>) -> bool {
    contains_text(src, "NeuralNetwork"@) || encode_utf8(src).len() > 4000
}

pub fn should_embed_lossless_rust_source(rust_text: &str) -> (r: bool)
    ensures
        r == spec_should_embed(rust_text@),
{
    contains_str(rust_text, "NeuralNetwork") || rust_text.as_bytes().len() > 4000
}

} // verus!
