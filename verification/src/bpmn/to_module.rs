//! From a BPMN process to the shared program model: `rustType` and
//! `rustFunction` nodes come back as declarations, tasks become function
//! stubs or inline statements, and `main` follows the process path.

use vstd::prelude::*;
use crate::ast::{Field, FieldV, Function, FunctionKind, FunctionV, Module, ModuleV, Param, ParamV, TypeDecl, TypeDeclV, TypeKind, TypeRef, TypeRefV};
use crate::rust_ast::{module_to_rust, spec_module_to_rust};
use crate::text::{chars_of, lemma_decimal_digits, lemma_decimal_injective, str_eq, trim, trim_bounds, string_from_range, usize_to_decimal, spec_decimal};
use super::directive::{parse_call_target, parse_task_directive, sanitize_ident, spec_call_target, spec_sanitize_ident, spec_task_line};
use super::parse::{parse_bpmn_xml, spec_events_to_process, xml_events};
use super::graph::{best_effort_linearize, spec_linearize};
use super::model::{opt_view, BpmnNode, BpmnNodeV, BpmnProcess, BpmnProcessV, RustFieldSig, RustParamSig, SigV};

verus! {

/// The model type a type name stands for. Rust and TypeScript number,
/// string and boolean names map to the built-in types; any other name,
/// trimmed, is a custom type.
/// Rust and TypeScript names of number types.
pub open spec fn is_number_name(t: Seq<char>) -> bool {
    t == "number"@ || t == "i32"@ || t == "i64"@ || t == "u32"@ || t == "u64"@ || t == "usize"@
        || t == "isize"@ || t == "f32"@ || t == "f64"@
}

/// Rust and TypeScript names of the string type.
pub open spec fn is_string_name(t: Seq<char>) -> bool {
    t == "string"@ || t == "String"@ || t == "str"@
}

/// Rust and TypeScript names of the boolean type.
pub open spec fn is_bool_name(t: Seq<char>) -> bool {
    t == "boolean"@ || t == "bool"@
}

/// The model type a type name stands for. Rust and TypeScript number,
/// string and boolean names map to the built-in types; any other name,
/// trimmed, is a custom type.
pub open spec fn spec_map_type_ref(name: Seq<char>) -> TypeRefV {
    let t = trim(name);
    if is_number_name(t) {
        TypeRefV::Number
    } else if is_string_name(t) {
        TypeRefV::Str
    } else if is_bool_name(t) {
        TypeRefV::Bool
    } else {
        TypeRefV::Custom(t)
    }
}

fn is_one_of(t: &str, names: &[&str]) -> (r: bool)
    ensures
        r == exists|k: int| 0 <= k < names@.len() && t@ == (#[trigger] names@[k])@,
{
    let mut i: usize = 0;
    while i < names.len()
        invariant
            i <= names@.len(),
            forall|k: int| 0 <= k < i ==> t@ != (#[trigger] names@[k])@,
        decreases names@.len() - i,
    {
        if str_eq(t, names[i]) {
            return true;
        }
        i += 1;
    }
    false
}

pub fn map_type_ref(name: &str) -> (r: TypeRef)
    ensures
        r@ == spec_map_type_ref(name@),
{
    let cs = chars_of(name);
    let (a, b) = trim_bounds(cs.as_slice());
    let t = string_from_range(cs.as_slice(), a, b);
    let ts = t.as_str();
    let numbers = ["number", "i32", "i64", "u32", "u64", "usize", "isize", "f32", "f64"];
    let strings = ["string", "String", "str"];
    let bools = ["boolean", "bool"];
    if is_one_of(ts, &numbers) {
        TypeRef::Number
    } else if is_one_of(ts, &strings) {
        TypeRef::String
    } else if is_one_of(ts, &bools) {
        TypeRef::Bool
    } else {
        TypeRef::Custom(t)
    }
}

/// `interface` (trimmed) is an interface; anything else a struct.
pub open spec fn spec_map_type_kind(kind: Seq<char>) -> TypeKind {
    if trim(kind) == "interface"@ {
        TypeKind::Interface
    } else {
        TypeKind::Struct
    }
}

pub fn map_type_kind(kind: &str) -> (r: TypeKind)
    ensures
        r == spec_map_type_kind(kind@),
{
    let cs = chars_of(kind);
    let (a, b) = trim_bounds(cs.as_slice());
    let t = string_from_range(cs.as_slice(), a, b);
    if str_eq(t.as_str(), "interface") {
        TypeKind::Interface
    } else {
        TypeKind::Struct
    }
}

/// The label of a task: its name, or its id when it has none.
pub open spec fn spec_node_label(id: Seq<char>, name: Option<Seq<char>>) -> Seq<char> {
    match name {
        Some(n) => n,
        None => id,
    }
}

pub fn node_label(id: &String, name: &Option<String>) -> (r: String)
    ensures
        r@ == spec_node_label(id@, opt_view(*name)),
{
    match name {
        Some(n) => n.clone(),
        None => id.clone(),
    }
}

/// How often `b` occurs in `s`.
pub open spec fn count_of(s: Seq<Seq<char>>, b: Seq<char>) -> nat
    decreases s.len(),
{
    if s.len() == 0 {
        0
    } else {
        count_of(s.drop_last(), b) + if s.last() == b { 1nat } else { 0nat }
    }
}

pub proof fn lemma_count_le(s: Seq<Seq<char>>, b: Seq<char>)
    ensures
        count_of(s, b) <= s.len(),
    decreases s.len(),
{
    if s.len() > 0 {
        lemma_count_le(s.drop_last(), b);
    }
}

/// The name handed out for `base` when `used` lists the bases handed out
/// before: `base` the first time, then `base_2`, `base_3`, ...
pub open spec fn spec_unique_name(used: Seq<Seq<char>>, base: Seq<char>) -> Seq<char> {
    let n = count_of(used, base) + 1;
    if n == 1 {
        base
    } else {
        base + "_"@ + spec_decimal(n)
    }
}

/// The views of a list of strings.
pub open spec fn names_view(v: Seq<String>) -> Seq<Seq<char>> {
    v.map_values(|s: String| s@)
}

/// Hands out a name for `base` and records that it was used.
pub fn unique_name(base: &String, used: &mut Vec<String>) -> (r: String)
    requires
        old(used)@.len() < usize::MAX,
    ensures
        r@ == spec_unique_name(names_view(old(used)@), base@),
        names_view(final(used)@) == names_view(old(used)@).push(base@),
        final(used)@.len() == old(used)@.len() + 1,
{
    let ghost u = names_view(used@);
    let mut cnt: usize = 0;
    let mut i: usize = 0;
    while i < used.len()
        invariant
            i <= used@.len(),
            u == names_view(used@),
            cnt == count_of(u.subrange(0, i as int), base@),
            cnt <= i,
        decreases used@.len() - i,
    {
        assert(u.subrange(0, i + 1).drop_last() == u.subrange(0, i as int));
        if str_eq(used[i].as_str(), base.as_str()) {
            cnt += 1;
        }
        i += 1;
    }
    assert(u.subrange(0, u.len() as int) == u);
    let n = cnt + 1;
    let name = if n == 1 {
        base.clone()
    } else {
        let mut s = base.clone();
        s.push_str("_");
        let d = usize_to_decimal(n);
        s.push_str(d.as_str());
        s
    };
    used.push(base.clone());
    assert(names_view(used@) =~= u.push(base@));
    name
}

/// Where a position lookup found nothing.
pub open spec fn last_key_index(keys: Seq<Seq<char>>, k: Seq<char>) -> int
    decreases keys.len(),
{
    if keys.len() == 0 {
        -1
    } else if keys.last() == k {
        keys.len() - 1
    } else {
        last_key_index(keys.drop_last(), k)
    }
}

/// The last position of `k` in `ids` (the entry a map insert left last).
fn last_index(ids: &Vec<String>, k: &str) -> (r: Option<usize>)
    ensures
        match r {
            Some(j) => j < ids@.len() && last_key_index(names_view(ids@), k@) == j,
            None => last_key_index(names_view(ids@), k@) == -1,
        },
{
    let ghost v = names_view(ids@);
    let mut i: usize = ids.len();
    assert(v.subrange(0, i as int) == v);
    while i > 0
        invariant
            i <= ids@.len(),
            v == names_view(ids@),
            last_key_index(v, k@) == last_key_index(v.subrange(0, i as int), k@),
        decreases i,
    {
        assert(v.subrange(0, i as int).last() == v[i - 1]);
        if str_eq(ids[i - 1].as_str(), k) {
            return Some(i - 1);
        }
        assert(v.subrange(0, i as int).drop_last() == v.subrange(0, i - 1));
        i -= 1;
    }
    None
}

/// What the node loop has gathered so far.
pub struct ConvV {
    /// Base names handed out to task stubs, in order.
    pub used: Seq<Seq<char>>,
    /// Task ids and the stub function each one calls.
    pub fn_ids: Seq<Seq<char>>,
    pub fn_names: Seq<Seq<char>>,
    /// Task ids and the statements their directive stands for.
    pub inline_ids: Seq<Seq<char>>,
    pub inline_lines: Seq<Seq<Seq<char>>>,
    pub types: Seq<TypeDeclV>,
    pub functions: Seq<FunctionV>,
}

pub open spec fn empty_conv() -> ConvV {
    ConvV {
        used: Seq::empty(),
        fn_ids: Seq::empty(),
        fn_names: Seq::empty(),
        inline_ids: Seq::empty(),
        inline_lines: Seq::empty(),
        types: Seq::empty(),
        functions: Seq::empty(),
    }
}

/// Some function already has this name.
pub open spec fn has_function(fs: Seq<FunctionV>, name: Seq<char>) -> bool {
    exists|j: int| 0 <= j < fs.len() && (#[trigger] fs[j]).name == name
}

/// A parameterless function with a one-line body.
pub open spec fn stub_fn(name: Seq<char>, line: Seq<char>) -> FunctionV {
    FunctionV {
        name,
        params: Seq::empty(),
        return_type: None,
        kind: FunctionKind::Normal,
        body: seq![line],
    }
}

pub open spec fn sig_field(s: SigV) -> FieldV {
    FieldV { name: s.name, ty: spec_map_type_ref(s.ty) }
}

pub open spec fn sig_param(s: SigV) -> ParamV {
    ParamV { name: s.name, ty: spec_map_type_ref(s.ty) }
}

pub open spec fn opt_map_type(t: Option<Seq<char>>) -> Option<TypeRefV> {
    match t {
        Some(t) => Some(spec_map_type_ref(t)),
        None => None,
    }
}

/// A task (or service task): a directive becomes inline statements (and a
/// `call:` directive adds a stub for a function not declared yet); any
/// other task becomes a stub function named after its label.
pub open spec fn task_step(st: ConvV, id: Seq<char>, name: Option<Seq<char>>) -> ConvV {
    let directive = match name {
        Some(nm) => spec_task_line(nm),
        None => None,
    };
    match directive {
        Some(line) => {
            let fs = match spec_call_target(name.unwrap()) {
                Some(t) => if has_function(st.functions, t) {
                    st.functions
                } else {
                    st.functions.push(stub_fn(t, "// TODO: implement called function"@))
                },
                None => st.functions,
            };
            ConvV {
                used: st.used,
                fn_ids: st.fn_ids,
                fn_names: st.fn_names,
                inline_ids: st.inline_ids.push(id),
                inline_lines: st.inline_lines.push(seq![line]),
                types: st.types,
                functions: fs,
            }
        },
        None => {
            let label = spec_node_label(id, name);
            let base = spec_sanitize_ident(label);
            let fname = spec_unique_name(st.used, base);
            ConvV {
                used: st.used.push(base),
                fn_ids: st.fn_ids.push(id),
                fn_names: st.fn_names.push(fname),
                inline_ids: st.inline_ids,
                inline_lines: st.inline_lines,
                types: st.types,
                functions: st.functions.push(
                    stub_fn(fname, "// TODO: implement BPMN task \""@ + label + "\""@),
                ),
            }
        },
    }
}

/// One node of the loop: declarations are taken over, tasks handled by
/// [`task_step`], every other node left for `main`.
pub open spec fn conv_step(st: ConvV, n: BpmnNodeV) -> ConvV {
    match n {
        BpmnNodeV::RustType { id, name, kind, fields } => ConvV {
            types: st.types.push(
                TypeDeclV {
                    name,
                    kind: spec_map_type_kind(kind),
                    fields: fields.map_values(|f: SigV| sig_field(f)),
                },
            ),
            ..st
        },
        BpmnNodeV::RustFunction { id, name, params, return_type, body } => ConvV {
            functions: st.functions.push(
                FunctionV {
                    name,
                    params: params.map_values(|p: SigV| sig_param(p)),
                    return_type: opt_map_type(return_type),
                    kind: FunctionKind::Normal,
                    body,
                },
            ),
            ..st
        },
        BpmnNodeV::Task { id, name } => task_step(st, id, name),
        BpmnNodeV::ServiceTask { id, name } => task_step(st, id, name),
        _ => st,
    }
}

/// The loop over the nodes, in order.
pub open spec fn conv_nodes(ns: Seq<BpmnNodeV>) -> ConvV
    decreases ns.len(),
{
    if ns.len() == 0 {
        empty_conv()
    } else {
        conv_step(conv_nodes(ns.drop_last()), ns.last())
    }
}

/// The statements `main` gets for one node on the path: the directive's
/// statements, a call of the node's stub, or a note that it is skipped.
pub open spec fn node_lines(st: ConvV, id: Seq<char>) -> Seq<Seq<char>> {
    let j = last_key_index(st.inline_ids, id);
    if j >= 0 {
        st.inline_lines[j]
    } else {
        let f = last_key_index(st.fn_ids, id);
        if f >= 0 {
            seq![st.fn_names[f] + "();"@]
        } else {
            seq!["// Skipping BPMN node id=\""@ + id + "\" (not a task)"@]
        }
    }
}

pub open spec fn main_lines(st: ConvV, order: Seq<Seq<char>>) -> Seq<Seq<char>>
    decreases order.len(),
{
    if order.len() == 0 {
        Seq::empty()
    } else {
        main_lines(st, order.drop_last()) + node_lines(st, order.last())
    }
}

/// The body of the generated `main`.
pub open spec fn spec_main_body(st: ConvV, order: Seq<Seq<char>>) -> Seq<Seq<char>> {
    if order.len() == 0 {
        seq!["// TODO: no linear path found (missing startEvent/sequenceFlow?)"@]
    } else {
        main_lines(st, order)
    }
}

/// The module a process stands for: named after the process (its id when
/// it has no name), with the declarations and stubs of the node loop and,
/// unless one exists, a `main` that follows [`spec_linearize`].
pub open spec fn spec_process_to_module(p: BpmnProcessV) -> ModuleV {
    let st = conv_nodes(p.nodes);
    ModuleV {
        name: match p.name {
            Some(n) => n,
            None => p.id,
        },
        types: st.types,
        functions: if has_function(st.functions, "main"@) {
            st.functions
        } else {
            st.functions.push(
                FunctionV {
                    name: "main"@,
                    params: Seq::empty(),
                    return_type: None,
                    kind: FunctionKind::Normal,
                    body: spec_main_body(st, spec_linearize(p)),
                },
            )
        },
    }
}

struct Conv {
    used: Vec<String>,
    fn_ids: Vec<String>,
    fn_names: Vec<String>,
    inline_ids: Vec<String>,
    inline_lines: Vec<Vec<String>>,
    types: Vec<TypeDecl>,
    functions: Vec<Function>,
}

impl View for Conv {
    type V = ConvV;

    closed spec fn view(&self) -> ConvV {
        ConvV {
            used: names_view(self.used@),
            fn_ids: names_view(self.fn_ids@),
            fn_names: names_view(self.fn_names@),
            inline_ids: names_view(self.inline_ids@),
            inline_lines: self.inline_lines@.map_values(|ls: Vec<String>| names_view(ls@)),
            types: self.types@.map_values(|t: TypeDecl| t@),
            functions: self.functions@.map_values(|f: Function| f@),
        }
    }
}

impl Conv {
    spec fn lens_match(&self) -> bool {
        &&& self.fn_ids@.len() == self.fn_names@.len()
        &&& self.inline_ids@.len() == self.inline_lines@.len()
    }
}

fn map_fields(fs: &Vec<RustFieldSig>) -> (r: Vec<Field>)
    ensures
        r@.map_values(|f: Field| f@) == fs@.map_values(|f: RustFieldSig| f@).map_values(
            |f: SigV| sig_field(f),
        ),
{
    let mut out: Vec<Field> = Vec::new();
    let mut i: usize = 0;
    while i < fs.len()
        invariant
            i <= fs@.len(),
            out@.len() == i,
            forall|k: int| 0 <= k < i ==> (#[trigger] out@[k])@ == sig_field(fs@[k]@),
        decreases fs@.len() - i,
    {
        let f = Field { name: fs[i].name.clone(), ty: map_type_ref(fs[i].ty.as_str()) };
        out.push(f);
        i += 1;
    }
    assert(out@.map_values(|f: Field| f@) =~= fs@.map_values(|f: RustFieldSig| f@).map_values(
        |f: SigV| sig_field(f),
    ));
    out
}

fn map_params(ps: &Vec<RustParamSig>) -> (r: Vec<Param>)
    ensures
        r@.map_values(|p: Param| p@) == ps@.map_values(|p: RustParamSig| p@).map_values(
            |p: SigV| sig_param(p),
        ),
{
    let mut out: Vec<Param> = Vec::new();
    let mut i: usize = 0;
    while i < ps.len()
        invariant
            i <= ps@.len(),
            out@.len() == i,
            forall|k: int| 0 <= k < i ==> (#[trigger] out@[k])@ == sig_param(ps@[k]@),
        decreases ps@.len() - i,
    {
        let p = Param { name: ps[i].name.clone(), ty: map_type_ref(ps[i].ty.as_str()) };
        out.push(p);
        i += 1;
    }
    assert(out@.map_values(|p: Param| p@) =~= ps@.map_values(|p: RustParamSig| p@).map_values(
        |p: SigV| sig_param(p),
    ));
    out
}

fn function_exists(fs: &Vec<Function>, name: &str) -> (r: bool)
    ensures
        r == has_function(fs@.map_values(|f: Function| f@), name@),
{
    let ghost v = fs@.map_values(|f: Function| f@);
    let mut i: usize = 0;
    while i < fs.len()
        invariant
            i <= fs@.len(),
            v == fs@.map_values(|f: Function| f@),
            forall|k: int| 0 <= k < i ==> (#[trigger] v[k]).name != name@,
        decreases fs@.len() - i,
    {
        if str_eq(fs[i].name.as_str(), name) {
            assert(v[i as int].name == name@);
            return true;
        }
        i += 1;
    }
    false
}

/// A parameterless function with a one-line body.
fn stub_function(name: String, line: String) -> (r: Function)
    ensures
        r@ == stub_fn(name@, line@),
{
    let mut body: Vec<String> = Vec::new();
    body.push(line);
    let r = Function {
        name,
        params: Vec::new(),
        return_type: None,
        kind: FunctionKind::Normal,
        body,
    };
    assert(r@.params =~= Seq::<ParamV>::empty());
    assert(r@.body =~= seq![line@]);
    r
}

fn task_node(st: &mut Conv, id: &String, name: &Option<String>)
    requires
        old(st).used@.len() < usize::MAX,
        old(st).lens_match(),
    ensures
        final(st)@ == task_step(old(st)@, id@, opt_view(*name)),
        final(st).used@.len() <= old(st).used@.len() + 1,
        final(st).lens_match(),
{
    if let Some(nm) = name {
        let ncs = chars_of(nm.as_str());
        if let Some(lines) = parse_task_directive(ncs.as_slice()) {
            let ghost fs0 = st@.functions;
            match parse_call_target(ncs.as_slice()) {
                Some(target) => {
                    if !function_exists(&st.functions, target.as_str()) {
                        let stub = stub_function(target, "// TODO: implement called function".to_owned());
                        st.functions.push(stub);
                        assert(st@.functions =~= fs0.push(stub@));
                    }
                },
                None => {},
            }
            st.inline_ids.push(id.clone());
            st.inline_lines.push(lines);
            assert(names_view(lines@) =~= seq![lines@[0]@]);
            assert(st@.inline_ids =~= old(st)@.inline_ids.push(id@));
            assert(st@.inline_lines =~= old(st)@.inline_lines.push(names_view(lines@)));
            return;
        }
    }
    let label = node_label(id, name);
    let base = sanitize_ident(label.as_str());
    let fname = unique_name(&base, &mut st.used);
    st.fn_ids.push(id.clone());
    st.fn_names.push(fname.clone());
    let mut line = String::new();
    line.push_str("// TODO: implement BPMN task \"");
    line.push_str(label.as_str());
    line.push_str("\"");
    let stub = stub_function(fname, line);
    st.functions.push(stub);
    assert(st@.fn_ids =~= old(st)@.fn_ids.push(id@));
    assert(st@.fn_names =~= old(st)@.fn_names.push(stub@.name));
    assert(st@.functions =~= old(st)@.functions.push(stub@));
}

fn conv_node(st: &mut Conv, n: &BpmnNode)
    requires
        old(st).used@.len() < usize::MAX,
        old(st).lens_match(),
    ensures
        final(st)@ == conv_step(old(st)@, n@),
        final(st).used@.len() <= old(st).used@.len() + 1,
        final(st).lens_match(),
{
    match n {
        BpmnNode::RustType { id: _, name, kind, fields } => {
            let td = TypeDecl {
                name: name.clone(),
                kind: map_type_kind(kind.as_str()),
                fields: map_fields(fields),
            };
            st.types.push(td);
            assert(st@.types =~= old(st)@.types.push(td@));
        },
        BpmnNode::RustFunction { id: _, name, params, return_type, body } => {
            let rt = match return_type {
                Some(t) => Some(map_type_ref(t.as_str())),
                None => None,
            };
            let f = Function {
                name: name.clone(),
                params: map_params(params),
                return_type: rt,
                kind: FunctionKind::Normal,
                body: crate::ast::copy_lines(body),
            };
            st.functions.push(f);
            assert(f@.body =~= body@.map_values(|l: String| l@));
            assert(st@.functions =~= old(st)@.functions.push(f@));
        },
        BpmnNode::Task { id, name } => task_node(st, id, name),
        BpmnNode::ServiceTask { id, name } => task_node(st, id, name),
        _ => {},
    }
}

fn append_lines(out: &mut Vec<String>, ls: &Vec<String>)
    ensures
        names_view(final(out)@) == names_view(old(out)@) + names_view(ls@),
{
    let mut i: usize = 0;
    while i < ls.len()
        invariant
            i <= ls@.len(),
            names_view(out@) == names_view(old(out)@) + names_view(ls@.subrange(0, i as int)),
        decreases ls@.len() - i,
    {
        let ghost prev = out@;
        let c = ls[i].clone();
        assert(c@ == ls@[i as int]@);
        out.push(c);
        assert(names_view(out@) =~= names_view(prev).push(c@));
        assert(names_view(ls@.subrange(0, i + 1)) =~= names_view(ls@.subrange(0, i as int)).push(c@));
        i += 1;
    }
    assert(ls@.subrange(0, ls@.len() as int) == ls@);
}

fn node_stmts(st: &Conv, id: &String, out: &mut Vec<String>)
    requires
        st.lens_match(),
    ensures
        names_view(final(out)@) == names_view(old(out)@) + node_lines(st@, id@),
{
    match last_index(&st.inline_ids, id.as_str()) {
        Some(j) => {
            append_lines(out, &st.inline_lines[j]);
        },
        None => {
            match last_index(&st.fn_ids, id.as_str()) {
                Some(f) => {
                    let mut line = st.fn_names[f].clone();
                    line.push_str("();");
                    out.push(line);
                    assert(names_view(out@) =~= names_view(old(out)@) + node_lines(st@, id@));
                },
                None => {
                    let mut line = String::new();
                    line.push_str("// Skipping BPMN node id=\"");
                    line.push_str(id.as_str());
                    line.push_str("\" (not a task)");
                    out.push(line);
                    assert(names_view(out@) =~= names_view(old(out)@) + node_lines(st@, id@));
                },
            }
        },
    }
}

fn main_body(st: &Conv, order: &Vec<String>) -> (r: Vec<String>)
    requires
        st.lens_match(),
    ensures
        names_view(r@) == spec_main_body(st@, names_view(order@)),
{
    let mut out: Vec<String> = Vec::new();
    if order.len() == 0 {
        out.push("// TODO: no linear path found (missing startEvent/sequenceFlow?)".to_owned());
        assert(names_view(out@) =~= spec_main_body(st@, names_view(order@)));
        return out;
    }
    let ghost o = names_view(order@);
    let mut i: usize = 0;
    assert(names_view(out@) =~= main_lines(st@, o.subrange(0, 0)));
    while i < order.len()
        invariant
            i <= order@.len(),
            o == names_view(order@),
            st.lens_match(),
            names_view(out@) == main_lines(st@, o.subrange(0, i as int)),
        decreases order@.len() - i,
    {
        node_stmts(st, &order[i], &mut out);
        assert(o.subrange(0, i + 1).drop_last() == o.subrange(0, i as int));
        i += 1;
    }
    assert(o.subrange(0, o.len() as int) == o);
    out
}

/// Maps a BPMN process to the program model: `rustType` and
/// `rustFunction` nodes become declarations, tasks become stubs or inline
/// statements, and a `main` following the process path is added unless
/// the process declares one.
pub fn bpmn_process_to_module(proc: &BpmnProcess) -> (r: Module)
    ensures
        r@ == spec_process_to_module(proc@),
{
    let mut st = Conv {
        used: Vec::new(),
        fn_ids: Vec::new(),
        fn_names: Vec::new(),
        inline_ids: Vec::new(),
        inline_lines: Vec::new(),
        types: Vec::new(),
        functions: Vec::new(),
    };
    let ghost ns = proc@.nodes;
    assert(st@ == conv_nodes(ns.subrange(0, 0))) by {
        assert(st@.used =~= Seq::<Seq<char>>::empty());
        assert(st@.fn_ids =~= Seq::<Seq<char>>::empty());
        assert(st@.fn_names =~= Seq::<Seq<char>>::empty());
        assert(st@.inline_ids =~= Seq::<Seq<char>>::empty());
        assert(st@.inline_lines =~= Seq::<Seq<Seq<char>>>::empty());
        assert(st@.types =~= Seq::<TypeDeclV>::empty());
        assert(st@.functions =~= Seq::<FunctionV>::empty());
    }
    let mut i: usize = 0;
    while i < proc.nodes.len()
        invariant
            i <= proc.nodes@.len(),
            ns == proc@.nodes,
            st@ == conv_nodes(ns.subrange(0, i as int)),
            st.used@.len() <= i,
            st.lens_match(),
        decreases proc.nodes@.len() - i,
    {
        conv_node(&mut st, &proc.nodes[i]);
        assert(ns.subrange(0, i + 1).drop_last() == ns.subrange(0, i as int));
        i += 1;
    }
    assert(ns.subrange(0, ns.len() as int) == ns);
    let has_main = function_exists(&st.functions, "main");
    if !has_main {
        let order = best_effort_linearize(proc);
        assert(names_view(order@) == spec_linearize(proc@));
        let body = main_body(&st, &order);
        let main_fn = Function {
            name: "main".to_owned(),
            params: Vec::new(),
            return_type: None,
            kind: FunctionKind::Normal,
            body,
        };
        let ghost fs0 = st@.functions;
        st.functions.push(main_fn);
        assert(main_fn@.params =~= Seq::<ParamV>::empty());
        assert(st@.functions =~= fs0.push(main_fn@));
    }
    let name = match &proc.name {
        Some(n) => n.clone(),
        None => proc.id.clone(),
    };
    let ghost sv = st@;
    let Conv { types, functions, .. } = st;
    assert(types@.map_values(|t: TypeDecl| t@) == sv.types);
    assert(functions@.map_values(|f: Function| f@) == sv.functions);
    Module { name, types, functions }
}

/// The module of the process that BPMN XML holds, or the parse error.
pub open spec fn spec_xml_to_module(xml: Seq<char>) -> Result<ModuleV, Seq<char>> {
    match spec_events_to_process(xml_events(xml), None) {
        Ok(p) => Ok(spec_process_to_module(p)),
        Err(e) => Err(e),
    }
}

pub fn convert_bpmn_xml_to_module(xml: &str) -> (r: Result<Module, String>)
    ensures
        match r {
            Ok(m) => spec_xml_to_module(xml@) == Ok::<ModuleV, Seq<char>>(m@),
            Err(e) => spec_xml_to_module(xml@) == Err::<ModuleV, Seq<char>>(e@),
        },
{
    match parse_bpmn_xml(xml) {
        Ok(p) => Ok(bpmn_process_to_module(&p)),
        Err(e) => Err(e),
    }
}

/// The Rust text of the module that BPMN XML holds, or the parse error.
pub open spec fn spec_xml_to_rust(xml: Seq<char>) -> Result<Seq<char>, Seq<char>> {
    match spec_xml_to_module(xml) {
        Ok(m) => Ok(spec_module_to_rust(m)),
        Err(e) => Err(e),
    }
}

/// Rust source for the process that BPMN XML holds, or the parse error.
pub fn convert_bpmn_xml_to_rust_code(xml: &str) -> (r: Result<String, String>)
    ensures
        match r {
            Ok(code) => spec_xml_to_rust(xml@) == Ok::<Seq<char>, Seq<char>>(code@),
            Err(e) => spec_xml_to_rust(xml@) == Err::<Seq<char>, Seq<char>>(e@),
        },
{
    match convert_bpmn_xml_to_module(xml) {
        Ok(m) => Ok(module_to_rust(&m)),
        Err(e) => Err(e),
    }
}

/// One more element of a prefix counts once more when it is `b`.
proof fn lemma_count_prefix_step(s: Seq<Seq<char>>, b: Seq<char>, i: int)
    requires
        0 <= i < s.len(),
    ensures
        count_of(s.subrange(0, i + 1), b) == count_of(s.subrange(0, i), b) + if s[i] == b {
            1nat
        } else {
            0nat
        },
{
    assert(s.subrange(0, i + 1).drop_last() =~= s.subrange(0, i));
}

/// A longer prefix counts at least as often.
proof fn lemma_count_prefix_mono(s: Seq<Seq<char>>, b: Seq<char>, i: int, j: int)
    requires
        0 <= i <= j <= s.len(),
    ensures
        count_of(s.subrange(0, i), b) <= count_of(s.subrange(0, j), b),
    decreases j - i,
{
    if i < j {
        lemma_count_prefix_mono(s, b, i, j - 1);
        lemma_count_prefix_step(s, b, j - 1);
    }
}

/// A base followed by `_` and digits gives back the base and the digits.
proof fn lemma_suffixed_parts(b1: Seq<char>, n1: nat, b2: Seq<char>, n2: nat)
    requires
        b1 + seq!['_'] + spec_decimal(n1) == b2 + seq!['_'] + spec_decimal(n2),
    ensures
        b1 == b2,
        n1 == n2,
{
    let d1 = spec_decimal(n1);
    let d2 = spec_decimal(n2);
    let x = b1 + seq!['_'] + d1;
    let y = b2 + seq!['_'] + d2;
    lemma_decimal_digits(n1);
    lemma_decimal_digits(n2);
    assert(x.len() == y.len());
    if b1.len() < b2.len() {
        let k = b2.len() as int;
        assert(y[k] == '_');
        assert(x[k] == d1[k - b1.len() - 1]);
        assert('0' <= d1[k - b1.len() - 1] <= '9');
    } else if b2.len() < b1.len() {
        let k = b1.len() as int;
        assert(x[k] == '_');
        assert(y[k] == d2[k - b2.len() - 1]);
        assert('0' <= d2[k - b2.len() - 1] <= '9');
    } else {
        assert(b1 =~= x.subrange(0, b1.len() as int));
        assert(b2 =~= y.subrange(0, b2.len() as int));
        assert(d1 =~= x.subrange(b1.len() as int + 1, x.len() as int));
        assert(d2 =~= y.subrange(b2.len() as int + 1, y.len() as int));
        lemma_decimal_injective(n1, n2);
    }
}

/// The names handed out for a list of bases, one after the other, are
/// pairwise distinct: a repeated base gets `base`, `base_2`, `base_3`, ...
/// This holds for every list in which no base is spelled like the numbered
/// name (`other_n`) of another base that occurs at least `n` times; on
/// such a list the two coincide.
pub proof fn lemma_unique_names_distinct(bases: Seq<Seq<char>>)
    requires
        forall|i: int, j: int, n: nat|
            #![trigger bases[i], bases[j], spec_decimal(n)]
            0 <= i < bases.len() && 0 <= j < bases.len() && 2 <= n <= count_of(bases, bases[j]) ==> bases[i] != bases[j]
                + "_"@ + spec_decimal(n),
    ensures
        forall|i: int, j: int|
            0 <= i < j < bases.len() ==> spec_unique_name(bases.subrange(0, i), #[trigger] bases[i]) != spec_unique_name(
                bases.subrange(0, j),
                #[trigger] bases[j],
            ),
{
    reveal_strlit("_");
    assert("_"@ =~= seq!['_']);
    assert forall|i: int, j: int|
        0 <= i < j < bases.len() implies spec_unique_name(bases.subrange(0, i), #[trigger] bases[i]) != spec_unique_name(
        bases.subrange(0, j),
        #[trigger] bases[j],
    ) by {
        let b1 = bases[i];
        let b2 = bases[j];
        let n1 = count_of(bases.subrange(0, i), b1) + 1;
        let n2 = count_of(bases.subrange(0, j), b2) + 1;
        lemma_decimal_digits(n1);
        lemma_decimal_digits(n2);
        // each name's number is at most the number of times its base occurs
        lemma_count_prefix_step(bases, b1, i);
        lemma_count_prefix_mono(bases, b1, i + 1, bases.len() as int);
        lemma_count_prefix_step(bases, b2, j);
        lemma_count_prefix_mono(bases, b2, j + 1, bases.len() as int);
        assert(bases.subrange(0, bases.len() as int) =~= bases);
        assert(n1 <= count_of(bases, b1));
        assert(n2 <= count_of(bases, b2));
        let u1 = spec_unique_name(bases.subrange(0, i), b1);
        let u2 = spec_unique_name(bases.subrange(0, j), b2);
        if u1 == u2 {
            if b1 == b2 {
                lemma_count_prefix_mono(bases, b1, i + 1, j);
                assert(n1 < n2);
                if n1 == 1 {
                    assert(u2.len() > b2.len());
                } else {
                    lemma_suffixed_parts(b1, n1, b2, n2);
                }
            } else if n1 == 1 && n2 == 1 {
            } else if n1 == 1 {
                assert(bases[i] != bases[j] + "_"@ + spec_decimal(n2));
            } else if n2 == 1 {
                assert(bases[j] != bases[i] + "_"@ + spec_decimal(n1));
            } else {
                lemma_suffixed_parts(b1, n1, b2, n2);
            }
        }
    }
}

/// The stub name of each plain task is the name handed out for its base
/// among the bases of the plain tasks before it.
proof fn lemma_conv_fn_names(ns: Seq<BpmnNodeV>)
    ensures
        conv_nodes(ns).fn_names.len() == conv_nodes(ns).used.len(),
        forall|k: int|
            0 <= k < conv_nodes(ns).used.len() ==> #[trigger] conv_nodes(ns).fn_names[k] == spec_unique_name(
                conv_nodes(ns).used.subrange(0, k),
                conv_nodes(ns).used[k],
            ),
    decreases ns.len(),
{
    if ns.len() > 0 {
        let st = conv_nodes(ns.drop_last());
        lemma_conv_fn_names(ns.drop_last());
        let st2 = conv_nodes(ns);
        assert(st2 == conv_step(st, ns.last()));
        if st2.used != st.used {
            assert forall|k: int| 0 <= k < st2.used.len() implies #[trigger] st2.fn_names[k] == spec_unique_name(
                st2.used.subrange(0, k),
                st2.used[k],
            ) by {
                if k < st.used.len() {
                    assert(st2.used.subrange(0, k) =~= st.used.subrange(0, k));
                    assert(st2.used[k] == st.used[k]);
                    assert(st2.fn_names[k] == st.fn_names[k]);
                } else {
                    assert(st2.used.subrange(0, k) =~= st.used);
                }
            }
        } else {
            assert(st2.fn_names == st.fn_names);
        }
    }
}

/// No two plain tasks of a process get the same stub function: the names
/// the conversion gives them are pairwise distinct, on every process where
/// no task's base name is spelled like the numbered name (`other_n`) of a
/// base that occurs at least `n` times.
pub proof fn lemma_task_stub_names_distinct(ns: Seq<BpmnNodeV>)
    requires
        ({
            let bases = conv_nodes(ns).used;
            forall|i: int, j: int, n: nat|
                #![trigger bases[i], bases[j], spec_decimal(n)]
                0 <= i < bases.len() && 0 <= j < bases.len() && 2 <= n <= count_of(bases, bases[j]) ==> bases[i]
                    != bases[j] + "_"@ + spec_decimal(n)
        }),
    ensures
        forall|i: int, j: int|
            0 <= i < j < conv_nodes(ns).fn_names.len() ==> #[trigger] conv_nodes(ns).fn_names[i]
                != #[trigger] conv_nodes(ns).fn_names[j],
{
    let st = conv_nodes(ns);
    lemma_conv_fn_names(ns);
    lemma_unique_names_distinct(st.used);
    assert forall|i: int, j: int| 0 <= i < j < st.fn_names.len() implies #[trigger] st.fn_names[i]
        != #[trigger] st.fn_names[j] by {
        assert(st.fn_names[i] == spec_unique_name(st.used.subrange(0, i), st.used[i]));
        assert(st.fn_names[j] == spec_unique_name(st.used.subrange(0, j), st.used[j]));
    }
}

/// The names handed out for a base count up: the base itself the first
/// time, `base_2` the second time, and in general `base_n` when the base
/// was handed out `n - 1` times before; handing out a name for one base
/// leaves the names of the other bases as they were.
pub proof fn lemma_unique_name_counts(used: Seq<Seq<char>>, base: Seq<char>, other: Seq<char>)
    ensures
        count_of(used, base) == 0 ==> spec_unique_name(used, base) == base,
        count_of(used, base) == 0 ==> spec_unique_name(used.push(base), base) == base + "_2"@,
        spec_unique_name(used.push(base), base) == base + "_"@ + spec_decimal(count_of(used, base) + 2),
        other != base ==> spec_unique_name(used.push(base), other) == spec_unique_name(used, other),
{
    reveal_strlit("_2");
    reveal_strlit("_");
    assert(used.push(base).drop_last() =~= used);
    if count_of(used, base) == 0 {
        assert(spec_decimal(2) =~= seq!['2']);
        assert(base + "_"@ + spec_decimal(2) =~= base + "_2"@);
    }
}

} // verus!
