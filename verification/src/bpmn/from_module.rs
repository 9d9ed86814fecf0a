//! From the shared program model to a BPMN process: every declaration
//! becomes a `rustType` or `rustFunction` node, and the function nodes are
//! chained by sequence flows from the start event to the end event.

use vstd::prelude::*;
use crate::ast::{FieldV, Function, FunctionV, Module, ModuleV, ParamV, TypeDecl, TypeDeclV, TypeKind, TypeRef, TypeRefV};
use crate::text::{chars_of, spec_decimal, usize_to_decimal};
use super::directive::is_ident_char;
use super::emit::{emit_bpmn_xml, spec_emit_bpmn_xml};
use super::model::{BpmnNode, BpmnNodeV, BpmnProcess, BpmnProcessV, BpmnSequenceFlow, FlowV, RustFieldSig, RustParamSig, SigV};
use super::parse::{parse_bpmn_xml, spec_events_to_process, xml_events};
use super::to_module::{names_view, spec_unique_name, unique_name};

verus! {

/// A name made usable inside a node id: every character that is not an
/// ASCII letter, digit or `_` becomes `_`; an empty name becomes `_`.
pub open spec fn spec_sanitize_fragment(s: Seq<char>) -> Seq<char> {
    if s.len() == 0 {
        "_"@
    } else {
        s.map_values(|c: char| if is_ident_char(c) { c } else { '_' })
    }
}

pub fn sanitize_id_fragment(s: &str) -> (r: String)
    ensures
        r@ == spec_sanitize_fragment(s@),
{
    let cs = chars_of(s);
    if cs.len() == 0 {
        return "_".to_owned();
    }
    let mut out = String::new();
    let mut i: usize = 0;
    while i < cs.len()
        invariant
            i <= cs@.len(),
            cs@ == s@,
            out@ == cs@.subrange(0, i as int).map_values(
                |c: char| if is_ident_char(c) { c } else { '_' },
            ),
        decreases cs@.len() - i,
    {
        let c = cs[i];
        if ('a' <= c && c <= 'z') || ('A' <= c && c <= 'Z') || ('0' <= c && c <= '9') || c == '_' {
            out.push(c);
        } else {
            out.push('_');
        }
        i += 1;
        assert(out@ =~= cs@.subrange(0, i as int).map_values(
            |c: char| if is_ident_char(c) { c } else { '_' },
        ));
    }
    assert(cs@.subrange(0, cs@.len() as int) == cs@);
    out
}

/// The name a model type is written with in a node: `number`, `string`,
/// `boolean`, or the custom name.
pub open spec fn spec_type_name(t: TypeRefV) -> Seq<char> {
    match t {
        TypeRefV::Number => "number"@,
        TypeRefV::Str => "string"@,
        TypeRefV::Bool => "boolean"@,
        TypeRefV::Custom(s) => s,
    }
}

pub fn type_ref_to_name(ty: &TypeRef) -> (r: String)
    ensures
        r@ == spec_type_name(ty@),
{
    match ty {
        TypeRef::Number => "number".to_owned(),
        TypeRef::String => "string".to_owned(),
        TypeRef::Bool => "boolean".to_owned(),
        TypeRef::Custom(s) => s.clone(),
    }
}

pub open spec fn spec_kind_name(k: TypeKind) -> Seq<char> {
    match k {
        TypeKind::Struct => "struct"@,
        TypeKind::Interface => "interface"@,
    }
}

pub fn type_kind_to_name(kind: &TypeKind) -> (r: String)
    ensures
        r@ == spec_kind_name(*kind),
{
    match kind {
        TypeKind::Struct => "struct".to_owned(),
        TypeKind::Interface => "interface".to_owned(),
    }
}

pub open spec fn type_base(t: TypeDeclV) -> Seq<char> {
    "RustType_"@ + spec_sanitize_fragment(t.name)
}

pub open spec fn fn_base(f: FunctionV) -> Seq<char> {
    "RustFunction_"@ + spec_sanitize_fragment(f.name)
}

/// The id bases of the declaration nodes: the types first, then the functions.
pub open spec fn node_bases(m: ModuleV) -> Seq<Seq<char>> {
    m.types.map_values(|t: TypeDeclV| type_base(t)) + m.functions.map_values(
        |f: FunctionV| fn_base(f),
    )
}

/// The ids handed out for a list of bases, one after the other.
pub open spec fn unique_ids(bases: Seq<Seq<char>>) -> Seq<Seq<char>> {
    Seq::new(bases.len(), |k: int| spec_unique_name(bases.subrange(0, k), bases[k]))
}

pub open spec fn field_sig(f: FieldV) -> SigV {
    SigV { name: f.name, ty: spec_type_name(f.ty) }
}

pub open spec fn param_sig(p: ParamV) -> SigV {
    SigV { name: p.name, ty: spec_type_name(p.ty) }
}

pub open spec fn type_node(t: TypeDeclV, id: Seq<char>) -> BpmnNodeV {
    BpmnNodeV::RustType {
        id,
        name: t.name,
        kind: spec_kind_name(t.kind),
        fields: t.fields.map_values(|f: FieldV| field_sig(f)),
    }
}

pub open spec fn opt_type_name(t: Option<TypeRefV>) -> Option<Seq<char>> {
    match t {
        Some(t) => Some(spec_type_name(t)),
        None => None,
    }
}

pub open spec fn fn_node(f: FunctionV, id: Seq<char>) -> BpmnNodeV {
    BpmnNodeV::RustFunction {
        id,
        name: f.name,
        params: f.params.map_values(|p: ParamV| param_sig(p)),
        return_type: opt_type_name(f.return_type),
        body: f.body,
    }
}

pub open spec fn start_node() -> BpmnNodeV {
    BpmnNodeV::StartEvent { id: "StartEvent_1"@, name: Some("Start"@) }
}

pub open spec fn end_node() -> BpmnNodeV {
    BpmnNodeV::EndEvent { id: "EndEvent_1"@, name: Some("End"@) }
}

/// Flow `k` of the chain start → function nodes → end, named `Flow_{k+1}`.
pub open spec fn chain_flow(ids: Seq<Seq<char>>, k: int) -> FlowV {
    FlowV {
        id: "Flow_"@ + spec_decimal((k + 1) as nat),
        source_ref: if k == 0 { "StartEvent_1"@ } else { ids[k - 1] },
        target_ref: if k == ids.len() { "EndEvent_1"@ } else { ids[k] },
        name: None,
    }
}

/// The process a module stands for: a start event, one `rustType` node
/// per type and one `rustFunction` node per function (ids `RustType_..`
/// and `RustFunction_..`, made unique), an end event, and flows chaining
/// start, the function nodes in order, and end.
pub open spec fn spec_module_to_process(m: ModuleV) -> BpmnProcessV {
    let ids = unique_ids(node_bases(m));
    let nt = m.types.len() as int;
    let nf = m.functions.len() as int;
    let fn_ids = ids.subrange(nt, nt + nf);
    BpmnProcessV {
        id: "module_"@ + spec_sanitize_fragment(m.name),
        name: Some(m.name),
        nodes: seq![start_node()] + Seq::new(nt as nat, |i: int| type_node(m.types[i], ids[i]))
            + Seq::new(nf as nat, |j: int| fn_node(m.functions[j], fn_ids[j])) + seq![end_node()],
        flows: Seq::new((nf + 1) as nat, |k: int| chain_flow(fn_ids, k)),
    }
}

fn field_sigs(fs: &Vec<crate::ast::Field>) -> (r: Vec<RustFieldSig>)
    ensures
        r@.map_values(|f: RustFieldSig| f@) == fs@.map_values(|f: crate::ast::Field| f@).map_values(
            |f: FieldV| field_sig(f),
        ),
{
    let mut out: Vec<RustFieldSig> = Vec::new();
    let mut i: usize = 0;
    while i < fs.len()
        invariant
            i <= fs@.len(),
            out@.len() == i,
            forall|k: int| 0 <= k < i ==> (#[trigger] out@[k])@ == field_sig(fs@[k]@),
        decreases fs@.len() - i,
    {
        out.push(RustFieldSig { name: fs[i].name.clone(), ty: type_ref_to_name(&fs[i].ty) });
        i += 1;
    }
    assert(out@.map_values(|f: RustFieldSig| f@) =~= fs@.map_values(|f: crate::ast::Field| f@).map_values(
        |f: FieldV| field_sig(f),
    ));
    out
}

fn param_sigs(ps: &Vec<crate::ast::Param>) -> (r: Vec<RustParamSig>)
    ensures
        r@.map_values(|p: RustParamSig| p@) == ps@.map_values(|p: crate::ast::Param| p@).map_values(
            |p: ParamV| param_sig(p),
        ),
{
    let mut out: Vec<RustParamSig> = Vec::new();
    let mut i: usize = 0;
    while i < ps.len()
        invariant
            i <= ps@.len(),
            out@.len() == i,
            forall|k: int| 0 <= k < i ==> (#[trigger] out@[k])@ == param_sig(ps@[k]@),
        decreases ps@.len() - i,
    {
        out.push(RustParamSig { name: ps[i].name.clone(), ty: type_ref_to_name(&ps[i].ty) });
        i += 1;
    }
    assert(out@.map_values(|p: RustParamSig| p@) =~= ps@.map_values(|p: crate::ast::Param| p@).map_values(
        |p: ParamV| param_sig(p),
    ));
    out
}

fn type_decl_node(t: &TypeDecl, id: String) -> (r: BpmnNode)
    ensures
        r@ == type_node(t@, id@),
{
    let fields = field_sigs(&t.fields);
    let r = BpmnNode::RustType {
        id,
        name: t.name.clone(),
        kind: type_kind_to_name(&t.kind),
        fields,
    };
    assert(fields@.map_values(|f: RustFieldSig| f@) =~= t@.fields.map_values(|f: FieldV| field_sig(f)));
    r
}

fn function_node(f: &Function, id: String) -> (r: BpmnNode)
    ensures
        r@ == fn_node(f@, id@),
{
    let params = param_sigs(&f.params);
    let return_type = match &f.return_type {
        Some(t) => Some(type_ref_to_name(t)),
        None => None,
    };
    let body = crate::ast::copy_lines(&f.body);
    let r = BpmnNode::RustFunction { id, name: f.name.clone(), params, return_type, body };
    assert(params@.map_values(|p: RustParamSig| p@) =~= f@.params.map_values(|p: ParamV| param_sig(p)));
    assert(body@.map_values(|l: String| l@) =~= f@.body);
    r
}

fn prefixed(prefix: &str, s: &String) -> (r: String)
    ensures
        r@ == prefix@ + spec_sanitize_fragment(s@),
{
    let mut out = String::new();
    out.push_str(prefix);
    let frag = sanitize_id_fragment(s.as_str());
    out.push_str(frag.as_str());
    out
}

fn flow_id(k: usize) -> (r: String)
    ensures
        r@ == "Flow_"@ + spec_decimal(k as nat),
{
    let mut out = String::new();
    out.push_str("Flow_");
    let d = usize_to_decimal(k);
    out.push_str(d.as_str());
    out
}

/// The lossless process form of a module (see [`spec_module_to_process`]).
pub fn module_to_bpmn_process(module: &Module) -> (r: BpmnProcess)
    ensures
        r@ == spec_module_to_process(module@),
{
    let ghost m = module@;
    let ghost bases = node_bases(m);
    let ghost ids = unique_ids(bases);
    let nt = module.types.len();
    let nf = module.functions.len();
    assert(bases.len() == nt + nf);
    let mut used: Vec<String> = Vec::new();
    let mut nodes: Vec<BpmnNode> = Vec::new();
    nodes.push(BpmnNode::StartEvent { id: "StartEvent_1".to_owned(), name: Some("Start".to_owned()) });
    let mut i: usize = 0;
    while i < nt
        invariant
            i <= nt,
            nt == m.types.len(),
            nf == m.functions.len(),
            m == module@,
            bases == node_bases(m),
            ids == unique_ids(bases),
            used@.len() == i,
            names_view(used@) == bases.subrange(0, i as int),
            nodes@.map_values(|n: BpmnNode| n@) == seq![start_node()] + Seq::new(
                i as nat,
                |k: int| type_node(m.types[k], ids[k]),
            ),
        decreases nt - i,
    {
        let base = prefixed("RustType_", &module.types[i].name);
        assert(base@ == bases[i as int]);
        let ghost pre = nodes@.map_values(|n: BpmnNode| n@);
        let id = unique_name(&base, &mut used);
        assert(id@ == ids[i as int]);
        let node = type_decl_node(&module.types[i], id);
        nodes.push(node);
        assert(bases.subrange(0, i + 1) =~= bases.subrange(0, i as int).push(bases[i as int]));
        assert(nodes@.map_values(|n: BpmnNode| n@) =~= pre.push(node@));
        i += 1;
        assert(nodes@.map_values(|n: BpmnNode| n@) =~= seq![start_node()] + Seq::new(
            i as nat,
            |k: int| type_node(m.types[k], ids[k]),
        ));
    }
    let ghost type_part = nodes@.map_values(|n: BpmnNode| n@);
    let mut fn_ids: Vec<String> = Vec::new();
    let mut j: usize = 0;
    while j < nf
        invariant
            j <= nf,
            nt == m.types.len(),
            nf == m.functions.len(),
            m == module@,
            bases == node_bases(m),
            ids == unique_ids(bases),
            used@.len() == nt + j,
            nodes@.len() == 1 + nt + j,
            names_view(used@) == bases.subrange(0, nt + j),
            names_view(fn_ids@) == ids.subrange(nt as int, nt + j),
            type_part == seq![start_node()] + Seq::new(nt as nat, |k: int| type_node(m.types[k], ids[k])),
            nodes@.map_values(|n: BpmnNode| n@) == type_part + Seq::new(
                j as nat,
                |k: int| fn_node(m.functions[k], ids[nt + k]),
            ),
        decreases nf - j,
    {
        let _count = nodes.len();
        let base = prefixed("RustFunction_", &module.functions[j].name);
        assert(base@ == bases[nt + j]);
        let ghost pre = nodes@.map_values(|n: BpmnNode| n@);
        let ghost pre_ids = names_view(fn_ids@);
        let id = unique_name(&base, &mut used);
        assert(id@ == ids[nt + j]);
        fn_ids.push(id.clone());
        let node = function_node(&module.functions[j], id);
        nodes.push(node);
        assert(bases.subrange(0, nt + j + 1) =~= bases.subrange(0, nt + j).push(bases[nt + j]));
        assert(names_view(fn_ids@) =~= pre_ids.push(ids[nt + j]));
        assert(nodes@.map_values(|n: BpmnNode| n@) =~= pre.push(node@));
        j += 1;
        assert(names_view(fn_ids@) =~= ids.subrange(nt as int, nt + j));
        assert(nodes@.map_values(|n: BpmnNode| n@) =~= type_part + Seq::new(
            j as nat,
            |k: int| fn_node(m.functions[k], ids[nt + k]),
        ));
    }
    let ghost body_part = nodes@.map_values(|n: BpmnNode| n@);
    let _count = nodes.len();
    assert(nf < usize::MAX);
    nodes.push(BpmnNode::EndEvent { id: "EndEvent_1".to_owned(), name: Some("End".to_owned()) });
    let ghost fids = ids.subrange(nt as int, (nt + nf) as int);
    assert(nodes@.map_values(|n: BpmnNode| n@) =~= body_part.push(end_node()));
    let mut flows: Vec<BpmnSequenceFlow> = Vec::new();
    let mut prev: String = "StartEvent_1".to_owned();
    let mut k: usize = 0;
    while k < nf
        invariant
            k <= nf,
            nf == fn_ids@.len(),
            nf < usize::MAX,
            names_view(fn_ids@) == fids,
            prev@ == (if k == 0 { "StartEvent_1"@ } else { fids[k - 1] }),
            flows@.len() == k,
            forall|q: int| 0 <= q < k ==> (#[trigger] flows@[q])@ == chain_flow(fids, q),
        decreases nf - k,
    {
        let f = BpmnSequenceFlow {
            id: flow_id(k + 1),
            source_ref: prev,
            target_ref: fn_ids[k].clone(),
            name: None,
        };
        flows.push(f);
        prev = fn_ids[k].clone();
        k += 1;
    }
    flows.push(BpmnSequenceFlow {
        id: flow_id(nf + 1),
        source_ref: prev,
        target_ref: "EndEvent_1".to_owned(),
        name: None,
    });
    let name = module.name.clone();
    let r = BpmnProcess {
        id: prefixed("module_", &module.name),
        name: Some(name),
        nodes,
        flows,
    };
    assert(r@.flows =~= Seq::new((nf + 1) as nat, |q: int| chain_flow(fids, q)));
    assert(r@.nodes =~= spec_module_to_process(m).nodes);
    r
}

/// BPMN XML holding the lossless process form of a module.
pub fn convert_module_to_bpmn_xml(module: &Module) -> (r: Result<String, String>)
    ensures
        r matches Ok(x) && x@ == spec_emit_bpmn_xml(spec_module_to_process(module@)),
{
    let p = module_to_bpmn_process(module);
    Ok(emit_bpmn_xml(&p))
}

/// Checks that BPMN XML parses into a process; the error is the parser's.
pub fn validate_bpmn_xml(xml: &str) -> (r: Result<(), String>)
    ensures
        match r {
            Ok(_) => spec_events_to_process(xml_events(xml@), None) is Ok,
            Err(e) => spec_events_to_process(xml_events(xml@), None) == Err::<BpmnProcessV, Seq<char>>(e@),
        },
{
    match parse_bpmn_xml(xml) {
        Ok(_) => Ok(()),
        Err(e) => Err(e),
    }
}

} // verus!
