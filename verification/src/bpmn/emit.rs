//! The XML text of a BPMN process.

use vstd::prelude::*;
use vstd::string::StringSliceAdditionalSpecFns;
use vstd::utf8::encode_utf8;
use crate::text::{spec_decimal, usize_to_decimal};
use super::model::{
    opt_view, BpmnNode, BpmnNodeV, BpmnProcess, BpmnProcessV, BpmnSequenceFlow, FlowV, SigV,
};
use super::xmltext::{
    hex_encode, kv_list_encode, pairs_view, spec_hex_encode, spec_kv_encode, spec_xml_escape,
    xml_escape,
};

verus! {

/// ` key="value"` with the value escaped; `lit` is the text up to the opening quote.
pub open spec fn attr(lit: Seq<char>, v: Seq<char>) -> Seq<char> {
    lit + spec_xml_escape(v) + "\""@
}

/// An attribute that is only written when the value is present.
pub open spec fn opt_attr(lit: Seq<char>, v: Option<Seq<char>>) -> Seq<char> {
    match v {
        Some(v) => attr(lit, v),
        None => Seq::empty(),
    }
}

/// The lines joined with `sep` between them.
pub open spec fn spec_join(lines: Seq<Seq<char>>, sep: Seq<char>) -> Seq<char>
    decreases lines.len(),
{
    if lines.len() == 0 {
        Seq::empty()
    } else if lines.len() == 1 {
        lines[0]
    } else {
        spec_join(lines.drop_last(), sep) + sep + lines.last()
    }
}

/// Field or parameter signatures as `(name, ty)` pairs.
pub open spec fn sig_pairs(s: Seq<SigV>) -> Seq<(Seq<char>, Seq<char>)> {
    s.map_values(|x: SigV| (x.name, x.ty))
}

/// An event, task or gateway element with an id and an optional name.
pub open spec fn simple_xml(open: Seq<char>, id: Seq<char>, name: Option<Seq<char>>) -> Seq<char> {
    attr(open, id) + opt_attr(" name=\""@, name) + "/>\n"@
}

/// The hexadecimal form of a function body: its lines joined by `\n`, as UTF-8.
pub open spec fn body_hex(body: Seq<Seq<char>>) -> Seq<char> {
    spec_hex_encode(encode_utf8(spec_join(body, "\n"@)))
}

/// The XML element of one node.
pub open spec fn node_xml(n: BpmnNodeV) -> Seq<char> {
    match n {
        BpmnNodeV::StartEvent { id, name } => simple_xml("    <startEvent id=\""@, id, name),
        BpmnNodeV::EndEvent { id, name } => simple_xml("    <endEvent id=\""@, id, name),
        BpmnNodeV::Task { id, name } => simple_xml("    <task id=\""@, id, name),
        BpmnNodeV::ServiceTask { id, name } => simple_xml("    <serviceTask id=\""@, id, name),
        BpmnNodeV::ExclusiveGateway { id, name } => simple_xml("    <exclusiveGateway id=\""@, id, name),
        BpmnNodeV::ParallelGateway { id, name } => simple_xml("    <parallelGateway id=\""@, id, name),
        BpmnNodeV::RustType { id, name, kind, fields } =>
            attr("    <rustType id=\""@, id) + attr(" name=\""@, name) + attr(" kind=\""@, kind)
            + (if fields.len() == 0 {
                Seq::empty()
            } else {
                attr(" fields=\""@, spec_kv_encode(sig_pairs(fields)))
            }) + "/>\n"@,
        BpmnNodeV::RustFunction { id, name, params, return_type, body } =>
            attr("    <rustFunction id=\""@, id) + attr(" name=\""@, name)
            + (if params.len() == 0 {
                Seq::empty()
            } else {
                attr(" params=\""@, spec_kv_encode(sig_pairs(params)))
            }) + opt_attr(" returnType=\""@, return_type)
            + (if body.len() == 0 { Seq::empty() } else { attr(" bodyHex=\""@, body_hex(body)) })
            + "/>\n"@,
        BpmnNodeV::RustSource { id, path, content_hex } =>
            attr("    <rustSource id=\""@, id) + opt_attr(" path=\""@, path)
            + attr(" contentHex=\""@, content_hex) + "/>\n"@,
        BpmnNodeV::RustLine { id, path, line, eol, text, text_hex } =>
            attr("    <rustLine id=\""@, id) + opt_attr(" path=\""@, path)
            + attr(" line=\""@, spec_decimal(line as nat)) + attr(" eol=\""@, eol)
            + attr(" text=\""@, text) + attr(" textHex=\""@, text_hex) + "/>\n"@,
        BpmnNodeV::Unknown { tag, id, name } =>
            "    <"@ + spec_xml_escape(tag) + opt_attr(" id=\""@, id) + opt_attr(" name=\""@, name)
            + "/>\n"@,
    }
}

/// The XML element of one sequence flow.
pub open spec fn flow_xml(f: FlowV) -> Seq<char> {
    attr("    <sequenceFlow id=\""@, f.id) + attr(" sourceRef=\""@, f.source_ref)
        + attr(" targetRef=\""@, f.target_ref) + opt_attr(" name=\""@, f.name) + "/>\n"@
}

/// The elements of a list of nodes, in order.
pub open spec fn nodes_xml(ns: Seq<BpmnNodeV>) -> Seq<char>
    decreases ns.len(),
{
    if ns.len() == 0 {
        Seq::empty()
    } else {
        nodes_xml(ns.drop_last()) + node_xml(ns.last())
    }
}

/// The elements of a list of flows, in order.
pub open spec fn flows_xml(fs: Seq<FlowV>) -> Seq<char>
    decreases fs.len(),
{
    if fs.len() == 0 {
        Seq::empty()
    } else {
        flows_xml(fs.drop_last()) + flow_xml(fs.last())
    }
}

/// The XML declaration and the opening `definitions` element.
pub open spec fn xml_header() -> Seq<char> {
    "<?xml version=\"1.0\" encoding=\"UTF-8\"?>"@ + "\n"@
        + "<definitions xmlns=\"http://www.omg.org/spec/BPMN/20100524/MODEL\" xmlns:bpmn=\"http://www.omg.org/spec/BPMN/20100524/MODEL\" id=\"Definitions_1\">"@
        + "\n"@
}

/// The whole document: header, process element, its nodes, then its flows.
pub open spec fn spec_emit_bpmn_xml(p: BpmnProcessV) -> Seq<char> {
    xml_header() + attr("  <process id=\""@, p.id) + opt_attr(" name=\""@, p.name) + ">\n"@
        + nodes_xml(p.nodes) + flows_xml(p.flows) + "  </process>\n</definitions>\n"@
}

fn push_attr(out: &mut String, lit: &str, v: &str)
    ensures
        final(out)@ == old(out)@ + attr(lit@, v@),
{
    out.push_str(lit);
    let e = xml_escape(v);
    out.push_str(e.as_str());
    out.push_str("\"");
}

fn push_opt_attr(out: &mut String, lit: &str, v: &Option<String>)
    ensures
        final(out)@ == old(out)@ + opt_attr(lit@, opt_view(*v)),
{
    match v {
        Some(v) => push_attr(out, lit, v.as_str()),
        None => {
            assert(old(out)@ + Seq::<char>::empty() == old(out)@);
        },
    }
}

/// The lines joined with `sep` between them.
pub fn join_lines(lines: &Vec<String>, sep: &str) -> (r: String)
    ensures
        r@ == spec_join(lines@.map_values(|l: String| l@), sep@),
{
    let mut out = String::new();
    let mut i: usize = 0;
    while i < lines.len()
        invariant
            i <= lines@.len(),
            out@ == spec_join(lines@.subrange(0, i as int).map_values(|l: String| l@), sep@),
        decreases lines@.len() - i,
    {
        if i > 0 {
            out.push_str(sep);
        }
        out.push_str(lines[i].as_str());
        proof {
            let m = lines@.subrange(0, i + 1).map_values(|l: String| l@);
            assert(m.drop_last() =~= lines@.subrange(0, i as int).map_values(|l: String| l@));
            assert(m.last() == lines@[i as int]@);
            if i == 0 {
                assert(m.len() == 1);
            }
        }
        i += 1;
    }
    assert(lines@.subrange(0, lines@.len() as int) == lines@);
    out
}

fn sig_kv_fields(fields: &Vec<super::model::RustFieldSig>) -> (r: Vec<(String, String)>)
    ensures
        pairs_view(r@) == sig_pairs(fields@.map_values(|f: super::model::RustFieldSig| f@)),
{
    let mut out: Vec<(String, String)> = Vec::new();
    let mut i: usize = 0;
    while i < fields.len()
        invariant
            i <= fields@.len(),
            out@.len() == i,
            forall|k: int| 0 <= k < i ==> (#[trigger] out@[k]).0@ == fields@[k].name@ && out@[k].1@ == fields@[k].ty@,
        decreases fields@.len() - i,
    {
        out.push((fields[i].name.clone(), fields[i].ty.clone()));
        i += 1;
    }
    assert(pairs_view(out@) =~= sig_pairs(fields@.map_values(|f: super::model::RustFieldSig| f@)));
    out
}

fn sig_kv_params(params: &Vec<super::model::RustParamSig>) -> (r: Vec<(String, String)>)
    ensures
        pairs_view(r@) == sig_pairs(params@.map_values(|f: super::model::RustParamSig| f@)),
{
    let mut out: Vec<(String, String)> = Vec::new();
    let mut i: usize = 0;
    while i < params.len()
        invariant
            i <= params@.len(),
            out@.len() == i,
            forall|k: int| 0 <= k < i ==> (#[trigger] out@[k]).0@ == params@[k].name@ && out@[k].1@ == params@[k].ty@,
        decreases params@.len() - i,
    {
        out.push((params[i].name.clone(), params[i].ty.clone()));
        i += 1;
    }
    assert(pairs_view(out@) =~= sig_pairs(params@.map_values(|f: super::model::RustParamSig| f@)));
    out
}

fn push_simple(out: &mut String, open: &str, id: &String, name: &Option<String>)
    ensures
        final(out)@ == old(out)@ + simple_xml(open@, id@, opt_view(*name)),
{
    push_attr(out, open, id.as_str());
    push_opt_attr(out, " name=\"", name);
    out.push_str("/>\n");
}

fn push_rust_type(out: &mut String, n: &BpmnNode)
    requires
        n is RustType,
    ensures
        final(out)@ == old(out)@ + node_xml(n@),
{
    match n {
        BpmnNode::RustType { id, name, kind, fields } => {
            push_attr(out, "    <rustType id=\"", id.as_str());
            push_attr(out, " name=\"", name.as_str());
            push_attr(out, " kind=\"", kind.as_str());
            let ghost before = out@;
            if fields.len() > 0 {
                let kv = sig_kv_fields(fields);
                let enc = kv_list_encode(&kv);
                push_attr(out, " fields=\"", enc.as_str());
            } else {
                assert(before + Seq::<char>::empty() == before);
            }
            out.push_str("/>\n");
        },
        _ => {},
    }
}

fn push_rust_function(out: &mut String, n: &BpmnNode)
    requires
        n is RustFunction,
    ensures
        final(out)@ == old(out)@ + node_xml(n@),
{
    match n {
        BpmnNode::RustFunction { id, name, params, return_type, body } => {
            push_attr(out, "    <rustFunction id=\"", id.as_str());
            push_attr(out, " name=\"", name.as_str());
            let ghost before = out@;
            if params.len() > 0 {
                let kv = sig_kv_params(params);
                let enc = kv_list_encode(&kv);
                push_attr(out, " params=\"", enc.as_str());
            } else {
                assert(before + Seq::<char>::empty() == before);
            }
            push_opt_attr(out, " returnType=\"", return_type);
            let ghost before2 = out@;
            if body.len() > 0 {
                let joined = join_lines(body, "\n");
                let hex = hex_encode(joined.as_str().as_bytes());
                push_attr(out, " bodyHex=\"", hex.as_str());
            } else {
                assert(before2 + Seq::<char>::empty() == before2);
            }
            out.push_str("/>\n");
        },
        _ => {},
    }
}

/// Appends the XML element of one node.
fn push_node(out: &mut String, n: &BpmnNode)
    ensures
        final(out)@ == old(out)@ + node_xml(n@),
{
    match n {
        BpmnNode::StartEvent { id, name } => push_simple(out, "    <startEvent id=\"", id, name),
        BpmnNode::EndEvent { id, name } => push_simple(out, "    <endEvent id=\"", id, name),
        BpmnNode::Task { id, name } => push_simple(out, "    <task id=\"", id, name),
        BpmnNode::ServiceTask { id, name } => push_simple(out, "    <serviceTask id=\"", id, name),
        BpmnNode::ExclusiveGateway { id, name } => push_simple(out, "    <exclusiveGateway id=\"", id, name),
        BpmnNode::ParallelGateway { id, name } => push_simple(out, "    <parallelGateway id=\"", id, name),
        BpmnNode::RustType { id, name, kind, fields } => push_rust_type(out, n),
        BpmnNode::RustFunction { id, name, params, return_type, body } => push_rust_function(out, n),
        BpmnNode::RustSource { id, path, content_hex } => {
            push_attr(out, "    <rustSource id=\"", id.as_str());
            push_opt_attr(out, " path=\"", path);
            push_attr(out, " contentHex=\"", content_hex.as_str());
            out.push_str("/>\n");
        },
        BpmnNode::RustLine { id, path, line, eol, text, text_hex } => {
            push_attr(out, "    <rustLine id=\"", id.as_str());
            push_opt_attr(out, " path=\"", path);
            let num = usize_to_decimal(*line);
            push_attr(out, " line=\"", num.as_str());
            push_attr(out, " eol=\"", eol.as_str());
            push_attr(out, " text=\"", text.as_str());
            push_attr(out, " textHex=\"", text_hex.as_str());
            out.push_str("/>\n");
        },
        BpmnNode::Unknown { tag, id, name } => {
            out.push_str("    <");
            let t = xml_escape(tag.as_str());
            out.push_str(t.as_str());
            push_opt_attr(out, " id=\"", id);
            push_opt_attr(out, " name=\"", name);
            out.push_str("/>\n");
        },
    }
}

/// Appends the XML element of one flow.
fn push_flow(out: &mut String, f: &BpmnSequenceFlow)
    ensures
        final(out)@ == old(out)@ + flow_xml(f@),
{
    push_attr(out, "    <sequenceFlow id=\"", f.id.as_str());
    push_attr(out, " sourceRef=\"", f.source_ref.as_str());
    push_attr(out, " targetRef=\"", f.target_ref.as_str());
    push_opt_attr(out, " name=\"", &f.name);
    out.push_str("/>\n");
}

/// Writes a process as a minimal BPMN 2.0 document: nodes in order, then
/// flows in order, every attribute value XML-escaped.
pub fn emit_bpmn_xml(proc: &BpmnProcess) -> (r: String)
    ensures
        r@ == spec_emit_bpmn_xml(proc@),
{
    let mut out = String::new();
    out.push_str("<?xml version=\"1.0\" encoding=\"UTF-8\"?>");
    out.push_str("\n");
    out.push_str("<definitions xmlns=\"http://www.omg.org/spec/BPMN/20100524/MODEL\" xmlns:bpmn=\"http://www.omg.org/spec/BPMN/20100524/MODEL\" id=\"Definitions_1\">");
    out.push_str("\n");
    push_attr(&mut out, "  <process id=\"", proc.id.as_str());
    push_opt_attr(&mut out, " name=\"", &proc.name);
    out.push_str(">\n");
    let ghost head = out@;
    let mut i: usize = 0;
    while i < proc.nodes.len()
        invariant
            i <= proc.nodes@.len(),
            out@ == head + nodes_xml(proc.nodes@.subrange(0, i as int).map_values(|n: BpmnNode| n@)),
        decreases proc.nodes@.len() - i,
    {
        push_node(&mut out, &proc.nodes[i]);
        proof {
            let m = proc.nodes@.subrange(0, i + 1).map_values(|n: BpmnNode| n@);
            assert(m.drop_last() =~= proc.nodes@.subrange(0, i as int).map_values(|n: BpmnNode| n@));
        }
        i += 1;
    }
    assert(proc.nodes@.subrange(0, proc.nodes@.len() as int) == proc.nodes@);
    let ghost mid = out@;
    let mut j: usize = 0;
    while j < proc.flows.len()
        invariant
            j <= proc.flows@.len(),
            out@ == mid + flows_xml(proc.flows@.subrange(0, j as int).map_values(|f: BpmnSequenceFlow| f@)),
        decreases proc.flows@.len() - j,
    {
        push_flow(&mut out, &proc.flows[j]);
        proof {
            let m = proc.flows@.subrange(0, j + 1).map_values(|f: BpmnSequenceFlow| f@);
            assert(m.drop_last() =~= proc.flows@.subrange(0, j as int).map_values(|f: BpmnSequenceFlow| f@));
        }
        j += 1;
    }
    assert(proc.flows@.subrange(0, proc.flows@.len() as int) == proc.flows@);
    out.push_str("  </process>\n</definitions>\n");
    out
}

} // verus!
