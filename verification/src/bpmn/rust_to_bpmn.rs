//! Rust source to BPMN XML: sources with control flow in `main` (or that
//! are always embedded) keep their text in a lossless process, sources
//! whose `main` reads as standard task directives become standard BPMN,
//! and any other source becomes the process form of its module.

use vstd::prelude::*;
use crate::rust_ast::{from_rust_syntax, spec_from_rust_syntax};
use crate::rust_syntax::RsFile;
use crate::text::{
    ascii_lower_seq, ascii_lowercase, chars_of, chars_start_with, starts_with, trim_start,
    trim_start_at,
};
use super::emit::{emit_bpmn_xml, spec_emit_bpmn_xml};
use super::from_module::{module_to_bpmn_process, spec_module_to_process};
use super::from_rust::{main_contains_control_flow, rust_code_to_bpmn_process, spec_main_has_control_flow, spec_rust_code_process};
use super::model::{opt_view, BpmnNode, BpmnNodeV, BpmnProcess};
use super::rust_source::{rust_source_to_bpmn_process, should_embed_lossless_rust_source, spec_rust_source_process, spec_should_embed};

verus! {

/// A task name that starts (after leading white space, in any case) with
/// one of the standard directive heads.
pub open spec fn is_standard_directive(name: Seq<char>) -> bool {
    let low = ascii_lower_seq(trim_start(name));
    ||| starts_with(low, "println:"@)
    ||| starts_with(low, "println_var:"@)
    ||| starts_with(low, "let:"@)
    ||| starts_with(low, "letmut:"@)
    ||| starts_with(low, "set:"@)
    ||| starts_with(low, "call:"@)
    ||| starts_with(low, "comment:"@)
}

/// A task or service task whose name is a standard directive.
pub open spec fn node_has_directive(n: BpmnNodeV) -> bool {
    match n {
        BpmnNodeV::ServiceTask { id, name } => name matches Some(x) && is_standard_directive(x),
        BpmnNodeV::Task { id, name } => name matches Some(x) && is_standard_directive(x),
        _ => false,
    }
}

pub open spec fn has_standard_directive(nodes: Seq<BpmnNodeV>) -> bool {
    exists|i: int| 0 <= i < nodes.len() && node_has_directive(#[trigger] nodes[i])
}

fn directive_name(name: &String) -> (r: bool)
    ensures
        r == is_standard_directive(name@),
{
    let cs = chars_of(name.as_str());
    let n = cs.len();
    let s = trim_start_at(cs.as_slice(), 0, n);
    assert(cs@.subrange(0, n as int) =~= cs@);
    let low = ascii_lowercase(&cs.as_slice()[s..n]);
    let l = low.as_slice();
    chars_start_with(l, "println:") || chars_start_with(l, "println_var:") || chars_start_with(l, "let:")
        || chars_start_with(l, "letmut:") || chars_start_with(l, "set:") || chars_start_with(l, "call:")
        || chars_start_with(l, "comment:")
}

fn process_has_standard_directive(proc: &BpmnProcess) -> (r: bool)
    ensures
        r == has_standard_directive(proc@.nodes),
{
    let ghost ns = proc@.nodes;
    let mut i: usize = 0;
    while i < proc.nodes.len()
        invariant
            i <= ns.len(),
            ns == proc@.nodes,
            forall|k: int| 0 <= k < i ==> !node_has_directive(#[trigger] ns[k]),
        decreases ns.len() - i,
    {
        let hit = match &proc.nodes[i] {
            BpmnNode::ServiceTask { id: _, name: Some(x) } => directive_name(x),
            BpmnNode::Task { id: _, name: Some(x) } => directive_name(x),
            _ => false,
        };
        assert(hit == node_has_directive(ns[i as int]));
        if hit {
            return true;
        }
        i += 1;
    }
    false
}

/// The BPMN XML for Rust source (its text and its parse), as the module
/// comment above describes; `path` labels the embedded source. A source
/// that did not parse and is not embedded gives `Rust parse error: <error>`.
pub open spec fn spec_rust_code_to_xml(
    src: Seq<char>,
    parsed: Result<RsFile, String>,
    path: Option<Seq<char>>,
) -> Result<Seq<char>, Seq<char>> {
    if spec_should_embed(src) || spec_main_has_control_flow(parsed) {
        Ok(spec_emit_bpmn_xml(spec_rust_source_process(src, parsed, path)))
    } else {
        match parsed {
            Ok(file) => {
                let p = spec_rust_code_process(file);
                if has_standard_directive(p.nodes) {
                    Ok(spec_emit_bpmn_xml(p))
                } else {
                    Ok(spec_emit_bpmn_xml(spec_module_to_process(spec_from_rust_syntax(file, "rust_process"@))))
                }
            },
            Err(e) => Err("Rust parse error: "@ + e@),
        }
    }
}

/// BPMN XML for Rust source, given its text and its parse (see
/// [`spec_rust_code_to_xml`]).
pub fn convert_rust_code_to_bpmn_xml_with_path(
    rust_text: &str,
    parsed: &Result<RsFile, String>,
    path: Option<String>,
) -> (r: Result<String, String>)
    ensures
        match r {
            Ok(x) => spec_rust_code_to_xml(rust_text@, *parsed, opt_view(path)) == Ok::<Seq<char>, Seq<char>>(x@),
            Err(e) => spec_rust_code_to_xml(rust_text@, *parsed, opt_view(path)) == Err::<Seq<char>, Seq<char>>(e@),
        },
{
    if should_embed_lossless_rust_source(rust_text) || main_contains_control_flow(parsed) {
        let p = rust_source_to_bpmn_process(rust_text, parsed, path);
        return Ok(emit_bpmn_xml(&p));
    }
    match parsed {
        Ok(file) => {
            let p = rust_code_to_bpmn_process(file);
            if process_has_standard_directive(&p) {
                return Ok(emit_bpmn_xml(&p));
            }
            let module = from_rust_syntax(file, "rust_process");
            let q = module_to_bpmn_process(&module);
            Ok(emit_bpmn_xml(&q))
        },
        Err(e) => {
            let mut msg = String::new();
            msg.push_str("Rust parse error: ");
            msg.push_str(e.as_str());
            Err(msg)
        },
    }
}

/// BPMN XML for Rust source without a path label.
pub fn convert_rust_code_to_bpmn_xml(rust_text: &str, parsed: &Result<RsFile, String>) -> (r: Result<String, String>)
    ensures
        match r {
            Ok(x) => spec_rust_code_to_xml(rust_text@, *parsed, None) == Ok::<Seq<char>, Seq<char>>(x@),
            Err(e) => spec_rust_code_to_xml(rust_text@, *parsed, None) == Err::<Seq<char>, Seq<char>>(e@),
        },
{
    convert_rust_code_to_bpmn_xml_with_path(rust_text, parsed, None)
}

} // verus!
