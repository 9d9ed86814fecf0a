//! BPMN processes as the converters see them: a flat list of nodes and
//! the sequence flows between them.

use vstd::prelude::*;

verus! {

/// A BPMN `<process>`.
#[derive(Debug, Clone, PartialEq, Eq)]
pub struct BpmnProcess {
    pub id: String,
    pub name: Option<String>,
    pub nodes: Vec<BpmnNode>,
    pub flows: Vec<BpmnSequenceFlow>,
}

/// A field of a `rustType` node.
#[derive(Debug, Clone, PartialEq, Eq)]
pub struct RustFieldSig {
    pub name: String,
    pub ty: String,
}

/// A parameter of a `rustFunction` node.
#[derive(Debug, Clone, PartialEq, Eq)]
pub struct RustParamSig {
    pub name: String,
    pub ty: String,
}

/// A flow node. `RustType`, `RustFunction`, `RustSource` and `RustLine`
/// are non-standard nodes that carry the program model or the source
/// text through the XML.
#[derive(Debug, Clone, PartialEq, Eq)]
pub enum BpmnNode {
    StartEvent { id: String, name: Option<String> },
    EndEvent { id: String, name: Option<String> },
    Task { id: String, name: Option<String> },
    ServiceTask { id: String, name: Option<String> },
    ExclusiveGateway { id: String, name: Option<String> },
    ParallelGateway { id: String, name: Option<String> },
    RustType { id: String, name: String, kind: String, fields: Vec<RustFieldSig> },
    RustFunction {
        id: String,
        name: String,
        params: Vec<RustParamSig>,
        return_type: Option<String>,
        body: Vec<String>,
    },
    RustSource { id: String, path: Option<String>, content_hex: String },
    RustLine {
        id: String,
        path: Option<String>,
        line: usize,
        eol: String,
        text: String,
        text_hex: String,
    },
    Unknown { tag: String, id: Option<String>, name: Option<String> },
}

/// A `<sequenceFlow>` from one node id to another.
#[derive(Debug, Clone, PartialEq, Eq)]
pub struct BpmnSequenceFlow {
    pub id: String,
    pub source_ref: String,
    pub target_ref: String,
    pub name: Option<String>,
}

/// The view of an optional string.
pub open spec fn opt_view(s: Option<String>) -> Option<Seq<char>> {
    match s {
        Some(s) => Some(s@),
        None => None,
    }
}

pub struct SigV {
    pub name: Seq<char>,
    pub ty: Seq<char>,
}

pub enum BpmnNodeV {
    StartEvent { id: Seq<char>, name: Option<Seq<char>> },
    EndEvent { id: Seq<char>, name: Option<Seq<char>> },
    Task { id: Seq<char>, name: Option<Seq<char>> },
    ServiceTask { id: Seq<char>, name: Option<Seq<char>> },
    ExclusiveGateway { id: Seq<char>, name: Option<Seq<char>> },
    ParallelGateway { id: Seq<char>, name: Option<Seq<char>> },
    RustType { id: Seq<char>, name: Seq<char>, kind: Seq<char>, fields: Seq<SigV> },
    RustFunction {
        id: Seq<char>,
        name: Seq<char>,
        params: Seq<SigV>,
        return_type: Option<Seq<char>>,
        body: Seq<Seq<char>>,
    },
    RustSource { id: Seq<char>, path: Option<Seq<char>>, content_hex: Seq<char> },
    RustLine {
        id: Seq<char>,
        path: Option<Seq<char>>,
        line: usize,
        eol: Seq<char>,
        text: Seq<char>,
        text_hex: Seq<char>,
    },
    Unknown { tag: Seq<char>, id: Option<Seq<char>>, name: Option<Seq<char>> },
}

pub struct FlowV {
    pub id: Seq<char>,
    pub source_ref: Seq<char>,
    pub target_ref: Seq<char>,
    pub name: Option<Seq<char>>,
}

pub struct BpmnProcessV {
    pub id: Seq<char>,
    pub name: Option<Seq<char>>,
    pub nodes: Seq<BpmnNodeV>,
    pub flows: Seq<FlowV>,
}

impl View for RustFieldSig {
    type V = SigV;

    open spec fn view(&self) -> SigV {
        SigV { name: self.name@, ty: self.ty@ }
    }
}

impl View for RustParamSig {
    type V = SigV;

    open spec fn view(&self) -> SigV {
        SigV { name: self.name@, ty: self.ty@ }
    }
}

impl View for BpmnNode {
    type V = BpmnNodeV;

    open spec fn view(&self) -> BpmnNodeV {
        match self {
            BpmnNode::StartEvent { id, name } => BpmnNodeV::StartEvent { id: id@, name: opt_view(*name) },
            BpmnNode::EndEvent { id, name } => BpmnNodeV::EndEvent { id: id@, name: opt_view(*name) },
            BpmnNode::Task { id, name } => BpmnNodeV::Task { id: id@, name: opt_view(*name) },
            BpmnNode::ServiceTask { id, name } => BpmnNodeV::ServiceTask { id: id@, name: opt_view(*name) },
            BpmnNode::ExclusiveGateway { id, name } => BpmnNodeV::ExclusiveGateway { id: id@, name: opt_view(*name) },
            BpmnNode::ParallelGateway { id, name } => BpmnNodeV::ParallelGateway { id: id@, name: opt_view(*name) },
            BpmnNode::RustType { id, name, kind, fields } => BpmnNodeV::RustType {
                id: id@,
                name: name@,
                kind: kind@,
                fields: fields@.map_values(|f: RustFieldSig| f@),
            },
            BpmnNode::RustFunction { id, name, params, return_type, body } => BpmnNodeV::RustFunction {
                id: id@,
                name: name@,
                params: params@.map_values(|p: RustParamSig| p@),
                return_type: opt_view(*return_type),
                body: body@.map_values(|l: String| l@),
            },
            BpmnNode::RustSource { id, path, content_hex } => BpmnNodeV::RustSource {
                id: id@,
                path: opt_view(*path),
                content_hex: content_hex@,
            },
            BpmnNode::RustLine { id, path, line, eol, text, text_hex } => BpmnNodeV::RustLine {
                id: id@,
                path: opt_view(*path),
                line: *line,
                eol: eol@,
                text: text@,
                text_hex: text_hex@,
            },
            BpmnNode::Unknown { tag, id, name } => BpmnNodeV::Unknown {
                tag: tag@,
                id: opt_view(*id),
                name: opt_view(*name),
            },
        }
    }
}

impl View for BpmnSequenceFlow {
    type V = FlowV;

    open spec fn view(&self) -> FlowV {
        FlowV {
            id: self.id@,
            source_ref: self.source_ref@,
            target_ref: self.target_ref@,
            name: opt_view(self.name),
        }
    }
}

impl View for BpmnProcess {
    type V = BpmnProcessV;

    open spec fn view(&self) -> BpmnProcessV {
        BpmnProcessV {
            id: self.id@,
            name: opt_view(self.name),
            nodes: self.nodes@.map_values(|n: BpmnNode| n@),
            flows: self.flows@.map_values(|f: BpmnSequenceFlow| f@),
        }
    }
}

/// A copy of an optional string with the same view.
pub fn copy_opt(s: &Option<String>) -> (r: Option<String>)
    ensures
        opt_view(r) == opt_view(*s),
{
    match s {
        Some(s) => Some(s.clone()),
        None => None,
    }
}

} // verus!
