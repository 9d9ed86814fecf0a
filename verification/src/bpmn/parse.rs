//! Reading a BPMN process back from XML.
//!
//! The XML is tokenised by `quick_xml`; the events it yields are turned
//! into a [`BpmnProcess`] by [`process_from_events`].

use vstd::prelude::*;
use quick_xml::events::Event;
use vstd::string::StringSliceAdditionalSpecFns;
use vstd::utf8::{decode_utf8, encode_utf8, valid_utf8};
use crate::text::{chars_of, str_eq, string_from_utf8, trim, trim_bounds, utf8_error_text};

use super::model::{opt_view, BpmnNode, BpmnNodeV, BpmnProcess, BpmnProcessV, BpmnSequenceFlow, FlowV, RustFieldSig, RustParamSig, SigV};
use super::xmltext::{hex_decode, kv_list_decode, pairs_view, spec_hex_decode_bytes, spec_kv_decode, split_on};

verus! {

/// One event of the XML token stream, as far as the BPMN reader looks at it.
#[derive(Debug, Clone, PartialEq, Eq)]
pub enum XmlEvent {
    /// A start tag or an empty-element tag: its raw name and its
    /// attributes as raw `(key, value)` bytes; an attribute that could not
    /// be read is `None`.
    Element { name: Vec<u8>, attrs: Vec<Option<(Vec<u8>, Vec<u8>)>> },
    /// Any other event (end tags, text, comments, declarations).
    Other,
    /// End of input.
    Eof,
    /// The tokeniser's error message.
    Error(String),
}

pub enum XmlEventV {
    Element { name: Seq<u8>, attrs: Seq<Option<(Seq<u8>, Seq<u8>)>> },
    Other,
    Eof,
    Error(Seq<char>),
}

pub open spec fn attr_view(a: Option<(Vec<u8>, Vec<u8>)>) -> Option<(Seq<u8>, Seq<u8>)> {
    match a {
        Some(p) => Some((p.0@, p.1@)),
        None => None,
    }
}

impl View for XmlEvent {
    type V = XmlEventV;

    open spec fn view(&self) -> XmlEventV {
        match self {
            XmlEvent::Element { name, attrs } => XmlEventV::Element {
                name: name@,
                attrs: attrs@.map_values(|a: Option<(Vec<u8>, Vec<u8>)>| attr_view(a)),
            },
            XmlEvent::Other => XmlEventV::Other,
            XmlEvent::Eof => XmlEventV::Eof,
            XmlEvent::Error(m) => XmlEventV::Error(m@),
        }
    }
}

/// Whether an event ends the stream.
pub open spec fn is_terminal(e: XmlEventV) -> bool {
    e is Eof || e is Error
}

/// A stream that ends with its first `Eof` or error.
pub open spec fn well_terminated(evs: Seq<XmlEventV>) -> bool {
    &&& evs.len() > 0
    &&& is_terminal(evs.last())
    &&& forall|i: int| 0 <= i < evs.len() - 1 ==> !is_terminal(#[trigger] evs[i])
}

/// The events that `quick_xml::Reader::from_str(xml)` with `trim_text(true)`
/// yields, up to and including the first `Eof` or error.
pub uninterp spec fn xml_events(xml: Seq<char>) -> Seq<XmlEventV>;

/// The events a reader has still to yield, up to and including the first
/// `Eof` or error.
pub uninterp spec fn xml_pending(reader: quick_xml::Reader<&[u8]>) -> Seq<XmlEventV>;

#[verifier::external_type_specification]
#[verifier::external_body]
#[verifier::reject_recursive_types(R)]
pub struct ExXmlReader<R>(quick_xml::Reader<R>);

/// `quick_xml::Reader::from_str` followed by `trim_text(true)`: a reader
/// that will yield `xml_events(xml)`, a stream that ends at its first
/// `Eof` or error.
#[verifier::external_body]
fn xml_reader(xml: &str) -> (r: quick_xml::Reader<&[u8]>)
    ensures
        xml_pending(r) == xml_events(xml@),
        well_terminated(xml_pending(r)),
{
    let mut r = quick_xml::Reader::from_str(xml);
    r.trim_text(true);
    r
}

/// `quick_xml::Reader::read_event`: yields the next pending event.
/// Start and empty tags become `Element` with their raw name and raw
/// attribute bytes; every other successful event but `Eof` becomes `Other`.
#[verifier::external_body]
fn xml_read(reader: &mut quick_xml::Reader<&[u8]>) -> (ev: XmlEvent)
    requires
        xml_pending(*old(reader)).len() > 0,
    ensures
        ev@ == xml_pending(*old(reader))[0],
        xml_pending(*final(reader)) == xml_pending(*old(reader)).drop_first(),
{
    match reader.read_event() {
        Ok(Event::Start(e)) | Ok(Event::Empty(e)) => XmlEvent::Element {
            name: e.name().as_ref().to_vec(),
            attrs: e.attributes().map(|a| a.ok().map(|a| (a.key.as_ref().to_vec(), a.value.to_vec()))).collect(),
        },
        Ok(Event::Eof) => XmlEvent::Eof,
        Ok(_) => XmlEvent::Other,
        Err(e) => XmlEvent::Error(e.to_string()),
    }
}

/// Reads every event of the document, up to and including the first `Eof` or error.
pub fn read_xml_events(xml: &str) -> (r: Vec<XmlEvent>)
    ensures
        r@.map_values(|e: XmlEvent| e@) == xml_events(xml@),
{
    let mut reader = xml_reader(xml);
    let mut events: Vec<XmlEvent> = Vec::new();
    let ghost all = xml_events(xml@);
    loop
        invariant
            well_terminated(all),
            all == xml_events(xml@),
            events@.map_values(|e: XmlEvent| e@) + xml_pending(reader) == all,
            xml_pending(reader).len() > 0,
        decreases xml_pending(reader).len(),
    {
        let ghost before = xml_pending(reader);
        let ev = xml_read(&mut reader);
        let stop = match ev {
            XmlEvent::Eof => true,
            XmlEvent::Error(_) => true,
            _ => false,
        };
        let ghost done = events@.map_values(|e: XmlEvent| e@);
        events.push(ev);
        proof {
            assert(events@.map_values(|e: XmlEvent| e@) =~= done.push(before[0]));
            assert(done.push(before[0]) + before.drop_first() =~= done + before);
        }
        if stop {
            proof {
                assert(is_terminal(before[0]));
                let k = done.len() as int;
                assert(all[k] == before[0]);
                if xml_pending(reader).len() > 0 {
                    assert(k < all.len() - 1);
                    assert(!is_terminal(all[k]));
                }
                assert(xml_pending(reader).len() == 0);
                assert(events@.map_values(|e: XmlEvent| e@) =~= all);
            }
            return events;
        }
        proof {
            let k = done.len() as int;
            assert(all[k] == before[0]);
            if xml_pending(reader).len() == 0 {
                assert(k == all.len() - 1);
                assert(is_terminal(all.last()));
            }
        }
    }
}

/// The part of a name after its last `:` (the whole name if it has none).
pub open spec fn after_last_colon(s: Seq<char>) -> Seq<char>
    decreases s.len(),
{
    if s.len() == 0 {
        Seq::empty()
    } else if s.last() == ':' {
        Seq::empty()
    } else {
        after_last_colon(s.drop_last()).push(s.last())
    }
}

/// A tag's local name: its UTF-8 text (empty if invalid) after the last `:`.
pub open spec fn spec_local_name(qname: Seq<u8>) -> Seq<char> {
    after_last_colon(if valid_utf8(qname) { decode_utf8(qname) } else { Seq::empty() })
}

/// The raw value of the first readable attribute with the given key.
pub open spec fn first_attr(attrs: Seq<Option<(Seq<u8>, Seq<u8>)>>, key: Seq<u8>) -> Option<Seq<u8>>
    decreases attrs.len(),
{
    if attrs.len() == 0 {
        None
    } else {
        match attrs[0] {
            Some(kv) => if kv.0 == key {
                Some(kv.1)
            } else {
                first_attr(attrs.drop_first(), key)
            },
            None => first_attr(attrs.drop_first(), key),
        }
    }
}

/// The text of an attribute: absent when missing or not valid UTF-8.
pub open spec fn attr_text(attrs: Seq<Option<(Seq<u8>, Seq<u8>)>>, key: Seq<char>) -> Option<Seq<char>> {
    match first_attr(attrs, encode_utf8(key)) {
        Some(v) => if valid_utf8(v) { Some(decode_utf8(v)) } else { None },
        None => None,
    }
}

/// The attribute's text, or a default.
pub open spec fn attr_or(attrs: Seq<Option<(Seq<u8>, Seq<u8>)>>, key: Seq<char>, dflt: Seq<char>) -> Seq<char> {
    match attr_text(attrs, key) {
        Some(v) => v,
        None => dflt,
    }
}

/// Adds a node to the process, if a process has been opened.
pub open spec fn with_node(st: Option<BpmnProcessV>, n: BpmnNodeV) -> Option<BpmnProcessV> {
    match st {
        Some(p) => Some(BpmnProcessV { nodes: p.nodes.push(n), ..p }),
        None => None,
    }
}

/// Pairs decoded from the `name:ty` list as signatures.
pub open spec fn sigs_of(pairs: Seq<(Seq<char>, Seq<char>)>) -> Seq<SigV> {
    pairs.map_values(|p: (Seq<char>, Seq<char>)| SigV { name: p.0, ty: p.1 })
}

/// The lines of a `bodyHex` attribute, or the error it gives.
pub open spec fn spec_body_of(h: Option<Seq<char>>) -> Result<Seq<Seq<char>>, Seq<char>> {
    match h {
        None => Ok(Seq::empty()),
        Some(h) => if trim(h).len() == 0 {
            Ok(Seq::empty())
        } else {
            match spec_hex_decode_bytes(encode_utf8(trim(h))) {
                Err(e) => Err(e),
                Ok(bytes) => if !valid_utf8(bytes) {
                    Err("rustFunction bodyHex is not valid UTF-8: "@ + utf8_error_text(bytes))
                } else if decode_utf8(bytes).len() == 0 {
                    Ok(Seq::empty())
                } else {
                    Ok(split_on(decode_utf8(bytes), '\n'))
                },
            }
        },
    }
}

/// The error text for a flow that lacks one of its ends.
pub open spec fn missing_ref_error(id: Seq<char>, which: Seq<char>) -> Seq<char> {
    "sequenceFlow "@ + id + " missing "@ + which
}

/// The effect of one element on the process being read.
pub open spec fn spec_element_step(
    st: Option<BpmnProcessV>,
    name: Seq<u8>,
    attrs: Seq<Option<(Seq<u8>, Seq<u8>)>>,
) -> Result<Option<BpmnProcessV>, Seq<char>> {
    let tag = spec_local_name(name);
    let id = attr_text(attrs, "id"@);
    let nm = attr_text(attrs, "name"@);
    if tag == "process"@ {
        Ok(Some(BpmnProcessV {
            id: attr_or(attrs, "id"@, "process"@),
            name: nm,
            nodes: Seq::empty(),
            flows: Seq::empty(),
        }))
    } else if st is None {
        Ok(st)
    } else if tag == "startEvent"@ {
        Ok(with_node(st, BpmnNodeV::StartEvent { id: attr_or(attrs, "id"@, "StartEvent_1"@), name: nm }))
    } else if tag == "endEvent"@ {
        Ok(with_node(st, BpmnNodeV::EndEvent { id: attr_or(attrs, "id"@, "EndEvent_1"@), name: nm }))
    } else if tag == "task"@ {
        Ok(with_node(st, BpmnNodeV::Task { id: attr_or(attrs, "id"@, "Task_1"@), name: nm }))
    } else if tag == "serviceTask"@ {
        Ok(with_node(st, BpmnNodeV::ServiceTask { id: attr_or(attrs, "id"@, "ServiceTask_1"@), name: nm }))
    } else if tag == "exclusiveGateway"@ {
        Ok(with_node(st, BpmnNodeV::ExclusiveGateway { id: attr_or(attrs, "id"@, "ExclusiveGateway_1"@), name: nm }))
    } else if tag == "parallelGateway"@ {
        Ok(with_node(st, BpmnNodeV::ParallelGateway { id: attr_or(attrs, "id"@, "ParallelGateway_1"@), name: nm }))
    } else if tag == "sequenceFlow"@ {
        let fid = attr_or(attrs, "id"@, "Flow_1"@);
        match attr_text(attrs, "sourceRef"@) {
            None => Err(missing_ref_error(fid, "sourceRef"@)),
            Some(src) => match attr_text(attrs, "targetRef"@) {
                None => Err(missing_ref_error(fid, "targetRef"@)),
                Some(tgt) => {
                    let p = st->0;
                    Ok(Some(BpmnProcessV {
                        flows: p.flows.push(FlowV { id: fid, source_ref: src, target_ref: tgt, name: nm }),
                        ..p
                    }))
                },
            },
        }
    } else if tag == "rustType"@ {
        Ok(with_node(st, BpmnNodeV::RustType {
            id: attr_or(attrs, "id"@, "RustType_1"@),
            name: attr_or(attrs, "name"@, "Type"@),
            kind: attr_or(attrs, "kind"@, "struct"@),
            fields: sigs_of(spec_kv_decode(attr_or(attrs, "fields"@, ""@))),
        }))
    } else if tag == "rustFunction"@ {
        match spec_body_of(attr_text(attrs, "bodyHex"@)) {
            Err(e) => Err(e),
            Ok(body) => Ok(with_node(st, BpmnNodeV::RustFunction {
                id: attr_or(attrs, "id"@, "RustFunction_1"@),
                name: attr_or(attrs, "name"@, "function"@),
                params: sigs_of(spec_kv_decode(attr_or(attrs, "params"@, ""@))),
                return_type: attr_text(attrs, "returnType"@),
                body: body,
            })),
        }
    } else if id is Some || nm is Some {
        Ok(with_node(st, BpmnNodeV::Unknown { tag: tag, id: id, name: nm }))
    } else {
        Ok(st)
    }
}

/// The process read from a stream of events, starting from state `st`:
/// elements are applied in order, a second `process` element starts over,
/// and the stream ends at `Eof`, at an error, or when it runs out.
pub open spec fn spec_events_to_process(
    evs: Seq<XmlEventV>,
    st: Option<BpmnProcessV>,
) -> Result<BpmnProcessV, Seq<char>>
    decreases evs.len(),
{
    if evs.len() == 0 || evs[0] is Eof {
        match st {
            Some(p) => Ok(p),
            None => Err("No <process> found in BPMN XML"@),
        }
    } else {
        match evs[0] {
            XmlEventV::Error(m) => Err("BPMN XML parse error: "@ + m),
            XmlEventV::Element { name, attrs } => match spec_element_step(st, name, attrs) {
                Err(e) => Err(e),
                Ok(st2) => spec_events_to_process(evs.drop_first(), st2),
            },
            _ => spec_events_to_process(evs.drop_first(), st),
        }
    }
}

/// The view of a parse result.
pub open spec fn parse_result_view(r: Result<BpmnProcess, String>) -> Result<BpmnProcessV, Seq<char>> {
    match r {
        Ok(p) => Ok(p@),
        Err(e) => Err(e@),
    }
}

/// The view of an optional process.
pub open spec fn opt_proc_view(st: Option<BpmnProcess>) -> Option<BpmnProcessV> {
    match st {
        Some(p) => Some(p@),
        None => None,
    }
}

/// The view of the attributes of an element.
pub open spec fn attrs_view(a: Seq<Option<(Vec<u8>, Vec<u8>)>>) -> Seq<Option<(Seq<u8>, Seq<u8>)>> {
    a.map_values(|x: Option<(Vec<u8>, Vec<u8>)>| attr_view(x))
}

/// Byte-wise equality of two byte slices.
pub fn bytes_eq(a: &[u8], b: &[u8]) -> (r: bool)
    ensures
        r == (a@ == b@),
{
    if a.len() != b.len() {
        return false;
    }
    let mut i: usize = 0;
    while i < a.len()
        invariant
            i <= a@.len(),
            a@.len() == b@.len(),
            forall|k: int| 0 <= k < i ==> a@[k] == b@[k],
        decreases a@.len() - i,
    {
        if a[i] != b[i] {
            return false;
        }
        i += 1;
    }
    assert(a@ =~= b@);
    true
}

/// The raw value of the first readable attribute with the given key.
fn find_attr(attrs: &Vec<Option<(Vec<u8>, Vec<u8>)>>, key: &[u8]) -> (r: Option<Vec<u8>>)
    ensures
        match r {
            Some(v) => first_attr(attrs_view(attrs@), key@) == Some(v@),
            None => first_attr(attrs_view(attrs@), key@).is_none(),
        },
{
    let mut i: usize = 0;
    assert(attrs_view(attrs@).subrange(0, attrs@.len() as int) == attrs_view(attrs@));
    while i < attrs.len()
        invariant
            i <= attrs@.len(),
            first_attr(attrs_view(attrs@), key@) == first_attr(attrs_view(attrs@).subrange(i as int, attrs@.len() as int), key@),
        decreases attrs@.len() - i,
    {
        let ghost rest = attrs_view(attrs@).subrange(i as int, attrs@.len() as int);
        assert(rest[0] == attr_view(attrs@[i as int]));
        assert(rest.drop_first() == attrs_view(attrs@).subrange(i + 1, attrs@.len() as int));
        match &attrs[i] {
            Some(kv) => {
                if bytes_eq(kv.0.as_slice(), key) {
                    let v = kv.1.clone();
                    assert(v@ == kv.1@);
                    return Some(v);
                }
            },
            None => {},
        }
        i += 1;
    }
    let ghost rest = attrs_view(attrs@).subrange(attrs@.len() as int, attrs@.len() as int);
    assert(rest.len() == 0);
    None
}

/// The text of an attribute: absent when missing or not valid UTF-8.
fn attr_string(attrs: &Vec<Option<(Vec<u8>, Vec<u8>)>>, key: &str) -> (r: Option<String>)
    ensures
        opt_view(r) == attr_text(attrs_view(attrs@), key@),
{
    match find_attr(attrs, key.as_bytes()) {
        Some(v) => match string_from_utf8(v) {
            Ok(s) => Some(s),
            Err(_) => None,
        },
        None => None,
    }
}

/// The text of an attribute, or a default.
fn attr_string_or(attrs: &Vec<Option<(Vec<u8>, Vec<u8>)>>, key: &str, dflt: &str) -> (r: String)
    ensures
        r@ == attr_or(attrs_view(attrs@), key@, dflt@),
{
    match attr_string(attrs, key) {
        Some(s) => s,
        None => dflt.to_owned(),
    }
}

/// A tag's local name.
fn local_name(qname: &Vec<u8>) -> (r: String)
    ensures
        r@ == spec_local_name(qname@),
{
    let text = match string_from_utf8(qname.clone()) {
        Ok(s) => s,
        Err(_) => String::new(),
    };
    let cs = chars_of(text.as_str());
    let mut start: usize = cs.len();
    assert(cs@.subrange(0, cs@.len() as int) == cs@);
    assert(cs@ + cs@.subrange(cs@.len() as int, cs@.len() as int) == cs@);
    while start > 0 && cs[start - 1] != ':'
        invariant
            start <= cs@.len(),
            after_last_colon(cs@) == after_last_colon(cs@.subrange(0, start as int)) + cs@.subrange(start as int, cs@.len() as int),
        decreases start,
    {
        proof {
            let pre = cs@.subrange(0, start as int);
            assert(pre.drop_last() == cs@.subrange(0, start - 1));
            assert(cs@.subrange(start - 1, cs@.len() as int) == seq![pre.last()] + cs@.subrange(start as int, cs@.len() as int));
        }
        start -= 1;
    }
    proof {
        let pre = cs@.subrange(0, start as int);
        assert(after_last_colon(pre) == Seq::<char>::empty());
        assert(cs@.subrange(0, cs@.len() as int) == cs@);
    }
    crate::text::string_from_range(cs.as_slice(), start, cs.len())
}

/// The lines of a text split at every occurrence of `sep`.
pub fn split_lines(s: &[char], sep: char) -> (r: Vec<String>)
    ensures
        r@.map_values(|l: String| l@) == split_on(s@, sep),
{
    let mut out: Vec<String> = Vec::new();
    let mut start: usize = 0;
    let mut i: usize = 0;
    while i < s.len()
        invariant
            start <= i <= s@.len(),
            ({
                let sp = split_on(s@.subrange(0, i as int), sep);
                &&& sp.len() >= 1
                &&& sp.last() == s@.subrange(start as int, i as int)
                &&& out@.map_values(|l: String| l@) == sp.drop_last()
            }),
        decreases s@.len() - i,
    {
        proof {
            super::xmltext::lemma_split_nonempty(s@.subrange(0, i as int), sep);
            assert(s@.subrange(0, i + 1).drop_last() == s@.subrange(0, i as int));
        }
        if s[i] == sep {
            let piece = crate::text::string_from_range(s, start, i);
            let ghost before = out@.map_values(|l: String| l@);
            out.push(piece);
            proof {
                let sp0 = split_on(s@.subrange(0, i as int), sep);
                let sp1 = split_on(s@.subrange(0, i + 1), sep);
                assert(sp1 == sp0.push(Seq::empty()));
                assert(sp0.drop_last().push(sp0.last()) == sp0);
                assert(out@.map_values(|l: String| l@) =~= before.push(piece@));
            }
            start = i + 1;
        } else {
            proof {
                let sp0 = split_on(s@.subrange(0, i as int), sep);
                let sp1 = split_on(s@.subrange(0, i + 1), sep);
                assert(sp1.drop_last() =~= sp0.drop_last());
                assert(sp1.last() =~= s@.subrange(start as int, i + 1));
            }
        }
        i += 1;
    }
    let piece = crate::text::string_from_range(s, start, s.len());
    let ghost before = out@.map_values(|l: String| l@);
    out.push(piece);
    proof {
        let sp = split_on(s@.subrange(0, s@.len() as int), sep);
        assert(s@.subrange(0, s@.len() as int) == s@);
        assert(sp.drop_last().push(sp.last()) == sp);
        assert(out@.map_values(|l: String| l@) =~= before.push(piece@));
    }
    out
}

/// The lines stored in a `bodyHex` attribute.
fn body_of(h: Option<String>) -> (r: Result<Vec<String>, String>)
    ensures
        match (r, spec_body_of(opt_view(h))) {
            (Ok(v), Ok(w)) => v@.map_values(|l: String| l@) == w,
            (Err(e), Err(f)) => e@ == f,
            _ => false,
        },
{
    match h {
        None => {
            let v: Vec<String> = Vec::new();
            assert(v@.map_values(|l: String| l@) =~= Seq::<Seq<char>>::empty());
            Ok(v)
        },
        Some(h) => {
            let hc = chars_of(h.as_str());
            let (a, b) = trim_bounds(hc.as_slice());
            if a == b {
                let v: Vec<String> = Vec::new();
                assert(v@.map_values(|l: String| l@) =~= Seq::<Seq<char>>::empty());
                return Ok(v);
            }
            let bytes = match hex_decode(h.as_str()) {
                Ok(b) => b,
                Err(e) => {
                    return Err(e);
                },
            };
            let ghost bv = bytes@;
            match string_from_utf8(bytes) {
                Err(e) => {
                    let mut m = String::new();
                    m.push_str("rustFunction bodyHex is not valid UTF-8: ");
                    m.push_str(e.as_str());
                    Err(m)
                },
                Ok(s) => {
                    let cs = chars_of(s.as_str());
                    if cs.len() == 0 {
                        let v: Vec<String> = Vec::new();
                        assert(v@.map_values(|l: String| l@) =~= Seq::<Seq<char>>::empty());
                        Ok(v)
                    } else {
                        Ok(split_lines(cs.as_slice(), '\n'))
                    }
                },
            }
        },
    }
}

/// Adds a node to the process, if a process has been opened.
fn add_node(st: Option<BpmnProcess>, n: BpmnNode) -> (r: Option<BpmnProcess>)
    ensures
        opt_proc_view(r) == with_node(opt_proc_view(st), n@),
{
    match st {
        Some(mut p) => {
            let ghost old_nodes = p.nodes@;
            p.nodes.push(n);
            assert(p.nodes@.map_values(|x: BpmnNode| x@) =~= old_nodes.map_values(|x: BpmnNode| x@).push(n@));
            Some(p)
        },
        None => None,
    }
}

fn sigs_from_pairs(pairs: Vec<(String, String)>) -> (r: (Vec<RustFieldSig>, Vec<RustParamSig>))
    ensures
        r.0@.map_values(|f: RustFieldSig| f@) == sigs_of(pairs_view(pairs@)),
        r.1@.map_values(|f: RustParamSig| f@) == sigs_of(pairs_view(pairs@)),
{
    let mut fs: Vec<RustFieldSig> = Vec::new();
    let mut ps: Vec<RustParamSig> = Vec::new();
    let mut i: usize = 0;
    while i < pairs.len()
        invariant
            i <= pairs@.len(),
            fs@.len() == i,
            ps@.len() == i,
            forall|k: int| 0 <= k < i ==> (#[trigger] fs@[k]).name@ == pairs@[k].0@ && fs@[k].ty@ == pairs@[k].1@,
            forall|k: int| 0 <= k < i ==> (#[trigger] ps@[k]).name@ == pairs@[k].0@ && ps@[k].ty@ == pairs@[k].1@,
        decreases pairs@.len() - i,
    {
        fs.push(RustFieldSig { name: pairs[i].0.clone(), ty: pairs[i].1.clone() });
        ps.push(RustParamSig { name: pairs[i].0.clone(), ty: pairs[i].1.clone() });
        i += 1;
    }
    assert(fs@.map_values(|f: RustFieldSig| f@) =~= sigs_of(pairs_view(pairs@)));
    assert(ps@.map_values(|f: RustParamSig| f@) =~= sigs_of(pairs_view(pairs@)));
    (fs, ps)
}

/// The effect of one element on the process being read.
pub fn element_step(
    st: Option<BpmnProcess>,
    name: &Vec<u8>,
    attrs: &Vec<Option<(Vec<u8>, Vec<u8>)>>,
) -> (r: Result<Option<BpmnProcess>, String>)
    ensures
        match (r, spec_element_step(opt_proc_view(st), name@, attrs_view(attrs@))) {
            (Ok(a), Ok(b)) => opt_proc_view(a) == b,
            (Err(e), Err(f)) => e@ == f,
            _ => false,
        },
{
    let tag = local_name(name);
    let t = tag.as_str();
    let id = attr_string(attrs, "id");
    let nm = attr_string(attrs, "name");
    if str_eq(t, "process") {
        let pid = attr_string_or(attrs, "id", "process");
        let p = BpmnProcess { id: pid, name: nm, nodes: Vec::new(), flows: Vec::new() };
        assert(p.nodes@.map_values(|x: BpmnNode| x@) =~= Seq::<BpmnNodeV>::empty());
        assert(p.flows@.map_values(|x: BpmnSequenceFlow| x@) =~= Seq::<FlowV>::empty());
        return Ok(Some(p));
    }
    if st.is_none() {
        return Ok(st);
    }
    if str_eq(t, "startEvent") {
        let i = attr_string_or(attrs, "id", "StartEvent_1");
        Ok(add_node(st, BpmnNode::StartEvent { id: i, name: nm }))
    } else if str_eq(t, "endEvent") {
        let i = attr_string_or(attrs, "id", "EndEvent_1");
        Ok(add_node(st, BpmnNode::EndEvent { id: i, name: nm }))
    } else if str_eq(t, "task") {
        let i = attr_string_or(attrs, "id", "Task_1");
        Ok(add_node(st, BpmnNode::Task { id: i, name: nm }))
    } else if str_eq(t, "serviceTask") {
        let i = attr_string_or(attrs, "id", "ServiceTask_1");
        Ok(add_node(st, BpmnNode::ServiceTask { id: i, name: nm }))
    } else if str_eq(t, "exclusiveGateway") {
        let i = attr_string_or(attrs, "id", "ExclusiveGateway_1");
        Ok(add_node(st, BpmnNode::ExclusiveGateway { id: i, name: nm }))
    } else if str_eq(t, "parallelGateway") {
        let i = attr_string_or(attrs, "id", "ParallelGateway_1");
        Ok(add_node(st, BpmnNode::ParallelGateway { id: i, name: nm }))
    } else if str_eq(t, "sequenceFlow") {
        let fid = attr_string_or(attrs, "id", "Flow_1");
        let src = match attr_string(attrs, "sourceRef") {
            Some(s) => s,
            None => {
                let mut m = String::new();
                m.push_str("sequenceFlow ");
                m.push_str(fid.as_str());
                m.push_str(" missing ");
                m.push_str("sourceRef");
                return Err(m);
            },
        };
        let tgt = match attr_string(attrs, "targetRef") {
            Some(s) => s,
            None => {
                let mut m = String::new();
                m.push_str("sequenceFlow ");
                m.push_str(fid.as_str());
                m.push_str(" missing ");
                m.push_str("targetRef");
                return Err(m);
            },
        };
        match st {
            Some(mut p) => {
                let ghost old_flows = p.flows@;
                let f = BpmnSequenceFlow { id: fid, source_ref: src, target_ref: tgt, name: nm };
                p.flows.push(f);
                assert(p.flows@.map_values(|x: BpmnSequenceFlow| x@) =~= old_flows.map_values(|x: BpmnSequenceFlow| x@).push(f@));
                Ok(Some(p))
            },
            None => Ok(None),
        }
    } else if str_eq(t, "rustType") {
        let i = attr_string_or(attrs, "id", "RustType_1");
        let n = attr_string_or(attrs, "name", "Type");
        let k = attr_string_or(attrs, "kind", "struct");
        let raw = attr_string_or(attrs, "fields", "");
        let pairs = kv_list_decode(raw.as_str());
        let (fields, _) = sigs_from_pairs(pairs);
        Ok(add_node(st, BpmnNode::RustType { id: i, name: n, kind: k, fields }))
    } else if str_eq(t, "rustFunction") {
        let i = attr_string_or(attrs, "id", "RustFunction_1");
        let n = attr_string_or(attrs, "name", "function");
        let raw = attr_string_or(attrs, "params", "");
        let pairs = kv_list_decode(raw.as_str());
        let (_, params) = sigs_from_pairs(pairs);
        let rt = attr_string(attrs, "returnType");
        let body = match body_of(attr_string(attrs, "bodyHex")) {
            Ok(b) => b,
            Err(e) => {
                return Err(e);
            },
        };
        Ok(add_node(st, BpmnNode::RustFunction { id: i, name: n, params, return_type: rt, body }))
    } else if id.is_some() || nm.is_some() {
        Ok(add_node(st, BpmnNode::Unknown { tag, id, name: nm }))
    } else {
        Ok(st)
    }
}

/// Turns a stream of XML events into a process: the last `process`
/// element opened gives the process; the nodes and flows after it are
/// collected in order; the stream stops at `Eof`, at an error, or at its end.
pub fn process_from_events(events: &Vec<XmlEvent>) -> (r: Result<BpmnProcess, String>)
    ensures
        parse_result_view(r) == spec_events_to_process(events@.map_values(|e: XmlEvent| e@), None),
{
    let ghost all = events@.map_values(|e: XmlEvent| e@);
    let mut st: Option<BpmnProcess> = None;
    let mut i: usize = 0;
    assert(all.subrange(0, all.len() as int) == all);
    while i < events.len()
        invariant
            i <= events@.len(),
            all == events@.map_values(|e: XmlEvent| e@),
            spec_events_to_process(all, None) == spec_events_to_process(all.subrange(i as int, all.len() as int), opt_proc_view(st)),
        decreases events@.len() - i,
    {
        let ghost rest = all.subrange(i as int, all.len() as int);
        assert(rest[0] == events@[i as int]@);
        assert(rest.drop_first() == all.subrange(i + 1, all.len() as int));
        match &events[i] {
            XmlEvent::Eof => {
                return finish(st);
            },
            XmlEvent::Error(m) => {
                let mut e = String::new();
                e.push_str("BPMN XML parse error: ");
                e.push_str(m.as_str());
                return Err(e);
            },
            XmlEvent::Element { name, attrs } => {
                match element_step(st, name, attrs) {
                    Ok(s2) => {
                        st = s2;
                    },
                    Err(e) => {
                        return Err(e);
                    },
                }
            },
            XmlEvent::Other => {},
        }
        i += 1;
    }
    finish(st)
}

/// The outcome once the stream ends: the process read, if any.
fn finish(st: Option<BpmnProcess>) -> (r: Result<BpmnProcess, String>)
    ensures
        parse_result_view(r) == spec_events_to_process(Seq::empty(), opt_proc_view(st)),
{
    match st {
        Some(p) => Ok(p),
        None => {
            let mut e = String::new();
            e.push_str("No <process> found in BPMN XML");
            Err(e)
        },
    }
}

/// Parses BPMN XML: the document is tokenised by `quick_xml` and the
/// events are read by [`process_from_events`].
pub fn parse_bpmn_xml(xml: &str) -> (r: Result<BpmnProcess, String>)
    ensures
        parse_result_view(r) == spec_events_to_process(xml_events(xml@), None),
{
    let events = read_xml_events(xml);
    process_from_events(&events)
}

} // verus!
