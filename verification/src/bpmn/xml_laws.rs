//! What the reader makes of the elements that the writer emits.
//!
//! The document that [`super::emit::emit_bpmn_xml`] writes is, element by
//! element, a declaration, the `definitions` and `process` start tags, one
//! empty element per node and per flow, and two end tags.
//! [`document_events`] lists those elements with the attribute bytes as
//! written; [`lemma_document_reads_back`] shows that the reader of
//! [`super::parse`] turns them into the process that was written, and
//! [`lemma_module_document_round_trip`] carries that back to modules.

use vstd::prelude::*;
use vstd::utf8::{decode_utf8, encode_utf8, encode_utf8_decode_utf8, encode_utf8_valid_utf8};
use super::emit::{body_hex, sig_pairs, spec_join};
use super::model::{BpmnNodeV, BpmnProcessV, FlowV, SigV};
use super::laws::{canonical_opt_type, canonical_type, kv_safe_name, kv_safe_pair, kv_safe_type, lemma_hex_round_trip, lemma_kv_round_trip, lemma_module_process_round_trip, round_trips};
use super::from_module::{chain_flow, end_node, field_sig, fn_base, fn_node, node_bases, param_sig, spec_module_to_process, spec_sanitize_fragment, spec_type_name, start_node, type_base, type_node, unique_ids};
use super::to_module::spec_process_to_module;
use crate::ast::{FieldV, ModuleV, ParamV, TypeRefV};
use crate::text::spec_decimal;
use super::parse::{after_last_colon, attr_text, sigs_of, spec_body_of, spec_element_step, spec_events_to_process, spec_local_name, with_node, XmlEventV};
use super::xmltext::{hex_digit, kv_entry, lacks, lemma_escape_plain, lemma_split_append, lemma_split_single, spec_hex_encode, spec_kv_decode, spec_kv_encode, spec_xml_escape, split_on, xml_plain, xml_plain_char};
use crate::text::trim;

verus! {

/// An attribute as it stands in the document: its key and its escaped
/// value, as UTF-8 bytes.
pub open spec fn written(key: Seq<char>, v: Seq<char>) -> Option<(Seq<u8>, Seq<u8>)> {
    Some((encode_utf8(key), encode_utf8(spec_xml_escape(v))))
}

/// An attribute put before others.
pub open spec fn with_attr(
    key: Seq<char>,
    v: Seq<char>,
    rest: Seq<Option<(Seq<u8>, Seq<u8>)>>,
) -> Seq<Option<(Seq<u8>, Seq<u8>)>> {
    seq![written(key, v)] + rest
}

/// An attribute put before others when the value is present.
pub open spec fn with_opt_attr(
    key: Seq<char>,
    v: Option<Seq<char>>,
    rest: Seq<Option<(Seq<u8>, Seq<u8>)>>,
) -> Seq<Option<(Seq<u8>, Seq<u8>)>> {
    match v {
        Some(v) => with_attr(key, v, rest),
        None => rest,
    }
}

/// No attributes.
pub open spec fn no_attrs() -> Seq<Option<(Seq<u8>, Seq<u8>)>> {
    Seq::empty()
}

/// A start or empty-element tag with the given name and attributes.
pub open spec fn element(tag: Seq<char>, attrs: Seq<Option<(Seq<u8>, Seq<u8>)>>) -> XmlEventV {
    XmlEventV::Element { name: encode_utf8(tag), attrs }
}

/// An event, task or gateway: its id and, when present, its name.
pub open spec fn simple_element(tag: Seq<char>, id: Seq<char>, name: Option<Seq<char>>) -> XmlEventV {
    element(tag, with_attr("id"@, id, with_opt_attr("name"@, name, no_attrs())))
}

/// The `name:ty;...` list of signatures, written only when there are any.
pub open spec fn sigs_text(s: Seq<SigV>) -> Option<Seq<char>> {
    if s.len() == 0 {
        None
    } else {
        Some(spec_kv_encode(sig_pairs(s)))
    }
}

/// The hexadecimal body, written only when there are lines.
pub open spec fn body_text(body: Seq<Seq<char>>) -> Option<Seq<char>> {
    if body.len() == 0 {
        None
    } else {
        Some(body_hex(body))
    }
}

/// The element written for one node.
pub open spec fn node_element(n: BpmnNodeV) -> XmlEventV {
    match n {
        BpmnNodeV::StartEvent { id, name } => simple_element("startEvent"@, id, name),
        BpmnNodeV::EndEvent { id, name } => simple_element("endEvent"@, id, name),
        BpmnNodeV::Task { id, name } => simple_element("task"@, id, name),
        BpmnNodeV::ServiceTask { id, name } => simple_element("serviceTask"@, id, name),
        BpmnNodeV::ExclusiveGateway { id, name } => simple_element("exclusiveGateway"@, id, name),
        BpmnNodeV::ParallelGateway { id, name } => simple_element("parallelGateway"@, id, name),
        BpmnNodeV::RustType { id, name, kind, fields } => element(
            "rustType"@,
            with_attr("id"@, id, with_attr("name"@, name, with_attr("kind"@, kind,
                with_opt_attr("fields"@, sigs_text(fields), no_attrs())))),
        ),
        BpmnNodeV::RustFunction { id, name, params, return_type, body } => element(
            "rustFunction"@,
            with_attr("id"@, id, with_attr("name"@, name,
                with_opt_attr("params"@, sigs_text(params),
                with_opt_attr("returnType"@, return_type,
                with_opt_attr("bodyHex"@, body_text(body), no_attrs()))))),
        ),
        BpmnNodeV::RustSource { id, path, content_hex } => element(
            "rustSource"@,
            with_attr("id"@, id, with_opt_attr("path"@, path,
                with_attr("contentHex"@, content_hex, no_attrs()))),
        ),
        BpmnNodeV::RustLine { id, path, line, eol, text, text_hex } => element(
            "rustLine"@,
            with_attr("id"@, id, with_opt_attr("path"@, path,
                with_attr("line"@, spec_decimal(line as nat),
                with_attr("eol"@, eol, with_attr("text"@, text,
                with_attr("textHex"@, text_hex, no_attrs())))))),
        ),
        BpmnNodeV::Unknown { tag, id, name } => XmlEventV::Element {
            name: encode_utf8(spec_xml_escape(tag)),
            attrs: with_opt_attr("id"@, id, with_opt_attr("name"@, name, no_attrs())),
        },
    }
}

/// The element written for one sequence flow.
pub open spec fn flow_element(f: FlowV) -> XmlEventV {
    element(
        "sequenceFlow"@,
        with_attr("id"@, f.id, with_attr("sourceRef"@, f.source_ref,
            with_attr("targetRef"@, f.target_ref, with_opt_attr("name"@, f.name, no_attrs())))),
    )
}

/// The namespace of BPMN models.
pub open spec fn bpmn_namespace() -> Seq<char> {
    "http://www.omg.org/spec/BPMN/20100524/MODEL"@
}

/// The `definitions` start tag.
pub open spec fn definitions_element() -> XmlEventV {
    element(
        "definitions"@,
        with_attr("xmlns"@, bpmn_namespace(), with_attr("xmlns:bpmn"@, bpmn_namespace(),
            with_attr("id"@, "Definitions_1"@, no_attrs()))),
    )
}

/// The `process` start tag.
pub open spec fn process_element(p: BpmnProcessV) -> XmlEventV {
    element("process"@, with_attr("id"@, p.id, with_opt_attr("name"@, p.name, no_attrs())))
}

/// The elements of the document written for `p`, in order, as a tokeniser
/// that drops white space between tags yields them: the declaration, the
/// `definitions` and `process` start tags, one empty element per node and
/// per flow, the two end tags, and the end of input.
pub open spec fn document_events(p: BpmnProcessV) -> Seq<XmlEventV> {
    seq![XmlEventV::Other, definitions_element(), process_element(p)]
        + p.nodes.map_values(|n: BpmnNodeV| node_element(n))
        + p.flows.map_values(|f: FlowV| flow_element(f))
        + seq![XmlEventV::Other, XmlEventV::Other, XmlEventV::Eof]
}

/// UTF-8 encoding tells different texts apart.
pub proof fn lemma_encode_injective(a: Seq<char>, b: Seq<char>)
    requires
        a != b,
    ensures
        encode_utf8(a) != encode_utf8(b),
{
    broadcast use encode_utf8_decode_utf8;

    assert(decode_utf8(encode_utf8(a)) == a);
    assert(decode_utf8(encode_utf8(b)) == b);
}

/// Text without `:` is its own local name.
pub proof fn lemma_after_last_colon(t: Seq<char>)
    requires
        lacks(t, ':'),
    ensures
        after_last_colon(t) == t,
    decreases t.len(),
{
    if t.len() > 0 {
        let u = t.drop_last();
        assert(lacks(u, ':')) by {
            assert forall|i: int| 0 <= i < u.len() implies #[trigger] u[i] != ':' by {
                assert(u[i] == t[i]);
            }
        }
        lemma_after_last_colon(u);
        assert(t[t.len() - 1] != ':');
        assert(u.push(t.last()) =~= t);
    }
}

/// The local name of a tag written without `:` is the tag.
pub proof fn lemma_local_name(t: Seq<char>)
    requires
        lacks(t, ':'),
    ensures
        spec_local_name(encode_utf8(t)) == t,
{
    broadcast use encode_utf8_decode_utf8, encode_utf8_valid_utf8;

    lemma_after_last_colon(t);
}

/// Reading a key from attributes that start with a written one.
pub proof fn lemma_text_with_attr(
    key: Seq<char>,
    v: Seq<char>,
    rest: Seq<Option<(Seq<u8>, Seq<u8>)>>,
    k: Seq<char>,
)
    ensures
        attr_text(with_attr(key, v, rest), k) == if key == k {
            Some(spec_xml_escape(v))
        } else {
            attr_text(rest, k)
        },
{
    broadcast use encode_utf8_decode_utf8, encode_utf8_valid_utf8;

    let a = with_attr(key, v, rest);
    assert(a[0] == written(key, v));
    assert(a.drop_first() =~= rest);
    if key != k {
        lemma_encode_injective(key, k);
    }
}

/// Reading a key from attributes that start with a plain written one.
pub proof fn lemma_plain_with_attr(
    key: Seq<char>,
    v: Seq<char>,
    rest: Seq<Option<(Seq<u8>, Seq<u8>)>>,
    k: Seq<char>,
)
    requires
        xml_plain(v),
    ensures
        attr_text(with_attr(key, v, rest), k) == if key == k {
            Some(v)
        } else {
            attr_text(rest, k)
        },
{
    lemma_text_with_attr(key, v, rest, k);
    lemma_escape_plain(v);
}

/// Optional text that escaping leaves unchanged.
pub open spec fn plain_opt(v: Option<Seq<char>>) -> bool {
    match v {
        Some(s) => xml_plain(s),
        None => true,
    }
}

/// Reading a key from attributes that start with an optional plain one.
pub proof fn lemma_plain_with_opt_attr(
    key: Seq<char>,
    v: Option<Seq<char>>,
    rest: Seq<Option<(Seq<u8>, Seq<u8>)>>,
    k: Seq<char>,
)
    requires
        plain_opt(v),
    ensures
        attr_text(with_opt_attr(key, v, rest), k) == if key == k && v is Some {
            v
        } else {
            attr_text(rest, k)
        },
{
    if let Some(x) = v {
        lemma_plain_with_attr(key, x, rest, k);
    }
}

/// The tags that the reader knows.
pub open spec fn known_tag(t: Seq<char>) -> bool {
    ||| t == "process"@
    ||| t == "startEvent"@
    ||| t == "endEvent"@
    ||| t == "task"@
    ||| t == "serviceTask"@
    ||| t == "exclusiveGateway"@
    ||| t == "parallelGateway"@
    ||| t == "sequenceFlow"@
    ||| t == "rustType"@
    ||| t == "rustFunction"@
}

/// Signatures that the `name:ty;...` form gives back and that escaping
/// leaves unchanged.
pub open spec fn sigs_readable(s: Seq<SigV>) -> bool {
    forall|i: int|
        0 <= i < s.len() ==> {
            &&& kv_safe_name(#[trigger] s[i].name)
            &&& kv_safe_type(s[i].ty)
            &&& xml_plain(s[i].name)
            &&& xml_plain(s[i].ty)
        }
}

/// Body lines that the hexadecimal form gives back: none holds a line
/// break, and the body is not one empty line.
pub open spec fn body_readable(body: Seq<Seq<char>>) -> bool {
    &&& forall|i: int| 0 <= i < body.len() ==> lacks(#[trigger] body[i], '\n')
    &&& !(body.len() == 1 && body[0].len() == 0)
}

/// A node whose element the reader turns back into it.
pub open spec fn node_readable(n: BpmnNodeV) -> bool {
    match n {
        BpmnNodeV::StartEvent { id, name } => xml_plain(id) && plain_opt(name),
        BpmnNodeV::EndEvent { id, name } => xml_plain(id) && plain_opt(name),
        BpmnNodeV::Task { id, name } => xml_plain(id) && plain_opt(name),
        BpmnNodeV::ServiceTask { id, name } => xml_plain(id) && plain_opt(name),
        BpmnNodeV::ExclusiveGateway { id, name } => xml_plain(id) && plain_opt(name),
        BpmnNodeV::ParallelGateway { id, name } => xml_plain(id) && plain_opt(name),
        BpmnNodeV::RustType { id, name, kind, fields } => {
            &&& xml_plain(id)
            &&& xml_plain(name)
            &&& xml_plain(kind)
            &&& sigs_readable(fields)
        },
        BpmnNodeV::RustFunction { id, name, params, return_type, body } => {
            &&& xml_plain(id)
            &&& xml_plain(name)
            &&& sigs_readable(params)
            &&& plain_opt(return_type)
            &&& body_readable(body)
        },
        BpmnNodeV::RustSource { .. } => false,
        BpmnNodeV::RustLine { .. } => false,
        BpmnNodeV::Unknown { tag, id, name } => {
            &&& xml_plain(tag)
            &&& lacks(tag, ':')
            &&& !known_tag(tag)
            &&& plain_opt(id)
            &&& plain_opt(name)
            &&& (id is Some || name is Some)
        },
    }
}

/// What tells the known tags apart, and that none holds `:`.
proof fn lemma_reveal_tags()
    ensures
        lacks("process"@, ':'),
        lacks("startEvent"@, ':'),
        lacks("endEvent"@, ':'),
        lacks("task"@, ':'),
        lacks("serviceTask"@, ':'),
        lacks("exclusiveGateway"@, ':'),
        lacks("parallelGateway"@, ':'),
        lacks("sequenceFlow"@, ':'),
        lacks("rustType"@, ':'),
        lacks("rustFunction"@, ':'),
        "process"@.len() == 7,
        "startEvent"@.len() == 10,
        "endEvent"@.len() == 8,
        "task"@.len() == 4,
        "serviceTask"@.len() == 11,
        "exclusiveGateway"@.len() == 16,
        "parallelGateway"@.len() == 15,
        "sequenceFlow"@.len() == 12,
        "rustType"@.len() == 8,
        "rustFunction"@.len() == 12,
        "endEvent"@ != "rustType"@,
        "sequenceFlow"@ != "rustFunction"@,
{
    reveal_strlit("process");
    reveal_strlit("startEvent");
    reveal_strlit("endEvent");
    reveal_strlit("task");
    reveal_strlit("serviceTask");
    reveal_strlit("exclusiveGateway");
    reveal_strlit("parallelGateway");
    reveal_strlit("sequenceFlow");
    reveal_strlit("rustType");
    reveal_strlit("rustFunction");
    assert("endEvent"@[0] != "rustType"@[0]);
    assert("sequenceFlow"@[0] != "rustFunction"@[0]);
}

/// The id and the name read from the attributes of an event, task or gateway.
proof fn lemma_simple_attrs(id: Seq<char>, name: Option<Seq<char>>)
    requires
        xml_plain(id),
        plain_opt(name),
    ensures
        attr_text(with_attr("id"@, id, with_opt_attr("name"@, name, no_attrs())), "id"@) == Some(id),
        attr_text(with_attr("id"@, id, with_opt_attr("name"@, name, no_attrs())), "name"@) == name,
{
    reveal_strlit("id");
    reveal_strlit("name");
    lemma_plain_with_attr("id"@, id, with_opt_attr("name"@, name, no_attrs()), "id"@);
    lemma_plain_with_attr("id"@, id, with_opt_attr("name"@, name, no_attrs()), "name"@);
    lemma_plain_with_opt_attr("name"@, name, no_attrs(), "name"@);
}

/// A simple node's element adds it to the process.
proof fn lemma_simple_step(q: BpmnProcessV, n: BpmnNodeV)
    requires
        node_readable(n),
        n is StartEvent || n is EndEvent || n is Task || n is ServiceTask || n is ExclusiveGateway
            || n is ParallelGateway,
    ensures
        spec_element_step(Some(q), node_element(n)->name, node_element(n)->attrs)
            == Ok::<Option<BpmnProcessV>, Seq<char>>(with_node(Some(q), n)),
{
    lemma_reveal_tags();
    match n {
        BpmnNodeV::StartEvent { id, name } => {
            lemma_local_name("startEvent"@);
            lemma_simple_attrs(id, name);
        },
        BpmnNodeV::EndEvent { id, name } => {
            lemma_local_name("endEvent"@);
            lemma_simple_attrs(id, name);
        },
        BpmnNodeV::Task { id, name } => {
            lemma_local_name("task"@);
            lemma_simple_attrs(id, name);
        },
        BpmnNodeV::ServiceTask { id, name } => {
            lemma_local_name("serviceTask"@);
            lemma_simple_attrs(id, name);
        },
        BpmnNodeV::ExclusiveGateway { id, name } => {
            lemma_local_name("exclusiveGateway"@);
            lemma_simple_attrs(id, name);
        },
        BpmnNodeV::ParallelGateway { id, name } => {
            lemma_local_name("parallelGateway"@);
            lemma_simple_attrs(id, name);
        },
        _ => {},
    }
}

/// What tells the attribute keys apart.
proof fn lemma_reveal_keys()
    ensures
        "id"@.len() == 2,
        "name"@.len() == 4,
        "kind"@.len() == 4,
        "fields"@.len() == 6,
        "params"@.len() == 6,
        "returnType"@.len() == 10,
        "bodyHex"@.len() == 7,
        "sourceRef"@.len() == 9,
        "targetRef"@.len() == 9,
        "name"@ != "kind"@,
        "fields"@ != "params"@,
        "sourceRef"@ != "targetRef"@,
{
    reveal_strlit("id");
    reveal_strlit("name");
    reveal_strlit("kind");
    reveal_strlit("fields");
    reveal_strlit("params");
    reveal_strlit("returnType");
    reveal_strlit("bodyHex");
    reveal_strlit("sourceRef");
    reveal_strlit("targetRef");
    assert("name"@[0] != "kind"@[0]);
    assert("fields"@[0] != "params"@[0]);
    assert("sourceRef"@[0] != "targetRef"@[0]);
}

/// Plain text followed by plain text is plain.
proof fn lemma_plain_concat(a: Seq<char>, b: Seq<char>)
    requires
        xml_plain(a),
        xml_plain(b),
    ensures
        xml_plain(a + b),
{
    assert forall|i: int| 0 <= i < (a + b).len() implies xml_plain_char(#[trigger] (a + b)[i]) by {
        if i < a.len() {
            assert((a + b)[i] == a[i]);
        } else {
            assert((a + b)[i] == b[i - a.len()]);
        }
    }
}

/// The `name:ty;...` form of plain pairs is plain.
proof fn lemma_kv_plain(items: Seq<(Seq<char>, Seq<char>)>)
    requires
        forall|i: int| 0 <= i < items.len() ==> xml_plain(#[trigger] items[i].0) && xml_plain(items[i].1),
    ensures
        xml_plain(spec_kv_encode(items)),
    decreases items.len(),
{
    if items.len() > 0 {
        let last = items.last();
        assert(xml_plain(items[items.len() - 1].0));
        lemma_plain_concat(last.0, seq![':']);
        lemma_plain_concat(last.0 + seq![':'], last.1);
        assert(xml_plain(kv_entry(last)));
        if items.len() > 1 {
            let init = items.drop_last();
            assert forall|i: int| 0 <= i < init.len() implies xml_plain(#[trigger] init[i].0) && xml_plain(init[i].1) by {
                assert(init[i] == items[i]);
                assert(xml_plain(items[i].0));
            }
            lemma_kv_plain(init);
            lemma_plain_concat(spec_kv_encode(init), seq![';']);
            lemma_plain_concat(spec_kv_encode(init) + seq![';'], kv_entry(last));
        } else {
            assert(items[0] == last);
        }
    }
}

/// The signatures written for readable ones read back as themselves, and
/// their form is plain.
proof fn lemma_sigs_read_back(s: Seq<SigV>)
    requires
        sigs_readable(s),
    ensures
        s.len() > 0 ==> xml_plain(spec_kv_encode(sig_pairs(s))),
        sigs_of(spec_kv_decode(match sigs_text(s) {
            Some(t) => t,
            None => ""@,
        })) == s,
{
    let items = sig_pairs(s);
    assert forall|i: int| 0 <= i < items.len() implies #[trigger] kv_safe_pair(items[i]) by {
        assert(items[i] == (s[i].name, s[i].ty));
        assert(kv_safe_name(s[i].name));
    }
    assert forall|i: int| 0 <= i < items.len() implies xml_plain(#[trigger] items[i].0) && xml_plain(items[i].1) by {
        assert(items[i] == (s[i].name, s[i].ty));
        assert(kv_safe_name(s[i].name));
    }
    lemma_kv_round_trip(items);
    lemma_kv_plain(items);
    if s.len() == 0 {
        reveal_strlit("");
        assert(trim(""@) =~= Seq::<char>::empty());
        assert(sigs_of(spec_kv_decode(""@)) =~= s);
    } else {
        assert(sigs_of(items) =~= s);
    }
}

/// Hexadecimal digits are plain.
proof fn lemma_hex_plain(b: Seq<u8>)
    ensures
        xml_plain(spec_hex_encode(b)),
    decreases b.len(),
{
    if b.len() > 0 {
        lemma_hex_plain(b.drop_last());
        let x = b.last();
        assert(x >> 4 < 16 && x & 15 < 16) by (bit_vector);
        let d = seq![hex_digit(x >> 4), hex_digit(x & 15)];
        assert(xml_plain(d));
        lemma_plain_concat(spec_hex_encode(b.drop_last()), d);
    }
}

/// Splitting lines joined by line breaks gives the lines back.
proof fn lemma_split_join(lines: Seq<Seq<char>>)
    requires
        lines.len() > 0,
        forall|i: int| 0 <= i < lines.len() ==> lacks(#[trigger] lines[i], '\n'),
    ensures
        split_on(spec_join(lines, "\n"@), '\n') == lines,
    decreases lines.len(),
{
    if lines.len() == 1 {
        assert(lacks(lines[0], '\n'));
        lemma_split_single(lines[0], '\n');
        assert(lines =~= seq![lines[0]]);
    } else {
        let init = lines.drop_last();
        assert forall|i: int| 0 <= i < init.len() implies lacks(#[trigger] init[i], '\n') by {
            assert(init[i] == lines[i]);
        }
        lemma_split_join(init);
        reveal_strlit("\n");
        assert("\n"@ =~= seq!['\n']);
        assert(spec_join(lines, "\n"@) == spec_join(init, "\n"@) + seq!['\n'] + lines.last());
        assert(lacks(lines[lines.len() - 1], '\n'));
        lemma_split_append(spec_join(init, "\n"@), lines.last(), '\n');
        assert(init.push(lines.last()) =~= lines);
    }
}

/// The body written for readable lines reads back as those lines, and its
/// form is plain.
proof fn lemma_body_read_back(body: Seq<Seq<char>>)
    requires
        body_readable(body),
    ensures
        body.len() > 0 ==> xml_plain(body_hex(body)),
        spec_body_of(body_text(body)) == Ok::<Seq<Seq<char>>, Seq<char>>(body),
{
    broadcast use encode_utf8_decode_utf8, encode_utf8_valid_utf8;

    if body.len() == 0 {
        assert(body =~= Seq::<Seq<char>>::empty());
    } else {
        let joined = spec_join(body, "\n"@);
        let bytes = encode_utf8(joined);
        lemma_hex_plain(bytes);
        lemma_hex_round_trip(bytes);
        assert(joined.len() > 0) by {
            if body.len() > 1 {
                reveal_strlit("\n");
                assert(joined == spec_join(body.drop_last(), "\n"@) + "\n"@ + body.last());
            }
        }
        assert(bytes.len() > 0) by {
            if bytes.len() == 0 {
                assert(bytes =~= Seq::<u8>::empty());
                assert(decode_utf8(bytes) =~= Seq::<char>::empty());
            }
        }
        lemma_split_join(body);
    }
}

/// A `rustType` element adds its node to the process.
proof fn lemma_rust_type_step(q: BpmnProcessV, n: BpmnNodeV)
    requires
        node_readable(n),
        n is RustType,
    ensures
        spec_element_step(Some(q), node_element(n)->name, node_element(n)->attrs)
            == Ok::<Option<BpmnProcessV>, Seq<char>>(with_node(Some(q), n)),
{
    lemma_reveal_tags();
    lemma_reveal_keys();
    if let BpmnNodeV::RustType { id, name, kind, fields } = n {
        lemma_local_name("rustType"@);
        lemma_sigs_read_back(fields);
        let a4 = with_opt_attr("fields"@, sigs_text(fields), no_attrs());
        let a3 = with_attr("kind"@, kind, a4);
        let a2 = with_attr("name"@, name, a3);
        lemma_plain_with_attr("id"@, id, a2, "id"@);
        lemma_plain_with_attr("id"@, id, a2, "name"@);
        lemma_plain_with_attr("name"@, name, a3, "name"@);
        lemma_plain_with_attr("id"@, id, a2, "kind"@);
        lemma_plain_with_attr("name"@, name, a3, "kind"@);
        lemma_plain_with_attr("kind"@, kind, a4, "kind"@);
        lemma_plain_with_attr("id"@, id, a2, "fields"@);
        lemma_plain_with_attr("name"@, name, a3, "fields"@);
        lemma_plain_with_attr("kind"@, kind, a4, "fields"@);
        lemma_plain_with_opt_attr("fields"@, sigs_text(fields), no_attrs(), "fields"@);
    }
}

/// The attributes of a `rustFunction` element, read back.
proof fn lemma_function_attrs(
    id: Seq<char>,
    name: Seq<char>,
    params: Option<Seq<char>>,
    return_type: Option<Seq<char>>,
    body: Option<Seq<char>>,
)
    requires
        xml_plain(id),
        xml_plain(name),
        plain_opt(params),
        plain_opt(return_type),
        plain_opt(body),
    ensures
        ({
            let a = with_attr("id"@, id, with_attr("name"@, name, with_opt_attr("params"@, params,
                with_opt_attr("returnType"@, return_type, with_opt_attr("bodyHex"@, body, no_attrs())))));
            &&& attr_text(a, "id"@) == Some(id)
            &&& attr_text(a, "name"@) == Some(name)
            &&& attr_text(a, "params"@) == params
            &&& attr_text(a, "returnType"@) == return_type
            &&& attr_text(a, "bodyHex"@) == body
        }),
{
    lemma_reveal_keys();
    let a5 = with_opt_attr("bodyHex"@, body, no_attrs());
    let a4 = with_opt_attr("returnType"@, return_type, a5);
    let a3 = with_opt_attr("params"@, params, a4);
    let a2 = with_attr("name"@, name, a3);
    lemma_plain_with_attr("id"@, id, a2, "id"@);
    lemma_plain_with_attr("id"@, id, a2, "name"@);
    lemma_plain_with_attr("name"@, name, a3, "name"@);
    lemma_plain_with_attr("id"@, id, a2, "params"@);
    lemma_plain_with_attr("name"@, name, a3, "params"@);
    lemma_plain_with_opt_attr("params"@, params, a4, "params"@);
    lemma_plain_with_opt_attr("returnType"@, return_type, a5, "params"@);
    lemma_plain_with_opt_attr("bodyHex"@, body, no_attrs(), "params"@);
    lemma_plain_with_attr("id"@, id, a2, "returnType"@);
    lemma_plain_with_attr("name"@, name, a3, "returnType"@);
    lemma_plain_with_opt_attr("params"@, params, a4, "returnType"@);
    lemma_plain_with_opt_attr("returnType"@, return_type, a5, "returnType"@);
    lemma_plain_with_opt_attr("bodyHex"@, body, no_attrs(), "returnType"@);
    lemma_plain_with_attr("id"@, id, a2, "bodyHex"@);
    lemma_plain_with_attr("name"@, name, a3, "bodyHex"@);
    lemma_plain_with_opt_attr("params"@, params, a4, "bodyHex"@);
    lemma_plain_with_opt_attr("returnType"@, return_type, a5, "bodyHex"@);
    lemma_plain_with_opt_attr("bodyHex"@, body, no_attrs(), "bodyHex"@);
}

/// A `rustFunction` element adds its node to the process.
proof fn lemma_rust_function_step(q: BpmnProcessV, n: BpmnNodeV)
    requires
        node_readable(n),
        n is RustFunction,
    ensures
        spec_element_step(Some(q), node_element(n)->name, node_element(n)->attrs)
            == Ok::<Option<BpmnProcessV>, Seq<char>>(with_node(Some(q), n)),
{
    lemma_reveal_tags();
    if let BpmnNodeV::RustFunction { id, name, params, return_type, body } = n {
        lemma_local_name("rustFunction"@);
        lemma_sigs_read_back(params);
        lemma_body_read_back(body);
        lemma_function_attrs(id, name, sigs_text(params), return_type, body_text(body));
    }
}

/// An element of a tag the reader does not know adds an `Unknown` node.
proof fn lemma_unknown_step(q: BpmnProcessV, n: BpmnNodeV)
    requires
        node_readable(n),
        n is Unknown,
    ensures
        spec_element_step(Some(q), node_element(n)->name, node_element(n)->attrs)
            == Ok::<Option<BpmnProcessV>, Seq<char>>(with_node(Some(q), n)),
{
    lemma_reveal_keys();
    if let BpmnNodeV::Unknown { tag, id, name } = n {
        lemma_escape_plain(tag);
        lemma_local_name(tag);
        let a2 = with_opt_attr("name"@, name, no_attrs());
        lemma_plain_with_opt_attr("id"@, id, a2, "id"@);
        lemma_plain_with_opt_attr("name"@, name, no_attrs(), "id"@);
        lemma_plain_with_opt_attr("id"@, id, a2, "name"@);
        lemma_plain_with_opt_attr("name"@, name, no_attrs(), "name"@);
    }
}

/// A flow whose element the reader turns back into it.
pub open spec fn flow_readable(f: FlowV) -> bool {
    &&& xml_plain(f.id)
    &&& xml_plain(f.source_ref)
    &&& xml_plain(f.target_ref)
    &&& plain_opt(f.name)
}

/// A `sequenceFlow` element adds its flow to the process.
proof fn lemma_flow_step(q: BpmnProcessV, f: FlowV)
    requires
        flow_readable(f),
    ensures
        spec_element_step(Some(q), flow_element(f)->name, flow_element(f)->attrs)
            == Ok::<Option<BpmnProcessV>, Seq<char>>(Some(BpmnProcessV { flows: q.flows.push(f), ..q })),
{
    lemma_reveal_tags();
    lemma_reveal_keys();
    lemma_local_name("sequenceFlow"@);
    let a4 = with_opt_attr("name"@, f.name, no_attrs());
    let a3 = with_attr("targetRef"@, f.target_ref, a4);
    let a2 = with_attr("sourceRef"@, f.source_ref, a3);
    lemma_plain_with_attr("id"@, f.id, a2, "id"@);
    lemma_plain_with_attr("id"@, f.id, a2, "sourceRef"@);
    lemma_plain_with_attr("sourceRef"@, f.source_ref, a3, "sourceRef"@);
    lemma_plain_with_attr("id"@, f.id, a2, "targetRef"@);
    lemma_plain_with_attr("sourceRef"@, f.source_ref, a3, "targetRef"@);
    lemma_plain_with_attr("targetRef"@, f.target_ref, a4, "targetRef"@);
    lemma_plain_with_attr("id"@, f.id, a2, "name"@);
    lemma_plain_with_attr("sourceRef"@, f.source_ref, a3, "name"@);
    lemma_plain_with_attr("targetRef"@, f.target_ref, a4, "name"@);
    lemma_plain_with_opt_attr("name"@, f.name, no_attrs(), "name"@);
}

/// A readable node's element adds it to the process.
proof fn lemma_node_step(q: BpmnProcessV, n: BpmnNodeV)
    requires
        node_readable(n),
    ensures
        spec_element_step(Some(q), node_element(n)->name, node_element(n)->attrs)
            == Ok::<Option<BpmnProcessV>, Seq<char>>(with_node(Some(q), n)),
{
    match n {
        BpmnNodeV::RustType { .. } => lemma_rust_type_step(q, n),
        BpmnNodeV::RustFunction { .. } => lemma_rust_function_step(q, n),
        BpmnNodeV::Unknown { .. } => lemma_unknown_step(q, n),
        BpmnNodeV::RustSource { .. } => {},
        BpmnNodeV::RustLine { .. } => {},
        _ => lemma_simple_step(q, n),
    }
}

/// Reading the elements of readable nodes appends the nodes, in order.
proof fn lemma_nodes_steps(ns: Seq<BpmnNodeV>, rest: Seq<XmlEventV>, q: BpmnProcessV)
    requires
        forall|i: int| 0 <= i < ns.len() ==> node_readable(#[trigger] ns[i]),
    ensures
        spec_events_to_process(ns.map_values(|n: BpmnNodeV| node_element(n)) + rest, Some(q))
            == spec_events_to_process(rest, Some(BpmnProcessV { nodes: q.nodes + ns, ..q })),
    decreases ns.len(),
{
    let evs = ns.map_values(|n: BpmnNodeV| node_element(n)) + rest;
    if ns.len() == 0 {
        assert(evs =~= rest);
        assert(q.nodes + ns =~= q.nodes);
    } else {
        let tail = ns.drop_first();
        assert(evs[0] == node_element(ns[0]));
        assert(evs.drop_first() =~= tail.map_values(|n: BpmnNodeV| node_element(n)) + rest);
        assert(node_readable(ns[0]));
        lemma_node_step(q, ns[0]);
        let q2 = BpmnProcessV { nodes: q.nodes.push(ns[0]), ..q };
        assert forall|i: int| 0 <= i < tail.len() implies node_readable(#[trigger] tail[i]) by {
            assert(tail[i] == ns[i + 1]);
        }
        lemma_nodes_steps(tail, rest, q2);
        assert(q2.nodes + tail =~= q.nodes + ns);
    }
}

/// Reading the elements of readable flows appends the flows, in order.
proof fn lemma_flows_steps(fs: Seq<FlowV>, rest: Seq<XmlEventV>, q: BpmnProcessV)
    requires
        forall|i: int| 0 <= i < fs.len() ==> flow_readable(#[trigger] fs[i]),
    ensures
        spec_events_to_process(fs.map_values(|f: FlowV| flow_element(f)) + rest, Some(q))
            == spec_events_to_process(rest, Some(BpmnProcessV { flows: q.flows + fs, ..q })),
    decreases fs.len(),
{
    let evs = fs.map_values(|f: FlowV| flow_element(f)) + rest;
    if fs.len() == 0 {
        assert(evs =~= rest);
        assert(q.flows + fs =~= q.flows);
    } else {
        let tail = fs.drop_first();
        assert(evs[0] == flow_element(fs[0]));
        assert(evs.drop_first() =~= tail.map_values(|f: FlowV| flow_element(f)) + rest);
        assert(flow_readable(fs[0]));
        lemma_flow_step(q, fs[0]);
        let q2 = BpmnProcessV { flows: q.flows.push(fs[0]), ..q };
        assert forall|i: int| 0 <= i < tail.len() implies flow_readable(#[trigger] tail[i]) by {
            assert(tail[i] == fs[i + 1]);
        }
        lemma_flows_steps(tail, rest, q2);
        assert(q2.flows + tail =~= q.flows + fs);
    }
}

/// A process whose elements the reader turns back into it: its id, name
/// and texts are left unchanged by escaping, and each node and flow is
/// readable.
pub open spec fn process_readable(p: BpmnProcessV) -> bool {
    &&& xml_plain(p.id)
    &&& plain_opt(p.name)
    &&& forall|i: int| 0 <= i < p.nodes.len() ==> node_readable(#[trigger] p.nodes[i])
    &&& forall|i: int| 0 <= i < p.flows.len() ==> flow_readable(#[trigger] p.flows[i])
}

/// The declaration and the `definitions` and `process` tags open the process.
proof fn lemma_header_steps(p: BpmnProcessV, rest: Seq<XmlEventV>)
    requires
        xml_plain(p.id),
        plain_opt(p.name),
    ensures
        spec_events_to_process(seq![XmlEventV::Other, definitions_element(), process_element(p)] + rest, None)
            == spec_events_to_process(rest, Some(BpmnProcessV { id: p.id, name: p.name, nodes: Seq::empty(), flows: Seq::empty() })),
{
    let evs = seq![XmlEventV::Other, definitions_element(), process_element(p)] + rest;
    let e1 = seq![definitions_element(), process_element(p)] + rest;
    let e2 = seq![process_element(p)] + rest;
    assert(evs[0] is Other);
    assert(evs.drop_first() =~= e1);
    assert(e1[0] == definitions_element());
    assert(e1.drop_first() =~= e2);
    assert(e2[0] == process_element(p));
    assert(e2.drop_first() =~= rest);
    lemma_reveal_tags();
    reveal_strlit("definitions");
    assert(lacks("definitions"@, ':'));
    assert("definitions"@.len() == 11);
    lemma_local_name("definitions"@);
    lemma_local_name("process"@);
    lemma_simple_attrs(p.id, p.name);
    let q0 = BpmnProcessV { id: p.id, name: p.name, nodes: Seq::empty(), flows: Seq::empty() };
    assert(spec_events_to_process(evs, None) == spec_events_to_process(e1, None));
    assert(spec_element_step(None, encode_utf8("definitions"@), definitions_element()->attrs)
        == Ok::<Option<BpmnProcessV>, Seq<char>>(None));
    assert(spec_events_to_process(e1, None) == spec_events_to_process(e2, None));
    assert(spec_element_step(None, encode_utf8("process"@), process_element(p)->attrs)
        == Ok::<Option<BpmnProcessV>, Seq<char>>(Some(q0)));
    assert(spec_events_to_process(e2, None) == spec_events_to_process(rest, Some(q0)));
}

/// The two end tags and the end of input close the process.
proof fn lemma_closing_steps(q: BpmnProcessV)
    ensures
        spec_events_to_process(seq![XmlEventV::Other, XmlEventV::Other, XmlEventV::Eof], Some(q))
            == Ok::<BpmnProcessV, Seq<char>>(q),
{
    let t3 = seq![XmlEventV::Other, XmlEventV::Other, XmlEventV::Eof];
    let t2 = seq![XmlEventV::Other, XmlEventV::Eof];
    let t1 = seq![XmlEventV::Eof];
    assert(t3.drop_first() =~= t2);
    assert(t2.drop_first() =~= t1);
    assert(spec_events_to_process(t1, Some(q)) == Ok::<BpmnProcessV, Seq<char>>(q));
    assert(spec_events_to_process(t2, Some(q)) == spec_events_to_process(t1, Some(q)));
    assert(spec_events_to_process(t3, Some(q)) == spec_events_to_process(t2, Some(q)));
}

/// Reading the elements of the document written for a process gives the
/// process back: for every process whose id, name and texts hold none of
/// `&`, `<`, `>`, `"` and `'`, whose nodes are not `rustSource` or
/// `rustLine` nodes (which the reader does not know), whose signatures
/// survive the `name:ty;...` form, whose body lines hold no line break and
/// are not one empty line, and whose other nodes have a tag without `:`
/// that the reader does not know and an id or a name.
pub proof fn lemma_document_reads_back(p: BpmnProcessV)
    requires
        process_readable(p),
    ensures
        spec_events_to_process(document_events(p), None) == Ok::<BpmnProcessV, Seq<char>>(p),
{
    let ns = p.nodes.map_values(|n: BpmnNodeV| node_element(n));
    let fs = p.flows.map_values(|f: FlowV| flow_element(f));
    let tail = seq![XmlEventV::Other, XmlEventV::Other, XmlEventV::Eof];
    let head = seq![XmlEventV::Other, definitions_element(), process_element(p)];
    assert(document_events(p) =~= head + (ns + (fs + tail)));
    let q0 = BpmnProcessV { id: p.id, name: p.name, nodes: Seq::empty(), flows: Seq::empty() };
    lemma_header_steps(p, ns + (fs + tail));
    lemma_nodes_steps(p.nodes, fs + tail, q0);
    let q1 = BpmnProcessV { nodes: q0.nodes + p.nodes, ..q0 };
    lemma_flows_steps(p.flows, tail, q1);
    let q2 = BpmnProcessV { flows: q1.flows + p.flows, ..q1 };
    lemma_closing_steps(q2);
    assert(q2.nodes =~= p.nodes);
    assert(q2.flows =~= p.flows);
}

/// Decimal digits are plain.
proof fn lemma_decimal_plain(n: nat)
    ensures
        xml_plain(spec_decimal(n)),
    decreases n,
{
    if n < 10 {
        assert(xml_plain_char(((n + 48) as char)));
        assert(xml_plain(seq![(n + 48) as char]));
    } else {
        lemma_decimal_plain(n / 10);
        let d = seq![((n % 10) + 48) as char];
        assert(xml_plain_char(d[0]));
        assert(xml_plain(d));
        lemma_plain_concat(spec_decimal(n / 10), d);
    }
}

/// A name made into an id fragment is plain.
proof fn lemma_sanitize_plain(s: Seq<char>)
    ensures
        xml_plain(spec_sanitize_fragment(s)),
{
    reveal_strlit("_");
    let t = spec_sanitize_fragment(s);
    assert forall|i: int| 0 <= i < t.len() implies xml_plain_char(#[trigger] t[i]) by {}
}

/// The fixed texts that the process of a module is written with are plain.
proof fn lemma_literals_plain()
    ensures
        xml_plain("module_"@),
        xml_plain("RustType_"@),
        xml_plain("RustFunction_"@),
        xml_plain("_"@),
        xml_plain("Flow_"@),
        xml_plain("StartEvent_1"@),
        xml_plain("Start"@),
        xml_plain("EndEvent_1"@),
        xml_plain("End"@),
        xml_plain("struct"@),
        xml_plain("interface"@),
        xml_plain("number"@),
        xml_plain("string"@),
        xml_plain("boolean"@),
        kv_safe_type("number"@),
        kv_safe_type("string"@),
        kv_safe_type("boolean"@),
{
    reveal_strlit("module_");
    reveal_strlit("RustType_");
    reveal_strlit("RustFunction_");
    reveal_strlit("_");
    reveal_strlit("Flow_");
    reveal_strlit("StartEvent_1");
    reveal_strlit("Start");
    reveal_strlit("EndEvent_1");
    reveal_strlit("End");
    reveal_strlit("struct");
    reveal_strlit("interface");
    reveal_strlit("number");
    reveal_strlit("string");
    reveal_strlit("boolean");
    assert(trim("number"@) =~= "number"@);
    assert(trim("string"@) =~= "string"@);
    assert(trim("boolean"@) =~= "boolean"@);
}

/// The ids handed out for plain bases are plain.
proof fn lemma_unique_ids_plain(bases: Seq<Seq<char>>, k: int)
    requires
        0 <= k < bases.len(),
        forall|i: int| 0 <= i < bases.len() ==> xml_plain(#[trigger] bases[i]),
    ensures
        xml_plain(unique_ids(bases)[k]),
{
    let used = bases.subrange(0, k);
    let base = bases[k];
    assert(xml_plain(base));
    let n = super::to_module::count_of(used, base) + 1;
    if n != 1 {
        lemma_literals_plain();
        lemma_decimal_plain(n as nat);
        lemma_plain_concat(base, "_"@);
        lemma_plain_concat(base + "_"@, spec_decimal(n as nat));
    }
}

/// A type whose written name the `name:ty;...` form and escaping keep: a
/// custom name holds no `;` and none of `&`, `<`, `>`, `"` and `'`.
pub open spec fn type_text_ok(t: TypeRefV) -> bool {
    match t {
        TypeRefV::Custom(s) => lacks(s, ';') && xml_plain(s),
        _ => true,
    }
}

/// A field or parameter that reads back from the `name:ty;...` form and is
/// kept by escaping.
pub open spec fn sig_ok(name: Seq<char>, t: TypeRefV) -> bool {
    &&& kv_safe_name(name)
    &&& xml_plain(name)
    &&& type_text_ok(t)
}

/// A module whose process the reader gives back from the written elements:
/// its names hold none of `&`, `<`, `>`, `"` and `'`; field and parameter
/// names are trimmed and hold no `;` or `:`; custom type names hold no `;`;
/// and no function body holds a line break in a line or is one empty line.
pub open spec fn module_writable(m: ModuleV) -> bool {
    &&& xml_plain(m.name)
    &&& forall|i: int| 0 <= i < m.types.len() ==> xml_plain(#[trigger] m.types[i].name)
    &&& forall|i: int, j: int|
        0 <= i < m.types.len() && 0 <= j < m.types[i].fields.len() ==> sig_ok(
            #[trigger] m.types[i].fields[j].name,
            m.types[i].fields[j].ty,
        )
    &&& forall|i: int|
        0 <= i < m.functions.len() ==> xml_plain(#[trigger] m.functions[i].name) && body_readable(
            m.functions[i].body,
        )
    &&& forall|i: int, j: int|
        0 <= i < m.functions.len() && 0 <= j < m.functions[i].params.len() ==> sig_ok(
            #[trigger] m.functions[i].params[j].name,
            m.functions[i].params[j].ty,
        )
    &&& forall|i: int|
        0 <= i < m.functions.len() ==> match #[trigger] m.functions[i].return_type {
            Some(t) => type_text_ok(t),
            None => true,
        }
}

/// The written name of a canonical type that passes [`type_text_ok`] is
/// kept by the `name:ty;...` form and by escaping.
proof fn lemma_type_text(t: TypeRefV)
    requires
        canonical_type(t),
        type_text_ok(t),
    ensures
        kv_safe_type(spec_type_name(t)),
        xml_plain(spec_type_name(t)),
{
    lemma_literals_plain();
}

/// The signatures written for fields or parameters that pass [`sig_ok`]
/// are readable.
proof fn lemma_sigs_ok(s: Seq<SigV>, names: Seq<Seq<char>>, tys: Seq<TypeRefV>)
    requires
        s.len() == names.len(),
        s.len() == tys.len(),
        forall|j: int|
            0 <= j < s.len() ==> {
                &&& (#[trigger] s[j]).name == names[j]
                &&& s[j].ty == spec_type_name(tys[j])
                &&& sig_ok(names[j], tys[j])
                &&& canonical_type(tys[j])
            },
    ensures
        sigs_readable(s),
{
    assert forall|j: int| 0 <= j < s.len() implies {
        &&& kv_safe_name(#[trigger] s[j].name)
        &&& kv_safe_type(s[j].ty)
        &&& xml_plain(s[j].name)
        &&& xml_plain(s[j].ty)
    } by {
        let x = s[j];
        lemma_type_text(tys[j]);
    }
}

/// The id bases of a module's declarations are plain.
proof fn lemma_bases_plain(m: ModuleV)
    ensures
        forall|k: int| 0 <= k < node_bases(m).len() ==> xml_plain(#[trigger] node_bases(m)[k]),
{
    lemma_literals_plain();
    let b = node_bases(m);
    let nt = m.types.len() as int;
    assert forall|k: int| 0 <= k < b.len() implies xml_plain(#[trigger] b[k]) by {
        if k < nt {
            assert(b[k] == type_base(m.types[k]));
            lemma_sanitize_plain(m.types[k].name);
            lemma_plain_concat("RustType_"@, spec_sanitize_fragment(m.types[k].name));
        } else {
            assert(b[k] == fn_base(m.functions[k - nt]));
            lemma_sanitize_plain(m.functions[k - nt].name);
            lemma_plain_concat("RustFunction_"@, spec_sanitize_fragment(m.functions[k - nt].name));
        }
    }
}

/// The node of a type of a writable module is readable.
proof fn lemma_type_node_readable(m: ModuleV, i: int, id: Seq<char>)
    requires
        round_trips(m),
        module_writable(m),
        0 <= i < m.types.len(),
        xml_plain(id),
    ensures
        node_readable(type_node(m.types[i], id)),
{
    lemma_literals_plain();
    let t = m.types[i];
    let fs = t.fields.map_values(|f: FieldV| field_sig(f));
    let names = t.fields.map_values(|f: FieldV| f.name);
    let tys = t.fields.map_values(|f: FieldV| f.ty);
    assert forall|j: int| 0 <= j < fs.len() implies {
        &&& (#[trigger] fs[j]).name == names[j]
        &&& fs[j].ty == spec_type_name(tys[j])
        &&& sig_ok(names[j], tys[j])
        &&& canonical_type(tys[j])
    } by {
        assert(sig_ok(m.types[i].fields[j].name, m.types[i].fields[j].ty));
        assert(canonical_type(m.types[i].fields[j].ty));
    }
    lemma_sigs_ok(fs, names, tys);
    assert(xml_plain(m.types[i].name));
}

/// The node of a function of a writable module is readable.
proof fn lemma_fn_node_readable(m: ModuleV, j: int, id: Seq<char>)
    requires
        round_trips(m),
        module_writable(m),
        0 <= j < m.functions.len(),
        xml_plain(id),
    ensures
        node_readable(fn_node(m.functions[j], id)),
{
    lemma_literals_plain();
    let f = m.functions[j];
    let ps = f.params.map_values(|p: ParamV| param_sig(p));
    let names = f.params.map_values(|p: ParamV| p.name);
    let tys = f.params.map_values(|p: ParamV| p.ty);
    assert forall|k: int| 0 <= k < ps.len() implies {
        &&& (#[trigger] ps[k]).name == names[k]
        &&& ps[k].ty == spec_type_name(tys[k])
        &&& sig_ok(names[k], tys[k])
        &&& canonical_type(tys[k])
    } by {
        assert(sig_ok(m.functions[j].params[k].name, m.functions[j].params[k].ty));
        assert(canonical_type(m.functions[j].params[k].ty));
    }
    lemma_sigs_ok(ps, names, tys);
    assert(xml_plain(m.functions[j].name) && body_readable(m.functions[j].body));
    match f.return_type {
        Some(t) => {
            assert(canonical_opt_type(m.functions[j].return_type));
            lemma_type_text(t);
        },
        None => {},
    }
}

/// The process of a writable module that round-trips is readable.
proof fn lemma_module_process_readable(m: ModuleV)
    requires
        round_trips(m),
        module_writable(m),
    ensures
        process_readable(spec_module_to_process(m)),
{
    lemma_literals_plain();
    let p = spec_module_to_process(m);
    let bases = node_bases(m);
    let ids = unique_ids(bases);
    let nt = m.types.len() as int;
    let nf = m.functions.len() as int;
    let fn_ids = ids.subrange(nt, nt + nf);
    lemma_bases_plain(m);
    assert forall|k: int| 0 <= k < ids.len() implies xml_plain(#[trigger] ids[k]) by {
        lemma_unique_ids_plain(bases, k);
    }
    lemma_sanitize_plain(m.name);
    lemma_plain_concat("module_"@, spec_sanitize_fragment(m.name));
    assert forall|i: int| 0 <= i < p.nodes.len() implies node_readable(#[trigger] p.nodes[i]) by {
        if i == 0 {
            assert(p.nodes[i] == start_node());
        } else if i <= nt {
            assert(p.nodes[i] == type_node(m.types[i - 1], ids[i - 1]));
            lemma_type_node_readable(m, i - 1, ids[i - 1]);
        } else if i <= nt + nf {
            assert(p.nodes[i] == fn_node(m.functions[i - 1 - nt], fn_ids[i - 1 - nt]));
            lemma_fn_node_readable(m, i - 1 - nt, fn_ids[i - 1 - nt]);
        } else {
            assert(p.nodes[i] == end_node());
        }
    }
    assert forall|k: int| 0 <= k < p.flows.len() implies flow_readable(#[trigger] p.flows[k]) by {
        let f = chain_flow(fn_ids, k);
        assert(p.flows[k] == f);
        lemma_decimal_plain((k + 1) as nat);
        lemma_plain_concat("Flow_"@, spec_decimal((k + 1) as nat));
    }
}

/// Writing a module as a process and reading back the elements of the
/// document written for that process gives the module again: for every
/// module whose types are canonical, whose functions are plain, which has
/// a `main`, and which is writable (see [`module_writable`]).
pub proof fn lemma_module_document_round_trip(m: ModuleV)
    requires
        round_trips(m),
        module_writable(m),
    ensures
        match spec_events_to_process(document_events(spec_module_to_process(m)), None) {
            Ok(p) => spec_process_to_module(p) == m,
            Err(_) => false,
        },
{
    lemma_module_process_readable(m);
    lemma_document_reads_back(spec_module_to_process(m));
    lemma_module_process_round_trip(m);
}

} // verus!
