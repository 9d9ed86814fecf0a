//! A directory of Rust sources as one BPMN process: each file's text is
//! embedded whole in a `rustSource` node, in the order of the files' paths.

use vstd::prelude::*;
use vstd::utf8::encode_utf8;
use crate::text::{ascii_lower_seq, ascii_lowercase, chars_of, seq_lt, spec_decimal, str_eq, str_lt};
use super::from_module::{chain_flow, end_node, start_node};
use super::from_rust::numbered;
use super::model::{copy_opt, opt_view, BpmnNode, BpmnNodeV, BpmnProcess, BpmnProcessV, BpmnSequenceFlow};
use super::to_module::names_view;
use super::xmltext::{hex_encode, spec_hex_encode};

verus! {

/// Build directories the walk does not enter: `target` and `node_modules`,
/// in any ASCII case.
pub open spec fn spec_skipped_dir(name: Seq<char>) -> bool {
    ascii_lower_seq(name) == "target"@ || ascii_lower_seq(name) == "node_modules"@
}

pub fn is_skipped_build_dir(name: &str) -> (r: bool)
    ensures
        r == spec_skipped_dir(name@),
{
    let cs = chars_of(name);
    let low = ascii_lowercase(cs.as_slice());
    let mut s = String::new();
    crate::text::push_chars(&mut s, low.as_slice());
    str_eq(s.as_str(), "target") || str_eq(s.as_str(), "node_modules")
}

/// Position at which entry `e` is inserted into entries sorted by text so
/// that entries with equal text keep their order.
pub open spec fn text_insert_pos(sorted: Seq<(Seq<char>, int)>, e: (Seq<char>, int)) -> int
    decreases sorted.len(),
{
    if sorted.len() == 0 {
        0
    } else if seq_lt(e.0, sorted.last().0) {
        text_insert_pos(sorted.drop_last(), e)
    } else {
        sorted.len() as int
    }
}

/// The entries sorted by text, stably (the order of a stable sort by text).
pub open spec fn sort_by_text(es: Seq<(Seq<char>, int)>) -> Seq<(Seq<char>, int)>
    decreases es.len(),
{
    if es.len() == 0 {
        Seq::empty()
    } else {
        let s = sort_by_text(es.drop_last());
        let k = text_insert_pos(s, es.last());
        s.subrange(0, k).push(es.last()) + s.subrange(k, s.len() as int)
    }
}

/// The texts with their positions.
pub open spec fn indexed(texts: Seq<Seq<char>>) -> Seq<(Seq<char>, int)> {
    Seq::new(texts.len(), |i: int| (texts[i], i))
}

/// The positions of the texts in stable text order.
pub open spec fn spec_text_order(texts: Seq<Seq<char>>) -> Seq<int> {
    sort_by_text(indexed(texts)).map_values(|e: (Seq<char>, int)| e.1)
}

proof fn lemma_text_insert_pos_bounds(sorted: Seq<(Seq<char>, int)>, e: (Seq<char>, int))
    ensures
        0 <= text_insert_pos(sorted, e) <= sorted.len(),
    decreases sorted.len(),
{
    if sorted.len() > 0 {
        lemma_text_insert_pos_bounds(sorted.drop_last(), e);
    }
}

proof fn lemma_sort_by_text_len(es: Seq<(Seq<char>, int)>)
    ensures
        sort_by_text(es).len() == es.len(),
    decreases es.len(),
{
    if es.len() > 0 {
        lemma_sort_by_text_len(es.drop_last());
        lemma_text_insert_pos_bounds(sort_by_text(es.drop_last()), es.last());
    }
}

pub open spec fn entries_view(v: Seq<(usize, String)>, texts: Seq<Seq<char>>) -> Seq<(Seq<char>, int)> {
    v.map_values(|e: (usize, String)| (e.1@, e.0 as int))
}

/// The order in which paths are taken: positions of `texts` sorted stably
/// by text (see [`spec_text_order`]).
pub fn text_order(texts: &Vec<String>) -> (r: Vec<usize>)
    ensures
        r@.map_values(|i: usize| i as int) == spec_text_order(names_view(texts@)),
{
    let ghost tv = names_view(texts@);
    let mut sorted: Vec<(usize, String)> = Vec::new();
    let mut i: usize = 0;
    while i < texts.len()
        invariant
            i <= texts@.len(),
            tv == names_view(texts@),
            entries_view(sorted@, tv) == sort_by_text(indexed(tv).subrange(0, i as int)),
        decreases texts@.len() - i,
    {
        let ghost s = entries_view(sorted@, tv);
        let e = (i, texts[i].clone());
        let ghost ev = (texts@[i as int]@, i as int);
        let mut k: usize = sorted.len();
        assert(s.subrange(0, s.len() as int) =~= s);
        while k > 0 && str_lt(e.1.as_str(), sorted[k - 1].1.as_str())
            invariant
                k <= sorted@.len(),
                s == entries_view(sorted@, tv),
                e.1@ == ev.0,
                text_insert_pos(s, ev) == text_insert_pos(s.subrange(0, k as int), ev),
            decreases k,
        {
            proof {
                let pre = s.subrange(0, k as int);
                assert(pre.drop_last() =~= s.subrange(0, k - 1));
                assert(pre.last() == (sorted@[k - 1].1@, sorted@[k - 1].0 as int));
            }
            k -= 1;
        }
        proof {
            let pre = s.subrange(0, k as int);
            if k > 0 {
                assert(pre.last() == (sorted@[k - 1].1@, sorted@[k - 1].0 as int));
            }
            assert(text_insert_pos(pre, ev) == k);
            let cur = indexed(tv).subrange(0, i + 1);
            assert(cur.drop_last() =~= indexed(tv).subrange(0, i as int));
            assert(cur.last() == ev);
        }
        sorted.insert(k, e);
        assert(entries_view(sorted@, tv) =~= s.subrange(0, k as int).push(ev) + s.subrange(k as int, s.len() as int));
        i += 1;
    }
    assert(indexed(tv).subrange(0, tv.len() as int) =~= indexed(tv));
    let mut out: Vec<usize> = Vec::new();
    let mut j: usize = 0;
    while j < sorted.len()
        invariant
            j <= sorted@.len(),
            out@.map_values(|i: usize| i as int) =~= entries_view(sorted@, tv).subrange(0, j as int).map_values(
                |e: (Seq<char>, int)| e.1,
            ),
        decreases sorted@.len() - j,
    {
        let ghost before = out@.map_values(|i: usize| i as int);
        out.push(sorted[j].0);
        assert(out@.map_values(|i: usize| i as int) =~= before.push(sorted@[j as int].0 as int));
        assert(entries_view(sorted@, tv).subrange(0, j + 1).map_values(|e: (Seq<char>, int)| e.1) =~= entries_view(
            sorted@,
            tv,
        ).subrange(0, j as int).map_values(|e: (Seq<char>, int)| e.1).push(sorted@[j as int].0 as int));
        j += 1;
    }
    assert(entries_view(sorted@, tv).subrange(0, sorted@.len() as int) =~= entries_view(sorted@, tv));
    out
}

/// The node ids `RustSource_1`, `RustSource_2`, ...
pub open spec fn source_ids(n: nat) -> Seq<Seq<char>> {
    Seq::new(n, |i: int| "RustSource_"@ + spec_decimal((i + 1) as nat))
}

pub open spec fn files_view(v: Seq<(Option<String>, String)>) -> Seq<(Option<Seq<char>>, Seq<char>)> {
    v.map_values(|f: (Option<String>, String)| (opt_view(f.0), f.1@))
}

/// The process of a directory (named by its last component, `rust_dir`
/// without one) whose files, in order, have these relative paths and texts:
/// a start event, one `rustSource` node per file holding its text as
/// hexadecimal UTF-8, an end event, and flows chaining them.
pub open spec fn spec_rust_dir_process(dir_name: Option<Seq<char>>, files: Seq<(Option<Seq<char>>, Seq<char>)>) -> BpmnProcessV {
    let ids = source_ids(files.len());
    BpmnProcessV {
        id: "rust_dir"@,
        name: Some(
            match dir_name {
                Some(n) => n,
                None => "rust_dir"@,
            },
        ),
        nodes: seq![start_node()] + Seq::new(
            files.len(),
            |i: int|
                BpmnNodeV::RustSource {
                    id: ids[i],
                    path: files[i].0,
                    content_hex: spec_hex_encode(encode_utf8(files[i].1)),
                },
        ) + seq![end_node()],
        flows: Seq::new(files.len() + 1, |k: int| chain_flow(ids, k)),
    }
}

/// The process of a directory of Rust sources (see [`spec_rust_dir_process`]).
pub fn rust_dir_bpmn_process(dir_name: Option<String>, files: &Vec<(Option<String>, String)>) -> (r: BpmnProcess)
    requires
        files@.len() < usize::MAX,
    ensures
        r@ == spec_rust_dir_process(opt_view(dir_name), files_view(files@)),
{
    let ghost fv = files_view(files@);
    let n = files.len();
    let ghost ids = source_ids(n as nat);
    let mut nodes: Vec<BpmnNode> = Vec::new();
    nodes.push(BpmnNode::StartEvent { id: "StartEvent_1".to_owned(), name: Some("Start".to_owned()) });
    let mut id_list: Vec<String> = Vec::new();
    let mut i: usize = 0;
    while i < n
        invariant
            i <= n == files@.len(),
            n < usize::MAX,
            fv == files_view(files@),
            ids == source_ids(n as nat),
            names_view(id_list@) == ids.subrange(0, i as int),
            nodes@.map_values(|x: BpmnNode| x@) == seq![start_node()] + Seq::new(
                i as nat,
                |k: int|
                    BpmnNodeV::RustSource {
                        id: ids[k],
                        path: fv[k].0,
                        content_hex: spec_hex_encode(encode_utf8(fv[k].1)),
                    },
            ),
        decreases n - i,
    {
        let id = numbered("RustSource_", i + 1);
        let ghost pre = nodes@.map_values(|x: BpmnNode| x@);
        let ghost pre_ids = names_view(id_list@);
        id_list.push(id.clone());
        let hex = hex_encode(files[i].1.as_str().as_bytes());
        let node = BpmnNode::RustSource { id, path: copy_opt(&files[i].0), content_hex: hex };
        nodes.push(node);
        assert(nodes@.map_values(|x: BpmnNode| x@) =~= pre.push(node@));
        assert(names_view(id_list@) =~= pre_ids.push(ids[i as int]));
        i += 1;
        assert(nodes@.map_values(|x: BpmnNode| x@) =~= seq![start_node()] + Seq::new(
            i as nat,
            |k: int|
                BpmnNodeV::RustSource {
                    id: ids[k],
                    path: fv[k].0,
                    content_hex: spec_hex_encode(encode_utf8(fv[k].1)),
                },
        ));
        assert(names_view(id_list@) =~= ids.subrange(0, i as int));
    }
    nodes.push(BpmnNode::EndEvent { id: "EndEvent_1".to_owned(), name: Some("End".to_owned()) });
    assert(ids.subrange(0, n as int) =~= ids);
    let mut flows: Vec<BpmnSequenceFlow> = Vec::new();
    let mut prev: String = "StartEvent_1".to_owned();
    let mut k: usize = 0;
    while k < n
        invariant
            k <= n == id_list@.len(),
            n < usize::MAX,
            names_view(id_list@) == ids,
            ids.len() == n,
            prev@ == (if k == 0 { "StartEvent_1"@ } else { ids[k - 1] }),
            flows@.len() == k,
            forall|q: int| 0 <= q < k ==> (#[trigger] flows@[q])@ == chain_flow(ids, q),
        decreases n - k,
    {
        let f = BpmnSequenceFlow { id: numbered("Flow_", k + 1), source_ref: prev, target_ref: id_list[k].clone(), name: None };
        flows.push(f);
        prev = id_list[k].clone();
        k += 1;
    }
    flows.push(BpmnSequenceFlow { id: numbered("Flow_", n + 1), source_ref: prev, target_ref: "EndEvent_1".to_owned(), name: None });
    let name = match dir_name {
        Some(d) => d,
        None => "rust_dir".to_owned(),
    };
    let r = BpmnProcess { id: "rust_dir".to_owned(), name: Some(name), nodes, flows };
    assert(r@.flows =~= Seq::new((n + 1) as nat, |q: int| chain_flow(ids, q)));
    assert(r@.nodes =~= spec_rust_dir_process(opt_view(dir_name), fv).nodes);
    r
}

} // verus!
