//! Walking the flow graph of a process.

use vstd::prelude::*;
use crate::text::{lemma_seq_lt_irreflexive, lemma_seq_lt_total, lemma_seq_lt_transitive, seq_lt, str_eq, str_lt};
use super::model::{BpmnNode, BpmnNodeV, BpmnProcess, BpmnProcessV, BpmnSequenceFlow, FlowV};

verus! {

/// The id of the first start event among the nodes, if any.
pub open spec fn spec_find_start(ns: Seq<BpmnNodeV>) -> Option<Seq<char>>
    decreases ns.len(),
{
    if ns.len() == 0 {
        None
    } else {
        match ns[0] {
            BpmnNodeV::StartEvent { id, .. } => Some(id),
            _ => spec_find_start(ns.drop_first()),
        }
    }
}

/// The id of the process's first start event, if any.
pub fn find_start_event_id(proc: &BpmnProcess) -> (r: Option<&str>)
    ensures
        match r {
            Some(s) => spec_find_start(proc@.nodes) == Some(s@),
            None => spec_find_start(proc@.nodes).is_none(),
        },
{
    let ghost ns = proc@.nodes;
    let mut i: usize = 0;
    assert(ns.subrange(0, ns.len() as int) == ns);
    while i < proc.nodes.len()
        invariant
            i <= proc.nodes@.len(),
            ns == proc@.nodes,
            spec_find_start(ns) == spec_find_start(ns.subrange(i as int, ns.len() as int)),
        decreases proc.nodes@.len() - i,
    {
        let ghost rest = ns.subrange(i as int, ns.len() as int);
        assert(rest[0] == proc.nodes@[i as int]@);
        assert(rest.drop_first() == ns.subrange(i + 1, ns.len() as int));
        match &proc.nodes[i] {
            BpmnNode::StartEvent { id, .. } => {
                return Some(id.as_str());
            },
            _ => {},
        }
        i += 1;
    }
    assert(ns.subrange(ns.len() as int, ns.len() as int).len() == 0);
    None
}

/// Position at which a flow is inserted into a list sorted by id so that
/// flows with equal ids keep their order: after every flow whose id is not greater.
pub open spec fn insert_pos(sorted: Seq<FlowV>, f: FlowV) -> int
    decreases sorted.len(),
{
    if sorted.len() == 0 {
        0
    } else if seq_lt(f.id, sorted.last().id) {
        insert_pos(sorted.drop_last(), f)
    } else {
        sorted.len() as int
    }
}

/// The flows sorted by id, stably (the order of `sort_by` on ids).
pub open spec fn sort_by_id(fs: Seq<FlowV>) -> Seq<FlowV>
    decreases fs.len(),
{
    if fs.len() == 0 {
        Seq::empty()
    } else {
        let s = sort_by_id(fs.drop_last());
        let k = insert_pos(s, fs.last());
        s.subrange(0, k).push(fs.last()) + s.subrange(k, s.len() as int)
    }
}

/// The flows leaving a node, in the order they were listed.
pub open spec fn flows_from(fs: Seq<FlowV>, src: Seq<char>) -> Seq<FlowV>
    decreases fs.len(),
{
    if fs.len() == 0 {
        Seq::empty()
    } else if fs.last().source_ref == src {
        flows_from(fs.drop_last(), src).push(fs.last())
    } else {
        flows_from(fs.drop_last(), src)
    }
}

/// The sources of the flows, each once, in order of first appearance.
pub open spec fn distinct_sources(fs: Seq<FlowV>) -> Seq<Seq<char>>
    decreases fs.len(),
{
    if fs.len() == 0 {
        Seq::empty()
    } else {
        let d = distinct_sources(fs.drop_last());
        if d.contains(fs.last().source_ref) {
            d
        } else {
            d.push(fs.last().source_ref)
        }
    }
}

proof fn lemma_insert_pos_bounds(sorted: Seq<FlowV>, f: FlowV)
    ensures
        0 <= insert_pos(sorted, f) <= sorted.len(),
    decreases sorted.len(),
{
    if sorted.len() > 0 {
        lemma_insert_pos_bounds(sorted.drop_last(), f);
    }
}

/// Inserts a flow into a list sorted by id, after the flows whose id is not greater.
fn insert_sorted(sorted: &mut Vec<BpmnSequenceFlow>, f: BpmnSequenceFlow)
    ensures
        ({
            let s = old(sorted)@.map_values(|x: BpmnSequenceFlow| x@);
            let k = insert_pos(s, f@);
            final(sorted)@.map_values(|x: BpmnSequenceFlow| x@) == s.subrange(0, k).push(f@) + s.subrange(k, s.len() as int)
        }),
{
    let ghost s = sorted@.map_values(|x: BpmnSequenceFlow| x@);
    let mut k: usize = sorted.len();
    assert(s.subrange(0, s.len() as int) == s);
    while k > 0 && str_lt(f.id.as_str(), sorted[k - 1].id.as_str())
        invariant
            k <= sorted@.len(),
            s == sorted@.map_values(|x: BpmnSequenceFlow| x@),
            insert_pos(s, f@) == insert_pos(s.subrange(0, k as int), f@),
        decreases k,
    {
        proof {
            let pre = s.subrange(0, k as int);
            assert(pre.drop_last() == s.subrange(0, k - 1));
            assert(pre.last() == sorted@[k - 1]@);
        }
        k -= 1;
    }
    proof {
        let pre = s.subrange(0, k as int);
        if k > 0 {
            assert(pre.last() == sorted@[k - 1]@);
        }
        assert(insert_pos(pre, f@) == k);
    }
    sorted.insert(k, f);
    assert(sorted@.map_values(|x: BpmnSequenceFlow| x@) =~= s.subrange(0, k as int).push(f@) + s.subrange(k as int, s.len() as int));
}

proof fn lemma_sort_len(fs: Seq<FlowV>)
    ensures
        sort_by_id(fs).len() == fs.len(),
    decreases fs.len(),
{
    if fs.len() > 0 {
        lemma_sort_len(fs.drop_last());
        lemma_insert_pos_bounds(sort_by_id(fs.drop_last()), fs.last());
    }
}

/// A copy of a flow with the same view.
pub fn copy_flow(f: &BpmnSequenceFlow) -> (r: BpmnSequenceFlow)
    ensures
        r@ == f@,
{
    BpmnSequenceFlow {
        id: f.id.clone(),
        source_ref: f.source_ref.clone(),
        target_ref: f.target_ref.clone(),
        name: super::model::copy_opt(&f.name),
    }
}

/// The flows leaving `src`, sorted by id.
fn sorted_flows_from(flows: &Vec<BpmnSequenceFlow>, src: &str) -> (r: Vec<BpmnSequenceFlow>)
    ensures
        r@.map_values(|x: BpmnSequenceFlow| x@) == sort_by_id(flows_from(flows@.map_values(|x: BpmnSequenceFlow| x@), src@)),
{
    let ghost fs = flows@.map_values(|x: BpmnSequenceFlow| x@);
    let mut out: Vec<BpmnSequenceFlow> = Vec::new();
    let mut i: usize = 0;
    while i < flows.len()
        invariant
            i <= flows@.len(),
            fs == flows@.map_values(|x: BpmnSequenceFlow| x@),
            out@.map_values(|x: BpmnSequenceFlow| x@) == sort_by_id(flows_from(fs.subrange(0, i as int), src@)),
        decreases flows@.len() - i,
    {
        proof {
            let pre = fs.subrange(0, i + 1);
            assert(pre.drop_last() == fs.subrange(0, i as int));
            assert(pre.last() == flows@[i as int]@);
        }
        let ghost prev = flows_from(fs.subrange(0, i as int), src@);
        if str_eq(flows[i].source_ref.as_str(), src) {
            let f = copy_flow(&flows[i]);
            insert_sorted(&mut out, f);
            proof {
                assert(flows_from(fs.subrange(0, i + 1), src@) == prev.push(f@));
                assert(prev.push(f@).drop_last() == prev);
            }
        } else {
            assert(flows_from(fs.subrange(0, i + 1), src@) == prev);
        }
        i += 1;
    }
    assert(fs.subrange(0, fs.len() as int) == fs);
    out
}

/// The sources of the flows, each once, in order of first appearance.
fn sources_of(flows: &Vec<BpmnSequenceFlow>) -> (r: Vec<String>)
    ensures
        r@.map_values(|x: String| x@) == distinct_sources(flows@.map_values(|x: BpmnSequenceFlow| x@)),
{
    let ghost fs = flows@.map_values(|x: BpmnSequenceFlow| x@);
    let mut out: Vec<String> = Vec::new();
    let mut i: usize = 0;
    while i < flows.len()
        invariant
            i <= flows@.len(),
            fs == flows@.map_values(|x: BpmnSequenceFlow| x@),
            out@.map_values(|x: String| x@) == distinct_sources(fs.subrange(0, i as int)),
        decreases flows@.len() - i,
    {
        proof {
            let pre = fs.subrange(0, i + 1);
            assert(pre.drop_last() == fs.subrange(0, i as int));
            assert(pre.last() == flows@[i as int]@);
        }
        let ghost d = out@.map_values(|x: String| x@);
        let mut found = false;
        let mut j: usize = 0;
        while j < out.len()
            invariant
                j <= out@.len(),
                i < flows@.len(),
                d == out@.map_values(|x: String| x@),
                found == exists|k: int| 0 <= k < j && d[k] == flows@[i as int].source_ref@,
            decreases out@.len() - j,
        {
            assert(d[j as int] == out@[j as int]@);
            if str_eq(out[j].as_str(), flows[i].source_ref.as_str()) {
                found = true;
            }
            proof {
                if found {
                    assert(exists|k: int| 0 <= k < j + 1 && d[k] == flows@[i as int].source_ref@);
                } else {
                    assert forall|k: int| 0 <= k < j + 1 implies d[k] != flows@[i as int].source_ref@ by {}
                }
            }
            j += 1;
        }
        proof {
            if found {
                let k = choose|k: int| 0 <= k < j && d[k] == flows@[i as int].source_ref@;
                assert(d.contains(flows@[i as int].source_ref@));
            } else {
                assert(!d.contains(flows@[i as int].source_ref@));
            }
        }
        if !found {
            out.push(flows[i].source_ref.clone());
            assert(out@.map_values(|x: String| x@) =~= d.push(flows@[i as int].source_ref@));
        }
        i += 1;
    }
    assert(fs.subrange(0, fs.len() as int) == fs);
    out
}

/// The outgoing flows of each source node, sorted by id.
pub open spec fn spec_outgoing(fs: Seq<FlowV>) -> Seq<(Seq<char>, Seq<FlowV>)> {
    distinct_sources(fs).map_values(|k: Seq<char>| (k, sort_by_id(flows_from(fs, k))))
}

/// For each node that has outgoing flows, those flows sorted by id
/// (equal ids keep their order); nodes appear in order of their first flow.
/// The map is a list of pairs, one per node id, so that its contents and
/// order are stated exactly.
pub fn outgoing_map(proc: &BpmnProcess) -> (r: Vec<(String, Vec<BpmnSequenceFlow>)>)
    ensures
        r@.map_values(|g: (String, Vec<BpmnSequenceFlow>)| (g.0@, g.1@.map_values(|x: BpmnSequenceFlow| x@)))
            == spec_outgoing(proc@.flows),
{
    let srcs = sources_of(&proc.flows);
    let ghost fs = proc@.flows;
    let mut out: Vec<(String, Vec<BpmnSequenceFlow>)> = Vec::new();
    let mut i: usize = 0;
    while i < srcs.len()
        invariant
            i <= srcs@.len(),
            fs == proc@.flows,
            srcs@.map_values(|x: String| x@) == distinct_sources(fs),
            out@.len() == i,
            forall|k: int| 0 <= k < i ==> (#[trigger] out@[k]).0@ == srcs@[k]@
                && out@[k].1@.map_values(|x: BpmnSequenceFlow| x@) == sort_by_id(flows_from(fs, srcs@[k]@)),
        decreases srcs@.len() - i,
    {
        let g = sorted_flows_from(&proc.flows, srcs[i].as_str());
        out.push((srcs[i].clone(), g));
        i += 1;
    }
    proof {
        let lhs = out@.map_values(|g: (String, Vec<BpmnSequenceFlow>)| (g.0@, g.1@.map_values(|x: BpmnSequenceFlow| x@)));
        assert forall|k: int| 0 <= k < lhs.len() implies lhs[k] == spec_outgoing(fs)[k] by {
            assert(srcs@.map_values(|x: String| x@)[k] == srcs@[k]@);
        }
        assert(lhs =~= spec_outgoing(fs));
    }
    out
}

/// The node the walk moves to from `cur`: the target of its outgoing flow
/// with the least id (the first of them when ids are equal).
pub open spec fn spec_next(fs: Seq<FlowV>, cur: Seq<char>) -> Option<Seq<char>> {
    if flows_from(fs, cur).len() == 0 {
        None
    } else {
        Some(sort_by_id(flows_from(fs, cur))[0].target_ref)
    }
}

/// Every node id the walk can visit: the start and every flow target.
pub open spec fn walk_nodes(fs: Seq<FlowV>, start: Seq<char>) -> Set<Seq<char>> {
    fs.map_values(|f: FlowV| f.target_ref).to_set().insert(start)
}

/// The walk from `cur`, having visited `seen`: stops at a visited node or
/// a node without outgoing flows; lists every node moved to.
pub open spec fn spec_walk(fs: Seq<FlowV>, start: Seq<char>, cur: Seq<char>, seen: Set<Seq<char>>) -> Seq<Seq<char>>
    decreases walk_nodes(fs, start).len() - seen.len(),
    when seen.subset_of(walk_nodes(fs, start)) && walk_nodes(fs, start).contains(cur) && seen.finite()
    via walk_decreases
{
    if seen.contains(cur) {
        Seq::empty()
    } else {
        match spec_next(fs, cur) {
            None => Seq::empty(),
            Some(n) => seq![n] + spec_walk(fs, start, n, seen.insert(cur)),
        }
    }
}

/// The next node of a walk is a flow target.
proof fn lemma_next_in_walk_nodes(fs: Seq<FlowV>, start: Seq<char>, cur: Seq<char>)
    requires
        spec_next(fs, cur) is Some,
    ensures
        walk_nodes(fs, start).contains(spec_next(fs, cur)->0),
{
    lemma_sorted_is_flow(flows_from(fs, cur), 0);
    let f = sort_by_id(flows_from(fs, cur))[0];
    lemma_flows_from_in(fs, cur, f);
    let j = choose|j: int| 0 <= j < fs.len() && fs[j] == f;
    assert(fs.map_values(|f: FlowV| f.target_ref)[j] == f.target_ref);
}

proof fn lemma_flows_from_in(fs: Seq<FlowV>, src: Seq<char>, f: FlowV)
    requires
        flows_from(fs, src).contains(f),
    ensures
        exists|j: int| 0 <= j < fs.len() && fs[j] == f,
    decreases fs.len(),
{
    if fs.len() > 0 {
        let r = flows_from(fs.drop_last(), src);
        if fs.last().source_ref == src && f == fs.last() {
            assert(fs[fs.len() - 1] == f);
        } else {
            if fs.last().source_ref == src {
                let k = choose|k: int| 0 <= k < r.push(fs.last()).len() && r.push(fs.last())[k] == f;
                if k < r.len() {
                    assert(r[k] == f);
                    assert(r.contains(f));
                }
            }
            lemma_flows_from_in(fs.drop_last(), src, f);
            let j = choose|j: int| 0 <= j < fs.drop_last().len() && fs.drop_last()[j] == f;
            assert(fs[j] == f);
        }
    }
}

/// Every flow of the sorted list is one of the listed flows.
proof fn lemma_sorted_is_flow(fs: Seq<FlowV>, i: int)
    requires
        0 <= i < sort_by_id(fs).len(),
    ensures
        fs.contains(sort_by_id(fs)[i]),
    decreases fs.len(),
{
    if fs.len() > 0 {
        let s = sort_by_id(fs.drop_last());
        let k = insert_pos(s, fs.last());
        lemma_insert_pos_bounds(s, fs.last());
        lemma_sort_len(fs.drop_last());
        let t = s.subrange(0, k).push(fs.last()) + s.subrange(k, s.len() as int);
        if i == k {
            assert(t[i] == fs.last());
            assert(fs[fs.len() - 1] == fs.last());
        } else {
            let i2 = if i < k { i } else { i - 1 };
            assert(t[i] == s[i2]);
            lemma_sorted_is_flow(fs.drop_last(), i2);
            let j = choose|j: int| 0 <= j < fs.drop_last().len() && fs.drop_last()[j] == s[i2];
            assert(fs[j] == s[i2]);
        }
    }
}

#[via_fn]
proof fn walk_decreases(fs: Seq<FlowV>, start: Seq<char>, cur: Seq<char>, seen: Set<Seq<char>>) {
    broadcast use vstd::seq_lib::seq_to_set_is_finite;
    let w = walk_nodes(fs, start);
    if !seen.contains(cur) {
        if spec_next(fs, cur) is Some {
            lemma_next_in_walk_nodes(fs, start, cur);
            vstd::set_lib::lemma_len_subset(seen.insert(cur), w);
        }
    }
}

/// The node ids reached by following, from the first start event, the
/// outgoing flow with the least id at each step, until a node without
/// outgoing flows or an already visited node; the start itself is not listed.
pub open spec fn spec_linearize(p: BpmnProcessV) -> Seq<Seq<char>> {
    match spec_find_start(p.nodes) {
        None => Seq::empty(),
        Some(s) => spec_walk(p.flows, s, s, Set::empty()),
    }
}

/// Best effort: one linear traversal from the start event, following the
/// first outgoing flow (by id) of each node.
pub fn best_effort_linearize(proc: &BpmnProcess) -> (r: Vec<String>)
    ensures
        r@.map_values(|x: String| x@) == spec_linearize(proc@),
{
    broadcast use vstd::seq_lib::seq_to_set_is_finite;
    let outgoing = outgoing_map(proc);
    let start = match find_start_event_id(proc) {
        Some(s) => s,
        None => {
            let v: Vec<String> = Vec::new();
            assert(v@.map_values(|x: String| x@) =~= Seq::<Seq<char>>::empty());
            return v;
        },
    };
    let ghost fs = proc@.flows;
    let ghost w = walk_nodes(fs, start@);
    let ghost gv = outgoing@.map_values(|g: (String, Vec<BpmnSequenceFlow>)| (g.0@, g.1@.map_values(|x: BpmnSequenceFlow| x@)));
    let mut cur: String = start.to_owned();
    let mut seen: Vec<String> = Vec::new();
    let ghost mut seen_set: Set<Seq<char>> = Set::empty();
    let mut order: Vec<String> = Vec::new();
    assert(w.contains(start@));
    loop
        invariant
            fs == proc@.flows,
            w == walk_nodes(fs, start@),
            w.finite(),
            gv == spec_outgoing(fs),
            gv == outgoing@.map_values(|g: (String, Vec<BpmnSequenceFlow>)| (g.0@, g.1@.map_values(|x: BpmnSequenceFlow| x@))),
            seen_set.finite(),
            seen_set.subset_of(w),
            w.contains(cur@),
            forall|x: Seq<char>| seen_set.contains(x) <==> seen@.map_values(|s: String| s@).contains(x),
            spec_linearize(proc@) == order@.map_values(|x: String| x@) + spec_walk(fs, start@, cur@, seen_set),
            spec_find_start(proc@.nodes) == Some(start@),
        decreases w.len() - seen_set.len(),
    {
        // has `cur` been visited?
        let mut visited = false;
        let mut j: usize = 0;
        while j < seen.len()
            invariant
                j <= seen@.len(),
                visited == exists|k: int| 0 <= k < j && seen@[k]@ == cur@,
            decreases seen@.len() - j,
        {
            if str_eq(seen[j].as_str(), cur.as_str()) {
                visited = true;
            }
            j += 1;
        }
        proof {
            let sv = seen@.map_values(|s: String| s@);
            if visited {
                let k = choose|k: int| 0 <= k < j && seen@[k]@ == cur@;
                assert(sv[k] == cur@);
                assert(sv.contains(cur@));
            } else {
                if sv.contains(cur@) {
                    let k = choose|k: int| 0 <= k < sv.len() && sv[k] == cur@;
                    assert(seen@[k]@ == cur@);
                }
            }
        }
        if visited {
            assert(order@.map_values(|x: String| x@) + Seq::<Seq<char>>::empty() == order@.map_values(|x: String| x@));
            return order;
        }
        // the group of `cur`
        let mut gi: usize = 0;
        while gi < outgoing.len() && !str_eq(outgoing[gi].0.as_str(), cur.as_str())
            invariant
                gi <= outgoing@.len(),
                forall|k: int| 0 <= k < gi ==> outgoing@[k].0@ != cur@,
            decreases outgoing@.len() - gi,
        {
            gi += 1;
        }
        proof {
            lemma_outgoing_lookup(fs, cur@, gv, gi as int);
        }
        if gi == outgoing.len() || outgoing[gi].1.len() == 0 {
            assert(order@.map_values(|x: String| x@) + Seq::<Seq<char>>::empty() == order@.map_values(|x: String| x@));
            return order;
        }
        let next = outgoing[gi].1[0].target_ref.clone();
        proof {
            assert(gv[gi as int].1[0] == outgoing@[gi as int].1@[0]@);
            lemma_next_in_walk_nodes(fs, start@, cur@);
            vstd::set_lib::lemma_len_subset(seen_set.insert(cur@), w);
        }
        let ghost old_order = order@.map_values(|x: String| x@);
        order.push(next.clone());
        proof {
            assert(order@.map_values(|x: String| x@) =~= old_order.push(next@));
            assert(old_order + (seq![next@] + spec_walk(fs, start@, next@, seen_set.insert(cur@)))
                =~= old_order.push(next@) + spec_walk(fs, start@, next@, seen_set.insert(cur@)));
        }
        let ghost old_seen = seen@.map_values(|s: String| s@);
        seen.push(cur);
        proof {
            assert(seen@.map_values(|s: String| s@) =~= old_seen.push(cur@));
            seen_set = seen_set.insert(cur@);
            assert forall|x: Seq<char>| seen_set.contains(x) <==> seen@.map_values(|s: String| s@).contains(x) by {
                let sv = seen@.map_values(|s: String| s@);
                if sv.contains(x) {
                    let k = choose|k: int| 0 <= k < sv.len() && sv[k] == x;
                    if k < old_seen.len() {
                        assert(old_seen[k] == x);
                    }
                }
                if old_seen.contains(x) {
                    let k = choose|k: int| 0 <= k < old_seen.len() && old_seen[k] == x;
                    assert(sv[k] == x);
                }
                if x == cur@ {
                    assert(sv[sv.len() - 1] == x);
                }
            }
        }
        cur = next;
    }
}

/// Looking a node up in the outgoing table finds its sorted outgoing flows.
proof fn lemma_outgoing_lookup(fs: Seq<FlowV>, cur: Seq<char>, gv: Seq<(Seq<char>, Seq<FlowV>)>, gi: int)
    requires
        gv == spec_outgoing(fs),
        0 <= gi <= gv.len(),
        forall|k: int| 0 <= k < gi ==> gv[k].0 != cur,
        gi < gv.len() ==> gv[gi].0 == cur,
    ensures
        gi == gv.len() ==> flows_from(fs, cur).len() == 0,
        gi < gv.len() ==> gv[gi].1 == sort_by_id(flows_from(fs, cur)),
        gi < gv.len() ==> gv[gi].1.len() == flows_from(fs, cur).len(),
{
    lemma_sort_len(flows_from(fs, cur));
    if gi == gv.len() {
        if flows_from(fs, cur).len() != 0 {
            lemma_source_listed(fs, cur);
            let d = distinct_sources(fs);
            let k = choose|k: int| 0 <= k < d.len() && d[k] == cur;
            assert(gv[k].0 == d[k]);
        }
    }
}

/// A node with outgoing flows is listed among the sources.
proof fn lemma_source_listed(fs: Seq<FlowV>, src: Seq<char>)
    requires
        flows_from(fs, src).len() != 0,
    ensures
        distinct_sources(fs).contains(src),
    decreases fs.len(),
{
    if fs.len() > 0 {
        let d = distinct_sources(fs.drop_last());
        if fs.last().source_ref == src {
            if !d.contains(src) {
                assert(d.push(src)[d.len() as int] == src);
            }
        } else {
            lemma_source_listed(fs.drop_last(), src);
            let k = choose|k: int| 0 <= k < d.len() && d[k] == src;
            if !d.contains(fs.last().source_ref) {
                assert(d.push(fs.last().source_ref)[k] == src);
            }
        }
    }
}

/// No flow of the list has an id that sorts before that of an earlier one.
pub open spec fn sorted_by_id(s: Seq<FlowV>) -> bool {
    forall|i: int, j: int| 0 <= i < j < s.len() ==> !seq_lt(#[trigger] s[j].id, #[trigger] s[i].id)
}

/// Every flow after the insert position has a greater id than the inserted one.
proof fn lemma_insert_pos_after(sorted: Seq<FlowV>, f: FlowV)
    ensures
        forall|j: int| insert_pos(sorted, f) <= j < sorted.len() ==> seq_lt(f.id, #[trigger] sorted[j].id),
    decreases sorted.len(),
{
    if sorted.len() > 0 && seq_lt(f.id, sorted.last().id) {
        let t = sorted.drop_last();
        lemma_insert_pos_after(t, f);
        lemma_insert_pos_bounds(t, f);
        assert forall|j: int| insert_pos(sorted, f) <= j < sorted.len() implies seq_lt(f.id, #[trigger] sorted[j].id) by {
            if j < t.len() {
                assert(sorted[j] == t[j]);
            }
        }
    }
}

/// The flow just before the insert position has an id that is not greater.
proof fn lemma_insert_pos_before(sorted: Seq<FlowV>, f: FlowV)
    ensures
        insert_pos(sorted, f) > 0 ==> !seq_lt(f.id, sorted[insert_pos(sorted, f) - 1].id),
    decreases sorted.len(),
{
    if sorted.len() > 0 && seq_lt(f.id, sorted.last().id) {
        let t = sorted.drop_last();
        lemma_insert_pos_before(t, f);
        lemma_insert_pos_bounds(t, f);
        if insert_pos(t, f) > 0 {
            assert(sorted[insert_pos(t, f) - 1] == t[insert_pos(t, f) - 1]);
        }
    }
}

/// Sorting by id gives a list sorted by id.
proof fn lemma_sort_sorted(fs: Seq<FlowV>)
    ensures
        sorted_by_id(sort_by_id(fs)),
    decreases fs.len(),
{
    if fs.len() > 0 {
        let s = sort_by_id(fs.drop_last());
        let f = fs.last();
        let k = insert_pos(s, f);
        lemma_sort_sorted(fs.drop_last());
        lemma_insert_pos_bounds(s, f);
        lemma_insert_pos_after(s, f);
        lemma_insert_pos_before(s, f);
        let t = s.subrange(0, k).push(f) + s.subrange(k, s.len() as int);
        assert(t.len() == s.len() + 1);
        assert forall|i: int, j: int| 0 <= i < j < t.len() implies !seq_lt(#[trigger] t[j].id, #[trigger] t[i].id) by {
            if j < k {
                assert(t[i] == s[i] && t[j] == s[j]);
            } else if j == k {
                assert(t[i] == s[i] && t[j] == f);
                if seq_lt(f.id, s[i].id) {
                    if i < k - 1 {
                        assert(t[k - 1] == s[k - 1]);
                        assert(!seq_lt(s[k - 1].id, s[i].id));
                        if s[k - 1].id == s[i].id {
                        } else {
                            lemma_seq_lt_total(s[k - 1].id, s[i].id);
                            lemma_seq_lt_transitive(f.id, s[i].id, s[k - 1].id);
                        }
                    }
                }
            } else if i == k {
                assert(t[i] == f && t[j] == s[j - 1]);
                assert(seq_lt(f.id, s[j - 1].id));
                if seq_lt(s[j - 1].id, f.id) {
                    lemma_seq_lt_transitive(f.id, s[j - 1].id, f.id);
                    lemma_seq_lt_irreflexive(f.id);
                }
            } else if i < k {
                assert(t[i] == s[i] && t[j] == s[j - 1]);
            } else {
                assert(t[i] == s[i - 1] && t[j] == s[j - 1]);
            }
        }
    }
}

/// Every listed flow is in the sorted list.
proof fn lemma_flow_in_sorted(fs: Seq<FlowV>, g: FlowV)
    requires
        fs.contains(g),
    ensures
        sort_by_id(fs).contains(g),
    decreases fs.len(),
{
    let s = sort_by_id(fs.drop_last());
    let f = fs.last();
    let k = insert_pos(s, f);
    lemma_insert_pos_bounds(s, f);
    let t = s.subrange(0, k).push(f) + s.subrange(k, s.len() as int);
    if g == f {
        assert(t[k] == f);
    } else {
        let m = choose|m: int| 0 <= m < fs.len() && fs[m] == g;
        assert(fs.drop_last()[m] == g);
        lemma_flow_in_sorted(fs.drop_last(), g);
        let q = choose|q: int| 0 <= q < s.len() && s[q] == g;
        if q < k {
            assert(t[q] == g);
        } else {
            assert(t[q + 1] == g);
        }
    }
}

/// The flows leaving a node are exactly the listed flows with that source.
proof fn lemma_flows_from_contains(fs: Seq<FlowV>, src: Seq<char>, g: FlowV)
    ensures
        flows_from(fs, src).contains(g) <==> fs.contains(g) && g.source_ref == src,
    decreases fs.len(),
{
    if fs.len() > 0 {
        let t = fs.drop_last();
        let r = flows_from(t, src);
        lemma_flows_from_contains(t, src, g);
        if r.contains(g) {
            let q = choose|q: int| 0 <= q < r.len() && r[q] == g;
            if fs.last().source_ref == src {
                assert(r.push(fs.last())[q] == g);
            }
        }
        if t.contains(g) {
            let q = choose|q: int| 0 <= q < t.len() && t[q] == g;
            assert(fs[q] == g);
        }
        if fs.contains(g) && g.source_ref == src {
            let q = choose|q: int| 0 <= q < fs.len() && fs[q] == g;
            if q < t.len() {
                assert(t[q] == g);
            } else {
                assert(r.push(fs.last())[r.len() as int] == g);
            }
        }
        if fs.last().source_ref == src && flows_from(fs, src).contains(g) {
            let q = choose|q: int| 0 <= q < r.len() + 1 && r.push(fs.last())[q] == g;
            if q < r.len() {
                assert(r[q] == g);
            } else {
                assert(fs[fs.len() - 1] == g);
            }
        }
    }
}

/// The first flow of the sorted list is the first listed flow among those
/// with the least id: every flow listed before it has a greater id.
proof fn lemma_sorted_first(fs: Seq<FlowV>)
    requires
        fs.len() > 0,
    ensures
        exists|m: int|
            0 <= m < fs.len() && fs[m] == sort_by_id(fs)[0] && forall|q: int|
                0 <= q < m ==> seq_lt(sort_by_id(fs)[0].id, #[trigger] fs[q].id),
    decreases fs.len(),
{
    let x = fs.drop_last();
    let s = sort_by_id(x);
    let f = fs.last();
    let k = insert_pos(s, f);
    lemma_insert_pos_bounds(s, f);
    lemma_sort_len(x);
    let t = s.subrange(0, k).push(f) + s.subrange(k, s.len() as int);
    if k == 0 {
        assert(t[0] == f);
        lemma_insert_pos_after(s, f);
        assert forall|q: int| 0 <= q < fs.len() - 1 implies seq_lt(f.id, #[trigger] fs[q].id) by {
            assert(x[q] == fs[q]);
            lemma_flow_in_sorted(x, fs[q]);
            let r = choose|r: int| 0 <= r < s.len() && s[r] == fs[q];
        }
        assert(fs[fs.len() - 1] == f);
    } else {
        assert(t[0] == s[0]);
        lemma_sorted_first(x);
        let m = choose|m: int|
            0 <= m < x.len() && x[m] == s[0] && forall|q: int| 0 <= q < m ==> seq_lt(s[0].id, #[trigger] x[q].id);
        assert(fs[m] == x[m]);
        assert forall|q: int| 0 <= q < m implies seq_lt(t[0].id, #[trigger] fs[q].id) by {
            assert(fs[q] == x[q]);
        }
    }
}

/// The walk moves from `cur` along its outgoing flow with the least id:
/// it moves to `n` only when some flow leads from `cur` to `n` and no flow
/// leaving `cur` has a smaller id (among flows with that id, the first one
/// listed); it stops only where no flow leaves `cur`.
pub proof fn lemma_next_least_id(fs: Seq<FlowV>, cur: Seq<char>)
    ensures
        match spec_next(fs, cur) {
            Some(n) => exists|f: FlowV|
                #![trigger fs.contains(f)]
                fs.contains(f) && f.source_ref == cur && f.target_ref == n && forall|g: FlowV|
                    fs.contains(g) && g.source_ref == cur ==> !seq_lt(g.id, f.id),
            None => forall|g: FlowV| fs.contains(g) ==> g.source_ref != cur,
        },
        spec_next(fs, cur) matches Some(n) ==> exists|m: int|
            #![trigger flows_from(fs, cur)[m]]
            0 <= m < flows_from(fs, cur).len() && flows_from(fs, cur)[m].target_ref == n && forall|q: int|
                0 <= q < m ==> seq_lt(flows_from(fs, cur)[m].id, #[trigger] flows_from(fs, cur)[q].id),
{
    let out = flows_from(fs, cur);
    lemma_sort_len(out);
    match spec_next(fs, cur) {
        Some(n) => {
            let srt = sort_by_id(out);
            let f = srt[0];
            lemma_sorted_is_flow(out, 0);
            lemma_flows_from_contains(fs, cur, f);
            lemma_sort_sorted(out);
            assert forall|g: FlowV| fs.contains(g) && g.source_ref == cur implies !seq_lt(g.id, f.id) by {
                lemma_flows_from_contains(fs, cur, g);
                lemma_flow_in_sorted(out, g);
                let m = choose|m: int| 0 <= m < srt.len() && srt[m] == g;
                if m == 0 {
                    lemma_seq_lt_irreflexive(f.id);
                } else {
                    assert(!seq_lt(srt[m].id, srt[0].id));
                }
            }
            assert(fs.contains(f));
            lemma_sorted_first(out);
        },
        None => {
            assert forall|g: FlowV| fs.contains(g) implies g.source_ref != cur by {
                lemma_flows_from_contains(fs, cur, g);
                if g.source_ref == cur {
                    let q = choose|q: int| 0 <= q < out.len() && out[q] == g;
                }
            }
        },
    }
}

/// Each node a walk lists is the next node (see [`spec_next`]) of the node
/// listed before it, or of `cur` for the first.
proof fn lemma_walk_steps(fs: Seq<FlowV>, start: Seq<char>, cur: Seq<char>, seen: Set<Seq<char>>)
    requires
        seen.subset_of(walk_nodes(fs, start)),
        walk_nodes(fs, start).contains(cur),
        seen.finite(),
    ensures
        forall|i: int|
            0 <= i < spec_walk(fs, start, cur, seen).len() ==> spec_next(
                fs,
                if i == 0 {
                    cur
                } else {
                    spec_walk(fs, start, cur, seen)[i - 1]
                },
            ) == Some(#[trigger] spec_walk(fs, start, cur, seen)[i]),
    decreases walk_nodes(fs, start).len() - seen.len(),
{
    broadcast use vstd::seq_lib::seq_to_set_is_finite;
    if !seen.contains(cur) {
        if let Some(n) = spec_next(fs, cur) {
            lemma_next_in_walk_nodes(fs, start, cur);
            vstd::set_lib::lemma_len_subset(seen.insert(cur), walk_nodes(fs, start));
            lemma_walk_steps(fs, start, n, seen.insert(cur));
            let w = spec_walk(fs, start, cur, seen);
            let rest = spec_walk(fs, start, n, seen.insert(cur));
            assert(w == seq![n] + rest);
            assert forall|i: int| 0 <= i < w.len() implies spec_next(fs, if i == 0 {
                cur
            } else {
                w[i - 1]
            }) == Some(#[trigger] w[i]) by {
                if i > 0 {
                    assert(w[i] == rest[i - 1]);
                    if i > 1 {
                        assert(w[i - 1] == rest[i - 2]);
                    }
                }
            }
        }
    }
}

/// The node the linear walk stands on before it moves to its `i`-th node:
/// the start event for the first, else the node listed before.
pub open spec fn linearize_prev(p: BpmnProcessV, i: int) -> Seq<char> {
    if i == 0 {
        spec_find_start(p.nodes)->0
    } else {
        spec_linearize(p)[i - 1]
    }
}

/// The linear walk of a process follows, at each node, the outgoing flow
/// with the least id: every node it lists is the target of a flow leaving
/// the node listed before it (the start event for the first), no flow
/// leaving that node has a smaller id, and every flow leaving it that is
/// listed before the one followed has a greater id.
pub proof fn lemma_linearize_follows_least_id(p: BpmnProcessV, i: int)
    requires
        0 <= i < spec_linearize(p).len(),
    ensures
        ({
            let prev = linearize_prev(p, i);
            let out = flows_from(p.flows, prev);
            &&& exists|f: FlowV|
                #![trigger p.flows.contains(f)]
                p.flows.contains(f) && f.source_ref == prev && f.target_ref == spec_linearize(p)[i] && forall|g: FlowV|
                    p.flows.contains(g) && g.source_ref == prev ==> !seq_lt(g.id, f.id)
            &&& exists|m: int|
                #![trigger out[m]]
                0 <= m < out.len() && out[m].target_ref == spec_linearize(p)[i] && forall|q: int|
                    0 <= q < m ==> seq_lt(out[m].id, #[trigger] out[q].id)
        }),
{
    let s = spec_find_start(p.nodes)->0;
    let w = spec_linearize(p);
    let prev = linearize_prev(p, i);
    assert(spec_next(p.flows, prev) == Some(w[i])) by {
        broadcast use vstd::seq_lib::seq_to_set_is_finite;
        assert(spec_find_start(p.nodes) is Some);
        assert(w == spec_walk(p.flows, s, s, Set::empty()));
        lemma_walk_steps(p.flows, s, s, Set::empty());
    }
    lemma_next_least_id(p.flows, prev);
}

/// The node a walk from `cur` that listed `w` stands on after `k` moves.
pub open spec fn walk_at(cur: Seq<char>, w: Seq<Seq<char>>, k: int) -> Seq<char> {
    if k == 0 {
        cur
    } else {
        w[k - 1]
    }
}

/// A walk moves only from nodes not visited before, each once, and ends on
/// a node without outgoing flows or on one already visited.
proof fn lemma_walk_end(fs: Seq<FlowV>, start: Seq<char>, cur: Seq<char>, seen: Set<Seq<char>>)
    requires
        seen.subset_of(walk_nodes(fs, start)),
        walk_nodes(fs, start).contains(cur),
        seen.finite(),
    ensures
        ({
            let w = spec_walk(fs, start, cur, seen);
            let e = walk_at(cur, w, w.len() as int);
            &&& forall|k: int| 0 <= k < w.len() ==> !seen.contains(#[trigger] walk_at(cur, w, k))
            &&& forall|a: int, b: int|
                0 <= a < b < w.len() ==> #[trigger] walk_at(cur, w, a) != #[trigger] walk_at(cur, w, b)
            &&& spec_next(fs, e) is None || seen.contains(e) || exists|k: int|
                0 <= k < w.len() && #[trigger] walk_at(cur, w, k) == e
        }),
    decreases walk_nodes(fs, start).len() - seen.len(),
{
    broadcast use vstd::seq_lib::seq_to_set_is_finite;
    let w = spec_walk(fs, start, cur, seen);
    if !seen.contains(cur) {
        if let Some(n) = spec_next(fs, cur) {
            lemma_next_in_walk_nodes(fs, start, cur);
            vstd::set_lib::lemma_len_subset(seen.insert(cur), walk_nodes(fs, start));
            let seen2 = seen.insert(cur);
            lemma_walk_end(fs, start, n, seen2);
            let rest = spec_walk(fs, start, n, seen2);
            assert(w == seq![n] + rest);
            assert forall|k: int| 1 <= k <= w.len() implies walk_at(cur, w, k) == walk_at(n, rest, k - 1) by {
                if k > 1 {
                    assert(w[k - 1] == rest[k - 2]);
                }
            }
            assert forall|k: int| 0 <= k < w.len() implies !seen.contains(#[trigger] walk_at(cur, w, k)) by {
                if k > 0 {
                    assert(walk_at(cur, w, k) == walk_at(n, rest, k - 1));
                }
            }
            assert forall|a: int, b: int| 0 <= a < b < w.len() implies #[trigger] walk_at(cur, w, a) != #[trigger] walk_at(
                cur,
                w,
                b,
            ) by {
                assert(walk_at(cur, w, b) == walk_at(n, rest, b - 1));
                if a > 0 {
                    assert(walk_at(cur, w, a) == walk_at(n, rest, a - 1));
                } else {
                    assert(!seen2.contains(walk_at(n, rest, b - 1)));
                }
            }
            let e = walk_at(cur, w, w.len() as int);
            assert(e == walk_at(n, rest, rest.len() as int));
            if spec_next(fs, e) is Some && !seen.contains(e) {
                if seen2.contains(e) {
                    assert(e == cur);
                    assert(walk_at(cur, w, 0) == e);
                } else {
                    let k = choose|k: int| 0 <= k < rest.len() && #[trigger] walk_at(n, rest, k) == e;
                    assert(walk_at(cur, w, k + 1) == e);
                }
            }
        }
    }
}

/// The linear walk moves on from a node at most once and stops only where
/// it has to: the nodes it moves from (the start event, then each listed
/// node but the last) are pairwise distinct, and the node it ends on has
/// no outgoing flow or is one it already moved from. A process without a
/// start event gives no nodes.
pub proof fn lemma_linearize_stops(p: BpmnProcessV)
    ensures
        spec_find_start(p.nodes) is None ==> spec_linearize(p).len() == 0,
        forall|a: int, b: int|
            0 <= a < b < spec_linearize(p).len() ==> #[trigger] linearize_prev(p, a) != #[trigger] linearize_prev(p, b),
        spec_find_start(p.nodes) is Some ==> ({
            let e = linearize_prev(p, spec_linearize(p).len() as int);
            (forall|g: FlowV| p.flows.contains(g) ==> g.source_ref != e) || exists|k: int|
                0 <= k < spec_linearize(p).len() && #[trigger] linearize_prev(p, k) == e
        }),
{
    broadcast use vstd::seq_lib::seq_to_set_is_finite;
    if let Some(s) = spec_find_start(p.nodes) {
        let w = spec_linearize(p);
        assert(w == spec_walk(p.flows, s, s, Set::empty()));
        lemma_walk_end(p.flows, s, s, Set::empty());
        assert forall|k: int| 0 <= k <= w.len() implies #[trigger] linearize_prev(p, k) == walk_at(s, w, k) by {}
        let e = linearize_prev(p, w.len() as int);
        assert(e == walk_at(s, w, w.len() as int));
        lemma_next_least_id(p.flows, e);
        if !(forall|g: FlowV| p.flows.contains(g) ==> g.source_ref != e) {
            let k = choose|k: int| 0 <= k < w.len() && #[trigger] walk_at(s, w, k) == e;
            assert(linearize_prev(p, k) == e);
        }
        assert forall|a: int, b: int| 0 <= a < b < w.len() implies #[trigger] linearize_prev(p, a) != #[trigger] linearize_prev(p, b) by {
            assert(linearize_prev(p, a) == walk_at(s, w, a));
            assert(linearize_prev(p, b) == walk_at(s, w, b));
        }
    }
}

} // verus!
