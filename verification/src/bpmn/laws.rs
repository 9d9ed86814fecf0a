//! What holds across the conversions between modules and processes.

use vstd::prelude::*;
use crate::ast::{FieldV, FunctionKind, FunctionV, ModuleV, ParamV, TypeDeclV, TypeKind, TypeRefV};
use crate::text::{lemma_trimmed_ends, is_ws, lemma_ws_prefix, lemma_ws_suffix, trim};
use vstd::utf8::encode_utf8;
use super::xmltext::{lacks, lemma_split_append, lemma_split_single, kv_entry, kv_piece, kv_pieces, lemma_first_index, spec_kv_decode, spec_kv_encode, split_on, hex_digit, hex_val, spec_hex_decode_bytes, spec_hex_encode};
use super::from_module::{end_node, field_sig, fn_node, node_bases, opt_type_name, param_sig, spec_kind_name, spec_module_to_process, spec_type_name, start_node, type_node, unique_ids};
use super::model::{BpmnNodeV, SigV};
use super::to_module::{conv_nodes, conv_step, empty_conv, has_function, is_bool_name, is_number_name, is_string_name, opt_map_type, sig_field, sig_param, spec_map_type_kind, spec_map_type_ref, spec_process_to_module};

verus! {

/// A type that is written to a node and read back as itself: a custom
/// name must be trimmed and must not be a built-in type name.
pub open spec fn canonical_type(t: TypeRefV) -> bool {
    match t {
        TypeRefV::Custom(s) => trim(s) == s && !is_number_name(s) && !is_string_name(s)
            && !is_bool_name(s),
        _ => true,
    }
}

pub open spec fn canonical_opt_type(t: Option<TypeRefV>) -> bool {
    match t {
        Some(t) => canonical_type(t),
        None => true,
    }
}

/// The modules the process form gives back unchanged: every type is
/// canonical, every function is a plain (untagged) one, and there is a
/// `main` (otherwise reading the process back adds one).
pub open spec fn round_trips(m: ModuleV) -> bool {
    &&& forall|i: int, j: int|
        0 <= i < m.types.len() && 0 <= j < m.types[i].fields.len() ==> canonical_type(
            #[trigger] m.types[i].fields[j].ty,
        )
    &&& forall|i: int| 0 <= i < m.functions.len() ==> (#[trigger] m.functions[i]).kind
        == FunctionKind::Normal
    &&& forall|i: int, j: int|
        0 <= i < m.functions.len() && 0 <= j < m.functions[i].params.len() ==> canonical_type(
            #[trigger] m.functions[i].params[j].ty,
        )
    &&& forall|i: int|
        0 <= i < m.functions.len() ==> canonical_opt_type(#[trigger] m.functions[i].return_type)
    &&& has_function(m.functions, "main"@)
}

/// Reading a type name written for a canonical type gives the type back.
pub proof fn lemma_type_name_round_trip(t: TypeRefV)
    requires
        canonical_type(t),
    ensures
        spec_map_type_ref(spec_type_name(t)) == t,
{
    reveal_strlit("number");
    reveal_strlit("string");
    reveal_strlit("boolean");
    reveal_strlit("i32");
    reveal_strlit("i64");
    reveal_strlit("u32");
    reveal_strlit("u64");
    reveal_strlit("usize");
    reveal_strlit("isize");
    reveal_strlit("f32");
    reveal_strlit("f64");
    reveal_strlit("String");
    reveal_strlit("str");
    reveal_strlit("bool");
    match t {
        TypeRefV::Number => {
            assert(trim("number"@) =~= "number"@);
        },
        TypeRefV::Str => {
            assert(trim("string"@) =~= "string"@);
        },
        TypeRefV::Bool => {
            assert(trim("boolean"@) =~= "boolean"@);
        },
        TypeRefV::Custom(s) => {},
    }
}

/// Reading a kind name back gives the kind.
pub proof fn lemma_kind_name_round_trip(k: TypeKind)
    ensures
        spec_map_type_kind(spec_kind_name(k)) == k,
{
    reveal_strlit("struct");
    reveal_strlit("interface");
    assert(trim("struct"@) =~= "struct"@);
    assert(trim("interface"@) =~= "interface"@);
}

proof fn lemma_type_decl_back(t: TypeDeclV, id: Seq<char>)
    requires
        forall|j: int| 0 <= j < t.fields.len() ==> canonical_type(#[trigger] t.fields[j].ty),
    ensures
        (TypeDeclV {
            name: t.name,
            kind: spec_map_type_kind(spec_kind_name(t.kind)),
            fields: t.fields.map_values(|f: FieldV| field_sig(f)).map_values(|f: SigV| sig_field(f)),
        }) == t,
{
    lemma_kind_name_round_trip(t.kind);
    let sigs = t.fields.map_values(|f: FieldV| field_sig(f));
    let back = sigs.map_values(|f: SigV| sig_field(f));
    assert forall|j: int| 0 <= j < t.fields.len() implies back[j] == t.fields[j] by {
        lemma_type_name_round_trip(t.fields[j].ty);
    }
    assert(back =~= t.fields);
}

/// The node loop over the start event, the type nodes and the function
/// nodes of a module's process.
proof fn lemma_conv_prefix(m: ModuleV, n: int)
    requires
        round_trips(m),
        0 <= n <= m.types.len() + m.functions.len(),
    ensures
        ({
            let ns = spec_module_to_process(m).nodes;
            let nt = m.types.len() as int;
            let st = conv_nodes(ns.subrange(0, n + 1));
            &&& st.used.len() == 0
            &&& st.fn_ids.len() == 0
            &&& st.fn_names.len() == 0
            &&& st.inline_ids.len() == 0
            &&& st.inline_lines.len() == 0
            &&& n <= nt ==> st.types == m.types.subrange(0, n) && st.functions.len() == 0
            &&& n > nt ==> st.types == m.types && st.functions == m.functions.subrange(0, n - nt)
        }),
    decreases n,
{
    let p = spec_module_to_process(m);
    let ns = p.nodes;
    let nt = m.types.len() as int;
    let nf = m.functions.len() as int;
    let ids = unique_ids(node_bases(m));
    let fn_ids = ids.subrange(nt, nt + nf);
    assert(ns.len() == nt + nf + 2);
    if n == 0 {
        assert(ns.subrange(0, 1).drop_last() =~= Seq::<BpmnNodeV>::empty());
        assert(ns[0] == start_node());
        assert(conv_nodes(Seq::<BpmnNodeV>::empty()) == empty_conv());
        assert(ns.subrange(0, 1).last() == start_node());
        assert(conv_nodes(ns.subrange(0, 1)) == conv_step(empty_conv(), start_node()));
        assert(m.types.subrange(0, 0) =~= Seq::<TypeDeclV>::empty());
    } else {
        lemma_conv_prefix(m, n - 1);
        let prev = conv_nodes(ns.subrange(0, n));
        assert(ns.subrange(0, n + 1).drop_last() =~= ns.subrange(0, n));
        assert(conv_nodes(ns.subrange(0, n + 1)) == conv_step(prev, ns[n]));
        if n <= nt {
            let t = m.types[n - 1];
            assert(ns[n] == type_node(t, ids[n - 1]));
            assert forall|j: int| 0 <= j < t.fields.len() implies canonical_type(
                #[trigger] t.fields[j].ty,
            ) by {
                assert(canonical_type(m.types[n - 1].fields[j].ty));
            }
            lemma_type_decl_back(t, ids[n - 1]);
            assert(m.types.subrange(0, n) =~= m.types.subrange(0, n - 1).push(t));
        } else {
            let k = n - 1 - nt;
            let f = m.functions[k];
            assert(ns[n] == fn_node(f, fn_ids[k]));
            lemma_fn_back(m, k);
            assert(m.functions.subrange(0, k + 1) =~= m.functions.subrange(0, k).push(f));
            if k == 0 {
                assert(m.types.subrange(0, nt) =~= m.types);
            }
        }
    }
}

proof fn lemma_fn_back(m: ModuleV, k: int)
    requires
        round_trips(m),
        0 <= k < m.functions.len(),
    ensures
        ({
            let f = m.functions[k];
            FunctionV {
                name: f.name,
                params: f.params.map_values(|p: ParamV| param_sig(p)).map_values(
                    |p: SigV| sig_param(p),
                ),
                return_type: opt_map_type(opt_type_name(f.return_type)),
                kind: FunctionKind::Normal,
                body: f.body,
            } == f
        }),
{
    let f = m.functions[k];
    let back = f.params.map_values(|p: ParamV| param_sig(p)).map_values(|p: SigV| sig_param(p));
    assert forall|j: int| 0 <= j < f.params.len() implies back[j] == f.params[j] by {
        assert(canonical_type(m.functions[k].params[j].ty));
        lemma_type_name_round_trip(f.params[j].ty);
    }
    assert(back =~= f.params);
    assert(canonical_opt_type(m.functions[k].return_type));
    match f.return_type {
        Some(t) => lemma_type_name_round_trip(t),
        None => {},
    }
    assert(f.kind == FunctionKind::Normal);
}

/// Writing a module as a process and reading the process back gives the
/// module again, for every module whose types are canonical, whose
/// functions are plain and which has a `main`.
pub proof fn lemma_module_process_round_trip(m: ModuleV)
    requires
        round_trips(m),
    ensures
        spec_process_to_module(spec_module_to_process(m)) == m,
{
    let p = spec_module_to_process(m);
    let ns = p.nodes;
    let nt = m.types.len() as int;
    let nf = m.functions.len() as int;
    lemma_conv_prefix(m, nt + nf);
    let pre = conv_nodes(ns.subrange(0, 1 + nt + nf));
    assert(ns.subrange(0, 2 + nt + nf).drop_last() =~= ns.subrange(0, 1 + nt + nf));
    assert(ns[1 + nt + nf] == end_node());
    let st = conv_nodes(ns.subrange(0, 2 + nt + nf));
    assert(st == conv_step(pre, end_node()));
    assert(ns.subrange(0, 2 + nt + nf) =~= ns);
    if nf == 0 {
        assert(m.types.subrange(0, nt) =~= m.types);
    }
    if nf == 0 {
        assert(!has_function(m.functions, "main"@));
    }
    assert(st.types == m.types);
    assert(m.functions.subrange(0, nf) =~= m.functions);
    assert(st.functions == m.functions);
}

/// Text of ASCII characters.
pub open spec fn is_ascii_text(s: Seq<char>) -> bool {
    forall|i: int| 0 <= i < s.len() ==> (#[trigger] s[i] as u32) < 128
}

/// The bytes of ASCII text: one per character, its code.
pub open spec fn ascii_bytes(s: Seq<char>) -> Seq<u8> {
    s.map_values(|c: char| (c as u32) as u8)
}

/// UTF-8 encodes ASCII text one byte per character.
pub proof fn lemma_ascii_utf8(s: Seq<char>)
    requires
        is_ascii_text(s),
    ensures
        encode_utf8(s) == ascii_bytes(s),
    decreases s.len(),
{
    if s.len() > 0 {
        let rest = s.drop_first();
        assert forall|i: int| 0 <= i < rest.len() implies (#[trigger] rest[i] as u32) < 128 by {
            assert(rest[i] == s[i + 1]);
        }
        lemma_ascii_utf8(rest);
        let c = s[0] as u32;
        assert(c < 128);
        assert((c & 0x7F) as u8 == c as u8) by (bit_vector)
            requires
                c < 128,
        ;
        assert(encode_utf8(s) =~= ascii_bytes(s));
    }
}

/// The two digits of a byte, high nibble first.
pub open spec fn hex_pair(b: u8) -> Seq<char> {
    seq![hex_digit(b >> 4), hex_digit(b & 15)]
}

/// Hexadecimal encoding read from the front.
pub proof fn lemma_hex_encode_front(b: Seq<u8>)
    requires
        b.len() > 0,
    ensures
        spec_hex_encode(b) == hex_pair(b[0]) + spec_hex_encode(b.drop_first()),
    decreases b.len(),
{
    if b.len() == 1 {
        assert(b.drop_last() =~= Seq::<u8>::empty());
        assert(b.drop_first() =~= Seq::<u8>::empty());
        assert(spec_hex_encode(b) =~= hex_pair(b[0]) + spec_hex_encode(b.drop_first()));
    } else {
        lemma_hex_encode_front(b.drop_last());
        assert(b.drop_last().drop_first() =~= b.drop_first().drop_last());
        assert(b.drop_first().last() == b.last());
        assert(b.drop_last()[0] == b[0]);
        assert(spec_hex_encode(b) =~= hex_pair(b[0]) + spec_hex_encode(b.drop_first()));
    }
}

proof fn lemma_hex_digit_ascii(n: u8)
    requires
        n < 16,
    ensures
        (hex_digit(n) as u32) < 128,
        hex_val((hex_digit(n) as u32) as u8) == Some(n),
        !is_ws(hex_digit(n)),
{
}

/// Hexadecimal text is ASCII and has no white space.
proof fn lemma_hex_ascii(b: Seq<u8>)
    ensures
        is_ascii_text(spec_hex_encode(b)),
        forall|i: int| 0 <= i < spec_hex_encode(b).len() ==> !is_ws(#[trigger] spec_hex_encode(b)[i]),
        spec_hex_encode(b).len() == 2 * b.len(),
    decreases b.len(),
{
    if b.len() > 0 {
        lemma_hex_ascii(b.drop_last());
        let x = b.last();
        assert(x >> 4 < 16 && x & 15 < 16) by (bit_vector);
        lemma_hex_digit_ascii(x >> 4);
        lemma_hex_digit_ascii(x & 15);
        let s = spec_hex_encode(b);
        let p = spec_hex_encode(b.drop_last());
        assert forall|i: int| 0 <= i < s.len() implies (#[trigger] s[i] as u32) < 128 && !is_ws(s[i]) by {
            if i < p.len() {
                assert(s[i] == p[i]);
            }
        }
    }
}

/// Decoding the bytes of hexadecimal text gives back the encoded bytes.
proof fn lemma_hex_decode_bytes(b: Seq<u8>)
    ensures
        spec_hex_decode_bytes(ascii_bytes(spec_hex_encode(b))) == Ok::<Seq<u8>, Seq<char>>(b),
    decreases b.len(),
{
    lemma_hex_ascii(b);
    let bytes = ascii_bytes(spec_hex_encode(b));
    if b.len() == 0 {
        assert(bytes.len() == 0);
        assert(b =~= Seq::<u8>::empty());
    } else {
        lemma_hex_encode_front(b);
        let x = b[0];
        assert(x >> 4 < 16 && x & 15 < 16) by (bit_vector);
        lemma_hex_digit_ascii(x >> 4);
        lemma_hex_digit_ascii(x & 15);
        lemma_hex_decode_bytes(b.drop_first());
        assert(bytes[0] == (hex_digit(x >> 4) as u32) as u8);
        assert(bytes[1] == (hex_digit(x & 15) as u32) as u8);
        assert(bytes.subrange(2, bytes.len() as int) =~= ascii_bytes(spec_hex_encode(b.drop_first())));
        assert(((x >> 4) * 16 + (x & 15)) as u8 == x) by (bit_vector);
        assert(seq![x] + b.drop_first() =~= b);
        let n = bytes.len();
        assert(n == 2 * b.len());
        assert(n % 2 == 0) by (nonlinear_arith)
            requires
                n == 2 * b.len(),
        ;
        assert(hex_val(bytes[0]) == Some((x >> 4) as u8));
        assert(hex_val(bytes[1]) == Some((x & 15) as u8));
        let hi = (x >> 4) as u8;
        let lo = (x & 15) as u8;
        assert(((hi * 16 + lo) as u8) == x);
    }
}

/// Hexadecimal decoding undoes hexadecimal encoding: for all bytes `b`,
/// decoding (after trimming, as `hex_decode` does) the UTF-8 bytes of the
/// encoding of `b` gives `b`.
pub proof fn lemma_hex_round_trip(b: Seq<u8>)
    ensures
        spec_hex_decode_bytes(encode_utf8(trim(spec_hex_encode(b)))) == Ok::<Seq<u8>, Seq<char>>(b),
        trim(spec_hex_encode(b)) == spec_hex_encode(b),
        spec_hex_encode(b).len() == 2 * b.len(),
{
    let h = spec_hex_encode(b);
    lemma_hex_ascii(b);
    if h.len() == 0 {
        assert(trim(h) =~= h);
    } else {
        lemma_ws_prefix(h, 0);
        lemma_ws_suffix(h, h.len() as int);
        assert(h.subrange(0, h.len() as int) =~= h);
    }
    assert(trim(h) == h);
    lemma_ascii_utf8(h);
    lemma_hex_decode_bytes(b);
}

/// A name that survives the `name:ty;...` form: trimmed, without `;` or `:`.
pub open spec fn kv_safe_name(s: Seq<char>) -> bool {
    trim(s) == s && lacks(s, ';') && lacks(s, ':')
}

/// A type that survives the `name:ty;...` form: trimmed, without `;`.
pub open spec fn kv_safe_type(s: Seq<char>) -> bool {
    trim(s) == s && lacks(s, ';')
}

/// A pair that survives the `name:ty;...` form.
pub open spec fn kv_safe_pair(p: (Seq<char>, Seq<char>)) -> bool {
    kv_safe_name(p.0) && kv_safe_type(p.1)
}

proof fn lemma_entry_piece(p: (Seq<char>, Seq<char>))
    requires
        kv_safe_name(p.0),
        kv_safe_type(p.1),
    ensures
        kv_piece(kv_entry(p)) == Some(p),
        lacks(kv_entry(p), ';'),
        kv_entry(p).len() > 0,
        !is_ws(kv_entry(p)[0]),
        !is_ws(kv_entry(p).last()),
{
    let e = kv_entry(p);
    let n = p.0.len() as int;
    assert(e[n] == ':');
    if n > 0 {
        lemma_trimmed_ends(p.0);
        assert(e[0] == p.0[0]);
    }
    if p.1.len() > 0 {
        lemma_trimmed_ends(p.1);
        assert(e.last() == p.1.last());
    }
    assert(':' == ':');
    assert(!is_ws(':'));
    lemma_ws_prefix(e, 0);
    lemma_ws_suffix(e, e.len() as int);
    assert(e.subrange(0, e.len() as int) =~= e);
    assert(trim(e) == e);
    assert forall|k: int| 0 <= k < n implies e[k] != ':' by {
        assert(e[k] == p.0[k]);
    }
    lemma_first_index(e, ':', n);
    assert(e.subrange(0, n) =~= p.0);
    assert(e.subrange(n + 1, e.len() as int) =~= p.1);
    assert forall|i: int| 0 <= i < e.len() implies #[trigger] e[i] != ';' by {
        if i < n {
            assert(e[i] == p.0[i]);
        } else if i > n {
            assert(e[i] == p.1[i - n - 1]);
        }
    }
}

proof fn lemma_encode_pieces(items: Seq<(Seq<char>, Seq<char>)>)
    requires
        items.len() > 0,
        forall|i: int| 0 <= i < items.len() ==> #[trigger] kv_safe_pair(items[i]),
    ensures
        split_on(spec_kv_encode(items), ';') == items.map_values(|p: (Seq<char>, Seq<char>)| kv_entry(p)),
        kv_pieces(split_on(spec_kv_encode(items), ';')) == items,
        spec_kv_encode(items).len() > 0,
        spec_kv_encode(items)[0] == kv_entry(items[0])[0],
        spec_kv_encode(items).last() == kv_entry(items.last()).last(),
    decreases items.len(),
{
    let last = items.last();
    assert(kv_safe_pair(items[items.len() - 1]));
    lemma_entry_piece(last);
    if items.len() == 1 {
        lemma_split_single(kv_entry(items[0]), ';');
        assert(items.map_values(|p: (Seq<char>, Seq<char>)| kv_entry(p)) =~= seq![kv_entry(items[0])]);
        assert(seq![kv_entry(items[0])].drop_last() =~= Seq::<Seq<char>>::empty());
        assert(items =~= Seq::<(Seq<char>, Seq<char>)>::empty().push(items[0]));
        let parts = split_on(spec_kv_encode(items), ';');
        assert(parts.last() == kv_entry(items[0]));
        assert(kv_pieces(parts.drop_last()) =~= Seq::<(Seq<char>, Seq<char>)>::empty());
        assert(kv_pieces(parts) == kv_pieces(parts.drop_last()).push(items[0]));
    } else {
        let init = items.drop_last();
        assert forall|i: int| 0 <= i < init.len() implies #[trigger] kv_safe_pair(init[i]) by {
            assert(init[i] == items[i]);
            assert(kv_safe_pair(items[i]));
        }
        lemma_encode_pieces(init);
        lemma_split_append(spec_kv_encode(init), kv_entry(last), ';');
        let es = items.map_values(|p: (Seq<char>, Seq<char>)| kv_entry(p));
        assert(es =~= init.map_values(|p: (Seq<char>, Seq<char>)| kv_entry(p)).push(kv_entry(last)));
        let parts = split_on(spec_kv_encode(items), ';');
        assert(parts.drop_last() == split_on(spec_kv_encode(init), ';'));
        assert(parts.last() == kv_entry(last));
        assert(kv_pieces(parts) == kv_pieces(parts.drop_last()).push(last));
        assert(init.push(last) =~= items);
        assert(init[0] == items[0]);
    }
}

/// Reading the `name:ty;name2:ty2` form back gives the pairs written: for
/// every list of pairs whose names are trimmed and hold no `;` or `:`, and
/// whose types are trimmed and hold no `;`.
pub proof fn lemma_kv_round_trip(items: Seq<(Seq<char>, Seq<char>)>)
    requires
        forall|i: int| 0 <= i < items.len() ==> #[trigger] kv_safe_pair(items[i]),
    ensures
        spec_kv_decode(spec_kv_encode(items)) == items,
{
    if items.len() == 0 {
        assert(trim(Seq::<char>::empty()) =~= Seq::<char>::empty());
        assert(items =~= Seq::<(Seq<char>, Seq<char>)>::empty());
    } else {
        lemma_encode_pieces(items);
        let s = spec_kv_encode(items);
        assert(kv_safe_pair(items[0]));
        lemma_entry_piece(items[0]);
        assert(kv_safe_pair(items[items.len() - 1]));
        lemma_entry_piece(items.last());
        lemma_ws_prefix(s, 0);
        lemma_ws_suffix(s, s.len() as int);
        assert(s.subrange(0, s.len() as int) =~= s);
        assert(trim(s) == s);
    }
}

} // verus!
