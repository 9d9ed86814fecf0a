//! Reading the TypeScript text of a module back: the reader recovers the
//! interfaces and function signatures that the writer printed.

use vstd::prelude::*;
use crate::ast::{FieldV, FunctionKind, FunctionV, ModuleV, ParamV, TypeDeclV, TypeKind, TypeRefV};
use crate::bpmn::xmltext::{lacks, lemma_first_index, lemma_split_append, lemma_split_single, split_on};
use crate::text::{is_ws, lemma_not_prefix, lemma_trim_between, lemma_trim_start_plain, lemma_trimmed_ends, starts_with, trim, trim_start};
use crate::ts_ast::{closes, has_neural_main, spec_from_ts_src, spec_lines, spec_map_ts_type, spec_module_to_ts, spec_parse_ts_function, strip_cr, tag_converter, ts_field, ts_field_lines, ts_fields, ts_fields_end, ts_function, ts_functions, ts_interface, ts_interface_name, ts_interfaces, ts_param, ts_params, ts_ret, ts_return_type, ts_scan, ts_sig_params, ts_type, type_end};

verus! {

/// Lines, each followed by `\n`.
pub open spec fn unlines(ls: Seq<Seq<char>>) -> Seq<char>
    decreases ls.len(),
{
    if ls.len() == 0 {
        Seq::empty()
    } else {
        unlines(ls.drop_last()) + ls.last() + seq!['\n']
    }
}

/// A line that `str::lines` gives back as it is: no `\n` in it, no `\r` at its end.
pub open spec fn plain_line(l: Seq<char>) -> bool {
    lacks(l, '\n') && !(l.len() > 0 && l.last() == '\r')
}

proof fn lemma_unlines_concat(a: Seq<Seq<char>>, b: Seq<Seq<char>>)
    ensures
        unlines(a + b) == unlines(a) + unlines(b),
    decreases b.len(),
{
    if b.len() == 0 {
        assert(a + b =~= a);
        assert(unlines(a) + unlines(b) =~= unlines(a));
    } else {
        lemma_unlines_concat(a, b.drop_last());
        assert((a + b).drop_last() =~= a + b.drop_last());
        assert((a + b).last() == b.last());
        assert(unlines(a + b) =~= unlines(a) + unlines(b));
    }
}

proof fn lemma_split_unlines(ls: Seq<Seq<char>>, t: Seq<char>)
    requires
        forall|i: int| 0 <= i < ls.len() ==> plain_line(#[trigger] ls[i]),
        lacks(t, '\n'),
    ensures
        split_on(unlines(ls) + t, '\n') == ls.push(t),
    decreases ls.len(),
{
    if ls.len() == 0 {
        assert(unlines(ls) + t =~= t);
        lemma_split_single(t, '\n');
        assert(ls.push(t) =~= seq![t]);
    } else {
        let init = ls.drop_last();
        let l = ls.last();
        assert(plain_line(ls[ls.len() - 1]));
        assert forall|i: int| 0 <= i < init.len() implies plain_line(#[trigger] init[i]) by {
            assert(init[i] == ls[i]);
            assert(plain_line(ls[i]));
        }
        lemma_split_unlines(init, l);
        lemma_split_append(unlines(init) + l, t, '\n');
        assert(unlines(ls) + t =~= (unlines(init) + l) + seq!['\n'] + t);
        assert(init.push(l) =~= ls);
    }
}

/// `str::lines` of lines each followed by `\n` gives the lines back.
pub proof fn lemma_lines_unlines(ls: Seq<Seq<char>>)
    requires
        forall|i: int| 0 <= i < ls.len() ==> plain_line(#[trigger] ls[i]),
    ensures
        spec_lines(unlines(ls)) == ls,
{
    assert(lacks(Seq::<char>::empty(), '\n'));
    lemma_split_unlines(ls, Seq::empty());
    assert(unlines(ls) + Seq::<char>::empty() =~= unlines(ls));
    let parts = ls.push(Seq::<char>::empty());
    assert forall|i: int| 0 <= i < ls.len() implies strip_cr(#[trigger] ls[i]) == ls[i] by {
        assert(plain_line(ls[i]));
    }
    assert(parts.subrange(0, parts.len() - 1).map_values(|l: Seq<char>| strip_cr(l)) =~= ls);
}


/// The line of one interface field.
pub open spec fn field_line(f: FieldV) -> Seq<char> {
    "  "@ + f.name + ": "@ + ts_type(f.ty) + ";"@
}

pub open spec fn field_lines(fs: Seq<FieldV>) -> Seq<Seq<char>> {
    Seq::new(fs.len(), |k: int| field_line(fs[k]))
}

/// The comment line a struct's interface starts with.
pub open spec fn comment_lines(t: TypeDeclV) -> Seq<Seq<char>> {
    if t.kind == TypeKind::Struct {
        seq!["// Converted from Rust: struct "@ + t.name]
    } else {
        Seq::empty()
    }
}

/// The lines of one interface, the blank line after it included.
pub open spec fn interface_lines(t: TypeDeclV) -> Seq<Seq<char>> {
    comment_lines(t) + seq!["interface "@ + t.name + " {"@] + field_lines(t.fields) + seq!["}"@, Seq::empty()]
}

pub open spec fn interfaces_lines(ts: Seq<TypeDeclV>) -> Seq<Seq<char>>
    decreases ts.len(),
{
    if ts.len() == 0 {
        Seq::empty()
    } else {
        interfaces_lines(ts.drop_last()) + interface_lines(ts.last())
    }
}

/// The signature line of a function.
pub open spec fn sig_line(f: FunctionV) -> Seq<char> {
    "export function "@ + f.name + "("@ + ts_sig_params(f.params) + ")"@ + ": "@ + ts_ret(f.return_type) + " {"@
}

/// The lines of one function: a blank line before all but the first.
pub open spec fn function_lines(f: FunctionV, first: bool) -> Seq<Seq<char>> {
    (if first {
        Seq::empty()
    } else {
        seq![Seq::<char>::empty()]
    }) + seq![sig_line(f), "}"@]
}

pub open spec fn functions_lines(fs: Seq<FunctionV>) -> Seq<Seq<char>>
    decreases fs.len(),
{
    if fs.len() == 0 {
        Seq::empty()
    } else {
        functions_lines(fs.drop_last()) + function_lines(fs.last(), fs.len() == 1)
    }
}

/// The lines of the TypeScript text of a module whose functions are plain.
pub open spec fn module_lines(m: ModuleV) -> Seq<Seq<char>> {
    interfaces_lines(m.types) + functions_lines(m.functions)
}

proof fn lemma_unlines_one(l: Seq<char>)
    ensures
        unlines(seq![l]) == l + "\n"@,
{
    reveal_strlit("\n");
    assert("\n"@ =~= seq!['\n']);
    assert(seq![l].drop_last() =~= Seq::<Seq<char>>::empty());
    assert(unlines(Seq::<Seq<char>>::empty()) =~= Seq::<char>::empty());
    assert(unlines(seq![l]) =~= l + "\n"@);
}

proof fn lemma_field_text(fs: Seq<FieldV>)
    ensures
        ts_field_lines(fs) == unlines(field_lines(fs)),
    decreases fs.len(),
{
    if fs.len() > 0 {
        lemma_field_text(fs.drop_last());
        assert(field_lines(fs) =~= field_lines(fs.drop_last()).push(field_line(fs.last())));
        assert(field_lines(fs).drop_last() =~= field_lines(fs.drop_last()));
        assert(field_lines(fs).last() == field_line(fs.last()));
        reveal_strlit(";\n");
        reveal_strlit(";");
        reveal_strlit("\n");
        assert(";\n"@ =~= ";"@ + seq!['\n']);
        assert(ts_field_lines(fs) =~= unlines(field_lines(fs)));
    }
}

proof fn lemma_interface_text(t: TypeDeclV)
    ensures
        ts_interface(t) == unlines(interface_lines(t)),
{
    let c = comment_lines(t);
    let h = seq!["interface "@ + t.name + " {"@];
    let f = field_lines(t.fields);
    let e = seq!["}"@, Seq::<char>::empty()];
    lemma_unlines_concat(c + h + f, e);
    lemma_unlines_concat(c + h, f);
    lemma_unlines_concat(c, h);
    lemma_field_text(t.fields);
    lemma_unlines_one("interface "@ + t.name + " {"@);
    reveal_strlit(" {\n");
    reveal_strlit(" {");
    reveal_strlit("\n");
    reveal_strlit("}\n\n");
    reveal_strlit("}");
    assert(e.drop_last() =~= seq!["}"@]);
    lemma_unlines_one("}"@);
    assert(unlines(e) =~= "}\n\n"@);
    if t.kind == TypeKind::Struct {
        lemma_unlines_one("// Converted from Rust: struct "@ + t.name);
    }
    assert(unlines(c) =~= (if t.kind == TypeKind::Struct {
        "// Converted from Rust: struct "@ + t.name + "\n"@
    } else {
        Seq::<char>::empty()
    }));
    assert(ts_interface(t) =~= unlines(interface_lines(t)));
}

proof fn lemma_interfaces_text(ts: Seq<TypeDeclV>)
    ensures
        ts_interfaces(ts) == unlines(interfaces_lines(ts)),
    decreases ts.len(),
{
    if ts.len() > 0 {
        lemma_interfaces_text(ts.drop_last());
        lemma_interface_text(ts.last());
        lemma_unlines_concat(interfaces_lines(ts.drop_last()), interface_lines(ts.last()));
    }
}

proof fn lemma_functions_text(fs: Seq<FunctionV>)
    requires
        forall|i: int| 0 <= i < fs.len() ==> (#[trigger] fs[i]).kind == FunctionKind::Normal,
    ensures
        ts_functions(fs) == unlines(functions_lines(fs)),
    decreases fs.len(),
{
    if fs.len() > 0 {
        let f = fs.last();
        assert(fs[fs.len() - 1].kind == FunctionKind::Normal);
        assert forall|i: int| 0 <= i < fs.drop_last().len() implies (#[trigger] fs.drop_last()[i]).kind
            == FunctionKind::Normal by {
            assert(fs.drop_last()[i] == fs[i]);
        }
        lemma_functions_text(fs.drop_last());
        let sep: Seq<Seq<char>> = if fs.len() == 1 { Seq::empty() } else { seq![Seq::<char>::empty()] };
        let body = seq![sig_line(f), "}"@];
        lemma_unlines_concat(functions_lines(fs.drop_last()), sep + body);
        lemma_unlines_concat(sep, body);
        reveal_strlit("\n");
        reveal_strlit(" {\n");
        reveal_strlit(" {");
        reveal_strlit("}\n");
        reveal_strlit("}");
        lemma_unlines_one(Seq::<char>::empty());
        assert(body.drop_last() =~= seq![sig_line(f)]);
        lemma_unlines_one(sig_line(f));
        assert(unlines(body) =~= ts_function(f));
        assert(unlines(sep) =~= (if fs.len() > 1 { "\n"@ } else { Seq::<char>::empty() }));
        assert(ts_functions(fs) =~= unlines(functions_lines(fs)));
    }
}

/// The TypeScript text of a module with plain functions is its lines, each
/// followed by `\n`.
proof fn lemma_module_text(m: ModuleV)
    requires
        forall|i: int| 0 <= i < m.functions.len() ==> (#[trigger] m.functions[i]).kind == FunctionKind::Normal,
    ensures
        spec_module_to_ts(m) == unlines(module_lines(m)),
{
    lemma_interfaces_text(m.types);
    lemma_functions_text(m.functions);
    lemma_unlines_concat(interfaces_lines(m.types), functions_lines(m.functions));
    if has_neural_main(m.functions) {
        let i = choose|i: int| 0 <= i < m.functions.len() && (#[trigger] m.functions[i]).kind
            == FunctionKind::NeuralNetMain;
        assert(m.functions[i].kind == FunctionKind::Normal);
    }
    assert(spec_module_to_ts(m) =~= unlines(module_lines(m)));
}


/// A type name the reader maps to a model type of its own.
pub open spec fn builtin_ts_name(n: Seq<char>) -> bool {
    n == "number"@ || n == "string"@ || n == "boolean"@ || n == "any"@
}

/// A name that stays on its line and comes back from `trim` unchanged.
pub open spec fn ts_name_ok(n: Seq<char>) -> bool {
    trim(n) == n && lacks(n, '\n')
}

/// A type that a line reader gives back: a custom name stays on its line,
/// comes back from `trim`, holds none of `stops`, and is no built-in name.
pub open spec fn type_ok(t: TypeRefV, stops: Seq<char>) -> bool {
    match t {
        TypeRefV::Custom(n) => ts_name_ok(n) && !builtin_ts_name(n) && forall|k: int|
            0 <= k < n.len() ==> !stops.contains(#[trigger] n[k]),
        _ => true,
    }
}

/// A field that its interface line gives back.
pub open spec fn field_ok(f: FieldV) -> bool {
    &&& ts_name_ok(f.name)
    &&& lacks(f.name, ':')
    &&& !starts_with(f.name, "//"@)
    &&& !(f.name.len() > 0 && f.name[0] == '}')
    &&& type_ok(f.ty, seq![';'])
}

/// An interface that its lines give back.
pub open spec fn type_decl_ok(t: TypeDeclV) -> bool {
    &&& ts_name_ok(t.name)
    &&& lacks(t.name, '{')
    &&& forall|k: int| 0 <= k < t.fields.len() ==> field_ok(#[trigger] t.fields[k])
}

/// A parameter that its signature gives back.
pub open spec fn param_ok(p: ParamV) -> bool {
    &&& ts_name_ok(p.name)
    &&& lacks(p.name, ',')
    &&& lacks(p.name, ':')
    &&& lacks(p.name, ')')
    &&& !(p.name.len() > 0 && p.name.last() == '?')
    &&& type_ok(p.ty, seq![',', ')'])
}

/// A return type that its signature gives back: a custom name is a
/// non-empty word without white space or `{`, and is not `void`.
pub open spec fn return_ok(rt: Option<TypeRefV>) -> bool {
    match rt {
        Some(TypeRefV::Custom(n)) => {
            &&& n.len() > 0
            &&& n != "void"@
            &&& !builtin_ts_name(n)
            &&& forall|k: int| 0 <= k < n.len() ==> !is_ws(#[trigger] n[k]) && n[k] != '{'
        },
        _ => true,
    }
}

/// A function that its signature line gives back in a module of this name.
pub open spec fn function_ok(f: FunctionV, module_name: Seq<char>) -> bool {
    &&& f.kind == FunctionKind::Normal
    &&& f.body.len() == 0
    &&& ts_name_ok(f.name)
    &&& lacks(f.name, '(')
    &&& forall|k: int| 0 <= k < f.params.len() ==> param_ok(#[trigger] f.params[k])
    &&& return_ok(f.return_type)
    &&& tag_converter(f, module_name) == f
}

/// The interface a type declaration is read back as.
pub open spec fn as_interface(t: TypeDeclV) -> TypeDeclV {
    TypeDeclV { kind: TypeKind::Interface, ..t }
}

proof fn lemma_lacks_concat(a: Seq<char>, b: Seq<char>, c: char)
    requires
        lacks(a, c),
        lacks(b, c),
    ensures
        lacks(a + b, c),
{
    assert forall|i: int| 0 <= i < (a + b).len() implies #[trigger] (a + b)[i] != c by {
        if i < a.len() {
            assert((a + b)[i] == a[i]);
        } else {
            assert((a + b)[i] == b[i - a.len()]);
        }
    }
}

/// The text of a type: trimmed, without `\n`, read back as the type, and
/// without any of `stops` when the built-in names hold none of them.
proof fn lemma_type_text(t: TypeRefV, stops: Seq<char>)
    requires
        type_ok(t, stops),
        !stops.contains('\n'),
        forall|k: int| 0 <= k < stops.len() ==> {
            let c = #[trigger] stops[k];
            c != 'n' && c != 'u' && c != 'm' && c != 'b' && c != 'e' && c != 'r' && c != 's' && c != 't' && c
                != 'i' && c != 'g' && c != 'o' && c != 'l' && c != 'a'
        },
    ensures
        trim(ts_type(t)) == ts_type(t),
        lacks(ts_type(t), '\n'),
        forall|k: int| 0 <= k < ts_type(t).len() ==> !stops.contains(#[trigger] ts_type(t)[k]),
        spec_map_ts_type(ts_type(t)) == t,
{
    reveal_strlit("number");
    reveal_strlit("string");
    reveal_strlit("boolean");
    reveal_strlit("any");
    let s = ts_type(t);
    match t {
        TypeRefV::Custom(n) => {},
        _ => {
            assert(s.len() > 0);
            assert forall|k: int| 0 <= k < s.len() implies !is_ws(#[trigger] s[k]) && s[k] != '\n'
                && !stops.contains(s[k]) by {
                if stops.contains(s[k]) {
                    let j = choose|j: int| 0 <= j < stops.len() && stops[j] == s[k];
                    assert(stops[j] == s[k]);
                }
            }
            lemma_trim_between(s, 0, s.len() as int);
            assert(s.subrange(0, s.len() as int) =~= s);
        },
    }
}



#[verifier::spinoff_prover]
#[verifier::rlimit(50)]
proof fn lemma_field_line(f: FieldV)
    requires
        field_ok(f),
    ensures
        trim(field_line(f)) == f.name + ": "@ + ts_type(f.ty) + ";"@,
        plain_line(field_line(f)),
        !closes(trim(field_line(f))),
        trim(field_line(f)).len() > 0,
        !starts_with(trim(field_line(f)), "//"@),
        ts_field(trim(field_line(f))) == seq![f],
{
    reveal_strlit("  ");
    reveal_strlit(": ");
    reveal_strlit(";");
    reveal_strlit("//");
    reveal_strlit(" ");
    let n = f.name;
    let ty = ts_type(f.ty);
    let stops = seq![';'];
    assert(!stops.contains('\n')) by {
        if stops.contains('\n') {
            let j = choose|j: int| 0 <= j < stops.len() && stops[j] == '\n';
        }
    }
    lemma_type_text(f.ty, stops);
    assert forall|k: int| 0 <= k < ty.len() implies #[trigger] ty[k] != ';' by {
        if ty[k] == ';' {
            assert(stops[0] == ';');
            assert(stops.contains(ty[k]));
        }
    }
    let x = n + ": "@ + ty + ";"@;
    let l = field_line(f);
    assert(l =~= "  "@ + x);
    if n.len() > 0 {
        lemma_trimmed_ends(n);
    }
    if ty.len() > 0 {
        lemma_trimmed_ends(ty);
    }
    assert(x[n.len() as int] == ':');
    assert(x[x.len() - 1] == ';');
    lemma_trim_between(l, 2, l.len() as int);
    assert(l.subrange(2, l.len() as int) =~= x);
    assert forall|k: int| 0 <= k < n.len() implies x[k] != ':' by {
        assert(x[k] == n[k]);
    }
    lemma_first_index(x, ':', n.len() as int);
    assert(x.subrange(0, n.len() as int) =~= n);
    let rest = x.subrange(n.len() as int + 1, x.len() as int);
    assert(rest =~= " "@ + ty + ";"@);
    lemma_trim_between(rest, 1, rest.len() as int);
    let f0 = rest.subrange(1, rest.len() as int);
    assert(f0 =~= ty + ";"@);
    assert forall|k: int| 0 <= k < ty.len() implies f0[k] != ';' by {
        assert(f0[k] == ty[k]);
    }
    lemma_first_index(f0, ';', ty.len() as int);
    assert(f0.subrange(0, ty.len() as int) =~= ty);
    assert(ts_field(x) =~= seq![f]);
    if n.len() >= 2 {
        assert(x.subrange(0, 2) =~= n.subrange(0, 2));
    } else {
        assert(x.len() >= 2);
        assert(x.subrange(0, 2)[n.len() as int] == ':');
        assert("//"@[n.len() as int] == '/');
    }
    assert(lacks(l, '\n')) by {
        assert forall|i: int| 0 <= i < l.len() implies #[trigger] l[i] != '\n' by {
            if 2 <= i < 2 + n.len() {
                assert(l[i] == n[i - 2]);
            } else if 4 + n.len() <= i < 4 + n.len() + ty.len() {
                assert(l[i] == ty[i - 4 - n.len()]);
            }
        }
    }
}


/// A line the scanner passes over: neither a signature nor an interface.
pub open spec fn skipped(l: Seq<char>) -> bool {
    spec_parse_ts_function(trim_start(l)) is None && !starts_with(trim_start(l), "interface "@)
}

proof fn lemma_skip_plain(l: Seq<char>)
    requires
        l.len() > 0,
        !is_ws(l[0]),
        l[0] != 'e',
        l[0] != 'i',
    ensures
        skipped(l),
{
    reveal_strlit("export function ");
    reveal_strlit("interface ");
    lemma_trim_start_plain(l);
    lemma_not_prefix(l, "export function "@);
    lemma_not_prefix(l, "interface "@);
}

proof fn lemma_skip_blank()
    ensures
        skipped(Seq::<char>::empty()),
        plain_line(Seq::<char>::empty()),
{
    reveal_strlit("export function ");
    reveal_strlit("interface ");
    let e = Seq::<char>::empty();
    assert(trim_start(e) =~= e);
}

proof fn lemma_skip_close()
    ensures
        skipped("}"@),
        plain_line("}"@),
        trim("}"@) == "}"@,
        closes(trim("}"@)),
{
    reveal_strlit("}");
    lemma_skip_plain("}"@);
    lemma_trim_between("}"@, 0, 1);
    assert("}"@.subrange(0, 1) =~= "}"@);
}

proof fn lemma_skip_comment(n: Seq<char>)
    requires
        ts_name_ok(n),
    ensures
        skipped("// Converted from Rust: struct "@ + n),
        plain_line("// Converted from Rust: struct "@ + n),
{
    reveal_strlit("// Converted from Rust: struct ");
    let c = "// Converted from Rust: struct "@;
    let l = c + n;
    assert(l[0] == '/');
    lemma_skip_plain(l);
    if n.len() > 0 {
        lemma_trimmed_ends(n);
        assert(l.last() == n.last());
    }
    assert forall|i: int| 0 <= i < l.len() implies #[trigger] l[i] != '\n' by {
        if i >= c.len() {
            assert(l[i] == n[i - c.len()]);
        }
    }
}

proof fn lemma_header(n: Seq<char>)
    requires
        ts_name_ok(n),
        lacks(n, '{'),
    ensures
        skipped("interface "@ + n + " {"@) == false,
        spec_parse_ts_function(trim_start("interface "@ + n + " {"@)) is None,
        trim_start("interface "@ + n + " {"@) == "interface "@ + n + " {"@,
        starts_with("interface "@ + n + " {"@, "interface "@),
        ts_interface_name("interface "@ + n + " {"@) == n,
        plain_line("interface "@ + n + " {"@),
{
    reveal_strlit("interface ");
    reveal_strlit("export function ");
    reveal_strlit(" {");
    reveal_strlit(" ");
    reveal_strlit("{");
    let p = "interface "@;
    let h = p + n + " {"@;
    assert(h[0] == 'i');
    lemma_trim_start_plain(h);
    lemma_not_prefix(h, "export function "@);
    assert(h.subrange(0, p.len() as int) =~= p);
    let r = h.subrange(p.len() as int, h.len() as int);
    assert(r =~= n + " {"@);
    if n.len() > 0 {
        lemma_trimmed_ends(n);
        lemma_trim_between(r, 0, r.len() as int);
        assert(r.subrange(0, r.len() as int) =~= r);
        assert forall|k: int| 0 <= k < n.len() + 1 implies r[k] != '{' by {
            if k < n.len() {
                assert(r[k] == n[k]);
            }
        }
        lemma_first_index(r, '{', n.len() as int + 1);
        let q = r.subrange(0, n.len() as int + 1);
        assert(q =~= n + " "@);
        lemma_trim_between(q, 0, n.len() as int);
        assert(q.subrange(0, n.len() as int) =~= n);
    } else {
        lemma_trim_between(r, 1, 2);
        assert(r.subrange(1, 2) =~= "{"@);
        reveal_strlit("{");
        lemma_first_index("{"@, '{', 0);
        assert("{"@.subrange(0, 0) =~= n);
        lemma_trim_between(n, 0, 0);
    }
    assert forall|i: int| 0 <= i < h.len() implies #[trigger] h[i] != '\n' by {
        if p.len() <= i < p.len() + n.len() {
            assert(h[i] == n[i - p.len()]);
        }
    }
}

proof fn lemma_scan_fields(lines: Seq<Seq<char>>, j: nat, fs: Seq<FieldV>)
    requires
        j + fs.len() < lines.len(),
        forall|k: int| 0 <= k < fs.len() ==> lines[j as int + k] == field_line(#[trigger] fs[k]),
        lines[j + fs.len() as int] == "}"@,
        forall|k: int| 0 <= k < fs.len() ==> field_ok(#[trigger] fs[k]),
    ensures
        ts_fields(lines, j) == fs,
        ts_fields_end(lines, j) == j + fs.len() + 1,
    decreases fs.len(),
{
    if fs.len() == 0 {
        lemma_skip_close();
        assert(lines[j as int] == "}"@);
    } else {
        let rest = fs.drop_first();
        assert(lines[j as int + 0] == field_line(fs[0]));
        assert(field_ok(fs[0]));
        lemma_field_line(fs[0]);
        assert forall|k: int| 0 <= k < rest.len() implies lines[(j + 1) as int + k] == field_line(#[trigger] rest[k]) by {
            assert(rest[k] == fs[k + 1]);
            assert(lines[j as int + (k + 1)] == field_line(fs[k + 1]));
        }
        assert forall|k: int| 0 <= k < rest.len() implies field_ok(#[trigger] rest[k]) by {
            assert(rest[k] == fs[k + 1]);
            assert(field_ok(fs[k + 1]));
        }
        lemma_scan_fields(lines, j + 1, rest);
        assert(seq![fs[0]] + rest =~= fs);
    }
}


proof fn lemma_scan_interface(lines: Seq<Seq<char>>, i: nat, t: TypeDeclV, mn: Seq<char>)
    requires
        i + interface_lines(t).len() <= lines.len(),
        lines.subrange(i as int, i as int + interface_lines(t).len()) == interface_lines(t),
        type_decl_ok(t),
    ensures
        ts_scan(lines, i, mn) == ({
            let r = ts_scan(lines, (i + interface_lines(t).len()) as nat, mn);
            (seq![as_interface(t)] + r.0, r.1)
        }),
{
    let il = interface_lines(t);
    let ii: int = i as int;
    let c: int = comment_lines(t).len() as int;
    let nf: int = t.fields.len() as int;
    let header = "interface "@ + t.name + " {"@;
    assert(il.len() == c + nf + 3);
    assert forall|k: int| 0 <= k < il.len() implies lines[ii + k] == #[trigger] il[k] by {
        assert(lines.subrange(ii, ii + il.len())[k] == lines[ii + k]);
    }
    let h = (ii + c) as nat;
    if c == 1 {
        assert(il[0] == "// Converted from Rust: struct "@ + t.name);
        assert(lines[ii + 0] == il[0]);
        lemma_skip_comment(t.name);
        assert(ts_scan(lines, i, mn) == ts_scan(lines, h, mn));
    }
    assert(il[c] == header);
    assert(lines[h as int] == lines[ii + c]);
    lemma_header(t.name);
    assert forall|k: int| 0 <= k < nf implies lines[(h + 1) as int + k] == field_line(#[trigger] t.fields[k]) by {
        assert(il[c + 1 + k] == field_line(t.fields[k]));
        assert(lines[ii + (c + 1 + k)] == il[c + 1 + k]);
    }
    assert(il[c + 1 + nf] == "}"@);
    assert(lines[(h + 1) as int + nf] == lines[ii + (c + 1 + nf)]);
    assert forall|k: int| 0 <= k < nf implies field_ok(#[trigger] t.fields[k]) by {}
    lemma_scan_fields(lines, h + 1, t.fields);
    let blank = (ii + c + nf + 2) as nat;
    assert(il[c + nf + 2] == Seq::<char>::empty());
    assert(lines[blank as int] == lines[ii + (c + nf + 2)]);
    lemma_skip_blank();
    assert(ts_scan(lines, blank, mn) == ts_scan(lines, (i + il.len()) as nat, mn));
    let decl = TypeDeclV { name: ts_interface_name(lines[h as int]), kind: TypeKind::Interface, fields: ts_fields(lines, h + 1) };
    assert(decl == as_interface(t));
    assert(ts_scan(lines, h, mn) == ({
        let r = ts_scan(lines, ts_fields_end(lines, h + 1), mn);
        (seq![decl] + r.0, r.1)
    }));
}

proof fn lemma_scan_interfaces(lines: Seq<Seq<char>>, i: nat, ts: Seq<TypeDeclV>, mn: Seq<char>)
    requires
        i + interfaces_lines(ts).len() <= lines.len(),
        lines.subrange(i as int, i as int + interfaces_lines(ts).len()) == interfaces_lines(ts),
        forall|k: int| 0 <= k < ts.len() ==> type_decl_ok(#[trigger] ts[k]),
    ensures
        ts_scan(lines, i, mn) == ({
            let r = ts_scan(lines, (i + interfaces_lines(ts).len()) as nat, mn);
            (ts.map_values(|t: TypeDeclV| as_interface(t)) + r.0, r.1)
        }),
    decreases ts.len(),
{
    let ii: int = i as int;
    if ts.len() == 0 {
        let r = ts_scan(lines, i, mn);
        assert(ts.map_values(|t: TypeDeclV| as_interface(t)) + r.0 =~= r.0);
    } else {
        let init = ts.drop_last();
        let a = interfaces_lines(init);
        let b = interface_lines(ts.last());
        let al: int = a.len() as int;
        let bl: int = b.len() as int;
        assert(interfaces_lines(ts) == a + b);
        let whole = lines.subrange(ii, ii + al + bl);
        assert(whole == a + b);
        assert(lines.subrange(ii, ii + al) =~= a) by {
            assert forall|k: int| 0 <= k < al implies lines.subrange(ii, ii + al)[k] == a[k] by {
                assert(whole[k] == (a + b)[k]);
            }
        }
        assert(lines.subrange(ii + al, ii + al + bl) =~= b) by {
            assert forall|k: int| 0 <= k < bl implies lines.subrange(ii + al, ii + al + bl)[k] == b[k] by {
                assert(whole[al + k] == (a + b)[al + k]);
            }
        }
        assert forall|k: int| 0 <= k < init.len() implies type_decl_ok(#[trigger] init[k]) by {
            assert(init[k] == ts[k]);
        }
        assert(type_decl_ok(ts[ts.len() - 1]));
        lemma_scan_interfaces(lines, i, init, mn);
        lemma_scan_interface(lines, (ii + al) as nat, ts.last(), mn);
        let r = ts_scan(lines, (i + interfaces_lines(ts).len()) as nat, mn);
        assert(ts.map_values(|t: TypeDeclV| as_interface(t)) =~= init.map_values(|t: TypeDeclV| as_interface(t)).push(
            as_interface(ts.last()),
        ));
        assert(ts.map_values(|t: TypeDeclV| as_interface(t)) + r.0 =~= init.map_values(|t: TypeDeclV| as_interface(t))
            + (seq![as_interface(ts.last())] + r.0));
    }
}


proof fn lemma_type_end(s: Seq<char>, i: int)
    requires
        0 <= i <= s.len(),
        forall|k: int| 0 <= k < i ==> #[trigger] s[k] != '{' && !is_ws(s[k]),
        i == s.len() || s[i] == '{' || is_ws(s[i]),
    ensures
        type_end(s) == i,
    decreases i,
{
    if i > 0 {
        assert forall|k: int| 0 <= k < i - 1 implies #[trigger] s.drop_first()[k] != '{' && !is_ws(
            s.drop_first()[k],
        ) by {
            assert(s.drop_first()[k] == s[k + 1]);
        }
        if i < s.len() {
            assert(s.drop_first()[i - 1] == s[i]);
        }
        lemma_type_end(s.drop_first(), i - 1);
    }
}

/// `name: type`, after `w` (nothing or one space), reads back as the parameter.
#[verifier::spinoff_prover]
#[verifier::rlimit(50)]
proof fn lemma_param_piece(w: Seq<char>, p: ParamV)
    requires
        param_ok(p),
        w == Seq::<char>::empty() || w == " "@,
    ensures
        ts_param(w + p.name + ": "@ + ts_type(p.ty)) == seq![p],
        lacks(w + p.name + ": "@ + ts_type(p.ty), ','),
        lacks(w + p.name + ": "@ + ts_type(p.ty), ')'),
        lacks(w + p.name + ": "@ + ts_type(p.ty), '\n'),
{
    reveal_strlit(": ");
    reveal_strlit(" ");
    let n = p.name;
    let ty = ts_type(p.ty);
    let stops = seq![',', ')'];
    assert(!stops.contains('\n')) by {
        if stops.contains('\n') {
            let j = choose|j: int| 0 <= j < stops.len() && stops[j] == '\n';
        }
    }
    lemma_type_text(p.ty, stops);
    assert forall|k: int| 0 <= k < ty.len() implies #[trigger] ty[k] != ',' && ty[k] != ')' by {
        if ty[k] == ',' {
            assert(stops[0] == ',');
            assert(stops.contains(ty[k]));
        }
        if ty[k] == ')' {
            assert(stops[1] == ')');
            assert(stops.contains(ty[k]));
        }
    }
    if n.len() > 0 {
        lemma_trimmed_ends(n);
    }
    if ty.len() > 0 {
        lemma_trimmed_ends(ty);
    }
    let x = n + ": "@ + ty;
    let piece = w + x;
    assert(piece =~= w + p.name + ": "@ + ts_type(p.ty));
    let wl: int = w.len() as int;
    let nl: int = n.len() as int;
    assert(x[nl] == ':');
    assert(x[nl + 1] == ' ');
    assert forall|k: int| 0 <= k < piece.len() implies #[trigger] piece[k] != ',' && piece[k] != ')' && piece[k]
        != '\n' by {
        if wl <= k < wl + nl {
            assert(piece[k] == n[k - wl]);
        } else if wl + nl + 2 <= k {
            assert(piece[k] == ty[k - wl - nl - 2]);
        }
    }
    let part_end: int = if ty.len() > 0 { piece.len() as int } else { piece.len() - 1 };
    lemma_trim_between(piece, wl, part_end);
    let part = piece.subrange(wl, part_end);
    assert(part.subrange(0, nl) =~= n);
    assert forall|k: int| 0 <= k < nl implies part[k] != ':' by {
        assert(part[k] == n[k]);
    }
    assert(part[nl] == ':');
    lemma_first_index(part, ':', nl);
    let tail = part.subrange(nl + 1, part.len() as int);
    if ty.len() > 0 {
        assert(tail =~= " "@ + ty);
        lemma_trim_between(tail, 1, tail.len() as int);
        assert(tail.subrange(1, tail.len() as int) =~= ty);
        assert(trim(ty) == ty);
    } else {
        assert(tail =~= ty);
        lemma_trim_between(tail, 0, 0);
    }
    assert(spec_map_ts_type(tail) == spec_map_ts_type(ty));
    assert(ts_param(piece) =~= seq![p]);
}

proof fn lemma_sig_params(ps: Seq<ParamV>)
    requires
        forall|k: int| 0 <= k < ps.len() ==> param_ok(#[trigger] ps[k]),
    ensures
        ts_params(split_on(ts_sig_params(ps), ',')) == ps,
        lacks(ts_sig_params(ps), ')'),
        lacks(ts_sig_params(ps), '\n'),
    decreases ps.len(),
{
    reveal_strlit(", ");
    reveal_strlit(" ");
    if ps.len() == 0 {
        let e = Seq::<char>::empty();
        assert(ts_sig_params(ps) =~= e);
        assert(split_on(e, ',') =~= seq![e]);
        lemma_trim_between(e, 0, 0);
        assert(ts_params(seq![e]) == ts_params(seq![e].drop_last()) + ts_param(e));
        assert(seq![e].drop_last() =~= Seq::<Seq<char>>::empty());
        assert(ts_params(split_on(ts_sig_params(ps), ',')) =~= ps);
    } else {
        let init = ps.drop_last();
        let p = ps.last();
        assert(param_ok(ps[ps.len() - 1]));
        assert forall|k: int| 0 <= k < init.len() implies param_ok(#[trigger] init[k]) by {
            assert(init[k] == ps[k]);
        }
        lemma_sig_params(init);
        if ps.len() == 1 {
            let piece = Seq::<char>::empty() + p.name + ": "@ + ts_type(p.ty);
            lemma_param_piece(Seq::<char>::empty(), p);
            assert(ts_sig_params(init) =~= Seq::<char>::empty());
            assert(ts_sig_params(ps) =~= piece);
            lemma_split_single(piece, ',');
            assert(seq![piece].drop_last() =~= Seq::<Seq<char>>::empty());
            assert(ts_params(seq![piece]) == ts_params(seq![piece].drop_last()) + ts_param(piece));
            assert(ts_params(split_on(ts_sig_params(ps), ',')) =~= ps);
        } else {
            let piece = " "@ + p.name + ": "@ + ts_type(p.ty);
            lemma_param_piece(" "@, p);
            assert(ts_sig_params(ps) =~= ts_sig_params(init) + seq![','] + piece);
            lemma_split_append(ts_sig_params(init), piece, ',');
            let sp = split_on(ts_sig_params(init), ',');
            assert(sp.push(piece).drop_last() =~= sp);
            assert(ts_params(sp.push(piece)) == ts_params(sp) + ts_param(piece));
            assert(ts_params(split_on(ts_sig_params(ps), ',')) =~= ps);
            lemma_lacks_concat(ts_sig_params(init), seq![','], ')');
            lemma_lacks_concat(ts_sig_params(init) + seq![','], piece, ')');
            lemma_lacks_concat(ts_sig_params(init), seq![','], '\n');
            lemma_lacks_concat(ts_sig_params(init) + seq![','], piece, '\n');
        }
    }
}

proof fn lemma_return(rt: Option<TypeRefV>)
    requires
        return_ok(rt),
    ensures
        ts_return_type(": "@ + ts_ret(rt) + " {"@) == rt,
        lacks(ts_ret(rt), '\n'),
{
    reveal_strlit(": ");
    reveal_strlit(" {");
    reveal_strlit(" ");
    reveal_strlit("void");
    reveal_strlit("number");
    reveal_strlit("string");
    reveal_strlit("boolean");
    reveal_strlit("any");
    let r = ts_ret(rt);
    assert(r.len() > 0);
    assert forall|k: int| 0 <= k < r.len() implies !is_ws(#[trigger] r[k]) && r[k] != '{' && r[k] != '\n' by {}
    let x = ": "@ + r + " {"@;
    assert(x[0] == ':');
    lemma_first_index(x, ':', 0);
    let sub = x.subrange(1, x.len() as int);
    assert(sub =~= " "@ + r + " {"@);
    assert(sub[1] == r[0]);
    crate::text::lemma_ws_prefix(sub, 1);
    let ac = trim_start(sub);
    assert(ac =~= r + " {"@);
    assert forall|k: int| 0 <= k < r.len() implies #[trigger] ac[k] != '{' && !is_ws(ac[k]) by {
        assert(ac[k] == r[k]);
    }
    assert(ac[r.len() as int] == ' ');
    lemma_type_end(ac, r.len() as int);
    assert(ac.subrange(0, r.len() as int) =~= r);
    lemma_trim_between(r, 0, r.len() as int);
    assert(r.subrange(0, r.len() as int) =~= r);
    match rt {
        None => {},
        Some(t) => {
            assert(r != "void"@) by {
                match t {
                    TypeRefV::Custom(n) => {},
                    _ => {
                        assert(r.len() != 4 || r[0] != 'v');
                    },
                }
            }
        },
    }
}

#[verifier::spinoff_prover]
#[verifier::rlimit(80)]
proof fn lemma_sig_line(f: FunctionV, mn: Seq<char>)
    requires
        function_ok(f, mn),
    ensures
        trim_start(sig_line(f)) == sig_line(f),
        spec_parse_ts_function(sig_line(f)) == Some(f),
        plain_line(sig_line(f)),
{
    reveal_strlit("export function ");
    reveal_strlit("(");
    reveal_strlit(")");
    reveal_strlit(": ");
    reveal_strlit(" {");
    let pre = "export function "@;
    let n = f.name;
    let pp = ts_sig_params(f.params);
    let r = ts_ret(f.return_type);
    let line = sig_line(f);
    assert(line[0] == 'e');
    lemma_trim_start_plain(line);
    assert(line.subrange(0, pre.len() as int) =~= pre);
    let after = line.subrange(pre.len() as int, line.len() as int);
    assert(after =~= n + "("@ + pp + ")"@ + ": "@ + r + " {"@);
    let nl: int = n.len() as int;
    assert forall|k: int| 0 <= k < nl implies after[k] != '(' by {
        assert(after[k] == n[k]);
    }
    lemma_first_index(after, '(', nl);
    assert(after.subrange(0, nl) =~= n);
    let rest = after.subrange(nl + 1, after.len() as int);
    assert(rest =~= pp + ")"@ + ": "@ + r + " {"@);
    lemma_sig_params(f.params);
    let pl: int = pp.len() as int;
    assert forall|k: int| 0 <= k < pl implies rest[k] != ')' by {
        assert(rest[k] == pp[k]);
    }
    lemma_first_index(rest, ')', pl);
    assert(rest.subrange(0, pl) =~= pp);
    assert(rest.subrange(pl + 1, rest.len() as int) =~= ": "@ + r + " {"@);
    lemma_return(f.return_type);
    assert(f.body =~= Seq::<Seq<char>>::empty());
    assert(spec_parse_ts_function(line) =~= Some(f));
    assert forall|i: int| 0 <= i < line.len() implies #[trigger] line[i] != '\n' by {
        let a: int = pre.len() as int;
        if a <= i < a + nl {
            assert(line[i] == n[i - a]);
        } else if a + nl + 1 <= i < a + nl + 1 + pl {
            assert(line[i] == pp[i - a - nl - 1]);
        } else if a + nl + pl + 4 <= i < a + nl + pl + 4 + r.len() {
            assert(line[i] == r[i - a - nl - pl - 4]);
        }
    }
}


proof fn lemma_scan_function(lines: Seq<Seq<char>>, i: nat, f: FunctionV, first: bool, mn: Seq<char>)
    requires
        i + function_lines(f, first).len() <= lines.len(),
        lines.subrange(i as int, i as int + function_lines(f, first).len()) == function_lines(f, first),
        function_ok(f, mn),
    ensures
        ts_scan(lines, i, mn) == ({
            let r = ts_scan(lines, (i + function_lines(f, first).len()) as nat, mn);
            (r.0, seq![f] + r.1)
        }),
{
    let fl = function_lines(f, first);
    let ii: int = i as int;
    let b: int = if first { 0 } else { 1 };
    assert(fl.len() == b + 2);
    assert forall|k: int| 0 <= k < fl.len() implies lines[ii + k] == #[trigger] fl[k] by {
        assert(lines.subrange(ii, ii + fl.len())[k] == lines[ii + k]);
    }
    if !first {
        assert(fl[0] == Seq::<char>::empty());
        assert(lines[ii + 0] == fl[0]);
        lemma_skip_blank();
        assert(ts_scan(lines, i, mn) == ts_scan(lines, (ii + 1) as nat, mn));
    }
    let si = (ii + b) as nat;
    assert(fl[b] == sig_line(f));
    assert(lines[si as int] == lines[ii + b]);
    lemma_sig_line(f, mn);
    assert(fl[b + 1] == "}"@);
    assert(lines[si as int + 1] == lines[ii + (b + 1)]);
    lemma_skip_close();
    assert(ts_scan(lines, (si + 1) as nat, mn) == ts_scan(lines, (ii + fl.len()) as nat, mn));
    assert(ts_scan(lines, si, mn) == ({
        let r = ts_scan(lines, (si + 1) as nat, mn);
        (r.0, seq![tag_converter(f, mn)] + r.1)
    }));
}

proof fn lemma_scan_functions(lines: Seq<Seq<char>>, i: nat, fs: Seq<FunctionV>, mn: Seq<char>)
    requires
        i + functions_lines(fs).len() <= lines.len(),
        lines.subrange(i as int, i as int + functions_lines(fs).len()) == functions_lines(fs),
        forall|k: int| 0 <= k < fs.len() ==> function_ok(#[trigger] fs[k], mn),
    ensures
        ts_scan(lines, i, mn) == ({
            let r = ts_scan(lines, (i + functions_lines(fs).len()) as nat, mn);
            (r.0, fs + r.1)
        }),
    decreases fs.len(),
{
    let ii: int = i as int;
    if fs.len() == 0 {
        let r = ts_scan(lines, i, mn);
        assert(fs + r.1 =~= r.1);
    } else {
        let init = fs.drop_last();
        let a = functions_lines(init);
        let b = function_lines(fs.last(), fs.len() == 1);
        let al: int = a.len() as int;
        let bl: int = b.len() as int;
        assert(functions_lines(fs) == a + b);
        let whole = lines.subrange(ii, ii + al + bl);
        assert(whole == a + b);
        assert(lines.subrange(ii, ii + al) =~= a) by {
            assert forall|k: int| 0 <= k < al implies lines.subrange(ii, ii + al)[k] == a[k] by {
                assert(whole[k] == (a + b)[k]);
            }
        }
        assert(lines.subrange(ii + al, ii + al + bl) =~= b) by {
            assert forall|k: int| 0 <= k < bl implies lines.subrange(ii + al, ii + al + bl)[k] == b[k] by {
                assert(whole[al + k] == (a + b)[al + k]);
            }
        }
        assert forall|k: int| 0 <= k < init.len() implies function_ok(#[trigger] init[k], mn) by {
            assert(init[k] == fs[k]);
        }
        assert(function_ok(fs[fs.len() - 1], mn));
        lemma_scan_functions(lines, i, init, mn);
        lemma_scan_function(lines, (ii + al) as nat, fs.last(), fs.len() == 1, mn);
        let r = ts_scan(lines, (i + functions_lines(fs).len()) as nat, mn);
        assert(fs + r.1 =~= init + (seq![fs.last()] + r.1));
    }
}

/// All lines are plain.
pub open spec fn all_plain(ls: Seq<Seq<char>>) -> bool {
    forall|i: int| 0 <= i < ls.len() ==> plain_line(#[trigger] ls[i])
}

proof fn lemma_all_plain_concat(a: Seq<Seq<char>>, b: Seq<Seq<char>>)
    requires
        all_plain(a),
        all_plain(b),
    ensures
        all_plain(a + b),
{
    assert forall|i: int| 0 <= i < (a + b).len() implies plain_line(#[trigger] (a + b)[i]) by {
        if i < a.len() {
            assert((a + b)[i] == a[i]);
        } else {
            assert((a + b)[i] == b[i - a.len()]);
        }
    }
}

proof fn lemma_interfaces_plain(ts: Seq<TypeDeclV>)
    requires
        forall|k: int| 0 <= k < ts.len() ==> type_decl_ok(#[trigger] ts[k]),
    ensures
        all_plain(interfaces_lines(ts)),
    decreases ts.len(),
{
    if ts.len() > 0 {
        let init = ts.drop_last();
        let t = ts.last();
        assert forall|k: int| 0 <= k < init.len() implies type_decl_ok(#[trigger] init[k]) by {
            assert(init[k] == ts[k]);
        }
        assert(type_decl_ok(ts[ts.len() - 1]));
        lemma_interfaces_plain(init);
        let c = comment_lines(t);
        let h = seq!["interface "@ + t.name + " {"@];
        let f = field_lines(t.fields);
        let e = seq!["}"@, Seq::<char>::empty()];
        if t.kind == TypeKind::Struct {
            lemma_skip_comment(t.name);
        }
        assert(all_plain(c));
        lemma_header(t.name);
        assert(all_plain(h));
        assert forall|k: int| 0 <= k < f.len() implies plain_line(#[trigger] f[k]) by {
            assert(field_ok(t.fields[k]));
            lemma_field_line(t.fields[k]);
        }
        lemma_skip_close();
        lemma_skip_blank();
        assert(all_plain(e));
        lemma_all_plain_concat(c, h);
        lemma_all_plain_concat(c + h, f);
        lemma_all_plain_concat(c + h + f, e);
        lemma_all_plain_concat(interfaces_lines(init), interface_lines(t));
    }
}

proof fn lemma_functions_plain(fs: Seq<FunctionV>, mn: Seq<char>)
    requires
        forall|k: int| 0 <= k < fs.len() ==> function_ok(#[trigger] fs[k], mn),
    ensures
        all_plain(functions_lines(fs)),
    decreases fs.len(),
{
    if fs.len() > 0 {
        let init = fs.drop_last();
        let f = fs.last();
        assert forall|k: int| 0 <= k < init.len() implies function_ok(#[trigger] init[k], mn) by {
            assert(init[k] == fs[k]);
        }
        assert(function_ok(fs[fs.len() - 1], mn));
        lemma_functions_plain(init, mn);
        lemma_sig_line(f, mn);
        lemma_skip_close();
        lemma_skip_blank();
        assert(all_plain(function_lines(f, fs.len() == 1)));
        lemma_all_plain_concat(functions_lines(init), function_lines(f, fs.len() == 1));
    }
}

/// Reading the TypeScript text of a module back gives the module: its
/// interfaces and its functions in order, a struct read back as an
/// interface. This holds for every module whose names and types stay on
/// their lines and hold none of the characters that end them where the
/// reader looks for them (see `type_decl_ok` and `function_ok`), and whose
/// functions are plain signatures: the text holds no function bodies.
pub proof fn lemma_ts_round_trip(m: ModuleV)
    requires
        forall|k: int| 0 <= k < m.types.len() ==> type_decl_ok(#[trigger] m.types[k]),
        forall|k: int| 0 <= k < m.functions.len() ==> function_ok(#[trigger] m.functions[k], m.name),
    ensures
        spec_from_ts_src(spec_module_to_ts(m), m.name) == (ModuleV {
            name: m.name,
            types: m.types.map_values(|t: TypeDeclV| as_interface(t)),
            functions: m.functions,
        }),
{
    assert forall|k: int| 0 <= k < m.functions.len() implies (#[trigger] m.functions[k]).kind
        == FunctionKind::Normal by {
        assert(function_ok(m.functions[k], m.name));
    }
    lemma_module_text(m);
    let il = interfaces_lines(m.types);
    let fl = functions_lines(m.functions);
    let lines = il + fl;
    lemma_interfaces_plain(m.types);
    lemma_functions_plain(m.functions, m.name);
    lemma_all_plain_concat(il, fl);
    lemma_lines_unlines(lines);
    assert(lines.subrange(0, il.len() as int) =~= il);
    lemma_scan_interfaces(lines, 0, m.types, m.name);
    assert(lines.subrange(il.len() as int, il.len() as int + fl.len()) =~= fl);
    lemma_scan_functions(lines, il.len(), m.functions, m.name);
    let end = ts_scan(lines, lines.len(), m.name);
    assert(end == (Seq::<TypeDeclV>::empty(), Seq::<FunctionV>::empty()));
    assert(m.types.map_values(|t: TypeDeclV| as_interface(t)) + end.0 =~= m.types.map_values(
        |t: TypeDeclV| as_interface(t),
    ));
    assert(m.functions + end.1 =~= m.functions);
}

} // verus!
