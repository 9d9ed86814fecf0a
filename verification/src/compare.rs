//! Comparing the module read from Rust with the module read from
//! TypeScript: for each Rust type and function, its counterpart of the same
//! name on the TypeScript side and whether their fields, parameters and
//! return types agree.

use vstd::prelude::*;
use crate::ast::{
    opt_type_view, Field, FieldV, Function, FunctionV, Module, ModuleV, Param, ParamV, TypeDecl, TypeDeclV, TypeKind,
    TypeRef, TypeRefV,
};
use crate::text::str_eq;

verus! {

/// One line of the comparison report.
#[derive(Debug)]
pub enum CompareLine {
    /// A type found on both sides, with its kind on each.
    TypeKinds { name: String, rust: TypeKind, ts: TypeKind },
    /// A field found on both sides, with its type on each and whether they agree.
    FieldTypes { name: String, rust: TypeRef, ts: TypeRef, same: bool },
    /// A Rust field that the TypeScript type lacks.
    FieldMissing { name: String },
    /// A Rust type with no TypeScript type of its name.
    TypeMissing { name: String },
    /// A function found on both sides: whether the parameters (names and
    /// types, in order) and the return types agree.
    FunctionStatus { name: String, params_ok: bool, return_ok: bool },
    /// A Rust function with no TypeScript function of its name.
    FunctionMissing { name: String },
}

pub enum CompareLineV {
    TypeKinds { name: Seq<char>, rust: TypeKind, ts: TypeKind },
    FieldTypes { name: Seq<char>, rust: TypeRefV, ts: TypeRefV, same: bool },
    FieldMissing { name: Seq<char> },
    TypeMissing { name: Seq<char> },
    FunctionStatus { name: Seq<char>, params_ok: bool, return_ok: bool },
    FunctionMissing { name: Seq<char> },
}

impl View for CompareLine {
    type V = CompareLineV;

    open spec fn view(&self) -> CompareLineV {
        match self {
            CompareLine::TypeKinds { name, rust, ts } => CompareLineV::TypeKinds { name: name@, rust: *rust, ts: *ts },
            CompareLine::FieldTypes { name, rust, ts, same } => CompareLineV::FieldTypes {
                name: name@,
                rust: rust@,
                ts: ts@,
                same: *same,
            },
            CompareLine::FieldMissing { name } => CompareLineV::FieldMissing { name: name@ },
            CompareLine::TypeMissing { name } => CompareLineV::TypeMissing { name: name@ },
            CompareLine::FunctionStatus { name, params_ok, return_ok } => CompareLineV::FunctionStatus {
                name: name@,
                params_ok: *params_ok,
                return_ok: *return_ok,
            },
            CompareLine::FunctionMissing { name } => CompareLineV::FunctionMissing { name: name@ },
        }
    }
}

/// The views of a list of report lines.
pub open spec fn report_view(v: Seq<CompareLine>) -> Seq<CompareLineV> {
    v.map_values(|l: CompareLine| l@)
}

/// The index of the first element that satisfies `p`.
pub open spec fn first_where<T>(s: Seq<T>, p: spec_fn(T) -> bool) -> Option<int>
    decreases s.len(),
{
    if s.len() == 0 {
        None
    } else if p(s[0]) {
        Some(0)
    } else {
        match first_where(s.drop_first(), p) {
            Some(i) => Some(i + 1),
            None => None,
        }
    }
}

/// The first match is the first index that satisfies `p`.
pub proof fn lemma_first_where<T>(s: Seq<T>, p: spec_fn(T) -> bool, i: int)
    requires
        0 <= i <= s.len(),
        forall|j: int| 0 <= j < i ==> !p(#[trigger] s[j]),
    ensures
        i < s.len() && p(s[i]) ==> first_where(s, p) == Some(i),
        i == s.len() ==> first_where(s, p) is None,
    decreases i,
{
    if i > 0 {
        let t = s.drop_first();
        assert forall|j: int| 0 <= j < i - 1 implies !p(#[trigger] t[j]) by {
            assert(t[j] == s[j + 1]);
        }
        lemma_first_where(t, p, i - 1);
        assert(!p(s[0]));
        if i < s.len() {
            assert(t[i - 1] == s[i]);
        }
    }
}

/// The report line of a Rust field against the fields of the TypeScript type.
pub open spec fn field_line(rf: FieldV, tfields: Seq<FieldV>) -> CompareLineV {
    match first_where(tfields, |f: FieldV| f.name == rf.name) {
        Some(j) => CompareLineV::FieldTypes { name: rf.name, rust: rf.ty, ts: tfields[j].ty, same: rf.ty == tfields[j].ty },
        None => CompareLineV::FieldMissing { name: rf.name },
    }
}

/// The report lines of a Rust type: its kinds and one line per field, or
/// that it is missing.
pub open spec fn type_lines(rt: TypeDeclV, ts: Seq<TypeDeclV>) -> Seq<CompareLineV> {
    match first_where(ts, |t: TypeDeclV| t.name == rt.name) {
        Some(j) => seq![CompareLineV::TypeKinds { name: rt.name, rust: rt.kind, ts: ts[j].kind }]
            + rt.fields.map_values(|f: FieldV| field_line(f, ts[j].fields)),
        None => seq![CompareLineV::TypeMissing { name: rt.name }],
    }
}

/// The report lines of the Rust types, in order.
pub open spec fn types_lines(rts: Seq<TypeDeclV>, ts: Seq<TypeDeclV>) -> Seq<CompareLineV>
    decreases rts.len(),
{
    if rts.len() == 0 {
        Seq::empty()
    } else {
        types_lines(rts.drop_last(), ts) + type_lines(rts.last(), ts)
    }
}

/// The parameters agree: as many, with the same names and types in order.
pub open spec fn params_agree(rp: Seq<ParamV>, tp: Seq<ParamV>) -> bool {
    rp.len() == tp.len() && forall|i: int| 0 <= i < rp.len() ==> #[trigger] rp[i] == tp[i]
}

/// The report line of a Rust function against the TypeScript functions.
pub open spec fn fn_line(rf: FunctionV, tfns: Seq<FunctionV>) -> CompareLineV {
    match first_where(tfns, |f: FunctionV| f.name == rf.name) {
        Some(j) => CompareLineV::FunctionStatus {
            name: rf.name,
            params_ok: params_agree(rf.params, tfns[j].params),
            return_ok: rf.return_type == tfns[j].return_type,
        },
        None => CompareLineV::FunctionMissing { name: rf.name },
    }
}

/// The whole report: the lines of the Rust types, then one line per Rust function.
pub open spec fn spec_compare_modules(rm: ModuleV, tm: ModuleV) -> Seq<CompareLineV> {
    types_lines(rm.types, tm.types) + rm.functions.map_values(|f: FunctionV| fn_line(f, tm.functions))
}

fn copy_type_ref(t: &TypeRef) -> (r: TypeRef)
    ensures
        r@ == t@,
{
    match t {
        TypeRef::Number => TypeRef::Number,
        TypeRef::String => TypeRef::String,
        TypeRef::Bool => TypeRef::Bool,
        TypeRef::Custom(s) => TypeRef::Custom(s.clone()),
    }
}

fn type_ref_eq(a: &TypeRef, b: &TypeRef) -> (r: bool)
    ensures
        r == (a@ == b@),
{
    match (a, b) {
        (TypeRef::Number, TypeRef::Number) => true,
        (TypeRef::String, TypeRef::String) => true,
        (TypeRef::Bool, TypeRef::Bool) => true,
        (TypeRef::Custom(x), TypeRef::Custom(y)) => str_eq(x.as_str(), y.as_str()),
        _ => false,
    }
}

fn opt_type_ref_eq(a: &Option<TypeRef>, b: &Option<TypeRef>) -> (r: bool)
    ensures
        r == (opt_type_view(*a) == opt_type_view(*b)),
{
    match (a, b) {
        (Some(x), Some(y)) => type_ref_eq(x, y),
        (None, None) => true,
        _ => false,
    }
}

fn params_eq(a: &Vec<Param>, b: &Vec<Param>) -> (r: bool)
    ensures
        r == params_agree(a@.map_values(|p: Param| p@), b@.map_values(|p: Param| p@)),
{
    let ghost av = a@.map_values(|p: Param| p@);
    let ghost bv = b@.map_values(|p: Param| p@);
    if a.len() != b.len() {
        return false;
    }
    let mut i: usize = 0;
    while i < a.len()
        invariant
            i <= a@.len() == b@.len(),
            av == a@.map_values(|p: Param| p@),
            bv == b@.map_values(|p: Param| p@),
            forall|j: int| 0 <= j < i ==> #[trigger] av[j] == bv[j],
        decreases a@.len() - i,
    {
        if !str_eq(a[i].name.as_str(), b[i].name.as_str()) || !type_ref_eq(&a[i].ty, &b[i].ty) {
            assert(av[i as int] != bv[i as int]);
            return false;
        }
        assert(av[i as int] == bv[i as int]);
        i += 1;
    }
    true
}

fn find_field(fs: &Vec<Field>, name: &str) -> (r: Option<usize>)
    ensures
        match r {
            Some(j) => j < fs@.len() && first_where(fs@.map_values(|f: Field| f@), |f: FieldV| f.name == name@) == Some(j as int),
            None => first_where(fs@.map_values(|f: Field| f@), |f: FieldV| f.name == name@) is None,
        },
{
    let ghost s = fs@.map_values(|f: Field| f@);
    let ghost p = |f: FieldV| f.name == name@;
    let mut i: usize = 0;
    while i < fs.len()
        invariant
            i <= fs@.len(),
            s == fs@.map_values(|f: Field| f@),
            p == (|f: FieldV| f.name == name@),
            forall|j: int| 0 <= j < i ==> !p(#[trigger] s[j]),
        decreases fs@.len() - i,
    {
        if str_eq(fs[i].name.as_str(), name) {
            proof {
                lemma_first_where(s, p, i as int);
            }
            return Some(i);
        }
        i += 1;
    }
    proof {
        lemma_first_where(s, p, i as int);
    }
    None
}

fn find_type(ts: &Vec<TypeDecl>, name: &str) -> (r: Option<usize>)
    ensures
        match r {
            Some(j) => j < ts@.len() && first_where(ts@.map_values(|t: TypeDecl| t@), |t: TypeDeclV| t.name == name@) == Some(j as int),
            None => first_where(ts@.map_values(|t: TypeDecl| t@), |t: TypeDeclV| t.name == name@) is None,
        },
{
    let ghost s = ts@.map_values(|t: TypeDecl| t@);
    let ghost p = |t: TypeDeclV| t.name == name@;
    let mut i: usize = 0;
    while i < ts.len()
        invariant
            i <= ts@.len(),
            s == ts@.map_values(|t: TypeDecl| t@),
            p == (|t: TypeDeclV| t.name == name@),
            forall|j: int| 0 <= j < i ==> !p(#[trigger] s[j]),
        decreases ts@.len() - i,
    {
        if str_eq(ts[i].name.as_str(), name) {
            proof {
                lemma_first_where(s, p, i as int);
            }
            return Some(i);
        }
        i += 1;
    }
    proof {
        lemma_first_where(s, p, i as int);
    }
    None
}

fn find_function(fs: &Vec<Function>, name: &str) -> (r: Option<usize>)
    ensures
        match r {
            Some(j) => j < fs@.len() && first_where(fs@.map_values(|f: Function| f@), |f: FunctionV| f.name == name@) == Some(j as int),
            None => first_where(fs@.map_values(|f: Function| f@), |f: FunctionV| f.name == name@) is None,
        },
{
    let ghost s = fs@.map_values(|f: Function| f@);
    let ghost p = |f: FunctionV| f.name == name@;
    let mut i: usize = 0;
    while i < fs.len()
        invariant
            i <= fs@.len(),
            s == fs@.map_values(|f: Function| f@),
            p == (|f: FunctionV| f.name == name@),
            forall|j: int| 0 <= j < i ==> !p(#[trigger] s[j]),
        decreases fs@.len() - i,
    {
        if str_eq(fs[i].name.as_str(), name) {
            proof {
                lemma_first_where(s, p, i as int);
            }
            return Some(i);
        }
        i += 1;
    }
    proof {
        lemma_first_where(s, p, i as int);
    }
    None
}

/// The report lines of one Rust type (see [`type_lines`]), added to `out`.
fn push_type_lines(out: &mut Vec<CompareLine>, rt: &TypeDecl, ts: &Vec<TypeDecl>)
    ensures
        report_view(final(out)@) == report_view(old(out)@) + type_lines(rt@, ts@.map_values(|t: TypeDecl| t@)),
{
    let ghost tsv = ts@.map_values(|t: TypeDecl| t@);
    let ghost start = report_view(out@);
    match find_type(ts, rt.name.as_str()) {
        Some(j) => {
            let tt = &ts[j];
            assert(tsv[j as int] == tt@);
            out.push(CompareLine::TypeKinds { name: rt.name.clone(), rust: rt.kind, ts: tt.kind });
            let ghost head = report_view(out@);
            assert(head =~= start + seq![CompareLineV::TypeKinds { name: rt@.name, rust: rt@.kind, ts: tsv[j as int].kind }]);
            let ghost tfv = tt.fields@.map_values(|f: Field| f@);
            let ghost rfv = rt.fields@.map_values(|f: Field| f@);
            let mut i: usize = 0;
            while i < rt.fields.len()
                invariant
                    i <= rt.fields@.len(),
                    tfv == tt.fields@.map_values(|f: Field| f@),
                    rfv == rt.fields@.map_values(|f: Field| f@),
                    report_view(out@) == head + rfv.subrange(0, i as int).map_values(|f: FieldV| field_line(f, tfv)),
                decreases rt.fields@.len() - i,
            {
                let rf = &rt.fields[i];
                assert(rfv[i as int] == rf@);
                let line = match find_field(&tt.fields, rf.name.as_str()) {
                    Some(k) => {
                        assert(tfv[k as int] == tt.fields@[k as int]@);
                        let same = type_ref_eq(&rf.ty, &tt.fields[k].ty);
                        CompareLine::FieldTypes {
                            name: rf.name.clone(),
                            rust: copy_type_ref(&rf.ty),
                            ts: copy_type_ref(&tt.fields[k].ty),
                            same,
                        }
                    },
                    None => CompareLine::FieldMissing { name: rf.name.clone() },
                };
                assert(line@ == field_line(rf@, tfv));
                let ghost before = report_view(out@);
                out.push(line);
                assert(report_view(out@) =~= before.push(line@));
                assert(rfv.subrange(0, i + 1).map_values(|f: FieldV| field_line(f, tfv)) =~= rfv.subrange(0, i as int).map_values(
                    |f: FieldV| field_line(f, tfv),
                ).push(field_line(rfv[i as int], tfv)));
                i += 1;
            }
            assert(rfv.subrange(0, rfv.len() as int) =~= rfv);
            assert(report_view(out@) =~= start + type_lines(rt@, tsv));
        },
        None => {
            let line = CompareLine::TypeMissing { name: rt.name.clone() };
            out.push(line);
            assert(report_view(out@) =~= start + type_lines(rt@, tsv));
        },
    }
}

/// The report of a Rust module against a TypeScript module (see
/// [`spec_compare_modules`]).
pub fn compare_modules(rust_mod: &Module, ts_mod: &Module) -> (r: Vec<CompareLine>)
    ensures
        report_view(r@) == spec_compare_modules(rust_mod@, ts_mod@),
{
    let ghost rm = rust_mod@;
    let ghost tm = ts_mod@;
    let mut out: Vec<CompareLine> = Vec::new();
    let mut i: usize = 0;
    while i < rust_mod.types.len()
        invariant
            i <= rust_mod.types@.len(),
            rm == rust_mod@,
            tm == ts_mod@,
            report_view(out@) == types_lines(rm.types.subrange(0, i as int), tm.types),
        decreases rust_mod.types@.len() - i,
    {
        push_type_lines(&mut out, &rust_mod.types[i], &ts_mod.types);
        assert(rm.types.subrange(0, i + 1).drop_last() =~= rm.types.subrange(0, i as int));
        assert(rm.types[i as int] == rust_mod.types@[i as int]@);
        i += 1;
    }
    assert(rm.types.subrange(0, rm.types.len() as int) =~= rm.types);
    let ghost head = report_view(out@);
    let mut k: usize = 0;
    while k < rust_mod.functions.len()
        invariant
            k <= rust_mod.functions@.len(),
            rm == rust_mod@,
            tm == ts_mod@,
            report_view(out@) == head + rm.functions.subrange(0, k as int).map_values(|f: FunctionV| fn_line(f, tm.functions)),
        decreases rust_mod.functions@.len() - k,
    {
        let rf = &rust_mod.functions[k];
        assert(rm.functions[k as int] == rf@);
        let line = match find_function(&ts_mod.functions, rf.name.as_str()) {
            Some(j) => {
                let tf = &ts_mod.functions[j];
                assert(tm.functions[j as int] == tf@);
                CompareLine::FunctionStatus {
                    name: rf.name.clone(),
                    params_ok: params_eq(&rf.params, &tf.params),
                    return_ok: opt_type_ref_eq(&rf.return_type, &tf.return_type),
                }
            },
            None => CompareLine::FunctionMissing { name: rf.name.clone() },
        };
        assert(line@ == fn_line(rf@, tm.functions));
        let ghost before = report_view(out@);
        out.push(line);
        assert(report_view(out@) =~= before.push(line@));
        assert(rm.functions.subrange(0, k + 1).map_values(|f: FunctionV| fn_line(f, tm.functions)) =~= rm.functions.subrange(
            0,
            k as int,
        ).map_values(|f: FunctionV| fn_line(f, tm.functions)).push(fn_line(rm.functions[k as int], tm.functions)));
        k += 1;
    }
    assert(rm.functions.subrange(0, rm.functions.len() as int) =~= rm.functions);
    out
}

/// The report line of the `k`-th Rust function: when a TypeScript function
/// of the same name exists, the line is about the first such function `j`,
/// its parameters count as agreeing exactly when the two parameter lists
/// are equal (same names and same types, in order), so a parameter whose
/// type differs at some position makes them disagree; its return types
/// agree exactly when they are equal. Otherwise the function is reported
/// missing.
pub proof fn lemma_function_line(rm: ModuleV, tm: ModuleV, k: int)
    requires
        0 <= k < rm.functions.len(),
    ensures
        ({
            let rf = rm.functions[k];
            let tfns = tm.functions;
            let line = spec_compare_modules(rm, tm)[types_lines(rm.types, tm.types).len() + k];
            &&& line matches CompareLineV::FunctionStatus { name, params_ok, return_ok } ==> {
                &&& name == rf.name
                &&& exists|j: int|
                    #![trigger tfns[j]]
                    0 <= j < tfns.len() && tfns[j].name == rf.name && (forall|i: int|
                        0 <= i < j ==> tfns[i].name != rf.name) && (params_ok <==> rf.params == tfns[j].params) && (
                    return_ok <==> rf.return_type == tfns[j].return_type) && (forall|p: int|
                        0 <= p < rf.params.len() && p < tfns[j].params.len() && rf.params[p].ty != tfns[j].params[p].ty
                            ==> !params_ok)
            }
            &&& line matches CompareLineV::FunctionMissing { name } ==> name == rf.name && forall|j: int|
                0 <= j < tfns.len() ==> tfns[j].name != rf.name
            &&& line is FunctionStatus || line is FunctionMissing
        }),
{
    let rf = rm.functions[k];
    let tfns = tm.functions;
    let head = types_lines(rm.types, tm.types);
    let tail = rm.functions.map_values(|f: FunctionV| fn_line(f, tm.functions));
    assert(spec_compare_modules(rm, tm)[head.len() + k] == tail[k]);
    let p = |f: FunctionV| f.name == rf.name;
    match first_where(tfns, p) {
        Some(j) => {
            lemma_first_where_found(tfns, p);
            assert(tfns[j].name == rf.name);
            if params_agree(rf.params, tfns[j].params) {
                assert(rf.params =~= tfns[j].params);
            }
        },
        None => {
            lemma_first_where_found(tfns, p);
        },
    }
}

/// What `first_where` finds: the first index that satisfies `p`, or none
/// when no element does.
proof fn lemma_first_where_found<T>(s: Seq<T>, p: spec_fn(T) -> bool)
    ensures
        match first_where(s, p) {
            Some(j) => 0 <= j < s.len() && p(s[j]) && forall|i: int| 0 <= i < j ==> !p(#[trigger] s[i]),
            None => forall|i: int| 0 <= i < s.len() ==> !p(#[trigger] s[i]),
        },
    decreases s.len(),
{
    if s.len() > 0 && !p(s[0]) {
        let t = s.drop_first();
        lemma_first_where_found(t, p);
        match first_where(t, p) {
            Some(j) => {
                assert forall|i: int| 0 <= i < j + 1 implies !p(#[trigger] s[i]) by {
                    if i > 0 {
                        assert(s[i] == t[i - 1]);
                    }
                }
                assert(s[j + 1] == t[j]);
            },
            None => {
                assert forall|i: int| 0 <= i < s.len() implies !p(#[trigger] s[i]) by {
                    if i > 0 {
                        assert(s[i] == t[i - 1]);
                    }
                }
            },
        }
    }
}

} // verus!
