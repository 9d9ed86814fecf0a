//! TypeScript text and the program model: a line-based reader for
//! `export function` signatures and `interface` declarations, and the
//! TypeScript text of a module.

use vstd::prelude::*;
use crate::ast::{
    FieldV, Field, Function, FunctionKind, FunctionV, Module, ModuleV, Param, ParamV, TypeDecl,
    TypeDeclV, TypeKind, TypeRef, TypeRefV,
};
use crate::bpmn::xmltext::{first_index, lemma_first_index, split_on};
use crate::text::{
    char_is_ws, chars_of, chars_start_with, is_ws, starts_with, str_eq, string_from_range, trim,
    trim_range, trim_start, trim_start_at,
};

verus! {

/// The model type a TypeScript type name stands for (`any` is read as a string).
pub open spec fn spec_map_ts_type(name: Seq<char>) -> TypeRefV {
    let t = trim(name);
    if t == "number"@ {
        TypeRefV::Number
    } else if t == "string"@ {
        TypeRefV::Str
    } else if t == "boolean"@ {
        TypeRefV::Bool
    } else if t == "any"@ {
        TypeRefV::Str
    } else {
        TypeRefV::Custom(t)
    }
}

pub fn map_ts_type(cs: &[char], from: usize, to: usize) -> (r: TypeRef)
    requires
        from <= to <= cs@.len(),
    ensures
        r@ == spec_map_ts_type(cs@.subrange(from as int, to as int)),
{
    let (a, b) = trim_range(cs, from, to);
    let t = string_from_range(cs, a, b);
    if str_eq(t.as_str(), "number") {
        TypeRef::Number
    } else if str_eq(t.as_str(), "string") {
        TypeRef::String
    } else if str_eq(t.as_str(), "boolean") {
        TypeRef::Bool
    } else if str_eq(t.as_str(), "any") {
        TypeRef::String
    } else {
        TypeRef::Custom(t)
    }
}

/// One `name: type` parameter (a trailing `?` on the name is dropped);
/// empty pieces and pieces without `:` give nothing.
pub open spec fn ts_param(piece: Seq<char>) -> Seq<ParamV> {
    let part = trim(piece);
    if part.len() == 0 {
        Seq::empty()
    } else {
        match first_index(part, ':') {
            None => Seq::empty(),
            Some(c) => {
                let n0 = trim(part.subrange(0, c));
                let name = if n0.len() > 0 && n0.last() == '?' { n0.drop_last() } else { n0 };
                seq![ParamV { name, ty: spec_map_ts_type(part.subrange(c + 1, part.len() as int)) }]
            },
        }
    }
}

pub open spec fn ts_params(pieces: Seq<Seq<char>>) -> Seq<ParamV>
    decreases pieces.len(),
{
    if pieces.len() == 0 {
        Seq::empty()
    } else {
        ts_params(pieces.drop_last()) + ts_param(pieces.last())
    }
}

/// Position of the first `{` or white-space character (the length if none).
pub open spec fn type_end(s: Seq<char>) -> int
    decreases s.len(),
{
    if s.len() == 0 {
        0
    } else if s[0] == '{' || is_ws(s[0]) {
        0
    } else {
        1 + type_end(s.drop_first())
    }
}

/// The return type after the parameter list: the word after the first
/// `:`, unless it is empty or `void`.
pub open spec fn ts_return_type(after_paren: Seq<char>) -> Option<TypeRefV> {
    match first_index(after_paren, ':') {
        None => None,
        Some(ci) => {
            let ac = trim_start(after_paren.subrange(ci + 1, after_paren.len() as int));
            let ty = trim(ac.subrange(0, type_end(ac)));
            if ty.len() > 0 && ty != "void"@ {
                Some(spec_map_ts_type(ty))
            } else {
                None
            }
        },
    }
}

/// The signature an `export function name(params): ret` line declares.
pub open spec fn spec_parse_ts_function(line: Seq<char>) -> Option<FunctionV> {
    let p = "export function "@;
    if !starts_with(line, p) {
        None
    } else {
        let after = line.subrange(p.len() as int, line.len() as int);
        match first_index(after, '(') {
            None => None,
            Some(op) => {
                let rest = after.subrange(op + 1, after.len() as int);
                match first_index(rest, ')') {
                    None => None,
                    Some(cp) => Some(
                        FunctionV {
                            name: trim(after.subrange(0, op)),
                            params: ts_params(split_on(rest.subrange(0, cp), ',')),
                            return_type: ts_return_type(rest.subrange(cp + 1, rest.len() as int)),
                            kind: FunctionKind::Normal,
                            body: Seq::empty(),
                        },
                    ),
                }
            },
        }
    }
}

/// Index of the first `c` in `cs[from..to]`, as an absolute position.
fn find_in(cs: &[char], from: usize, to: usize, c: char) -> (r: Option<usize>)
    requires
        from <= to <= cs@.len(),
    ensures
        match r {
            Some(i) => from <= i < to && first_index(cs@.subrange(from as int, to as int), c) == Some(
                i - from,
            ),
            None => first_index(cs@.subrange(from as int, to as int), c).is_none(),
        },
{
    let ghost part = cs@.subrange(from as int, to as int);
    let mut i = from;
    while i < to
        invariant
            from <= i <= to <= cs@.len(),
            part == cs@.subrange(from as int, to as int),
            forall|k: int| 0 <= k < i - from ==> part[k] != c,
        decreases to - i,
    {
        assert(part[i - from] == cs@[i as int]);
        if cs[i] == c {
            proof {
                lemma_first_index(part, c, i - from);
            }
            return Some(i);
        }
        i += 1;
    }
    proof {
        lemma_first_index(part, c, part.len() as int);
    }
    None
}

fn parse_param_piece(cs: &[char], from: usize, to: usize, out: &mut Vec<Param>)
    requires
        from <= to <= cs@.len(),
    ensures
        final(out)@.map_values(|p: Param| p@) == old(out)@.map_values(|p: Param| p@) + ts_param(
            cs@.subrange(from as int, to as int),
        ),
{
    let ghost piece = cs@.subrange(from as int, to as int);
    let (a, b) = trim_range(cs, from, to);
    let ghost part = cs@.subrange(a as int, b as int);
    if a == b {
        assert(out@.map_values(|p: Param| p@) =~= old(out)@.map_values(|p: Param| p@) + ts_param(piece));
        return;
    }
    match find_in(cs, a, b, ':') {
        None => {
            assert(out@.map_values(|p: Param| p@) =~= old(out)@.map_values(|p: Param| p@) + ts_param(piece));
        },
        Some(c) => {
            let (na, nb) = trim_range(cs, a, c);
            assert(cs@.subrange(a as int, c as int) =~= part.subrange(0, c - a));
            let ghost n0 = cs@.subrange(na as int, nb as int);
            assert(n0 == trim(part.subrange(0, c - a)));
            let nb2 = if na < nb && cs[nb - 1] == '?' { nb - 1 } else { nb };
            let name = string_from_range(cs, na, nb2);
            proof {
                if na < nb {
                    assert(n0.last() == cs@[nb - 1]);
                    if cs@[nb - 1] == '?' {
                        assert(n0.drop_last() =~= name@);
                    }
                }
                let nm = if n0.len() > 0 && n0.last() == '?' { n0.drop_last() } else { n0 };
                assert(nm =~= name@);
            }
            let ty = map_ts_type(cs, c + 1, b);
            assert(cs@.subrange(c + 1, b as int) =~= part.subrange(c - a + 1, part.len() as int));
            let prm = Param { name, ty };
            out.push(prm);
            assert(out@.map_values(|p: Param| p@) =~= old(out)@.map_values(|p: Param| p@) + ts_param(piece));
        },
    }
}

/// The pieces of `cs[from..to]` between commas, read as parameters.
fn parse_ts_params(cs: &[char], from: usize, to: usize) -> (r: Vec<Param>)
    requires
        from <= to <= cs@.len(),
    ensures
        r@.map_values(|p: Param| p@) == ts_params(split_on(cs@.subrange(from as int, to as int), ',')),
{
    let ghost s = cs@.subrange(from as int, to as int);
    let mut out: Vec<Param> = Vec::new();
    let mut start = from;
    let mut i = from;
    while i < to
        invariant
            from <= start <= i <= to <= cs@.len(),
            s == cs@.subrange(from as int, to as int),
            split_on(s.subrange(0, i - from), ',').len() >= 1,
            split_on(s.subrange(0, i - from), ',').last() == cs@.subrange(start as int, i as int),
            out@.map_values(|p: Param| p@) == ts_params(
                split_on(s.subrange(0, i - from), ',').drop_last(),
            ),
        decreases to - i,
    {
        let ghost pre = split_on(s.subrange(0, i - from), ',');
        assert(s.subrange(0, i + 1 - from).drop_last() =~= s.subrange(0, i - from));
        assert(s.subrange(0, i + 1 - from).last() == cs@[i as int]);
        if cs[i] == ',' {
            parse_param_piece(cs, start, i, &mut out);
            let ghost post = split_on(s.subrange(0, i + 1 - from), ',');
            assert(post == pre.push(Seq::empty()));
            assert(post.drop_last() =~= pre);
            assert(pre =~= pre.drop_last().push(pre.last()));
            i += 1;
            start = i;
            assert(cs@.subrange(start as int, i as int) =~= Seq::<char>::empty());
        } else {
            let ghost post = split_on(s.subrange(0, i + 1 - from), ',');
            assert(post == pre.update(pre.len() - 1, pre.last().push(cs@[i as int])));
            assert(post.drop_last() =~= pre.drop_last());
            assert(cs@.subrange(start as int, i + 1) =~= cs@.subrange(start as int, i as int).push(cs@[i as int]));
            i += 1;
        }
    }
    assert(s.subrange(0, to - from) =~= s);
    let ghost fin = split_on(s, ',');
    parse_param_piece(cs, start, to, &mut out);
    assert(fin =~= fin.drop_last().push(fin.last()));
    out
}

/// The return type after the parameter list of `cs[from..to]`.
fn parse_ts_return(cs: &[char], from: usize, to: usize) -> (r: Option<TypeRef>)
    requires
        from <= to <= cs@.len(),
    ensures
        crate::ast::opt_type_view(r) == ts_return_type(cs@.subrange(from as int, to as int)),
{
    let ghost ap = cs@.subrange(from as int, to as int);
    match find_in(cs, from, to, ':') {
        None => None,
        Some(ci) => {
            let s = trim_start_at(cs, ci + 1, to);
            assert(cs@.subrange(ci + 1, to as int) =~= ap.subrange(ci - from + 1, ap.len() as int));
            let ghost ac = cs@.subrange(s as int, to as int);
            let mut e = s;
            while e < to && cs[e] != '{' && !char_is_ws(cs[e])
                invariant
                    s <= e <= to <= cs@.len(),
                    ac == cs@.subrange(s as int, to as int),
                    type_end(ac) == (e - s) + type_end(cs@.subrange(e as int, to as int)),
                decreases to - e,
            {
                assert(cs@.subrange(e as int, to as int).drop_first() =~= cs@.subrange(e + 1, to as int));
                e += 1;
            }
            assert(type_end(cs@.subrange(e as int, to as int)) == 0);
            assert(ac.subrange(0, e - s) =~= cs@.subrange(s as int, e as int));
            let (ta, tb) = trim_range(cs, s, e);
            let ty = string_from_range(cs, ta, tb);
            if ta < tb && !str_eq(ty.as_str(), "void") {
                Some(map_ts_type(cs, ta, tb))
            } else {
                assert(ty@.len() == 0 || ty@ == "void"@);
                None
            }
        },
    }
}

/// Reads an `export function` line (see [`spec_parse_ts_function`]).
pub fn parse_ts_function(line: &[char]) -> (r: Option<Function>)
    ensures
        match r {
            Some(f) => spec_parse_ts_function(line@) == Some(f@),
            None => spec_parse_ts_function(line@).is_none(),
        },
{
    if !chars_start_with(line, "export function ") {
        return None;
    }
    let n = line.len();
    let p = chars_of("export function ").len();
    let ghost after = line@.subrange(p as int, n as int);
    let op = match find_in(line, p, n, '(') {
        Some(op) => op,
        None => return None,
    };
    let ghost rest = after.subrange(op - p + 1, after.len() as int);
    assert(rest =~= line@.subrange(op + 1, n as int));
    let cp = match find_in(line, op + 1, n, ')') {
        Some(cp) => cp,
        None => return None,
    };
    let (na, nb) = trim_range(line, p, op);
    assert(after.subrange(0, op - p) =~= line@.subrange(p as int, op as int));
    let name = string_from_range(line, na, nb);
    let params = parse_ts_params(line, op + 1, cp);
    assert(rest.subrange(0, cp - op - 1) =~= line@.subrange(op + 1, cp as int));
    let return_type = parse_ts_return(line, cp + 1, n);
    assert(rest.subrange(cp - op, rest.len() as int) =~= line@.subrange(cp + 1, n as int));
    let f = Function { name, params, return_type, kind: FunctionKind::Normal, body: Vec::new() };
    assert(f@.body =~= Seq::<Seq<char>>::empty());
    Some(f)
}

/// A line without the `\r` of a `\r\n` ending.
pub open spec fn strip_cr(l: Seq<char>) -> Seq<char> {
    if l.len() > 0 && l.last() == '\r' {
        l.drop_last()
    } else {
        l
    }
}

/// `str::lines`: the text split at `\n` (and `\r\n`); a final line ending
/// does not start another line.
pub open spec fn spec_lines(s: Seq<char>) -> Seq<Seq<char>> {
    let parts = split_on(s, '\n');
    let body = parts.subrange(0, parts.len() - 1).map_values(|l: Seq<char>| strip_cr(l));
    if parts.last().len() == 0 {
        body
    } else {
        body.push(parts.last())
    }
}

pub open spec fn lines_of(v: Seq<Vec<char>>) -> Seq<Seq<char>> {
    v.map_values(|l: Vec<char>| l@)
}

/// The lines of a text (see [`spec_lines`]).
pub fn source_lines(cs: &[char]) -> (r: Vec<Vec<char>>)
    ensures
        lines_of(r@) == spec_lines(cs@),
{
    let n = cs.len();
    let mut out: Vec<Vec<char>> = Vec::new();
    let mut start: usize = 0;
    let mut i: usize = 0;
    while i < n
        invariant
            start <= i <= n == cs@.len(),
            split_on(cs@.subrange(0, i as int), '\n').len() >= 1,
            split_on(cs@.subrange(0, i as int), '\n').last() == cs@.subrange(start as int, i as int),
            lines_of(out@) == split_on(cs@.subrange(0, i as int), '\n').drop_last().map_values(
                |l: Seq<char>| strip_cr(l),
            ),
        decreases n - i,
    {
        let ghost pre = split_on(cs@.subrange(0, i as int), '\n');
        assert(cs@.subrange(0, i + 1).drop_last() =~= cs@.subrange(0, i as int));
        if cs[i] == '\n' {
            let mut end = i;
            if end > start && cs[end - 1] == '\r' {
                end = end - 1;
            }
            let mut line: Vec<char> = Vec::new();
            let mut k = start;
            while k < end
                invariant
                    start <= k <= end <= i < n == cs@.len(),
                    line@ == cs@.subrange(start as int, k as int),
                decreases end - k,
            {
                line.push(cs[k]);
                k += 1;
                assert(line@ =~= cs@.subrange(start as int, k as int));
            }
            let ghost cur = cs@.subrange(start as int, i as int);
            assert(line@ =~= strip_cr(cur));
            let ghost old_out = out@;
            out.push(line);
            assert(lines_of(out@) =~= lines_of(old_out).push(strip_cr(cur)));
            let ghost post = split_on(cs@.subrange(0, i + 1), '\n');
            assert(post == pre.push(Seq::empty()));
            assert(post.drop_last() =~= pre);
            assert(pre =~= pre.drop_last().push(pre.last()));
            assert(lines_of(out@) =~= post.drop_last().map_values(|l: Seq<char>| strip_cr(l)));
            i += 1;
            start = i;
            assert(cs@.subrange(start as int, i as int) =~= Seq::<char>::empty());
        } else {
            let ghost post = split_on(cs@.subrange(0, i + 1), '\n');
            assert(post == pre.update(pre.len() - 1, pre.last().push(cs@[i as int])));
            assert(post.drop_last() =~= pre.drop_last());
            assert(cs@.subrange(start as int, i + 1) =~= cs@.subrange(start as int, i as int).push(cs@[i as int]));
            i += 1;
        }
    }
    assert(cs@.subrange(0, n as int) =~= cs@);
    let ghost parts = split_on(cs@, '\n');
    assert(parts.subrange(0, parts.len() - 1) =~= parts.drop_last());
    if start < n {
        let mut line: Vec<char> = Vec::new();
        let mut k = start;
        while k < n
            invariant
                start <= k <= n == cs@.len(),
                line@ == cs@.subrange(start as int, k as int),
            decreases n - k,
        {
            line.push(cs[k]);
            k += 1;
            assert(line@ =~= cs@.subrange(start as int, k as int));
        }
        out.push(line);
        assert(lines_of(out@) =~= spec_lines(cs@));
    } else {
        assert(lines_of(out@) =~= spec_lines(cs@));
    }
    out
}

/// A field line `name: type;` of an interface body (nothing without `:`).
pub open spec fn ts_field(t: Seq<char>) -> Seq<FieldV> {
    match first_index(t, ':') {
        None => Seq::empty(),
        Some(c) => {
            let f0 = trim(t.subrange(c + 1, t.len() as int));
            let fty = match first_index(f0, ';') {
                Some(k) => trim(f0.subrange(0, k)),
                None => f0,
            };
            seq![FieldV { name: trim(t.subrange(0, c)), ty: spec_map_ts_type(fty) }]
        },
    }
}

/// A trimmed line that closes an interface body.
pub open spec fn closes(t: Seq<char>) -> bool {
    t.len() > 0 && t[0] == '}'
}

/// The fields from line `j` up to the closing `}`; blank and `//` lines are skipped.
pub open spec fn ts_fields(lines: Seq<Seq<char>>, j: nat) -> Seq<FieldV>
    decreases lines.len() - j,
{
    if j >= lines.len() {
        Seq::empty()
    } else {
        let t = trim(lines[j as int]);
        if closes(t) {
            Seq::empty()
        } else if t.len() == 0 || starts_with(t, "//"@) {
            ts_fields(lines, j + 1)
        } else {
            ts_field(t) + ts_fields(lines, j + 1)
        }
    }
}

/// The line after the closing `}` (or the end).
pub open spec fn ts_fields_end(lines: Seq<Seq<char>>, j: nat) -> nat
    decreases lines.len() - j,
{
    if j >= lines.len() {
        lines.len()
    } else if closes(trim(lines[j as int])) {
        j + 1
    } else {
        ts_fields_end(lines, j + 1)
    }
}

pub proof fn lemma_fields_end(lines: Seq<Seq<char>>, j: nat)
    ensures
        j <= lines.len() ==> j <= ts_fields_end(lines, j) <= lines.len(),
        j < lines.len() ==> j < ts_fields_end(lines, j),
    decreases lines.len() - j,
{
    if j < lines.len() && !closes(trim(lines[j as int])) {
        lemma_fields_end(lines, j + 1);
    }
}

/// The interface name: the text after `interface ` up to `{`, trimmed.
pub open spec fn ts_interface_name(first: Seq<char>) -> Seq<char> {
    let n0 = trim(first.subrange("interface "@.len() as int, first.len() as int));
    match first_index(n0, '{') {
        Some(k) => trim(n0.subrange(0, k)),
        None => n0,
    }
}

fn parse_field_line(t: &[char], out: &mut Vec<Field>)
    ensures
        final(out)@.map_values(|f: Field| f@) == old(out)@.map_values(|f: Field| f@) + ts_field(t@),
{
    let n = t.len();
    match find_in(t, 0, n, ':') {
        None => {
            assert(t@.subrange(0, n as int) =~= t@);
            assert(out@.map_values(|f: Field| f@) =~= old(out)@.map_values(|f: Field| f@) + ts_field(t@));
        },
        Some(c) => {
            assert(t@.subrange(0, n as int) =~= t@);
            let (na, nb) = trim_range(t, 0, c);
            let name = string_from_range(t, na, nb);
            let (fa, fb) = trim_range(t, c + 1, n);
            let ghost f0 = t@.subrange(fa as int, fb as int);
            let ty = match find_in(t, fa, fb, ';') {
                Some(k) => {
                    assert(f0.subrange(0, k - fa) =~= t@.subrange(fa as int, k as int));
                    proof {
                        crate::text::lemma_trim_idempotent(f0.subrange(0, k - fa));
                    }
                    map_ts_type(t, fa, k)
                },
                None => map_ts_type(t, fa, fb),
            };
            out.push(Field { name, ty });
            assert(out@.map_values(|f: Field| f@) =~= old(out)@.map_values(|f: Field| f@) + ts_field(t@));
        },
    }
}

/// Reads the interface that starts on `first` (whose body is on the
/// lines from `*next`), and moves `*next` past its closing `}`.
pub fn parse_ts_interface(first: &[char], lines: &Vec<Vec<char>>, next: &mut usize) -> (r: Option<TypeDecl>)
    requires
        starts_with(first@, "interface "@),
        *old(next) <= lines@.len(),
    ensures
        r matches Some(d) && d@ == (TypeDeclV {
            name: ts_interface_name(first@),
            kind: TypeKind::Interface,
            fields: ts_fields(lines_of(lines@), *old(next) as nat),
        }),
        *final(next) == ts_fields_end(lines_of(lines@), *old(next) as nat),
{
    let ghost lv = lines_of(lines@);
    let n = first.len();
    let p = chars_of("interface ").len();
    let (a, b) = trim_range(first, p, n);
    let ghost n0 = first@.subrange(a as int, b as int);
    let (na, nb) = match find_in(first, a, b, '{') {
        Some(k) => {
            assert(n0.subrange(0, k - a) =~= first@.subrange(a as int, k as int));
            trim_range(first, a, k)
        },
        None => (a, b),
    };
    let name = string_from_range(first, na, nb);
    let ghost j0 = *next as nat;
    let mut fields: Vec<Field> = Vec::new();
    let mut j: usize = *next;
    proof {
        lemma_fields_end(lv, j0);
    }
    while j < lines.len()
        invariant
            j0 <= j <= lines@.len(),
            j0 == *old(next),
            name@ == ts_interface_name(first@),
            lv == lines_of(lines@),
            ts_fields(lv, j0) == fields@.map_values(|f: Field| f@) + ts_fields(lv, j as nat),
            ts_fields_end(lv, j0) == ts_fields_end(lv, j as nat),
        decreases lines@.len() - j,
    {
        let line = &lines[j];
        let (ta, tb) = trim_range(line.as_slice(), 0, line.len());
        assert(line@.subrange(0, line@.len() as int) =~= line@);
        let t = &line.as_slice()[ta..tb];
        assert(t@ == trim(lv[j as int]));
        if ta < tb && t[0] == '}' {
            assert(ts_fields(lv, j as nat) =~= Seq::<FieldV>::empty());
            assert(fields@.map_values(|f: Field| f@) + Seq::<FieldV>::empty() =~= fields@.map_values(|f: Field| f@));
            *next = j + 1;
            return Some(TypeDecl { name, kind: TypeKind::Interface, fields });
        }
        let ghost before = fields@.map_values(|f: Field| f@);
        if ta == tb || chars_start_with(t, "//") {
        } else {
            parse_field_line(t, &mut fields);
            assert(ts_fields(lv, j0) =~= fields@.map_values(|f: Field| f@) + ts_fields(lv, (j + 1) as nat));
        }
        j += 1;
    }
    assert(ts_fields(lv, j as nat) =~= Seq::<FieldV>::empty());
    assert(fields@.map_values(|f: Field| f@) + Seq::<FieldV>::empty() =~= fields@.map_values(|f: Field| f@));
    *next = j;
    Some(TypeDecl { name, kind: TypeKind::Interface, fields })
}

/// Functions of the converter module are tagged by name.
pub open spec fn tag_converter(f: FunctionV, module_name: Seq<char>) -> FunctionV {
    if module_name == "converter"@ {
        if f.name == "convert_type"@ {
            FunctionV { kind: FunctionKind::ConverterConvertType, ..f }
        } else if f.name == "convert_ir_type"@ {
            FunctionV { kind: FunctionKind::ConverterConvertIrType, ..f }
        } else if f.name == "ts_path_to_string"@ {
            FunctionV { kind: FunctionKind::ConverterTsPathToString, ..f }
        } else {
            f
        }
    } else {
        f
    }
}

/// The declarations from line `i` on: an `export function` line (after
/// leading white space) is a function, an `interface` line starts an
/// interface whose body lines are consumed, other lines are skipped.
pub open spec fn ts_scan(lines: Seq<Seq<char>>, i: nat, module_name: Seq<char>) -> (Seq<TypeDeclV>, Seq<FunctionV>)
    decreases lines.len() - i,
{
    if i >= lines.len() {
        (Seq::empty(), Seq::empty())
    } else {
        let t = trim_start(lines[i as int]);
        match spec_parse_ts_function(t) {
            Some(f) => {
                let r = ts_scan(lines, i + 1, module_name);
                (r.0, seq![tag_converter(f, module_name)] + r.1)
            },
            None => if starts_with(t, "interface "@) {
                let decl = TypeDeclV {
                    name: ts_interface_name(t),
                    kind: TypeKind::Interface,
                    fields: ts_fields(lines, i + 1),
                };
                proof {
                    lemma_fields_end(lines, i + 1);
                }
                let r = ts_scan(lines, ts_fields_end(lines, i + 1), module_name);
                (seq![decl] + r.0, r.1)
            } else {
                ts_scan(lines, i + 1, module_name)
            },
        }
    }
}

/// The module that TypeScript source declares, under the given name.
pub open spec fn spec_from_ts_src(src: Seq<char>, module_name: Seq<char>) -> ModuleV {
    let r = ts_scan(spec_lines(src), 0, module_name);
    ModuleV { name: module_name, types: r.0, functions: r.1 }
}

fn tag_for_module(f: &mut Function, is_converter: bool, module_name: &str)
    requires
        is_converter == (module_name@ == "converter"@),
    ensures
        final(f)@ == tag_converter(old(f)@, module_name@),
{
    if is_converter {
        if str_eq(f.name.as_str(), "convert_type") {
            f.kind = FunctionKind::ConverterConvertType;
        } else if str_eq(f.name.as_str(), "convert_ir_type") {
            f.kind = FunctionKind::ConverterConvertIrType;
        } else if str_eq(f.name.as_str(), "ts_path_to_string") {
            f.kind = FunctionKind::ConverterTsPathToString;
        }
    }
}

fn scan_line(
    lines: &Vec<Vec<char>>,
    i: usize,
    is_converter: bool,
    module_name: &str,
    types: &mut Vec<TypeDecl>,
    functions: &mut Vec<Function>,
) -> (next: usize)
    requires
        i < lines@.len(),
        is_converter == (module_name@ == "converter"@),
    ensures
        i < next <= lines@.len(),
        final(types)@.map_values(|t: TypeDecl| t@) + ts_scan(lines_of(lines@), next as nat, module_name@).0
            == old(types)@.map_values(|t: TypeDecl| t@) + ts_scan(lines_of(lines@), i as nat, module_name@).0,
        final(functions)@.map_values(|f: Function| f@) + ts_scan(lines_of(lines@), next as nat, module_name@).1
            == old(functions)@.map_values(|f: Function| f@) + ts_scan(lines_of(lines@), i as nat, module_name@).1,
{
    let ghost lv = lines_of(lines@);
    let ghost m = module_name@;
    let _count = lines.len();
    let line = &lines[i];
    let n = line.len();
    let s = trim_start_at(line.as_slice(), 0, n);
    assert(line@.subrange(0, n as int) =~= line@);
    let t = &line.as_slice()[s..n];
    assert(t@ == trim_start(lv[i as int]));
    let ghost t0 = types@.map_values(|t: TypeDecl| t@);
    let ghost f0 = functions@.map_values(|f: Function| f@);
    match parse_ts_function(t) {
        Some(func) => {
            let mut func = func;
            tag_for_module(&mut func, is_converter, module_name);
            functions.push(func);
            let ghost r = ts_scan(lv, (i + 1) as nat, m);
            assert(ts_scan(lv, i as nat, m) == (r.0, seq![func@] + r.1));
            assert(functions@.map_values(|f: Function| f@) =~= f0.push(func@));
            assert(f0.push(func@) + r.1 =~= f0 + (seq![func@] + r.1));
            i + 1
        },
        None => {
            if chars_start_with(t, "interface ") {
                let mut next = i + 1;
                let d = parse_ts_interface(t, lines, &mut next);
                proof {
                    lemma_fields_end(lv, (i + 1) as nat);
                }
                let ghost r = ts_scan(lv, next as nat, m);
                match d {
                    Some(d) => {
                        types.push(d);
                        assert(ts_scan(lv, i as nat, m) == (seq![d@] + r.0, r.1));
                        assert(types@.map_values(|t: TypeDecl| t@) =~= t0.push(d@));
                        assert(t0.push(d@) + r.0 =~= t0 + (seq![d@] + r.0));
                    },
                    None => {},
                }
                next
            } else {
                i + 1
            }
        },
    }
}

/// Reads the declarations of TypeScript source (see [`spec_from_ts_src`]);
/// the module gets the given name (for a file, its stem).
pub fn from_ts_src(src: &str, module_name: &str) -> (r: Module)
    ensures
        r@ == spec_from_ts_src(src@, module_name@),
{
    let cs = chars_of(src);
    let lines = source_lines(cs.as_slice());
    let ghost lv = lines_of(lines@);
    let is_converter = str_eq(module_name, "converter");
    let mut types: Vec<TypeDecl> = Vec::new();
    let mut functions: Vec<Function> = Vec::new();
    let mut i: usize = 0;
    assert(types@.map_values(|t: TypeDecl| t@) + ts_scan(lv, 0, module_name@).0 =~= ts_scan(lv, 0, module_name@).0);
    assert(functions@.map_values(|f: Function| f@) + ts_scan(lv, 0, module_name@).1 =~= ts_scan(lv, 0, module_name@).1);
    while i < lines.len()
        invariant
            i <= lines@.len(),
            lv == lines_of(lines@),
            is_converter == (module_name@ == "converter"@),
            ts_scan(lv, 0, module_name@).0 == types@.map_values(|t: TypeDecl| t@) + ts_scan(
                lv,
                i as nat,
                module_name@,
            ).0,
            ts_scan(lv, 0, module_name@).1 == functions@.map_values(|f: Function| f@) + ts_scan(
                lv,
                i as nat,
                module_name@,
            ).1,
        decreases lines@.len() - i,
    {
        i = scan_line(&lines, i, is_converter, module_name, &mut types, &mut functions);
    }
    let ghost tv = types@.map_values(|t: TypeDecl| t@);
    let ghost fv = functions@.map_values(|f: Function| f@);
    assert(tv + ts_scan(lv, i as nat, module_name@).0 =~= tv);
    assert(fv + ts_scan(lv, i as nat, module_name@).1 =~= fv);
    Module { name: module_name.to_owned(), types, functions }
}

/// The TypeScript spelling of a model type.
pub open spec fn ts_type(t: TypeRefV) -> Seq<char> {
    match t {
        TypeRefV::Number => "number"@,
        TypeRefV::Str => "string"@,
        TypeRefV::Bool => "boolean"@,
        TypeRefV::Custom(n) => n,
    }
}

pub fn type_ref_to_ts(ty: &TypeRef) -> (r: String)
    ensures
        r@ == ts_type(ty@),
{
    match ty {
        TypeRef::Number => "number".to_owned(),
        TypeRef::String => "string".to_owned(),
        TypeRef::Bool => "boolean".to_owned(),
        TypeRef::Custom(name) => name.clone(),
    }
}

/// One `  name: type;` line per field.
pub open spec fn ts_field_lines(fs: Seq<FieldV>) -> Seq<char>
    decreases fs.len(),
{
    if fs.len() == 0 {
        Seq::empty()
    } else {
        ts_field_lines(fs.drop_last()) + "  "@ + fs.last().name + ": "@ + ts_type(fs.last().ty)
            + ";\n"@
    }
}

/// An interface (a struct gets a comment naming it first), followed by a blank line.
pub open spec fn ts_interface(t: TypeDeclV) -> Seq<char> {
    (if t.kind == TypeKind::Struct {
        "// Converted from Rust: struct "@ + t.name + "\n"@
    } else {
        Seq::empty()
    }) + "interface "@ + t.name + " {\n"@ + ts_field_lines(t.fields) + "}\n\n"@
}

pub open spec fn ts_interfaces(ts: Seq<TypeDeclV>) -> Seq<char>
    decreases ts.len(),
{
    if ts.len() == 0 {
        Seq::empty()
    } else {
        ts_interfaces(ts.drop_last()) + ts_interface(ts.last())
    }
}

/// `name: type` for each parameter, separated by `, `.
pub open spec fn ts_sig_params(ps: Seq<ParamV>) -> Seq<char>
    decreases ps.len(),
{
    if ps.len() == 0 {
        Seq::empty()
    } else {
        ts_sig_params(ps.drop_last()) + (if ps.len() > 1 { ", "@ } else { Seq::empty() })
            + ps.last().name + ": "@ + ts_type(ps.last().ty)
    }
}

/// The return type after `: `, `void` when there is none.
pub open spec fn ts_ret(t: Option<TypeRefV>) -> Seq<char> {
    match t {
        Some(t) => ts_type(t),
        None => "void"@,
    }
}

pub open spec fn ts_hello_main() -> Seq<char> {
    "// Converted from Rust: fn main(...)\nexport function main(): void {\n  console.log(`Hello, World!`);\n  const sum = add(2, 2);\n  console.log(`add(2, 2) = ${sum}`);\n  const person = { name: \"Not Sure\", age: 30 };\n  console.log(`Person: name=${person.name}, age=${person.age}`);\n}\n"@
}

pub open spec fn ts_neural_main() -> Seq<char> {
    "// Converted from Rust: fn main(...) for NeuralNetwork example\nexport function main(): void {\n  const x_layers = 3;\n  const y_nodes = 4;\n  const z_weights = 2;\n  const rng_label = (((globalThis as any).__RUST_TO_TS_RNG || 'default') as string);\n  let rng = ({ next_f32: (low: number, high: number) => {\n    function mulberry32(a: number) {\n      return function() {\n        let t = a += 0x6D2B79F5;\n        t = Math.imul(t ^ (t >>> 15), t | 1);\n        t ^= t + Math.imul(t ^ (t >>> 7), t | 61);\n        return ((t ^ (t >>> 14)) >>> 0) / 4294967296;\n      };\n    }\n    const seed = ((globalThis as any).__RUST_TO_TS_SEED >>> 0) || 0xDEADBEEF;\n    const rand = mulberry32(seed);\n    return low + rand() * (high - low);\n  }});\n  const nn = (NeuralNetwork as any).random_uniform(x_layers, y_nodes, z_weights, -1.0, 1.0);\n  console.log(`RNG: ${rng_label}`);\n  const [x, y, z] = nn.dims() as any;\n  console.log(`NeuralNetwork<f64> dims: x(layers)=${x}, y(nodes)=${y}, z(weights)=${z} | total elements=${nn.len()}`);\n  for (let layer = 0; layer < Math.min(x, 2); layer++) {\n    for (let node = 0; node < Math.min(y, 2); node++) {\n      for (let weight = 0; weight < Math.min(z, 2); weight++) {\n        const val = nn.get(layer, node, weight);\n        if (val !== undefined) {\n          console.log(`nn[${layer}, ${node}, ${weight}] = ${val}`);\n        }\n      }\n    }\n  }\n}\n"@
}

pub open spec fn ts_convert_rust_file() -> Seq<char> {
    "// Converted from Rust: fn convert_rust_file_to_ts(... )\nexport function convert_rust_file_to_ts(path: string): string {\n  const module = from_rust_module(path);\n  tag_special_functions_for_path(module, path);\n  return module_to_ts(module);\n}\n"@
}

pub open spec fn ts_convert_ts_file() -> Seq<char> {
    "// Converted from Rust: fn convert_ts_file_to_rust(... )\nexport function convert_ts_file_to_rust(path: string): string {\n  const module = from_ts_module(path);\n  return module_to_rust(&module);\n}\n"@
}

/// The TypeScript text of one function: tagged example functions get
/// their fixed text, every other function an empty exported stub.
pub open spec fn ts_function(f: FunctionV) -> Seq<char> {
    match f.kind {
        FunctionKind::HelloWorldMain => ts_hello_main(),
        FunctionKind::HelloWorldAdd => "// Converted from Rust: fn add(...)\n"@ + "export function add("@
            + ts_sig_params(f.params) + "): "@ + ts_ret(f.return_type) + " {\n"@
            + "  return x + y;\n"@ + "}\n"@,
        FunctionKind::NeuralNetMain => ts_neural_main(),
        FunctionKind::AstV2ConvertRustFileToTs => ts_convert_rust_file(),
        FunctionKind::AstV2ConvertTsFileToRust => ts_convert_ts_file(),
        _ => "export function "@ + f.name + "("@ + ts_sig_params(f.params) + ")"@ + ": "@ + ts_ret(
            f.return_type,
        ) + " {\n"@ + "}\n"@,
    }
}

pub open spec fn ts_functions(fs: Seq<FunctionV>) -> Seq<char>
    decreases fs.len(),
{
    if fs.len() == 0 {
        Seq::empty()
    } else {
        ts_functions(fs.drop_last()) + (if fs.len() > 1 { "\n"@ } else { Seq::empty() })
            + ts_function(fs.last())
    }
}

/// Some function is the neural-network example's `main`.
pub open spec fn has_neural_main(fs: Seq<FunctionV>) -> bool {
    exists|i: int| 0 <= i < fs.len() && (#[trigger] fs[i]).kind == FunctionKind::NeuralNetMain
}

/// The TypeScript text of a module: the import the neural-network
/// example needs, the interfaces, then the functions.
pub open spec fn spec_module_to_ts(m: ModuleV) -> Seq<char> {
    (if has_neural_main(m.functions) {
        "import { NeuralNetwork } from \"./lib.ts\";\n\n"@
    } else {
        Seq::empty()
    }) + ts_interfaces(m.types) + ts_functions(m.functions)
}

fn push_ts_interface(out: &mut String, t: &TypeDecl)
    ensures
        final(out)@ == old(out)@ + ts_interface(t@),
{
    let ghost fs = t@.fields;
    let ghost start = out@;
    match t.kind {
        TypeKind::Struct => {
            out.push_str("// Converted from Rust: struct ");
            out.push_str(t.name.as_str());
            out.push_str("\n");
        },
        TypeKind::Interface => {},
    }
    out.push_str("interface ");
    out.push_str(t.name.as_str());
    out.push_str(" {\n");
    let ghost head = out@;
    let mut i: usize = 0;
    while i < t.fields.len()
        invariant
            i <= t.fields@.len(),
            fs == t@.fields,
            out@ == head + ts_field_lines(fs.subrange(0, i as int)),
        decreases t.fields@.len() - i,
    {
        let f = &t.fields[i];
        out.push_str("  ");
        out.push_str(f.name.as_str());
        out.push_str(": ");
        let ty = type_ref_to_ts(&f.ty);
        out.push_str(ty.as_str());
        out.push_str(";\n");
        assert(fs.subrange(0, i + 1).drop_last() =~= fs.subrange(0, i as int));
        i += 1;
    }
    assert(fs.subrange(0, fs.len() as int) =~= fs);
    out.push_str("}\n\n");
    assert(out@ =~= start + ts_interface(t@));
}

fn push_ts_params(out: &mut String, ps: &Vec<Param>)
    ensures
        final(out)@ == old(out)@ + ts_sig_params(ps@.map_values(|p: Param| p@)),
{
    let ghost v = ps@.map_values(|p: Param| p@);
    let mut i: usize = 0;
    while i < ps.len()
        invariant
            i <= ps@.len(),
            v == ps@.map_values(|p: Param| p@),
            out@ == old(out)@ + ts_sig_params(v.subrange(0, i as int)),
        decreases ps@.len() - i,
    {
        if i > 0 {
            out.push_str(", ");
        }
        out.push_str(ps[i].name.as_str());
        out.push_str(": ");
        let ty = type_ref_to_ts(&ps[i].ty);
        out.push_str(ty.as_str());
        assert(v.subrange(0, i + 1).drop_last() =~= v.subrange(0, i as int));
        i += 1;
    }
    assert(v.subrange(0, v.len() as int) =~= v);
}

fn push_ts_ret(out: &mut String, t: &Option<TypeRef>)
    ensures
        final(out)@ == old(out)@ + ts_ret(crate::ast::opt_type_view(*t)),
{
    match t {
        Some(t) => {
            let s = type_ref_to_ts(t);
            out.push_str(s.as_str());
        },
        None => out.push_str("void"),
    }
}

fn push_ts_function(out: &mut String, f: &Function)
    ensures
        final(out)@ == old(out)@ + ts_function(f@),
{
    match f.kind {
        FunctionKind::HelloWorldMain => {
            out.push_str("// Converted from Rust: fn main(...)\nexport function main(): void {\n  console.log(`Hello, World!`);\n  const sum = add(2, 2);\n  console.log(`add(2, 2) = ${sum}`);\n  const person = { name: \"Not Sure\", age: 30 };\n  console.log(`Person: name=${person.name}, age=${person.age}`);\n}\n");
        },
        FunctionKind::HelloWorldAdd => {
            out.push_str("// Converted from Rust: fn add(...)\n");
            out.push_str("export function add(");
            push_ts_params(out, &f.params);
            out.push_str("): ");
            push_ts_ret(out, &f.return_type);
            out.push_str(" {\n");
            out.push_str("  return x + y;\n");
            out.push_str("}\n");
        },
        FunctionKind::NeuralNetMain => {
            out.push_str("// Converted from Rust: fn main(...) for NeuralNetwork example\nexport function main(): void {\n  const x_layers = 3;\n  const y_nodes = 4;\n  const z_weights = 2;\n  const rng_label = (((globalThis as any).__RUST_TO_TS_RNG || 'default') as string);\n  let rng = ({ next_f32: (low: number, high: number) => {\n    function mulberry32(a: number) {\n      return function() {\n        let t = a += 0x6D2B79F5;\n        t = Math.imul(t ^ (t >>> 15), t | 1);\n        t ^= t + Math.imul(t ^ (t >>> 7), t | 61);\n        return ((t ^ (t >>> 14)) >>> 0) / 4294967296;\n      };\n    }\n    const seed = ((globalThis as any).__RUST_TO_TS_SEED >>> 0) || 0xDEADBEEF;\n    const rand = mulberry32(seed);\n    return low + rand() * (high - low);\n  }});\n  const nn = (NeuralNetwork as any).random_uniform(x_layers, y_nodes, z_weights, -1.0, 1.0);\n  console.log(`RNG: ${rng_label}`);\n  const [x, y, z] = nn.dims() as any;\n  console.log(`NeuralNetwork<f64> dims: x(layers)=${x}, y(nodes)=${y}, z(weights)=${z} | total elements=${nn.len()}`);\n  for (let layer = 0; layer < Math.min(x, 2); layer++) {\n    for (let node = 0; node < Math.min(y, 2); node++) {\n      for (let weight = 0; weight < Math.min(z, 2); weight++) {\n        const val = nn.get(layer, node, weight);\n        if (val !== undefined) {\n          console.log(`nn[${layer}, ${node}, ${weight}] = ${val}`);\n        }\n      }\n    }\n  }\n}\n");
        },
        FunctionKind::AstV2ConvertRustFileToTs => {
            out.push_str("// Converted from Rust: fn convert_rust_file_to_ts(... )\nexport function convert_rust_file_to_ts(path: string): string {\n  const module = from_rust_module(path);\n  tag_special_functions_for_path(module, path);\n  return module_to_ts(module);\n}\n");
        },
        FunctionKind::AstV2ConvertTsFileToRust => {
            out.push_str("// Converted from Rust: fn convert_ts_file_to_rust(... )\nexport function convert_ts_file_to_rust(path: string): string {\n  const module = from_ts_module(path);\n  return module_to_rust(&module);\n}\n");
        },
        _ => {
            out.push_str("export function ");
            out.push_str(f.name.as_str());
            out.push_str("(");
            push_ts_params(out, &f.params);
            out.push_str(")");
            out.push_str(": ");
            push_ts_ret(out, &f.return_type);
            out.push_str(" {\n");
            out.push_str("}\n");
        },
    }
}

/// The TypeScript text of a module (see [`spec_module_to_ts`]).
pub fn module_to_ts(module: &Module) -> (r: String)
    ensures
        r@ == spec_module_to_ts(module@),
{
    let ghost m = module@;
    let mut out = String::new();
    let mut has_nn = false;
    let mut k: usize = 0;
    while k < module.functions.len()
        invariant
            k <= module.functions@.len(),
            m == module@,
            has_nn == exists|i: int| 0 <= i < k && (#[trigger] m.functions[i]).kind == FunctionKind::NeuralNetMain,
        decreases module.functions@.len() - k,
    {
        match module.functions[k].kind {
            FunctionKind::NeuralNetMain => {
                has_nn = true;
            },
            _ => {},
        }
        assert(m.functions[k as int] == module.functions@[k as int]@);
        k += 1;
    }
    if has_nn {
        out.push_str("import { NeuralNetwork } from \"./lib.ts\";\n\n");
    }
    let ghost head0 = out@;
    let mut i: usize = 0;
    while i < module.types.len()
        invariant
            i <= module.types@.len(),
            m == module@,
            out@ == head0 + ts_interfaces(m.types.subrange(0, i as int)),
        decreases module.types@.len() - i,
    {
        push_ts_interface(&mut out, &module.types[i]);
        assert(m.types.subrange(0, i + 1).drop_last() =~= m.types.subrange(0, i as int));
        i += 1;
    }
    assert(m.types.subrange(0, m.types.len() as int) =~= m.types);
    let ghost head = out@;
    let mut j: usize = 0;
    while j < module.functions.len()
        invariant
            j <= module.functions@.len(),
            m == module@,
            out@ == head + ts_functions(m.functions.subrange(0, j as int)),
        decreases module.functions@.len() - j,
    {
        if j > 0 {
            out.push_str("\n");
        }
        push_ts_function(&mut out, &module.functions[j]);
        assert(m.functions.subrange(0, j + 1).drop_last() =~= m.functions.subrange(0, j as int));
        j += 1;
    }
    assert(m.functions.subrange(0, m.functions.len() as int) =~= m.functions);
    out
}

} // verus!
