//! Tags the functions of well-known example files with the special kinds
//! the emitters give fixed bodies.

use vstd::prelude::*;
use crate::ast::{FunctionKind, FunctionV, Module, ModuleV};
use crate::bpmn::xmltext::split_on;
use crate::text::{chars_of, str_eq, string_from_range};

verus! {

/// A path component that names a directory or file (not empty, not `.`).
pub open spec fn is_named_component(c: Seq<char>) -> bool {
    c.len() > 0 && c != "."@
}

pub open spec fn named_components(pieces: Seq<Seq<char>>) -> Seq<Seq<char>>
    decreases pieces.len(),
{
    if pieces.len() == 0 {
        Seq::empty()
    } else {
        named_components(pieces.drop_last()) + (if is_named_component(pieces.last()) {
            seq![pieces.last()]
        } else {
            Seq::empty()
        })
    }
}

/// The names of the directories that contain the file a `/`-separated
/// path names: its components but the last.
pub open spec fn ancestor_names(path: Seq<char>) -> Seq<Seq<char>> {
    let c = named_components(split_on(path, '/'));
    if c.len() == 0 {
        c
    } else {
        c.drop_last()
    }
}

/// The path lies under both an `Examples` and a `NeuralNetwork` directory.
pub open spec fn under_neural_network_example(path: Seq<char>) -> bool {
    ancestor_names(path).contains("Examples"@) && ancestor_names(path).contains("NeuralNetwork"@)
}

pub open spec fn hello_world_tag(f: FunctionV) -> FunctionV {
    if f.name == "main"@ {
        FunctionV { kind: FunctionKind::HelloWorldMain, ..f }
    } else if f.name == "add"@ && f.params.len() == 2 {
        FunctionV { kind: FunctionKind::HelloWorldAdd, ..f }
    } else {
        f
    }
}

pub open spec fn neural_main_tag(f: FunctionV) -> FunctionV {
    if f.name == "main"@ && f.params.len() == 0 {
        FunctionV { kind: FunctionKind::NeuralNetMain, ..f }
    } else {
        f
    }
}

pub open spec fn named_tag(f: FunctionV, name: Seq<char>, kind: FunctionKind) -> FunctionV {
    if f.name == name {
        FunctionV { kind, ..f }
    } else {
        f
    }
}

pub open spec fn with_functions(m: ModuleV, fs: Seq<FunctionV>) -> ModuleV {
    ModuleV { functions: fs, ..m }
}

/// The module after tagging: `hello_world` gets its `main` and two-parameter
/// `add` tagged; a `main` module under `Examples/.../NeuralNetwork` gets its
/// parameterless `main` tagged; `convert_rust_to_ts` and `convert_ts_to_rust`
/// get their entry functions tagged; any other module is unchanged.
pub open spec fn spec_tag_for_path(m: ModuleV, path: Seq<char>) -> ModuleV {
    if m.name == "hello_world"@ {
        with_functions(m, m.functions.map_values(|f: FunctionV| hello_world_tag(f)))
    } else if m.name == "main"@ {
        if under_neural_network_example(path) {
            with_functions(m, m.functions.map_values(|f: FunctionV| neural_main_tag(f)))
        } else {
            m
        }
    } else if m.name == "convert_rust_to_ts"@ {
        with_functions(
            m,
            m.functions.map_values(
                |f: FunctionV|
                    named_tag(f, "convert_rust_file_to_ts"@, FunctionKind::AstV2ConvertRustFileToTs),
            ),
        )
    } else if m.name == "convert_ts_to_rust"@ {
        with_functions(
            m,
            m.functions.map_values(
                |f: FunctionV|
                    named_tag(f, "convert_ts_file_to_rust"@, FunctionKind::AstV2ConvertTsFileToRust),
            ),
        )
    } else {
        m
    }
}

/// The named components of a `/`-separated path, in order.
fn path_components(path: &str) -> (r: Vec<String>)
    ensures
        r@.map_values(|s: String| s@) == named_components(split_on(path@, '/')),
{
    let cs = chars_of(path);
    let ghost s = cs@;
    let n = cs.len();
    let mut out: Vec<String> = Vec::new();
    let mut start: usize = 0;
    let mut i: usize = 0;
    while i < n
        invariant
            start <= i <= n == s.len(),
            s == cs@,
            split_on(s.subrange(0, i as int), '/').len() >= 1,
            split_on(s.subrange(0, i as int), '/').last() == s.subrange(start as int, i as int),
            out@.map_values(|x: String| x@) == named_components(
                split_on(s.subrange(0, i as int), '/').drop_last(),
            ),
        decreases n - i,
    {
        let ghost pre = split_on(s.subrange(0, i as int), '/');
        assert(s.subrange(0, i + 1).drop_last() =~= s.subrange(0, i as int));
        if cs[i] == '/' {
            let piece = string_from_range(cs.as_slice(), start, i);
            let ghost before = out@.map_values(|x: String| x@);
            if start < i && !str_eq(piece.as_str(), ".") {
                out.push(piece);
                assert(out@.map_values(|x: String| x@) =~= before.push(piece@));
            }
            let ghost post = split_on(s.subrange(0, i + 1), '/');
            assert(post == pre.push(Seq::empty()));
            assert(post.drop_last() =~= pre);
            assert(pre =~= pre.drop_last().push(pre.last()));
            i += 1;
            start = i;
            assert(s.subrange(start as int, i as int) =~= Seq::<char>::empty());
        } else {
            let ghost post = split_on(s.subrange(0, i + 1), '/');
            assert(post == pre.update(pre.len() - 1, pre.last().push(s[i as int])));
            assert(post.drop_last() =~= pre.drop_last());
            assert(s.subrange(start as int, i + 1) =~= s.subrange(start as int, i as int).push(s[i as int]));
            i += 1;
        }
    }
    assert(s.subrange(0, n as int) =~= s);
    let ghost fin = split_on(s, '/');
    let piece = string_from_range(cs.as_slice(), start, n);
    let ghost before = out@.map_values(|x: String| x@);
    if start < n && !str_eq(piece.as_str(), ".") {
        out.push(piece);
        assert(out@.map_values(|x: String| x@) =~= before.push(piece@));
    }
    assert(fin =~= fin.drop_last().push(fin.last()));
    out
}

fn contains_name(v: &Vec<String>, upto: usize, name: &str) -> (r: bool)
    requires
        upto <= v@.len(),
    ensures
        r == v@.map_values(|s: String| s@).subrange(0, upto as int).contains(name@),
{
    let ghost w = v@.map_values(|s: String| s@).subrange(0, upto as int);
    let mut i: usize = 0;
    while i < upto
        invariant
            i <= upto <= v@.len(),
            w == v@.map_values(|s: String| s@).subrange(0, upto as int),
            forall|k: int| 0 <= k < i ==> w[k] != name@,
        decreases upto - i,
    {
        if str_eq(v[i].as_str(), name) {
            assert(w[i as int] == name@);
            return true;
        }
        i += 1;
    }
    false
}

/// Whether a path lies under an `Examples` and a `NeuralNetwork` directory.
pub fn is_neural_network_example(path: &str) -> (r: bool)
    ensures
        r == under_neural_network_example(path@),
{
    let comps = path_components(path);
    let ghost c = comps@.map_values(|s: String| s@);
    let upto = if comps.len() == 0 { 0 } else { comps.len() - 1 };
    assert(c.subrange(0, upto as int) =~= ancestor_names(path@));
    contains_name(&comps, upto, "Examples") && contains_name(&comps, upto, "NeuralNetwork")
}

fn tag_hello_world_functions(module: &mut Module)
    ensures
        final(module)@ == with_functions(
            old(module)@,
            old(module)@.functions.map_values(|f: FunctionV| hello_world_tag(f)),
        ),
{
    let ghost fs0 = module@.functions;
    let mut i: usize = 0;
    while i < module.functions.len()
        invariant
            i <= module.functions@.len() == fs0.len(),
            module.name == old(module).name,
            module.types == old(module).types,
            fs0 == old(module)@.functions,
            forall|k: int| 0 <= k < i ==> (#[trigger] module.functions@[k])@ == hello_world_tag(fs0[k]),
            forall|k: int| i <= k < fs0.len() ==> (#[trigger] module.functions@[k])@ == fs0[k],
        decreases fs0.len() - i,
    {
        if str_eq(module.functions[i].name.as_str(), "main") {
            module.functions[i].kind = FunctionKind::HelloWorldMain;
        } else if str_eq(module.functions[i].name.as_str(), "add") && module.functions[i].params.len() == 2 {
            module.functions[i].kind = FunctionKind::HelloWorldAdd;
        }
        i += 1;
    }
    assert(module@.functions =~= fs0.map_values(|f: FunctionV| hello_world_tag(f)));
}

fn tag_neural_net_main(module: &mut Module)
    ensures
        final(module)@ == with_functions(
            old(module)@,
            old(module)@.functions.map_values(|f: FunctionV| neural_main_tag(f)),
        ),
{
    let ghost fs0 = module@.functions;
    let mut i: usize = 0;
    while i < module.functions.len()
        invariant
            i <= module.functions@.len() == fs0.len(),
            module.name == old(module).name,
            module.types == old(module).types,
            fs0 == old(module)@.functions,
            forall|k: int| 0 <= k < i ==> (#[trigger] module.functions@[k])@ == neural_main_tag(fs0[k]),
            forall|k: int| i <= k < fs0.len() ==> (#[trigger] module.functions@[k])@ == fs0[k],
        decreases fs0.len() - i,
    {
        if str_eq(module.functions[i].name.as_str(), "main") && module.functions[i].params.len() == 0 {
            module.functions[i].kind = FunctionKind::NeuralNetMain;
        }
        i += 1;
    }
    assert(module@.functions =~= fs0.map_values(|f: FunctionV| neural_main_tag(f)));
}

/// Gives the functions called `name` the kind `kind`.
fn tag_named(module: &mut Module, name: &str, kind: FunctionKind)
    ensures
        final(module)@ == with_functions(
            old(module)@,
            old(module)@.functions.map_values(|f: FunctionV| named_tag(f, name@, kind)),
        ),
{
    let ghost fs0 = module@.functions;
    let mut i: usize = 0;
    while i < module.functions.len()
        invariant
            i <= module.functions@.len() == fs0.len(),
            module.name == old(module).name,
            module.types == old(module).types,
            fs0 == old(module)@.functions,
            forall|k: int| 0 <= k < i ==> (#[trigger] module.functions@[k])@ == named_tag(fs0[k], name@, kind),
            forall|k: int| i <= k < fs0.len() ==> (#[trigger] module.functions@[k])@ == fs0[k],
        decreases fs0.len() - i,
    {
        if str_eq(module.functions[i].name.as_str(), name) {
            module.functions[i].kind = kind;
        }
        i += 1;
    }
    assert(module@.functions =~= fs0.map_values(|f: FunctionV| named_tag(f, name@, kind)));
}

/// Tags the functions of a module read from the file at `path` (a
/// `/`-separated path) as [`spec_tag_for_path`] says.
pub fn tag_special_functions_for_path(module: &mut Module, path: &str)
    ensures
        final(module)@ == spec_tag_for_path(old(module)@, path@),
{
    if str_eq(module.name.as_str(), "hello_world") {
        tag_hello_world_functions(module);
        return;
    }
    if str_eq(module.name.as_str(), "main") {
        if is_neural_network_example(path) {
            tag_neural_net_main(module);
        }
    } else if str_eq(module.name.as_str(), "convert_rust_to_ts") {
        tag_named(module, "convert_rust_file_to_ts", FunctionKind::AstV2ConvertRustFileToTs);
    } else if str_eq(module.name.as_str(), "convert_ts_to_rust") {
        tag_named(module, "convert_ts_file_to_rust", FunctionKind::AstV2ConvertTsFileToRust);
    }
}

/// Tagging changes nothing but the kinds of functions: for every module
/// and path, the name, the types, the number of functions and every part
/// of each function but its kind stay as they were; tagging again with the
/// same path changes nothing; and a module whose name is none of
/// `hello_world`, `main`, `convert_rust_to_ts` and `convert_ts_to_rust` is
/// left as it is.
pub proof fn lemma_tagging_changes_only_kinds(m: ModuleV, path: Seq<char>)
    ensures
        ({
            let t = spec_tag_for_path(m, path);
            &&& t.name == m.name
            &&& t.types == m.types
            &&& t.functions.len() == m.functions.len()
            &&& forall|i: int|
                0 <= i < m.functions.len() ==> (#[trigger] t.functions[i]) == FunctionV {
                    kind: t.functions[i].kind,
                    ..m.functions[i]
                }
            &&& spec_tag_for_path(t, path) == t
        }),
        m.name != "hello_world"@ && m.name != "main"@ && m.name != "convert_rust_to_ts"@ && m.name
            != "convert_ts_to_rust"@ ==> spec_tag_for_path(m, path) == m,
{
    let t = spec_tag_for_path(m, path);
    assert forall|i: int| 0 <= i < m.functions.len() implies (#[trigger] t.functions[i]) == FunctionV {
        kind: t.functions[i].kind,
        ..m.functions[i]
    } by {}
    let fs = t.functions;
    if m.name == "hello_world"@ {
        assert(spec_tag_for_path(t, path).functions =~= fs);
    } else if m.name == "main"@ {
        if under_neural_network_example(path) {
            assert(spec_tag_for_path(t, path).functions =~= fs);
        }
    } else if m.name == "convert_rust_to_ts"@ {
        assert(spec_tag_for_path(t, path).functions =~= fs);
    } else if m.name == "convert_ts_to_rust"@ {
        assert(spec_tag_for_path(t, path).functions =~= fs);
    }
}

} // verus!
