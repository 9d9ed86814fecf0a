//! What holds of the Rust and TypeScript text of a module as a whole.

use vstd::prelude::*;
use crate::ast::{FunctionKind, FunctionV, ModuleV, TypeDeclV, TypeKind};
use crate::text::starts_with;
use crate::rust_ast::{rs_body, rs_fields, rs_function, rs_functions, rs_params, rs_ret, rs_struct, rs_types, spec_module_to_rust};
use crate::ts_ast::{has_neural_main, spec_module_to_ts, ts_function, ts_functions, ts_interface, ts_interfaces};

verus! {

/// The same function apart from its body: name, parameters, return type
/// and kind agree.
pub open spec fn same_signature(f: FunctionV, g: FunctionV) -> bool {
    &&& f.name == g.name
    &&& f.params == g.params
    &&& f.return_type == g.return_type
    &&& f.kind == g.kind
}

proof fn lemma_ts_functions_ignore_bodies(fs: Seq<FunctionV>, gs: Seq<FunctionV>)
    requires
        fs.len() == gs.len(),
        forall|i: int| 0 <= i < fs.len() ==> same_signature(#[trigger] fs[i], gs[i]),
    ensures
        ts_functions(fs) == ts_functions(gs),
    decreases fs.len(),
{
    if fs.len() > 0 {
        let (fi, gi) = (fs.drop_last(), gs.drop_last());
        assert forall|i: int| 0 <= i < fi.len() implies same_signature(#[trigger] fi[i], gi[i]) by {
            assert(fi[i] == fs[i] && gi[i] == gs[i]);
        }
        lemma_ts_functions_ignore_bodies(fi, gi);
        assert(same_signature(fs[fs.len() - 1], gs[gs.len() - 1]));
        assert(ts_function(fs.last()) == ts_function(gs.last()));
    }
}

/// The TypeScript text of a module depends neither on the module's name
/// nor on its functions' bodies: for all modules with the same types and
/// functions of the same signatures, the texts are equal.
pub proof fn lemma_ts_text_ignores_name_and_bodies(m: ModuleV, m2: ModuleV)
    requires
        m.types == m2.types,
        m.functions.len() == m2.functions.len(),
        forall|i: int| 0 <= i < m.functions.len() ==> same_signature(#[trigger] m.functions[i], m2.functions[i]),
    ensures
        spec_module_to_ts(m) == spec_module_to_ts(m2),
{
    lemma_ts_functions_ignore_bodies(m.functions, m2.functions);
    assert(has_neural_main(m.functions) == has_neural_main(m2.functions)) by {
        if has_neural_main(m.functions) {
            let i = choose|i: int| 0 <= i < m.functions.len() && (#[trigger] m.functions[i]).kind == FunctionKind::NeuralNetMain;
            assert(same_signature(m.functions[i], m2.functions[i]));
        }
        if has_neural_main(m2.functions) {
            let i = choose|i: int| 0 <= i < m2.functions.len() && (#[trigger] m2.functions[i]).kind == FunctionKind::NeuralNetMain;
            assert(same_signature(m.functions[i], m2.functions[i]));
        }
    }
}

/// The second character of the text of a nonempty list of interfaces.
proof fn lemma_interfaces_second_char(ts: Seq<TypeDeclV>)
    requires
        ts.len() > 0,
    ensures
        ts_interfaces(ts).len() >= 2,
        ts_interfaces(ts)[1] == '/' || ts_interfaces(ts)[1] == 'n',
    decreases ts.len(),
{
    reveal_strlit("// Converted from Rust: struct ");
    reveal_strlit("interface ");
    if ts.len() > 1 {
        lemma_interfaces_second_char(ts.drop_last());
    } else {
        let t = ts.last();
        assert(ts.drop_last() =~= Seq::<TypeDeclV>::empty());
        assert(ts_interfaces(ts.drop_last()) == Seq::<char>::empty());
        assert(ts_interfaces(ts) == ts_interfaces(ts.drop_last()) + ts_interface(t));
        assert(ts_interfaces(ts) =~= ts_interface(t));
    }
}

/// The second character of the text of a nonempty list of functions.
proof fn lemma_functions_second_char(fs: Seq<FunctionV>)
    requires
        fs.len() > 0,
    ensures
        ts_functions(fs).len() >= 2,
        ts_functions(fs)[1] == '/' || ts_functions(fs)[1] == 'x',
    decreases fs.len(),
{
    if fs.len() > 1 {
        lemma_functions_second_char(fs.drop_last());
    } else {
        let f = fs.last();
        assert(fs.drop_last() =~= Seq::<FunctionV>::empty());
        assert(ts_functions(fs.drop_last()) == Seq::<char>::empty());
        assert(ts_functions(fs) == ts_functions(fs.drop_last()) + Seq::<char>::empty() + ts_function(f));
        assert(ts_functions(fs) =~= ts_function(f));
        reveal_strlit("// Converted from Rust: fn add(...)\n");
        reveal_strlit("export function ");
        reveal_strlit("// Converted from Rust: fn main(...)\nexport function main(): void {\n  console.log(`Hello, World!`);\n  const sum = add(2, 2);\n  console.log(`add(2, 2) = ${sum}`);\n  const person = { name: \"Not Sure\", age: 30 };\n  console.log(`Person: name=${person.name}, age=${person.age}`);\n}\n");
        reveal_strlit("// Converted from Rust: fn main(...) for NeuralNetwork example\nexport function main(): void {\n  const x_layers = 3;\n  const y_nodes = 4;\n  const z_weights = 2;\n  const rng_label = (((globalThis as any).__RUST_TO_TS_RNG || 'default') as string);\n  let rng = ({ next_f32: (low: number, high: number) => {\n    function mulberry32(a: number) {\n      return function() {\n        let t = a += 0x6D2B79F5;\n        t = Math.imul(t ^ (t >>> 15), t | 1);\n        t ^= t + Math.imul(t ^ (t >>> 7), t | 61);\n        return ((t ^ (t >>> 14)) >>> 0) / 4294967296;\n      };\n    }\n    const seed = ((globalThis as any).__RUST_TO_TS_SEED >>> 0) || 0xDEADBEEF;\n    const rand = mulberry32(seed);\n    return low + rand() * (high - low);\n  }});\n  const nn = (NeuralNetwork as any).random_uniform(x_layers, y_nodes, z_weights, -1.0, 1.0);\n  console.log(`RNG: ${rng_label}`);\n  const [x, y, z] = nn.dims() as any;\n  console.log(`NeuralNetwork<f64> dims: x(layers)=${x}, y(nodes)=${y}, z(weights)=${z} | total elements=${nn.len()}`);\n  for (let layer = 0; layer < Math.min(x, 2); layer++) {\n    for (let node = 0; node < Math.min(y, 2); node++) {\n      for (let weight = 0; weight < Math.min(z, 2); weight++) {\n        const val = nn.get(layer, node, weight);\n        if (val !== undefined) {\n          console.log(`nn[${layer}, ${node}, ${weight}] = ${val}`);\n        }\n      }\n    }\n  }\n}\n");
        reveal_strlit("// Converted from Rust: fn convert_rust_file_to_ts(... )\nexport function convert_rust_file_to_ts(path: string): string {\n  const module = from_rust_module(path);\n  tag_special_functions_for_path(module, path);\n  return module_to_ts(module);\n}\n");
        reveal_strlit("// Converted from Rust: fn convert_ts_file_to_rust(... )\nexport function convert_ts_file_to_rust(path: string): string {\n  const module = from_ts_module(path);\n  return module_to_rust(&module);\n}\n");
    }
}

/// The TypeScript text of a module begins with the import of the network
/// library exactly when one of its functions is the neural-network
/// example's `main`.
pub proof fn lemma_ts_import_line(m: ModuleV)
    ensures
        starts_with(spec_module_to_ts(m), "import { NeuralNetwork } from \"./lib.ts\";\n\n"@) == exists|i: int|
            0 <= i < m.functions.len() && (#[trigger] m.functions[i]).kind == FunctionKind::NeuralNetMain,
{
    let line = "import { NeuralNetwork } from \"./lib.ts\";\n\n"@;
    let t = spec_module_to_ts(m);
    if has_neural_main(m.functions) {
        assert(t.subrange(0, line.len() as int) =~= line);
    } else {
        reveal_strlit("import { NeuralNetwork } from \"./lib.ts\";\n\n");
        let rest = ts_interfaces(m.types) + ts_functions(m.functions);
        assert(t =~= rest);
        if starts_with(t, line) {
            assert(t[1] == t.subrange(0, line.len() as int)[1]);
            assert(line[1] == 'm');
            if m.types.len() > 0 {
                lemma_interfaces_second_char(m.types);
                assert(t[1] == ts_interfaces(m.types)[1]);
            } else {
                assert(ts_interfaces(m.types) == Seq::<char>::empty());
                lemma_functions_second_char(m.functions);
                assert(t[1] == ts_functions(m.functions)[1]);
            }
        }
    }
}

/// The Rust text of a module does not depend on the module's name: for
/// all modules with the same types and functions, the texts are equal.
pub proof fn lemma_rust_text_ignores_name(m: ModuleV, m2: ModuleV)
    requires
        m.types == m2.types,
        m.functions == m2.functions,
    ensures
        spec_module_to_rust(m) == spec_module_to_rust(m2),
{
}

/// Items with one line break between each two; an item that ends in a
/// line break is thus followed by one blank line.
pub open spec fn join_items(items: Seq<Seq<char>>) -> Seq<char>
    decreases items.len(),
{
    if items.len() == 0 {
        Seq::empty()
    } else if items.len() == 1 {
        items[0]
    } else {
        join_items(items.drop_last()) + "\n"@ + items.last()
    }
}

proof fn lemma_join_append(a: Seq<Seq<char>>, b: Seq<Seq<char>>)
    requires
        a.len() > 0,
        b.len() > 0,
    ensures
        join_items(a + b) == join_items(a) + "\n"@ + join_items(b),
    decreases b.len(),
{
    if b.len() == 1 {
        assert((a + b).drop_last() =~= a);
        assert((a + b).last() == b[0]);
    } else {
        lemma_join_append(a, b.drop_last());
        assert((a + b).drop_last() =~= a + b.drop_last());
        assert((a + b).last() == b.last());
    }
}

proof fn lemma_types_join(ts: Seq<TypeDeclV>)
    ensures
        rs_types(ts) == join_items(ts.map_values(|t: TypeDeclV| rs_struct(t))),
    decreases ts.len(),
{
    let items = ts.map_values(|t: TypeDeclV| rs_struct(t));
    if ts.len() > 0 {
        lemma_types_join(ts.drop_last());
        assert(items.drop_last() =~= ts.drop_last().map_values(|t: TypeDeclV| rs_struct(t)));
        if ts.len() == 1 {
            assert(rs_types(ts.drop_last()) == Seq::<char>::empty());
            assert(rs_types(ts) =~= rs_struct(ts[0]));
        }
    }
}

proof fn lemma_functions_join(fs: Seq<FunctionV>)
    ensures
        rs_functions(fs) == join_items(fs.map_values(|f: FunctionV| rs_function(f))),
    decreases fs.len(),
{
    let items = fs.map_values(|f: FunctionV| rs_function(f));
    if fs.len() > 0 {
        lemma_functions_join(fs.drop_last());
        assert(items.drop_last() =~= fs.drop_last().map_values(|f: FunctionV| rs_function(f)));
        if fs.len() == 1 {
            assert(rs_functions(fs.drop_last()) == Seq::<char>::empty());
            assert(rs_functions(fs) =~= rs_function(fs[0]));
        }
    }
}

/// The layout of the Rust text of a module: the structs (one per type,
/// interfaces too), then the functions, one line break between each two
/// items (each item ends in a line break, so one blank line separates
/// them, and none follows the last); a struct is `struct N {`, one
/// `    name: ty,` line per field and `}`; a plain function with a body
/// writes each body line indented by four spaces.
pub proof fn lemma_rust_text_layout(m: ModuleV)
    ensures
        spec_module_to_rust(m) == join_items(
            m.types.map_values(|t: TypeDeclV| rs_struct(t)) + m.functions.map_values(|f: FunctionV| rs_function(f)),
        ),
        forall|i: int|
            0 <= i < m.types.len() ==> rs_struct(#[trigger] m.types[i]) == "struct "@ + m.types[i].name + " {\n"@
                + rs_fields(m.types[i].fields) + "}\n"@,
        forall|i: int|
            0 <= i < m.functions.len() && (#[trigger] m.functions[i]).kind == FunctionKind::Normal
                && m.functions[i].body.len() > 0 ==> rs_function(m.functions[i]) == "fn "@ + m.functions[i].name
                + "("@ + rs_params(m.functions[i].params) + ")"@ + rs_ret(m.functions[i].return_type) + " {\n"@
                + rs_body(m.functions[i].body) + "}\n"@,
{
    let ti = m.types.map_values(|t: TypeDeclV| rs_struct(t));
    let fi = m.functions.map_values(|f: FunctionV| rs_function(f));
    lemma_types_join(m.types);
    lemma_functions_join(m.functions);
    if m.types.len() > 0 && m.functions.len() > 0 {
        lemma_join_append(ti, fi);
    } else if m.types.len() == 0 {
        assert(ti + fi =~= fi);
        assert(rs_types(m.types) == Seq::<char>::empty());
        assert(spec_module_to_rust(m) =~= rs_functions(m.functions));
    } else {
        assert(ti + fi =~= ti);
        assert(rs_functions(m.functions) == Seq::<char>::empty());
        assert(spec_module_to_rust(m) =~= rs_types(m.types));
    }
}

/// The TypeScript text of a type is preceded by the line
/// `// Converted from Rust: struct <name>` exactly when the type is a
/// struct; interfaces are written without it.
pub proof fn lemma_ts_struct_comment(t: TypeDeclV)
    ensures
        starts_with(ts_interface(t), "// Converted from Rust: struct "@ + t.name + "\n"@) == (t.kind
            == TypeKind::Struct),
{
    let head = "// Converted from Rust: struct "@ + t.name + "\n"@;
    let text = ts_interface(t);
    reveal_strlit("// Converted from Rust: struct ");
    reveal_strlit("interface ");
    if t.kind == TypeKind::Struct {
        assert(text.subrange(0, head.len() as int) =~= head);
    } else {
        if starts_with(text, head) {
            assert(text[0] == text.subrange(0, head.len() as int)[0]);
            assert(head[0] == '/');
            assert(text[0] == 'i');
        }
    }
}

} // verus!
