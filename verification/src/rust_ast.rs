//! Rust source text of a module of the program model.

use vstd::prelude::*;
use crate::rust_syntax::{RsField, RsFile, RsFn, RsFnArg, RsItem, RsType};
use crate::text::str_eq;
use crate::ast::{
    lines_view, Field, FieldV, Function, FunctionKind, FunctionV, Module, ModuleV, Param, ParamV,
    TypeDecl, TypeDeclV, TypeKind, TypeRef, TypeRefV,
};

verus! {

/// The Rust spelling of a model type.
pub open spec fn rs_type(t: TypeRefV) -> Seq<char> {
    match t {
        TypeRefV::Number => "i32"@,
        TypeRefV::Str => "String"@,
        TypeRefV::Bool => "bool"@,
        TypeRefV::Custom(n) => n,
    }
}

pub fn type_ref_to_rust(ty: &TypeRef) -> (r: String)
    ensures
        r@ == rs_type(ty@),
{
    match ty {
        TypeRef::Number => "i32".to_owned(),
        TypeRef::String => "String".to_owned(),
        TypeRef::Bool => "bool".to_owned(),
        TypeRef::Custom(name) => name.clone(),
    }
}

/// One `    name: ty,` line per field.
pub open spec fn rs_fields(fs: Seq<FieldV>) -> Seq<char>
    decreases fs.len(),
{
    if fs.len() == 0 {
        Seq::empty()
    } else {
        rs_fields(fs.drop_last()) + "    "@ + fs.last().name + ": "@ + rs_type(fs.last().ty)
            + ",\n"@
    }
}

/// A `struct` (interfaces are written as structs too).
pub open spec fn rs_struct(t: TypeDeclV) -> Seq<char> {
    "struct "@ + t.name + " {\n"@ + rs_fields(t.fields) + "}\n"@
}

/// The structs, separated by blank lines.
pub open spec fn rs_types(ts: Seq<TypeDeclV>) -> Seq<char>
    decreases ts.len(),
{
    if ts.len() == 0 {
        Seq::empty()
    } else {
        rs_types(ts.drop_last()) + (if ts.len() > 1 { "\n"@ } else { Seq::empty() }) + rs_struct(
            ts.last(),
        )
    }
}

/// `name: ty` for each parameter, separated by `, `.
pub open spec fn rs_params(ps: Seq<ParamV>) -> Seq<char>
    decreases ps.len(),
{
    if ps.len() == 0 {
        Seq::empty()
    } else {
        rs_params(ps.drop_last()) + (if ps.len() > 1 { ", "@ } else { Seq::empty() })
            + ps.last().name + ": "@ + rs_type(ps.last().ty)
    }
}

/// ` -> ty` when there is a return type.
pub open spec fn rs_ret(t: Option<TypeRefV>) -> Seq<char> {
    match t {
        Some(t) => " -> "@ + rs_type(t),
        None => Seq::empty(),
    }
}

/// Each body line indented by four spaces.
pub open spec fn rs_body(lines: Seq<Seq<char>>) -> Seq<char>
    decreases lines.len(),
{
    if lines.len() == 0 {
        Seq::empty()
    } else {
        rs_body(lines.drop_last()) + "    "@ + lines.last() + "\n"@
    }
}

/// The hand-written `main` of the hello-world example.
pub open spec fn rs_hello_main() -> Seq<char> {
    "fn main() {\n    println!(\"Hello, World!\");\n\n    // Use add()\n    let sum = add(2, 2);\n    println!(\"add(2, 2) = {}\", sum);\n\n    // Allocate and use Person\n    let person = Person {\n        name: String::from(\"Not Sure\"),\n        age: 30,\n    };\n    println!(\"Person: name={}, age={}\", person.name, person.age);\n}\n"@
}

pub open spec fn rs_convert_rust_file() -> Seq<char> {
    "fn convert_rust_file_to_ts(path: &std::path::Path) -> Result<String, String> {\n    let mut module: Module = from_rust_module(path)?;\n    tag_special_functions_for_path(&mut module, path);\n    Ok(module_to_ts(&module))\n}\n"@
}

pub open spec fn rs_neural_main() -> Seq<char> {
    "fn main() {\n    unimplemented!(\"NeuralNetwork main is not reconstructed from TS yet\");\n}\n"@
}

pub open spec fn rs_convert_ts_file() -> Seq<char> {
    "fn convert_ts_file_to_rust(path: &std::path::Path) -> Result<String, String> {\n    let module = from_ts_module(path)?;\n    Ok(module_to_rust(&module))\n}\n"@
}

pub open spec fn rs_convert_type() -> Seq<char> {
    "fn convert_type(ty: Type) -> String {\n    let ir = rust_type_to_ir(ty);\n    convert_ir_type(&ir)\n}\n"@
}

pub open spec fn rs_convert_ir_type() -> Seq<char> {
    "fn convert_ir_type(ir: &IrType) -> String {\n    match ir {\n        IrType::Number => \"number\".to_string(),\n        IrType::String => \"string\".to_string(),\n        IrType::Bool => \"boolean\".to_string(),\n        IrType::Any => \"any\".to_string(),\n        IrType::Vec(inner) => format!(\"{}[]\", convert_ir_type(inner)),\n        IrType::Option(inner) => format!(\"{} | undefined\", convert_ir_type(inner)),\n        IrType::Custom(name) => name.clone(),\n    }\n}\n"@
}

pub open spec fn rs_ts_path_to_string() -> Seq<char> {
    "fn ts_path_to_string(path: &syn::Path) -> String {\n    let mut parts: Vec<String> = Vec::new();\n    for seg in &path.segments {\n        parts.push(seg.ident.to_string());\n    }\n    parts.join(\".\")\n}\n"@
}

/// The Rust text of one function. Tagged functions get their fixed text;
/// `HelloWorldAdd` is named `add` and returns `x + y` when its body is
/// empty; a plain function with an empty body and a return type returns
/// `Default::default()`.
pub open spec fn rs_function(f: FunctionV) -> Seq<char> {
    match f.kind {
        FunctionKind::HelloWorldMain => rs_hello_main(),
        FunctionKind::AstV2ConvertRustFileToTs => rs_convert_rust_file(),
        FunctionKind::HelloWorldAdd => "fn add("@ + rs_params(f.params) + ")"@ + rs_ret(
            f.return_type,
        ) + " {\n"@ + (if f.body.len() == 0 {
            "    return x + y;\n"@
        } else {
            rs_body(f.body)
        }) + "}\n"@,
        FunctionKind::NeuralNetMain => rs_neural_main(),
        FunctionKind::Normal => "fn "@ + f.name + "("@ + rs_params(f.params) + ")"@ + rs_ret(
            f.return_type,
        ) + " {\n"@ + (if f.body.len() == 0 {
            if f.return_type is Some {
                "    Default::default()\n"@
            } else {
                Seq::empty()
            }
        } else {
            rs_body(f.body)
        }) + "}\n"@,
        FunctionKind::AstV2ConvertTsFileToRust => rs_convert_ts_file(),
        FunctionKind::ConverterConvertType => rs_convert_type(),
        FunctionKind::ConverterConvertIrType => rs_convert_ir_type(),
        FunctionKind::ConverterTsPathToString => rs_ts_path_to_string(),
    }
}

/// The functions, separated by blank lines.
pub open spec fn rs_functions(fs: Seq<FunctionV>) -> Seq<char>
    decreases fs.len(),
{
    if fs.len() == 0 {
        Seq::empty()
    } else {
        rs_functions(fs.drop_last()) + (if fs.len() > 1 { "\n"@ } else { Seq::empty() })
            + rs_function(fs.last())
    }
}

/// The Rust text of a module: its structs, a blank line when there are
/// both structs and functions, then its functions.
pub open spec fn spec_module_to_rust(m: ModuleV) -> Seq<char> {
    rs_types(m.types) + (if m.types.len() > 0 && m.functions.len() > 0 {
        "\n"@
    } else {
        Seq::empty()
    }) + rs_functions(m.functions)
}

fn push_rs_struct(out: &mut String, t: &TypeDecl)
    ensures
        final(out)@ == old(out)@ + rs_struct(t@),
{
    let ghost fs = t@.fields;
    out.push_str("struct ");
    out.push_str(t.name.as_str());
    out.push_str(" {\n");
    let ghost head = out@;
    let mut i: usize = 0;
    while i < t.fields.len()
        invariant
            i <= t.fields@.len(),
            fs == t@.fields,
            out@ == head + rs_fields(fs.subrange(0, i as int)),
        decreases t.fields@.len() - i,
    {
        let f = &t.fields[i];
        out.push_str("    ");
        out.push_str(f.name.as_str());
        out.push_str(": ");
        let ty = type_ref_to_rust(&f.ty);
        out.push_str(ty.as_str());
        out.push_str(",\n");
        assert(fs.subrange(0, i + 1).drop_last() =~= fs.subrange(0, i as int));
        i += 1;
    }
    assert(fs.subrange(0, fs.len() as int) =~= fs);
    out.push_str("}\n");
}

fn push_rs_params(out: &mut String, ps: &Vec<crate::ast::Param>)
    ensures
        final(out)@ == old(out)@ + rs_params(ps@.map_values(|p: crate::ast::Param| p@)),
{
    let ghost v = ps@.map_values(|p: crate::ast::Param| p@);
    let mut i: usize = 0;
    while i < ps.len()
        invariant
            i <= ps@.len(),
            v == ps@.map_values(|p: crate::ast::Param| p@),
            out@ == old(out)@ + rs_params(v.subrange(0, i as int)),
        decreases ps@.len() - i,
    {
        if i > 0 {
            out.push_str(", ");
        }
        out.push_str(ps[i].name.as_str());
        out.push_str(": ");
        let ty = type_ref_to_rust(&ps[i].ty);
        out.push_str(ty.as_str());
        assert(v.subrange(0, i + 1).drop_last() =~= v.subrange(0, i as int));
        i += 1;
    }
    assert(v.subrange(0, v.len() as int) =~= v);
}

fn push_rs_ret(out: &mut String, t: &Option<TypeRef>)
    ensures
        final(out)@ == old(out)@ + rs_ret(crate::ast::opt_type_view(*t)),
{
    match t {
        Some(t) => {
            out.push_str(" -> ");
            let s = type_ref_to_rust(t);
            out.push_str(s.as_str());
        },
        None => {
            assert(old(out)@ + Seq::<char>::empty() =~= old(out)@);
        },
    }
}

fn push_rs_body(out: &mut String, lines: &Vec<String>)
    ensures
        final(out)@ == old(out)@ + rs_body(lines_view(lines@)),
{
    let ghost v = lines_view(lines@);
    let mut i: usize = 0;
    while i < lines.len()
        invariant
            i <= lines@.len(),
            v == lines_view(lines@),
            out@ == old(out)@ + rs_body(v.subrange(0, i as int)),
        decreases lines@.len() - i,
    {
        out.push_str("    ");
        out.push_str(lines[i].as_str());
        out.push_str("\n");
        assert(v.subrange(0, i + 1).drop_last() =~= v.subrange(0, i as int));
        i += 1;
    }
    assert(v.subrange(0, v.len() as int) =~= v);
}

fn push_rs_function(out: &mut String, f: &Function)
    ensures
        final(out)@ == old(out)@ + rs_function(f@),
{
    match f.kind {
        FunctionKind::HelloWorldMain => {
            out.push_str("fn main() {\n    println!(\"Hello, World!\");\n\n    // Use add()\n    let sum = add(2, 2);\n    println!(\"add(2, 2) = {}\", sum);\n\n    // Allocate and use Person\n    let person = Person {\n        name: String::from(\"Not Sure\"),\n        age: 30,\n    };\n    println!(\"Person: name={}, age={}\", person.name, person.age);\n}\n");
        },
        FunctionKind::AstV2ConvertRustFileToTs => {
            out.push_str("fn convert_rust_file_to_ts(path: &std::path::Path) -> Result<String, String> {\n    let mut module: Module = from_rust_module(path)?;\n    tag_special_functions_for_path(&mut module, path);\n    Ok(module_to_ts(&module))\n}\n");
        },
        FunctionKind::HelloWorldAdd => {
            out.push_str("fn add(");
            push_rs_params(out, &f.params);
            out.push_str(")");
            push_rs_ret(out, &f.return_type);
            out.push_str(" {\n");
            if f.body.len() == 0 {
                out.push_str("    return x + y;\n");
            } else {
                push_rs_body(out, &f.body);
            }
            out.push_str("}\n");
        },
        FunctionKind::NeuralNetMain => {
            out.push_str("fn main() {\n    unimplemented!(\"NeuralNetwork main is not reconstructed from TS yet\");\n}\n");
        },
        FunctionKind::Normal => {
            out.push_str("fn ");
            out.push_str(f.name.as_str());
            out.push_str("(");
            push_rs_params(out, &f.params);
            out.push_str(")");
            push_rs_ret(out, &f.return_type);
            out.push_str(" {\n");
            if f.body.len() == 0 {
                if f.return_type.is_some() {
                    out.push_str("    Default::default()\n");
                }
            } else {
                push_rs_body(out, &f.body);
            }
            out.push_str("}\n");
        },
        FunctionKind::AstV2ConvertTsFileToRust => {
            out.push_str("fn convert_ts_file_to_rust(path: &std::path::Path) -> Result<String, String> {\n    let module = from_ts_module(path)?;\n    Ok(module_to_rust(&module))\n}\n");
        },
        FunctionKind::ConverterConvertType => {
            out.push_str("fn convert_type(ty: Type) -> String {\n    let ir = rust_type_to_ir(ty);\n    convert_ir_type(&ir)\n}\n");
        },
        FunctionKind::ConverterConvertIrType => {
            out.push_str("fn convert_ir_type(ir: &IrType) -> String {\n    match ir {\n        IrType::Number => \"number\".to_string(),\n        IrType::String => \"string\".to_string(),\n        IrType::Bool => \"boolean\".to_string(),\n        IrType::Any => \"any\".to_string(),\n        IrType::Vec(inner) => format!(\"{}[]\", convert_ir_type(inner)),\n        IrType::Option(inner) => format!(\"{} | undefined\", convert_ir_type(inner)),\n        IrType::Custom(name) => name.clone(),\n    }\n}\n");
        },
        FunctionKind::ConverterTsPathToString => {
            out.push_str("fn ts_path_to_string(path: &syn::Path) -> String {\n    let mut parts: Vec<String> = Vec::new();\n    for seg in &path.segments {\n        parts.push(seg.ident.to_string());\n    }\n    parts.join(\".\")\n}\n");
        },
    }
}

/// The Rust text of a module (see [`spec_module_to_rust`]).
pub fn module_to_rust(module: &Module) -> (r: String)
    ensures
        r@ == spec_module_to_rust(module@),
{
    let ghost m = module@;
    let mut out = String::new();
    let mut i: usize = 0;
    while i < module.types.len()
        invariant
            i <= module.types@.len(),
            m == module@,
            out@ == rs_types(m.types.subrange(0, i as int)),
        decreases module.types@.len() - i,
    {
        if i > 0 {
            out.push_str("\n");
        }
        push_rs_struct(&mut out, &module.types[i]);
        assert(m.types.subrange(0, i + 1).drop_last() =~= m.types.subrange(0, i as int));
        i += 1;
    }
    assert(m.types.subrange(0, m.types.len() as int) =~= m.types);
    if module.types.len() > 0 && module.functions.len() > 0 {
        out.push_str("\n");
    }
    let ghost head = out@;
    let mut j: usize = 0;
    while j < module.functions.len()
        invariant
            j <= module.functions@.len(),
            m == module@,
            out@ == head + rs_functions(m.functions.subrange(0, j as int)),
        decreases module.functions@.len() - j,
    {
        if j > 0 {
            out.push_str("\n");
        }
        push_rs_function(&mut out, &module.functions[j]);
        assert(m.functions.subrange(0, j + 1).drop_last() =~= m.functions.subrange(0, j as int));
        j += 1;
    }
    assert(m.functions.subrange(0, m.functions.len() as int) =~= m.functions);
    out
}

/// The model type of a Rust type: integer and float paths are numbers,
/// `String` and `str` strings, `bool` booleans, any other path a custom
/// type named by its last segment, and anything else `unknown`.
pub open spec fn spec_map_rust_type(t: RsType) -> TypeRefV {
    match t {
        RsType::Path { ident: id, .. } => {
            let n = id@;
            if n == "i32"@ || n == "i64"@ || n == "u32"@ || n == "u64"@ || n == "usize"@ || n
                == "isize"@ || n == "f32"@ || n == "f64"@ {
                TypeRefV::Number
            } else if n == "String"@ || n == "str"@ {
                TypeRefV::Str
            } else if n == "bool"@ {
                TypeRefV::Bool
            } else {
                TypeRefV::Custom(n)
            }
        },
        _ => TypeRefV::Custom("unknown"@),
    }
}

pub fn map_rust_type(t: &RsType) -> (r: TypeRef)
    ensures
        r@ == spec_map_rust_type(*t),
{
    match t {
        RsType::Path { ident: id, .. } => {
            let n = id.as_str();
            if str_eq(n, "i32") || str_eq(n, "i64") || str_eq(n, "u32") || str_eq(n, "u64")
                || str_eq(n, "usize") || str_eq(n, "isize") || str_eq(n, "f32") || str_eq(n, "f64") {
                TypeRef::Number
            } else if str_eq(n, "String") || str_eq(n, "str") {
                TypeRef::String
            } else if str_eq(n, "bool") {
                TypeRef::Bool
            } else {
                TypeRef::Custom(id.clone())
            }
        },
        _ => TypeRef::Custom("unknown".to_owned()),
    }
}

/// The fields of a struct, in order.
pub open spec fn struct_fields(fs: Seq<RsField>) -> Seq<FieldV>
    decreases fs.len(),
{
    if fs.len() == 0 {
        Seq::empty()
    } else {
        struct_fields(fs.drop_last()).push(FieldV { name: fs.last().name@, ty: spec_map_rust_type(fs.last().ty) })
    }
}

/// The typed parameters of a function (`_` for a pattern that is no identifier).
pub open spec fn fn_params(args: Seq<RsFnArg>) -> Seq<ParamV>
    decreases args.len(),
{
    if args.len() == 0 {
        Seq::empty()
    } else {
        fn_params(args.drop_last()) + match args.last() {
            RsFnArg::Typed { pat, ty, .. } => seq![
                ParamV {
                    name: match pat {
                        Some(p) => p@,
                        None => "_"@,
                    },
                    ty: spec_map_rust_type(ty),
                },
            ],
            RsFnArg::Receiver => Seq::empty(),
        }
    }
}

/// The model function of a function item: its typed parameters, its
/// return type, and the token text of each statement as the body.
pub open spec fn spec_rust_fn(f: RsFn) -> FunctionV {
    FunctionV {
        name: f.name@,
        params: fn_params(f.inputs@),
        return_type: match f.output {
            Some(t) => Some(spec_map_rust_type(t)),
            None => None,
        },
        kind: FunctionKind::Normal,
        body: lines_view(f.stmt_texts@),
    }
}

/// The structs and functions of a file, in order.
pub open spec fn file_decls(items: Seq<RsItem>) -> (Seq<TypeDeclV>, Seq<FunctionV>)
    decreases items.len(),
{
    if items.len() == 0 {
        (Seq::empty(), Seq::empty())
    } else {
        let r = file_decls(items.drop_last());
        match items.last() {
            RsItem::Struct { name, named_fields, .. } => (
                r.0.push(
                    TypeDeclV {
                        name: name@,
                        kind: TypeKind::Struct,
                        fields: match named_fields {
                            Some(fs) => struct_fields(fs@),
                            None => Seq::empty(),
                        },
                    },
                ),
                r.1,
            ),
            RsItem::Fn(f) => (r.0, r.1.push(spec_rust_fn(f))),
            _ => r,
        }
    }
}

/// The module of a parsed source file, under the given name.
pub open spec fn spec_from_rust_syntax(file: RsFile, module_name: Seq<char>) -> ModuleV {
    let d = file_decls(file.items@);
    ModuleV { name: module_name, types: d.0, functions: d.1 }
}

fn convert_rust_struct(name: &String, named_fields: &Option<Vec<RsField>>) -> (r: TypeDecl)
    ensures
        r@ == (TypeDeclV {
            name: name@,
            kind: TypeKind::Struct,
            fields: match *named_fields {
                Some(fs) => struct_fields(fs@),
                None => Seq::empty(),
            },
        }),
{
    let mut fields: Vec<Field> = Vec::new();
    match named_fields {
        Some(fs) => {
            let mut i: usize = 0;
            while i < fs.len()
                invariant
                    i <= fs@.len(),
                    fields@.map_values(|f: Field| f@) == struct_fields(fs@.subrange(0, i as int)),
                decreases fs@.len() - i,
            {
                let ghost before = fields@.map_values(|f: Field| f@);
                assert(fs@.subrange(0, i + 1).drop_last() =~= fs@.subrange(0, i as int));
                let f = Field { name: fs[i].name.clone(), ty: map_rust_type(&fs[i].ty) };
                fields.push(f);
                assert(fields@.map_values(|f: Field| f@) =~= before.push(f@));
                i += 1;
            }
            assert(fs@.subrange(0, fs@.len() as int) =~= fs@);
        },
        None => {},
    }
    let r = TypeDecl { name: name.clone(), kind: TypeKind::Struct, fields };
    assert(r@.fields =~= (match *named_fields {
        Some(fs) => struct_fields(fs@),
        None => Seq::<FieldV>::empty(),
    }));
    r
}

fn convert_rust_fn(f: &RsFn) -> (r: Function)
    ensures
        r@ == spec_rust_fn(*f),
{
    let mut params: Vec<Param> = Vec::new();
    let mut i: usize = 0;
    while i < f.inputs.len()
        invariant
            i <= f.inputs@.len(),
            params@.map_values(|p: Param| p@) == fn_params(f.inputs@.subrange(0, i as int)),
        decreases f.inputs@.len() - i,
    {
        let ghost before = params@.map_values(|p: Param| p@);
        assert(f.inputs@.subrange(0, i + 1).drop_last() =~= f.inputs@.subrange(0, i as int));
        match &f.inputs[i] {
            RsFnArg::Typed { pat, ty, .. } => {
                let name = match pat {
                    Some(p) => p.clone(),
                    None => "_".to_owned(),
                };
                let p = Param { name, ty: map_rust_type(ty) };
                params.push(p);
                assert(params@.map_values(|p: Param| p@) =~= before.push(p@));
            },
            RsFnArg::Receiver => {},
        }
        i += 1;
    }
    assert(f.inputs@.subrange(0, f.inputs@.len() as int) =~= f.inputs@);
    let return_type = match &f.output {
        Some(t) => Some(map_rust_type(t)),
        None => None,
    };
    let body = crate::ast::copy_lines(&f.stmt_texts);
    Function { name: f.name.clone(), params, return_type, kind: FunctionKind::Normal, body }
}

/// The module of a parsed source file (see [`spec_from_rust_syntax`]).
pub fn from_rust_syntax(file: &RsFile, module_name: &str) -> (r: Module)
    ensures
        r@ == spec_from_rust_syntax(*file, module_name@),
{
    let ghost items = file.items@;
    let mut types: Vec<TypeDecl> = Vec::new();
    let mut functions: Vec<Function> = Vec::new();
    let mut i: usize = 0;
    while i < file.items.len()
        invariant
            i <= items.len(),
            items == file.items@,
            types@.map_values(|t: TypeDecl| t@) == file_decls(items.subrange(0, i as int)).0,
            functions@.map_values(|f: Function| f@) == file_decls(items.subrange(0, i as int)).1,
        decreases items.len() - i,
    {
        let ghost tb = types@.map_values(|t: TypeDecl| t@);
        let ghost fb = functions@.map_values(|f: Function| f@);
        assert(items.subrange(0, i + 1).drop_last() =~= items.subrange(0, i as int));
        match &file.items[i] {
            RsItem::Struct { name, named_fields, .. } => {
                let t = convert_rust_struct(name, named_fields);
                types.push(t);
                assert(types@.map_values(|t: TypeDecl| t@) =~= tb.push(t@));
            },
            RsItem::Fn(f) => {
                let g = convert_rust_fn(f);
                functions.push(g);
                assert(functions@.map_values(|f: Function| f@) =~= fb.push(g@));
            },
            _ => {},
        }
        i += 1;
    }
    assert(items.subrange(0, items.len() as int) =~= items);
    Module { name: module_name.to_owned(), types, functions }
}


/// The module of Rust source under the given name, from the result of
/// parsing it: a parse error `e` gives `Failed to parse Rust source: e`.
pub open spec fn spec_from_rust_src(parsed: Result<RsFile, String>, module_name: Seq<char>) -> Result<ModuleV, Seq<char>> {
    match parsed {
        Ok(f) => Ok(spec_from_rust_syntax(f, module_name)),
        Err(e) => Err("Failed to parse Rust source: "@ + e@),
    }
}

/// Reads parsed Rust text into a module, or reports the parse error.
pub fn from_rust_src(parsed: &Result<RsFile, String>, module_name: &str) -> (r: Result<Module, String>)
    ensures
        match r {
            Ok(m) => spec_from_rust_src(*parsed, module_name@) == Ok::<ModuleV, Seq<char>>(m@),
            Err(e) => spec_from_rust_src(*parsed, module_name@) == Err::<ModuleV, Seq<char>>(e@),
        },
{
    match parsed {
        Ok(f) => Ok(from_rust_syntax(f, module_name)),
        Err(e) => {
            let mut msg = "Failed to parse Rust source: ".to_owned();
            msg.push_str(e.as_str());
            Err(msg)
        },
    }
}

} // verus!
