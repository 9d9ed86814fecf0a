//! Rust source to TypeScript: structs become interfaces, functions
//! exported functions, inherent `impl` functions free functions named
//! `Type_method`, and function bodies statement by statement. Whatever has
//! no TypeScript form here is kept as a comment holding its Rust text.

use vstd::prelude::*;
use vstd::string::StrSliceExecFns;
use crate::rust_syntax::{
    has_receiver, RsBinOp, RsExpr, RsField, RsFile, RsFn, RsFnArg, RsItem, RsLit, RsMacroArgs, RsPat, RsStmt,
    RsType, RsUnOp,
};
use crate::text::{chars_of, chars_start_with, contains_str, contains_text, spec_decimal, starts_with, str_eq, usize_to_decimal};
use crate::ts_template::{build_ts_template_string, spec_template};
use crate::bpmn::emit::{join_lines, spec_join};
use crate::bpmn::model::opt_view;
use crate::bpmn::to_module::names_view;
use crate::bpmn::rust_source::macro_name;

verus! {

/// The import line a converted `main.rs` starts with.
pub const MAIN_IMPORT: &'static str = "import { NeuralNetwork, make_rng_from_args } from \"./lib.ts\";\n\n";

/// The stand-in for a call of `make_rng_from_args`: a seeded generator object.
pub const MAKE_RNG_TS: &'static str = "({ next_f32: (low: number, high: number) => { function mulberry32(a:number){return function(){let t=a+=0x6D2B79F5;t=Math.imul(t^t>>>15,t|1);t^=t+Math.imul(t^t>>>7,t|61);return ((t^t>>>14)>>>0)/4294967296;}} const seed=(globalThis as any).__RUST_TO_TS_SEED>>>0||0xDEADBEEF; const rand=mulberry32(seed); return low + rand() * (high - low); } })";

/// The stand-in for a call of `rng_name_from_args`: the generator name set by the test runner.
pub const RNG_NAME_TS: &'static str = "(((globalThis as any).__RUST_TO_TS_RNG||'default') as string)";

/// The runtime form of `NeuralNetwork::new_with_value`.
pub const NN_NEW_WITH_VALUE_TS: &'static str = "// Converted from Rust: impl NeuralNetwork associated functions\nObject.assign(NeuralNetwork, {\n  new_with_value: function(x_layers: number, y_nodes: number, z_weights: number, value: any) {\n    const size = x_layers * y_nodes * z_weights;\n    const data = Array(size).fill(value);\n    return {\n      x_layers, y_nodes, z_weights, data,\n      dims() { return [this.x_layers, this.y_nodes, this.z_weights]; },\n      len() { return this.data.length; },\n      is_empty() { return this.data.length === 0; },\n      index(x: number, y: number, z: number) {\n        if (x < this.x_layers && y < this.y_nodes && z < this.z_weights) {\n          const yz = this.y_nodes * this.z_weights;\n          return x * yz + y * this.z_weights + z;\n        }\n        return undefined;\n      },\n      get(x: number, y: number, z: number) {\n        const i = this.index(x, y, z);\n        return i === undefined ? undefined : this.data[i];\n      },\n      get_mut(x: number, y: number, z: number) {\n        const i = this.index(x, y, z);\n        return i === undefined ? undefined : this.data[i];\n      },\n    };\n  },\n});\n\n";

/// The runtime form of `NeuralNetwork::random_uniform`, with the generators it selects from.
pub const NN_RANDOM_UNIFORM_TS: &'static str = "// Converted from Rust: impl NeuralNetwork associated functions\nObject.assign(NeuralNetwork, {\n  random_uniform: function(x_layers: number, y_nodes: number, z_weights: number, low: number, high: number) {\n    function mulberry32Factory(a:number){return function(){let t=a+=0x6D2B79F5;t=Math.imul(t^t>>>15,t|1);t^=t+Math.imul(t^t>>>7,t|61);return ((t^t>>>14)>>>0)/4294967296;}}\n    function splitmix64Factory(seed: bigint){\n      let state = seed;\n      const MASK = (1n<<64n)-1n;\n      return function(){\n        state = (state + 0x9E3779B97F4A7C15n) & MASK;\n        let z = state;\n        z ^= z >> 30n; z = (z * 0xBF58476D1CE4E5B9n) & MASK;\n        z ^= z >> 27n; z = (z * 0x94D049BB133111EBn) & MASK;\n        z ^= z >> 31n;\n        const u = Number(z >> 11n) / 9007199254740992; // 2^53\n        return u;\n      }\n    }\n    function rotl32(x:number, n:number){ x = x>>>0; return ((x<<n) | (x>>> (32-n)))>>>0; }\n    function chacha8Factory(seedU64: bigint){\n      const st = new Uint32Array(16);\n      st[0]=0x61707865; st[1]=0x3320646e; st[2]=0x79622d32; st[3]=0x6b206574;\n      // Mulberry64-like (splitmix64-based) generator to derive key words via f32 cast pattern\n      const sm = (function(){ let s=seedU64; const MASK=(1n<<64n)-1n; return function(){ s=(s+0x9E3779B97F4A7C15n)&MASK; let z=s; z^=z>>30n; z=(z*0xBF58476D1CE4E5B9n)&MASK; z^=z>>27n; z=(z*0x94D049BB133111EBn)&MASK; z^=z>>31n; const u=Number(z>>11n)/9007199254740992; return u; };})();\n      const F32_MAX = 340282346638528859811704183484516925440.0; // f32::MAX as f64\n      for (let i=0;i<8;i++){\n        // Emulate sm.next_f32(0.0, f32::MAX) as u32 with saturating cast\n        let val = sm()*F32_MAX;\n        let u32 = 0; if (!Number.isFinite(val) || val<=0){ u32=0; } else if (val>=4294967295){ u32=4294967295; } else { u32 = Math.floor(val)>>>0; }\n        const tweak = Math.imul(0x9E3779B9>>>0, (i+1)>>>0)>>>0;\n        st[4+i] = (u32 ^ tweak)>>>0;\n      }\n      st[12]=0; st[13]=0;\n      const seedLo = Number(seedU64 & 0xFFFFFFFFn)>>>0;\n      const seedHi = Number((seedU64>>32n) & 0xFFFFFFFFn)>>>0;\n      st[14] = (seedLo ^ 0xDEADBEEF)>>>0;\n      st[15] = (seedHi ^ 0xBADC0FFE)>>>0;\n      const buf = new Uint32Array(16); let idx=16;\n      function qr(x:Uint32Array,a:number,b:number,c:number,d:number){ x[a]=(x[a]+x[b])>>>0; x[d]^=x[a]; x[d]=rotl32(x[d],16); x[c]=(x[c]+x[d])>>>0; x[b]^=x[c]; x[b]=rotl32(x[b],12); x[a]=(x[a]+x[b])>>>0; x[d]^=x[a]; x[d]=rotl32(x[d],8); x[c]=(x[c]+x[d])>>>0; x[b]^=x[c]; x[b]=rotl32(x[b],7); }\n      function refill(){\n        const x = new Uint32Array(st);\n        for (let r=0;r<8;r++){\n          // column rounds\n          qr(x,0,4,8,12); qr(x,1,5,9,13); qr(x,2,6,10,14); qr(x,3,7,11,15);\n          // diagonal rounds\n          qr(x,0,5,10,15); qr(x,1,6,11,12); qr(x,2,7,8,13); qr(x,3,4,9,14);\n        }\n        for (let i=0;i<16;i++){ buf[i] = (x[i] + st[i])>>>0; }\n        st[12] = (st[12] + 1)>>>0; if (st[12]===0){ st[13] = (st[13]+1)>>>0; }\n        idx=0;\n      }\n      function next_u32(){ if (idx>=16) refill(); const v = buf[idx]; idx++; return v>>>0; }\n      return function(){ const r = next_u32() / 4294967296; return r; };\n    }\n    const g:any = globalThis as any;\n    const rngName = (g.__RUST_TO_TS_RNG || '').toString().toLowerCase();\n    const seed32 = (g.__RUST_TO_TS_SEED >>> 0) || 0xDEADBEEF;\n    const seedU64: bigint = (typeof g.__RUST_TO_TS_SEED_U64 !== 'undefined') ? BigInt(g.__RUST_TO_TS_SEED_U64) : BigInt(seed32 >>> 0);\n    let rand: () => number;\n    if (rngName === 'mulberry64') { rand = splitmix64Factory(seedU64); }\n    else if (rngName === 'pcg64') { rand = splitmix64Factory(seedU64); /* TODO: implement PCG64 */ }\n    else if (rngName === 'chacha8' || rngName === 'chacha8rng') { rand = chacha8Factory(seedU64); }\n    else { rand = mulberry32Factory(seed32); }\n    const size = x_layers * y_nodes * z_weights;\n    const data: number[] = new Array(size);\n    for (let i = 0; i < size; i++) { const r = rand(); data[i] = low + r * (high - low); }\n    return {\n      x_layers, y_nodes, z_weights, data,\n      dims() { return [this.x_layers, this.y_nodes, this.z_weights]; },\n      len() { return this.data.length; },\n      is_empty() { return this.data.length === 0; },\n      index(x: number, y: number, z: number) {\n        if (x < this.x_layers && y < this.y_nodes && z < this.z_weights) {\n          const yz = this.y_nodes * this.z_weights;\n          return x * yz + y * this.z_weights + z;\n        }\n        return undefined;\n      },\n      get(x: number, y: number, z: number) {\n        const i = this.index(x, y, z);\n        return i === undefined ? undefined : this.data[i];\n      },\n      get_mut(x: number, y: number, z: number) {\n        const i = this.index(x, y, z);\n        return i === undefined ? undefined : this.data[i];\n      },\n    };\n  },\n});\n\n";

/// `<A, B>` for a non-empty list of type parameters, nothing otherwise.
pub open spec fn angle_list(gs: Seq<Seq<char>>) -> Seq<char> {
    if gs.len() == 0 {
        Seq::empty()
    } else {
        "<"@ + spec_join(gs, ", "@) + ">"@
    }
}

/// The TypeScript form of a type: references drop away, integers and
/// floats are `number`, `String` and `str` `string`, `bool` `boolean`,
/// `Self` `any`, `Vec<T>` `T[]`, `Option<T>` `T | undefined`, any other
/// path its last identifier, and anything else `any`.
pub open spec fn ts_type(t: RsType) -> Seq<char>
    decreases t,
{
    match t {
        RsType::Reference(inner) => ts_type(*inner),
        RsType::Path { ident, arg } => {
            let n = ident@;
            if n == "i32"@ || n == "i64"@ || n == "u32"@ || n == "u64"@ || n == "f32"@ || n == "f64"@ || n
                == "usize"@ || n == "isize"@ {
                "number"@
            } else if n == "String"@ || n == "str"@ {
                "string"@
            } else if n == "bool"@ {
                "boolean"@
            } else if n == "Self"@ {
                "any"@
            } else if n == "Vec"@ {
                match arg {
                    Some(a) => ts_type(*a) + "[]"@,
                    None => "any[]"@,
                }
            } else if n == "Option"@ {
                match arg {
                    Some(a) => ts_type(*a) + " | undefined"@,
                    None => "any | undefined"@,
                }
            } else {
                n
            }
        },
        RsType::Other => "any"@,
    }
}

/// A literal: numbers by their digits, strings in double quotes, any other
/// literal as written.
pub open spec fn ts_lit(l: RsLit) -> Seq<char> {
    match l {
        RsLit::Int(d) => d@,
        RsLit::Float(d) => d@,
        RsLit::Str(v) => "\""@ + v@ + "\""@,
        RsLit::Bool(b) => if b { "true"@ } else { "false"@ },
        RsLit::Other(t) => t@,
    }
}

/// A path: `self` is `selfObj`, any other path its identifiers joined by `.`.
pub open spec fn ts_path(segs: Seq<String>) -> Seq<char> {
    if segs.len() == 1 && segs[0]@ == "self"@ {
        "selfObj"@
    } else {
        spec_join(names_view(segs), "."@)
    }
}

/// The TypeScript operator of a binary operator (`+` for the unsupported ones).
pub open spec fn ts_bin_op(op: RsBinOp) -> Seq<char> {
    match op {
        RsBinOp::Add => "+"@,
        RsBinOp::Sub => "-"@,
        RsBinOp::Mul => "*"@,
        RsBinOp::Div => "/"@,
        RsBinOp::Rem => "%"@,
        RsBinOp::And => "&&"@,
        RsBinOp::Or => "||"@,
        RsBinOp::Eq => "==="@,
        RsBinOp::Ne => "!=="@,
        RsBinOp::Lt => "<"@,
        RsBinOp::Le => "<="@,
        RsBinOp::Gt => ">"@,
        RsBinOp::Ge => ">="@,
        RsBinOp::Other => "+"@,
    }
}

/// A method call: `min` and `max` with an argument become `Math.min` and
/// `Math.max`.
pub open spec fn ts_method_call(recv: Seq<char>, method: Seq<char>, args: Seq<Seq<char>>) -> Seq<char> {
    if method == "min"@ {
        if args.len() > 0 {
            "Math.min("@ + recv + ", "@ + args[0] + ")"@
        } else {
            "/* Unsupported min call: "@ + recv + ".min() */"@
        }
    } else if method == "max"@ {
        if args.len() > 0 {
            "Math.max("@ + recv + ", "@ + args[0] + ")"@
        } else {
            "/* Unsupported max call: "@ + recv + ".max() */"@
        }
    } else {
        recv + "."@ + method + "("@ + spec_join(args, ", "@) + ")"@
    }
}

/// The arguments a call passes on: all but the last one (the generator) for
/// the `_with` constructors.
pub open spec fn drop_last_arg(args: Seq<Seq<char>>) -> Seq<Seq<char>> {
    if args.len() > 0 {
        args.drop_last()
    } else {
        args
    }
}

/// A call: the generator helpers have TypeScript stand-ins, and the `_with`
/// constructors of `NeuralNetwork` call `random_uniform` without the generator.
pub open spec fn ts_call(func: Seq<char>, args: Seq<Seq<char>>) -> Seq<char> {
    if func == "make_rng_from_args"@ {
        MAKE_RNG_TS@
    } else if func == "rng_name_from_args"@ {
        RNG_NAME_TS@
    } else if func == "NeuralNetwork.random_uniform_f32_with"@ || func == "NeuralNetwork.random_uniform_f64_with"@ {
        "NeuralNetwork.random_uniform("@ + spec_join(drop_last_arg(args), ", "@) + ")"@
    } else {
        func + "("@ + spec_join(args, ", "@) + ")"@
    }
}

/// A macro in expression position: `println!` becomes the template string,
/// `print!` a write to standard output.
pub open spec fn ts_macro_expr(
    name: Seq<char>,
    fa: (Option<Seq<char>>, Seq<Seq<char>>),
    tokens: Seq<char>,
    text: Seq<char>,
) -> Seq<char> {
    if name == "println"@ {
        match fa.0 {
            Some(f) => spec_template(f, fa.1),
            None => "console.log("@ + tokens + ")"@,
        }
    } else if name == "print"@ {
        match fa.0 {
            Some(f) => "Deno.stdout.writeSync(new TextEncoder().encode("@ + spec_template(f, fa.1) + "))"@,
            None => "Deno.stdout.writeSync(new TextEncoder().encode(String("@ + tokens + ")))"@,
        }
    } else {
        "/* Unsupported macro: "@ + name + "! - Original: "@ + text + " */"@
    }
}

/// The token text an expression carries (empty for those that carry none).
pub open spec fn expr_text(e: RsExpr) -> Seq<char> {
    match e {
        RsExpr::Macro { text, .. } => text@,
        RsExpr::Range { text, .. } => text@,
        RsExpr::ForLoop { text, .. } => text@,
        RsExpr::If { text, .. } => text@,
        RsExpr::Let { text, .. } => text@,
        RsExpr::Block { text, .. } => text@,
        RsExpr::While { text, .. } => text@,
        RsExpr::Loop { text, .. } => text@,
        RsExpr::Match(text) => text@,
        RsExpr::Assign { text, .. } => text@,
        RsExpr::Paren { text, .. } => text@,
        RsExpr::Group { text, .. } => text@,
        RsExpr::Reference { text, .. } => text@,
        RsExpr::Index { text, .. } => text@,
        RsExpr::Other(text) => text@,
        _ => Seq::empty(),
    }
}

/// The TypeScript form of an expression; one without such a form becomes
/// `(undefined as any)` with a comment holding its Rust text.
pub open spec fn ts_expr(e: RsExpr) -> Seq<char>
    decreases e,
{
    match e {
        RsExpr::ForLoop { text, .. } => "(undefined as any) /* Unsupported expression (for-loop): "@ + text@ + " */"@,
        RsExpr::If { text, .. } => "(undefined as any) /* Unsupported expression (if): "@ + text@ + " */"@,
        RsExpr::Unary { op, expr } => match op {
            RsUnOp::Neg => "-"@ + ts_expr(*expr),
            RsUnOp::Not => "!"@ + ts_expr(*expr),
            RsUnOp::Deref => "(undefined as any) /* Unsupported expression */"@,
        },
        RsExpr::Lit(l) => ts_lit(l),
        RsExpr::Tuple(es) => "["@ + spec_join(ts_exprs(es@), ", "@) + "]"@,
        RsExpr::Path(segs) => ts_path(segs@),
        RsExpr::MethodCall { receiver, method, args } => ts_method_call(ts_expr(*receiver), method@, ts_exprs(args@)),
        RsExpr::Field { base, member } => ts_expr(*base) + "."@ + member@,
        RsExpr::Binary { op, left, right } => ts_expr(*left) + " "@ + ts_bin_op(op) + " "@ + ts_expr(*right),
        RsExpr::Call { func, args } => ts_call(ts_expr(*func), ts_exprs(args@)),
        RsExpr::Macro { path, args, tokens, text } => ts_macro_expr(macro_name(path@), format_args(args), tokens@, text@),
        RsExpr::Return(r) => match r {
            Some(x) => "return "@ + ts_expr(*x),
            None => "return"@,
        },
        _ => "(undefined as any) /* Unsupported expression: "@ + expr_text(e) + " */"@,
    }
}

/// The TypeScript forms of expressions, in order.
pub open spec fn ts_exprs(es: Seq<RsExpr>) -> Seq<Seq<char>>
    decreases es,
{
    if es.len() == 0 {
        Seq::empty()
    } else {
        ts_exprs(es.drop_last()).push(ts_expr(es.last()))
    }
}

/// The format string of a formatting macro (its first argument, when that is
/// a string literal) and the TypeScript forms of the other arguments; with
/// no format string, all arguments; with arguments that are no expression
/// list, nothing.
pub open spec fn format_args(a: RsMacroArgs) -> (Option<Seq<char>>, Seq<Seq<char>>)
    decreases a,
{
    match a {
        RsMacroArgs::Str(v) => (Some(v@), Seq::empty()),
        RsMacroArgs::Exprs(es) => if es@.len() > 0 && (es@[0] matches RsExpr::Lit(RsLit::Str(_))) {
            (
                Some(
                    match es@[0] {
                        RsExpr::Lit(RsLit::Str(v)) => v@,
                        _ => Seq::empty(),
                    },
                ),
                ts_exprs(es@.drop_first()),
            )
        } else {
            (None, ts_exprs(es@))
        },
        RsMacroArgs::Unparsed => (None, Seq::empty()),
    }
}


/// The names a tuple pattern binds: identifiers by name, anything else
/// `_tmp<i>` by its position.
pub open spec fn tuple_names(elems: Seq<RsPat>) -> Seq<Seq<char>> {
    Seq::new(
        elems.len(),
        |i: int|
            match elems[i] {
                RsPat::Ident { name, .. } => name@,
                _ => "_tmp"@ + spec_decimal(i as nat),
            },
    )
}

/// The bound names of a `let` pattern as TypeScript (an identifier, or a
/// `[a, b]` array pattern for a tuple), whether it is a tuple, and whether
/// the binding is mutable (`let` rather than `const`).
pub open spec fn let_shape(p: RsPat) -> (Seq<char>, bool, bool) {
    match p {
        RsPat::Ident { name, mutable } => (name@, false, mutable),
        RsPat::Typed(inner) => match *inner {
            RsPat::Ident { name, mutable } => (name@, false, mutable),
            RsPat::Tuple(elems) => ("["@ + spec_join(tuple_names(elems@), ", "@) + "]"@, true, false),
            _ => ("_tmp"@, false, true),
        },
        RsPat::Tuple(elems) => ("["@ + spec_join(tuple_names(elems@), ", "@) + "]"@, true, false),
        _ => ("_tmp"@, false, true),
    }
}

/// A `let` statement; an initializer without a TypeScript form is left out.
pub open spec fn ts_local(pat: RsPat, init: Option<RsExpr>) -> Seq<char> {
    let (p, is_tuple, is_mut) = let_shape(pat);
    let kw = if is_mut { "let"@ } else { "const"@ };
    "  // Rust variable declaration\n"@ + match init {
        Some(e) => {
            let x = ts_expr(e);
            if contains_text(x, "Unsupported expression"@) {
                "  // Unsupported initializer omitted\n"@
            } else if is_tuple {
                "  "@ + kw + " "@ + p + " = "@ + x + " as any;\n"@
            } else {
                "  "@ + kw + " "@ + p + " = "@ + x + ";\n"@
            }
        },
        None => "  "@ + kw + " "@ + p + ";\n"@,
    }
}

/// A macro statement: `println!` becomes `console.log`, `print!` a write to
/// standard output; without a format string the raw arguments are passed on.
pub open spec fn ts_macro_stmt(
    name: Seq<char>,
    fa: (Option<Seq<char>>, Seq<Seq<char>>),
    tokens: Seq<char>,
    text: Seq<char>,
) -> Seq<char> {
    if name == "println"@ {
        "  // Rust macro\n"@ + match fa.0 {
            Some(f) => "  console.log("@ + spec_template(f, fa.1) + ");\n"@,
            None => "  console.log("@ + tokens + "); // raw args\n  // Original: "@ + text + "\n"@,
        }
    } else if name == "print"@ {
        "  // Rust macro\n"@ + match fa.0 {
            Some(f) => "  Deno.stdout.writeSync(new TextEncoder().encode("@ + spec_template(f, fa.1) + "));\n"@,
            None => "  Deno.stdout.writeSync(new TextEncoder().encode(String("@ + tokens
                + ")));\n  // Original: "@ + text + "\n"@,
        }
    } else {
        "  // Unsupported macro: "@ + name + "!\\n  // Original: "@ + text + "\n"@
    }
}

/// An expression statement other than `for` and `if`.
pub open spec fn ts_expr_stmt(x: Seq<char>, semi: bool, text: Seq<char>) -> Seq<char> {
    if x.len() == 0 || contains_text(x, "Unsupported expression"@) {
        "  // Unsupported statement: "@ + text + "\n"@
    } else {
        "  // Rust expression\n"@ + "  "@ + x + (if semi { ";"@ } else { Seq::empty() }) + "\n"@
    }
}

/// The trailing expression of a block, returned.
pub open spec fn ts_trailing(x: Seq<char>) -> Seq<char> {
    if x.len() == 0 || starts_with(x, "/* Unsupported"@) {
        "  // Unsupported trailing expression\n"@
    } else {
        "  return "@ + x + ";\n"@
    }
}

/// The name an `if let` binds: an identifier, or the identifier inside
/// `Some(..)`; `val` otherwise.
pub open spec fn iflet_name(p: RsPat) -> Seq<char> {
    match p {
        RsPat::Ident { name, .. } => name@,
        RsPat::TupleStruct { path, elems } => if path@.len() > 0 && path@.last()@ == "Some"@ && elems@.len() == 1 {
            match elems@[0] {
                RsPat::Ident { name, .. } => name@,
                _ => "val"@,
            }
        } else {
            "val"@
        },
        _ => "val"@,
    }
}

/// A statement.
pub open spec fn ts_stmt(s: RsStmt) -> Seq<char>
    decreases s, 0int,
{
    match s {
        RsStmt::Macro { path, args, tokens, text } => ts_macro_stmt(macro_name(path@), format_args(args), tokens@, text@),
        RsStmt::Local { pat, init } => ts_local(pat, init),
        RsStmt::Expr { expr, semi, text } => match expr {
            RsExpr::ForLoop { .. } => ts_for(expr),
            RsExpr::If { .. } => ts_if(expr),
            _ => ts_expr_stmt(ts_expr(expr), semi, text@),
        },
        RsStmt::Item => "  // Unsupported statement (unhandled variant)\n"@,
    }
}

/// The last statement of a block: an expression without `;` (other than
/// `for` and `if`) is returned.
pub open spec fn ts_last_stmt(s: RsStmt) -> Seq<char>
    decreases s, 1int,
{
    match s {
        RsStmt::Expr { expr, semi, text } => if !semi && !(expr is ForLoop) && !(expr is If) {
            ts_trailing(ts_expr(expr))
        } else {
            ts_stmt(s)
        },
        _ => ts_stmt(s),
    }
}

/// Statements in order.
pub open spec fn ts_stmts(ss: Seq<RsStmt>) -> Seq<char>
    decreases ss, 0int,
{
    if ss.len() == 0 {
        Seq::empty()
    } else {
        ts_stmts(ss.drop_last()) + ts_stmt(ss.last())
    }
}

/// The statements of a block, the last one possibly returned.
pub open spec fn ts_block(ss: Seq<RsStmt>) -> Seq<char>
    decreases ss, 0int,
{
    if ss.len() == 0 {
        Seq::empty()
    } else {
        ts_stmts(ss.drop_last()) + ts_last_stmt(ss.last())
    }
}

/// A `for` loop over a range as a counting loop.
pub open spec fn ts_for(e: RsExpr) -> Seq<char>
    decreases e, 0int,
{
    match e {
        RsExpr::ForLoop { pat, iter, body, text, pat_text, iter_text } => match pat {
            RsPat::Ident { name, .. } => match *iter {
                RsExpr::Range { start, end, closed, .. } => {
                    let s = match start {
                        Some(b) => ts_expr(*b),
                        None => "0"@,
                    };
                    let en = match end {
                        Some(b) => ts_expr(*b),
                        None => "/* missing end */"@,
                    };
                    "  // Rust for-loop\n"@ + "  for (let "@ + name@ + " = "@ + s + "; "@ + name@ + (if closed {
                        " <= "@
                    } else {
                        " < "@
                    }) + en + "; "@ + name@ + "++) {\n"@ + ts_block(body@) + "  }\n"@
                },
                _ => "  // Unsupported for-loop iterator: "@ + iter_text@ + "\n  // Original: "@ + text@ + "\n"@,
            },
            _ => "  // Unsupported for-loop pattern: "@ + pat_text@ + "\n  // Original: "@ + text@ + "\n"@,
        },
        _ => Seq::empty(),
    }
}

/// An `if` (or `if let`, tested against `undefined`) with its branches.
pub open spec fn ts_if(e: RsExpr) -> Seq<char>
    decreases e, 0int,
{
    match e {
        RsExpr::If { cond, then_branch, else_branch, .. } => (match *cond {
            RsExpr::Let { pat, expr, .. } => "  // Rust if-let\n"@ + "  const __tmp = "@ + ts_expr(*expr) + ";\n"@
                + "  if (__tmp !== undefined) {\n"@ + "    const "@ + iflet_name(pat) + " = __tmp;\n"@,
            _ => "  // Rust if\n"@ + "  if ("@ + ts_expr(*cond) + ") {\n"@,
        }) + ts_block(then_branch@) + match else_branch {
            Some(eb) => match *eb {
                RsExpr::Block { stmts, .. } => "  } else {\n"@ + ts_block(stmts@) + "  }\n"@,
                _ => "  } else {\n"@ + "    // Unsupported else expression: "@ + expr_text(*eb) + "\n"@ + "  }\n"@,
            },
            None => "  }\n"@,
        },
        _ => Seq::empty(),
    }
}

/// A parameter: `name: type` (a pattern that is no identifier by its text),
/// and a receiver in a free function `this: any`.
pub open spec fn ts_param(a: RsFnArg) -> Seq<char> {
    match a {
        RsFnArg::Typed { pat, ty, pat_text } => (match pat {
            Some(p) => p@,
            None => pat_text@,
        }) + ": "@ + ts_type(ty),
        RsFnArg::Receiver => "this: any"@,
    }
}

/// All parameters.
pub open spec fn ts_params(args: Seq<RsFnArg>) -> Seq<Seq<char>> {
    Seq::new(args.len(), |i: int| ts_param(args[i]))
}

/// The typed parameters (receivers left out).
pub open spec fn typed_params(args: Seq<RsFnArg>) -> Seq<Seq<char>>
    decreases args.len(),
{
    if args.len() == 0 {
        Seq::empty()
    } else {
        typed_params(args.drop_last()) + match args.last() {
            RsFnArg::Typed { .. } => seq![ts_param(args.last())],
            RsFnArg::Receiver => Seq::empty(),
        }
    }
}

/// The return type annotation (`void` without one).
pub open spec fn ts_return(o: Option<RsType>) -> Seq<char> {
    match o {
        Some(t) => ": "@ + ts_type(t),
        None => ": void"@,
    }
}

/// A free function, exported.
pub open spec fn ts_function(f: RsFn) -> Seq<char> {
    "// Converted from Rust: fn "@ + f.name@ + "(...)\n"@ + "export "@ + "function "@ + f.name@ + angle_list(
        names_view(f.generics@),
    ) + "("@ + spec_join(ts_params(f.inputs@), ", "@) + ")"@ + ts_return(f.output) + " {\n"@ + ts_block(f.stmts@)
        + "}\n\n"@
}

/// The lines of the fields of an interface.
pub open spec fn ts_fields(fs: Seq<RsField>) -> Seq<char>
    decreases fs.len(),
{
    if fs.len() == 0 {
        Seq::empty()
    } else {
        ts_fields(fs.drop_last()) + "  "@ + fs.last().name@ + ": "@ + ts_type(fs.last().ty) + ";\n"@
    }
}

/// A struct as an interface (and, for `NeuralNetwork`, the object its
/// associated functions are attached to).
pub open spec fn ts_struct(name: Seq<char>, generics: Seq<Seq<char>>, named_fields: Option<Seq<RsField>>) -> Seq<char> {
    "// Converted from Rust: struct "@ + name + "\n"@ + "interface "@ + name + angle_list(generics) + " {\n"@
        + match named_fields {
        Some(fs) => ts_fields(fs),
        None => Seq::empty(),
    } + "}\n\n"@ + if name == "NeuralNetwork"@ {
        "export const NeuralNetwork: any = {};\n\n"@
    } else {
        Seq::empty()
    }
}

/// The name of the type of an `impl` block (`Self` for one that is no path).
pub open spec fn impl_type_name(t: RsType) -> Seq<char> {
    match t {
        RsType::Path { ident, .. } => ident@,
        _ => "Self"@,
    }
}

/// Whether the block has an associated function (no receiver) of this name.
pub open spec fn has_assoc_fn(fns: Seq<RsFn>, name: Seq<char>) -> bool {
    exists|i: int| 0 <= i < fns.len() && !has_receiver(#[trigger] fns[i]) && fns[i].name@ == name
}

/// The type parameters of the block followed by those of the function that
/// are new, in order.
pub open spec fn merge_generics(acc: Seq<Seq<char>>, gs: Seq<Seq<char>>) -> Seq<Seq<char>>
    decreases gs.len(),
{
    if gs.len() == 0 {
        acc
    } else {
        let a = merge_generics(acc, gs.drop_last());
        if a.contains(gs.last()) {
            a
        } else {
            a.push(gs.last())
        }
    }
}

/// The parameters of a method: `selfObj` typed by the block's type for a
/// receiver, then the typed parameters.
pub open spec fn method_params(tname: Seq<char>, gsuf: Seq<char>, f: RsFn) -> Seq<Seq<char>> {
    (if has_receiver(f) {
        seq!["selfObj: "@ + tname + gsuf]
    } else {
        Seq::empty()
    }) + typed_params(f.inputs@)
}

/// A function of an inherent `impl` block as the free function `Type_name`.
pub open spec fn ts_method(tname: Seq<char>, gens: Seq<Seq<char>>, f: RsFn) -> Seq<char> {
    let gsuf = angle_list(gens);
    "// Converted from Rust: impl "@ + tname + gsuf + "::"@ + f.name@ + "\n"@ + "function "@ + tname + "_"@
        + f.name@ + angle_list(merge_generics(gens, names_view(f.generics@))) + "("@ + spec_join(
        method_params(tname, gsuf, f),
        ", "@,
    ) + ")"@ + ts_return(f.output) + " {\n"@ + ts_block(f.stmts@) + "}\n\n"@
}

/// The functions of an inherent `impl` block, in order.
pub open spec fn ts_methods(tname: Seq<char>, gens: Seq<Seq<char>>, fns: Seq<RsFn>) -> Seq<char>
    decreases fns.len(),
{
    if fns.len() == 0 {
        Seq::empty()
    } else {
        ts_methods(tname, gens, fns.drop_last()) + ts_method(tname, gens, fns.last())
    }
}

/// An inherent `impl` block; for `NeuralNetwork` the runtime forms of its
/// `new_with_value` and `random_uniform` come first.
pub open spec fn ts_impl(self_ty: RsType, generics: Seq<Seq<char>>, fns: Seq<RsFn>) -> Seq<char> {
    let tn = impl_type_name(self_ty);
    (if tn == "NeuralNetwork"@ {
        (if has_assoc_fn(fns, "new_with_value"@) {
            NN_NEW_WITH_VALUE_TS@
        } else {
            Seq::empty()
        }) + (if has_assoc_fn(fns, "random_uniform"@) {
            NN_RANDOM_UNIFORM_TS@
        } else {
            Seq::empty()
        })
    } else {
        Seq::empty()
    }) + ts_methods(tn, generics, fns)
}

/// An item: `use` items and modules give nothing, trait `impl` blocks a
/// comment, and any other item without a TypeScript form a comment
/// holding its text.
pub open spec fn ts_item(it: RsItem) -> Seq<char> {
    match it {
        RsItem::Fn(f) => ts_function(f),
        RsItem::Struct { name, generics, named_fields } => ts_struct(
            name@,
            names_view(generics@),
            match named_fields {
                Some(fs) => Some(fs@),
                None => None,
            },
        ),
        RsItem::Impl { is_trait, self_ty, generics, fns } => if is_trait {
            "// Skipped trait implementation (not yet supported)\n\n"@
        } else {
            ts_impl(self_ty, names_view(generics@), fns@)
        },
        RsItem::Use => Seq::empty(),
        RsItem::Mod => Seq::empty(),
        RsItem::Other(t) => "// Unsupported Rust item: "@ + t@ + "\n\n"@,
    }
}

/// The items in order.
pub open spec fn ts_items(items: Seq<RsItem>) -> Seq<char>
    decreases items.len(),
{
    if items.len() == 0 {
        Seq::empty()
    } else {
        ts_items(items.drop_last()) + ts_item(items.last())
    }
}

/// The TypeScript text of a parsed Rust file; a `main.rs` first imports
/// what it uses from `lib.ts`.
pub open spec fn spec_rust_to_ts(file: RsFile, is_main_file: bool) -> Seq<char> {
    (if is_main_file {
        MAIN_IMPORT@
    } else {
        Seq::empty()
    }) + ts_items(file.items@)
}

fn convert_type(t: &RsType) -> (r: String)
    ensures
        r@ == ts_type(*t),
    decreases t,
{
    match t {
        RsType::Reference(inner) => convert_type(inner),
        RsType::Path { ident, arg } => {
            let n = ident.as_str();
            if str_eq(n, "i32") || str_eq(n, "i64") || str_eq(n, "u32") || str_eq(n, "u64") || str_eq(n, "f32")
                || str_eq(n, "f64") || str_eq(n, "usize") || str_eq(n, "isize") {
                "number".to_owned()
            } else if str_eq(n, "String") || str_eq(n, "str") {
                "string".to_owned()
            } else if str_eq(n, "bool") {
                "boolean".to_owned()
            } else if str_eq(n, "Self") {
                "any".to_owned()
            } else if str_eq(n, "Vec") {
                match arg {
                    Some(a) => {
                        let mut s = convert_type(a);
                        s.push_str("[]");
                        s
                    },
                    None => "any[]".to_owned(),
                }
            } else if str_eq(n, "Option") {
                match arg {
                    Some(a) => {
                        let mut s = convert_type(a);
                        s.push_str(" | undefined");
                        s
                    },
                    None => "any | undefined".to_owned(),
                }
            } else {
                ident.clone()
            }
        },
        RsType::Other => "any".to_owned(),
    }
}

fn ts_path_to_string(segs: &Vec<String>) -> (r: String)
    ensures
        r@ == spec_join(names_view(segs@), "."@),
{
    join_lines(segs, ".")
}

fn convert_lit(l: &RsLit) -> (r: String)
    ensures
        r@ == ts_lit(*l),
{
    match l {
        RsLit::Int(d) => d.clone(),
        RsLit::Float(d) => d.clone(),
        RsLit::Str(v) => {
            let mut out = "\"".to_owned();
            out.push_str(v.as_str());
            out.push_str("\"");
            out
        },
        RsLit::Bool(b) => if *b {
            "true".to_owned()
        } else {
            "false".to_owned()
        },
        RsLit::Other(t) => t.clone(),
    }
}

fn bin_op_text(op: &RsBinOp) -> (r: &'static str)
    ensures
        r@ == ts_bin_op(*op),
{
    match op {
        RsBinOp::Add => "+",
        RsBinOp::Sub => "-",
        RsBinOp::Mul => "*",
        RsBinOp::Div => "/",
        RsBinOp::Rem => "%",
        RsBinOp::And => "&&",
        RsBinOp::Or => "||",
        RsBinOp::Eq => "===",
        RsBinOp::Ne => "!==",
        RsBinOp::Lt => "<",
        RsBinOp::Le => "<=",
        RsBinOp::Gt => ">",
        RsBinOp::Ge => ">=",
        RsBinOp::Other => "+",
    }
}

/// `a, b, c` for the given texts.
fn join_args(args: &Vec<String>) -> (r: String)
    ensures
        r@ == spec_join(names_view(args@), ", "@),
{
    join_lines(args, ", ")
}

fn method_call_text(recv: String, method: &String, args: &Vec<String>) -> (r: String)
    ensures
        r@ == ts_method_call(recv@, method@, names_view(args@)),
{
    let m = method.as_str();
    if str_eq(m, "min") || str_eq(m, "max") {
        let fname = if str_eq(m, "min") { "Math.min(" } else { "Math.max(" };
        if args.len() > 0 {
            let mut out = fname.to_owned();
            out.push_str(recv.as_str());
            out.push_str(", ");
            out.push_str(args[0].as_str());
            out.push_str(")");
            out
        } else {
            let mut out = if str_eq(m, "min") {
                "/* Unsupported min call: ".to_owned()
            } else {
                "/* Unsupported max call: ".to_owned()
            };
            out.push_str(recv.as_str());
            if str_eq(m, "min") {
                out.push_str(".min() */");
            } else {
                out.push_str(".max() */");
            }
            out
        }
    } else {
        let mut out = recv;
        out.push_str(".");
        out.push_str(m);
        out.push_str("(");
        let a = join_args(args);
        out.push_str(a.as_str());
        out.push_str(")");
        out
    }
}

fn call_text(func: String, args: Vec<String>) -> (r: String)
    ensures
        r@ == ts_call(func@, names_view(args@)),
{
    let f = func.as_str();
    if str_eq(f, "make_rng_from_args") {
        MAKE_RNG_TS.to_owned()
    } else if str_eq(f, "rng_name_from_args") {
        RNG_NAME_TS.to_owned()
    } else if str_eq(f, "NeuralNetwork.random_uniform_f32_with") || str_eq(f, "NeuralNetwork.random_uniform_f64_with") {
        let mut a = args;
        if a.len() > 0 {
            a.pop();
        }
        assert(names_view(a@) =~= drop_last_arg(names_view(args@)));
        let mut out = "NeuralNetwork.random_uniform(".to_owned();
        let j = join_args(&a);
        out.push_str(j.as_str());
        out.push_str(")");
        out
    } else {
        let mut out = func;
        out.push_str("(");
        let j = join_args(&args);
        out.push_str(j.as_str());
        out.push_str(")");
        out
    }
}

fn convert_macro_expr(name: &String, fa: (Option<String>, Vec<String>), tokens: &String, text: &String) -> (r: String)
    ensures
        r@ == ts_macro_expr(name@, (opt_view(fa.0), names_view(fa.1@)), tokens@, text@),
{
    let n = name.as_str();
    if str_eq(n, "println") {
        match fa.0 {
            Some(f) => build_ts_template_string(f.as_str(), fa.1.as_slice()),
            None => {
                let mut out = "console.log(".to_owned();
                out.push_str(tokens.as_str());
                out.push_str(")");
                out
            },
        }
    } else if str_eq(n, "print") {
        match fa.0 {
            Some(f) => {
                let mut out = "Deno.stdout.writeSync(new TextEncoder().encode(".to_owned();
                let t = build_ts_template_string(f.as_str(), fa.1.as_slice());
                out.push_str(t.as_str());
                out.push_str("))");
                out
            },
            None => {
                let mut out = "Deno.stdout.writeSync(new TextEncoder().encode(String(".to_owned();
                out.push_str(tokens.as_str());
                out.push_str(")))");
                out
            },
        }
    } else {
        let mut out = "/* Unsupported macro: ".to_owned();
        out.push_str(n);
        out.push_str("! - Original: ");
        out.push_str(text.as_str());
        out.push_str(" */");
        out
    }
}

fn last_ident(path: &Vec<String>) -> (r: String)
    ensures
        r@ == macro_name(path@),
{
    if path.len() > 0 {
        path[path.len() - 1].clone()
    } else {
        String::new()
    }
}

fn unsupported_expr(text: &String) -> (r: String)
    ensures
        r@ == "(undefined as any) /* Unsupported expression: "@ + text@ + " */"@,
{
    let mut out = "(undefined as any) /* Unsupported expression: ".to_owned();
    out.push_str(text.as_str());
    out.push_str(" */");
    out
}

fn convert_expr(e: &RsExpr) -> (r: String)
    ensures
        r@ == ts_expr(*e),
    decreases e, 2int,
{
    match e {
        RsExpr::ForLoop { text, .. } => {
            let mut out = "(undefined as any) /* Unsupported expression (for-loop): ".to_owned();
            out.push_str(text.as_str());
            out.push_str(" */");
            out
        },
        RsExpr::If { text, .. } => {
            let mut out = "(undefined as any) /* Unsupported expression (if): ".to_owned();
            out.push_str(text.as_str());
            out.push_str(" */");
            out
        },
        RsExpr::Unary { op, expr } => match op {
            RsUnOp::Neg => {
                let mut out = "-".to_owned();
                let inner = convert_expr(expr);
                out.push_str(inner.as_str());
                out
            },
            RsUnOp::Not => {
                let mut out = "!".to_owned();
                let inner = convert_expr(expr);
                out.push_str(inner.as_str());
                out
            },
            RsUnOp::Deref => "(undefined as any) /* Unsupported expression */".to_owned(),
        },
        RsExpr::Lit(l) => convert_lit(l),
        RsExpr::Tuple(es) => {
            let parts = convert_exprs(es);
            let mut out = "[".to_owned();
            let j = join_args(&parts);
            out.push_str(j.as_str());
            out.push_str("]");
            out
        },
        RsExpr::Path(segs) => {
            if segs.len() == 1 && str_eq(segs[0].as_str(), "self") {
                "selfObj".to_owned()
            } else {
                ts_path_to_string(segs)
            }
        },
        RsExpr::MethodCall { receiver, method, args } => {
            let recv = convert_expr(receiver);
            let a = convert_exprs(args);
            method_call_text(recv, method, &a)
        },
        RsExpr::Field { base, member } => {
            let mut out = convert_expr(base);
            out.push_str(".");
            out.push_str(member.as_str());
            out
        },
        RsExpr::Binary { op, left, right } => {
            let mut out = convert_expr(left);
            out.push_str(" ");
            out.push_str(bin_op_text(op));
            out.push_str(" ");
            let r = convert_expr(right);
            out.push_str(r.as_str());
            out
        },
        RsExpr::Call { func, args } => {
            let f = convert_expr(func);
            let a = convert_exprs(args);
            call_text(f, a)
        },
        RsExpr::Macro { path, args, tokens, text } => {
            let name = last_ident(path);
            let fa = parse_format_macro_args(args);
            convert_macro_expr(&name, fa, tokens, text)
        },
        RsExpr::Return(r) => match r {
            Some(x) => {
                let mut out = "return ".to_owned();
                let t = convert_expr(x);
                out.push_str(t.as_str());
                out
            },
            None => "return".to_owned(),
        },
        RsExpr::Range { text, .. } => unsupported_expr(text),
        RsExpr::Let { text, .. } => unsupported_expr(text),
        RsExpr::Block { text, .. } => unsupported_expr(text),
        RsExpr::While { text, .. } => unsupported_expr(text),
        RsExpr::Loop { text, .. } => unsupported_expr(text),
        RsExpr::Match(text) => unsupported_expr(text),
        RsExpr::Assign { text, .. } => unsupported_expr(text),
        RsExpr::Paren { text, .. } => unsupported_expr(text),
        RsExpr::Group { text, .. } => unsupported_expr(text),
        RsExpr::Reference { text, .. } => unsupported_expr(text),
        RsExpr::Index { text, .. } => unsupported_expr(text),
        RsExpr::Other(text) => unsupported_expr(text),
    }
}

fn convert_exprs(es: &Vec<RsExpr>) -> (r: Vec<String>)
    ensures
        names_view(r@) == ts_exprs(es@),
    decreases es, 1int,
{
    let r = convert_exprs_from(es, 0);
    assert(es@.subrange(0, es@.len() as int) =~= es@);
    r
}

/// The TypeScript forms of the expressions from index `from` on.
fn convert_exprs_from(es: &Vec<RsExpr>, from: usize) -> (r: Vec<String>)
    requires
        from <= es@.len(),
    ensures
        names_view(r@) == ts_exprs(es@.subrange(from as int, es@.len() as int)),
    decreases es, 0int,
{
    let mut out: Vec<String> = Vec::new();
    let mut i: usize = from;
    assert(es@.subrange(from as int, from as int) =~= Seq::<RsExpr>::empty());
    while i < es.len()
        invariant
            from <= i <= es@.len(),
            names_view(out@) == ts_exprs(es@.subrange(from as int, i as int)),
        decreases es@.len() - i,
    {
        let t = convert_expr(&es[i]);
        proof {
            assert(es@.subrange(from as int, i + 1).drop_last() =~= es@.subrange(from as int, i as int));
        }
        out.push(t);
        assert(names_view(out@) =~= ts_exprs(es@.subrange(from as int, i + 1)));
        i += 1;
    }
    out
}

fn parse_format_macro_args(a: &RsMacroArgs) -> (r: (Option<String>, Vec<String>))
    ensures
        opt_view(r.0) == format_args(*a).0,
        names_view(r.1@) == format_args(*a).1,
    decreases a, 2int,
{
    match a {
        RsMacroArgs::Str(v) => (Some(v.clone()), Vec::new()),
        RsMacroArgs::Exprs(es) => {
            let fmt = if es.len() > 0 {
                match &es[0] {
                    RsExpr::Lit(RsLit::Str(v)) => Some(v.clone()),
                    _ => None,
                }
            } else {
                None
            };
            match fmt {
                Some(f) => {
                    let out = convert_exprs_from(es, 1);
                    assert(es@.subrange(1, es@.len() as int) =~= es@.drop_first());
                    (Some(f), out)
                },
                None => (None, convert_exprs(es)),
            }
        },
        RsMacroArgs::Unparsed => (None, Vec::new()),
    }
}


fn tuple_pattern_text(elems: &Vec<RsPat>) -> (r: String)
    ensures
        r@ == "["@ + spec_join(tuple_names(elems@), ", "@) + "]"@,
{
    let mut names: Vec<String> = Vec::new();
    let mut i: usize = 0;
    while i < elems.len()
        invariant
            i <= elems@.len(),
            names_view(names@) =~= tuple_names(elems@).subrange(0, i as int),
        decreases elems@.len() - i,
    {
        let n = match &elems[i] {
            RsPat::Ident { name, .. } => name.clone(),
            _ => {
                let mut t = "_tmp".to_owned();
                let d = usize_to_decimal(i);
                t.push_str(d.as_str());
                t
            },
        };
        assert(n@ == tuple_names(elems@)[i as int]);
        let ghost before = names_view(names@);
        names.push(n);
        assert(names_view(names@) =~= before.push(n@));
        assert(names_view(names@) =~= tuple_names(elems@).subrange(0, i + 1));
        i += 1;
    }
    assert(tuple_names(elems@).subrange(0, elems@.len() as int) =~= tuple_names(elems@));
    let mut out = "[".to_owned();
    let j = join_args(&names);
    out.push_str(j.as_str());
    out.push_str("]");
    out
}

fn let_shape_of(p: &RsPat) -> (r: (String, bool, bool))
    ensures
        (r.0@, r.1, r.2) == let_shape(*p),
{
    match p {
        RsPat::Ident { name, mutable } => (name.clone(), false, *mutable),
        RsPat::Typed(inner) => match &**inner {
            RsPat::Ident { name, mutable } => (name.clone(), false, *mutable),
            RsPat::Tuple(elems) => (tuple_pattern_text(elems), true, false),
            _ => ("_tmp".to_owned(), false, true),
        },
        RsPat::Tuple(elems) => (tuple_pattern_text(elems), true, false),
        _ => ("_tmp".to_owned(), false, true),
    }
}

fn convert_local(pat: &RsPat, init: &Option<RsExpr>) -> (r: String)
    ensures
        r@ == ts_local(*pat, *init),
{
    let (p, is_tuple, is_mut) = let_shape_of(pat);
    let kw = if is_mut { "let" } else { "const" };
    let mut out = "  // Rust variable declaration\n".to_owned();
    match init {
        Some(e) => {
            let x = convert_expr(e);
            if contains_str(x.as_str(), "Unsupported expression") {
                out.push_str("  // Unsupported initializer omitted\n");
            } else {
                out.push_str("  ");
                out.push_str(kw);
                out.push_str(" ");
                out.push_str(p.as_str());
                out.push_str(" = ");
                out.push_str(x.as_str());
                if is_tuple {
                    out.push_str(" as any;\n");
                } else {
                    out.push_str(";\n");
                }
            }
        },
        None => {
            out.push_str("  ");
            out.push_str(kw);
            out.push_str(" ");
            out.push_str(p.as_str());
            out.push_str(";\n");
        },
    }
    out
}

fn convert_macro_stmt(path: &Vec<String>, args: &RsMacroArgs, tokens: &String, text: &String) -> (r: String)
    ensures
        r@ == ts_macro_stmt(macro_name(path@), format_args(*args), tokens@, text@),
{
    let name = last_ident(path);
    let n = name.as_str();
    if str_eq(n, "println") || str_eq(n, "print") {
        let (fmt, fargs) = parse_format_macro_args(args);
        let mut out = "  // Rust macro\n".to_owned();
        let is_println = str_eq(n, "println");
        match fmt {
            Some(f) => {
                let t = build_ts_template_string(f.as_str(), fargs.as_slice());
                if is_println {
                    out.push_str("  console.log(");
                    out.push_str(t.as_str());
                    out.push_str(");\n");
                } else {
                    out.push_str("  Deno.stdout.writeSync(new TextEncoder().encode(");
                    out.push_str(t.as_str());
                    out.push_str("));\n");
                }
            },
            None => {
                if is_println {
                    out.push_str("  console.log(");
                    out.push_str(tokens.as_str());
                    out.push_str("); // raw args\n  // Original: ");
                } else {
                    out.push_str("  Deno.stdout.writeSync(new TextEncoder().encode(String(");
                    out.push_str(tokens.as_str());
                    out.push_str(")));\n  // Original: ");
                }
                out.push_str(text.as_str());
                out.push_str("\n");
            },
        }
        out
    } else {
        let mut out = "  // Unsupported macro: ".to_owned();
        out.push_str(n);
        out.push_str("!\\n  // Original: ");
        out.push_str(text.as_str());
        out.push_str("\n");
        out
    }
}

fn convert_stmt(s: &RsStmt) -> (r: String)
    ensures
        r@ == ts_stmt(*s),
    decreases s, 0int,
{
    match s {
        RsStmt::Macro { path, args, tokens, text } => convert_macro_stmt(path, args, tokens, text),
        RsStmt::Local { pat, init } => convert_local(pat, init),
        RsStmt::Expr { expr, semi, text } => match expr {
            RsExpr::ForLoop { .. } => convert_for_loop(expr),
            RsExpr::If { .. } => convert_if_stmt(expr),
            _ => {
                let x = convert_expr(expr);
                if x.as_str().unicode_len() == 0 || contains_str(x.as_str(), "Unsupported expression") {
                    let mut out = "  // Unsupported statement: ".to_owned();
                    out.push_str(text.as_str());
                    out.push_str("\n");
                    out
                } else {
                    let mut out = "  // Rust expression\n".to_owned();
                    out.push_str("  ");
                    out.push_str(x.as_str());
                    if *semi {
                        out.push_str(";");
                    }
                    out.push_str("\n");
                    out
                }
            },
        },
        RsStmt::Item => "  // Unsupported statement (unhandled variant)\n".to_owned(),
    }
}

fn convert_block(stmts: &Vec<RsStmt>) -> (r: String)
    ensures
        r@ == ts_block(stmts@),
    decreases stmts, 0int,
{
    let n = stmts.len();
    if n == 0 {
        return String::new();
    }
    let mut out = String::new();
    let mut i: usize = 0;
    while i < n - 1
        invariant
            n == stmts@.len(),
            n > 0,
            i <= n - 1,
            out@ == ts_stmts(stmts@.subrange(0, i as int)),
        decreases n - i,
    {
        let t = convert_stmt(&stmts[i]);
        out.push_str(t.as_str());
        assert(stmts@.subrange(0, i + 1).drop_last() =~= stmts@.subrange(0, i as int));
        i += 1;
    }
    assert(stmts@.drop_last() =~= stmts@.subrange(0, n - 1));
    let last = &stmts[n - 1];
    let tail = match last {
        RsStmt::Expr { expr, semi, text } => {
            let plain = match expr {
                RsExpr::ForLoop { .. } => false,
                RsExpr::If { .. } => false,
                _ => true,
            };
            if !*semi && plain {
                let x = convert_expr(expr);
                let xc = chars_of(x.as_str());
                if x.as_str().unicode_len() == 0 || chars_start_with(xc.as_slice(), "/* Unsupported") {
                    "  // Unsupported trailing expression\n".to_owned()
                } else {
                    let mut t = "  return ".to_owned();
                    t.push_str(x.as_str());
                    t.push_str(";\n");
                    t
                }
            } else {
                convert_stmt(last)
            }
        },
        _ => convert_stmt(last),
    };
    out.push_str(tail.as_str());
    out
}

fn convert_for_loop(e: &RsExpr) -> (r: String)
    ensures
        r@ == ts_for(*e),
    decreases e, 0int,
{
    match e {
        RsExpr::ForLoop { pat, iter, body, text, pat_text, iter_text } => match pat {
            RsPat::Ident { name, .. } => match &**iter {
                RsExpr::Range { start, end, closed, .. } => {
                    let s = match start {
                        Some(b) => convert_expr(b),
                        None => "0".to_owned(),
                    };
                    let en = match end {
                        Some(b) => convert_expr(b),
                        None => "/* missing end */".to_owned(),
                    };
                    let mut out = "  // Rust for-loop\n".to_owned();
                    out.push_str("  for (let ");
                    out.push_str(name.as_str());
                    out.push_str(" = ");
                    out.push_str(s.as_str());
                    out.push_str("; ");
                    out.push_str(name.as_str());
                    if *closed {
                        out.push_str(" <= ");
                    } else {
                        out.push_str(" < ");
                    }
                    out.push_str(en.as_str());
                    out.push_str("; ");
                    out.push_str(name.as_str());
                    out.push_str("++) {\n");
                    let b = convert_block(body);
                    out.push_str(b.as_str());
                    out.push_str("  }\n");
                    out
                },
                _ => {
                    let mut out = "  // Unsupported for-loop iterator: ".to_owned();
                    out.push_str(iter_text.as_str());
                    out.push_str("\n  // Original: ");
                    out.push_str(text.as_str());
                    out.push_str("\n");
                    out
                },
            },
            _ => {
                let mut out = "  // Unsupported for-loop pattern: ".to_owned();
                out.push_str(pat_text.as_str());
                out.push_str("\n  // Original: ");
                out.push_str(text.as_str());
                out.push_str("\n");
                out
            },
        },
        _ => String::new(),
    }
}

fn iflet_binding(p: &RsPat) -> (r: String)
    ensures
        r@ == iflet_name(*p),
{
    match p {
        RsPat::Ident { name, .. } => name.clone(),
        RsPat::TupleStruct { path, elems } => {
            if path.len() > 0 && str_eq(path[path.len() - 1].as_str(), "Some") && elems.len() == 1 {
                match &elems[0] {
                    RsPat::Ident { name, .. } => name.clone(),
                    _ => "val".to_owned(),
                }
            } else {
                "val".to_owned()
            }
        },
        _ => "val".to_owned(),
    }
}

fn text_of_expr(e: &RsExpr) -> (r: String)
    ensures
        r@ == expr_text(*e),
{
    match e {
        RsExpr::Macro { text, .. } => text.clone(),
        RsExpr::Range { text, .. } => text.clone(),
        RsExpr::ForLoop { text, .. } => text.clone(),
        RsExpr::If { text, .. } => text.clone(),
        RsExpr::Let { text, .. } => text.clone(),
        RsExpr::Block { text, .. } => text.clone(),
        RsExpr::While { text, .. } => text.clone(),
        RsExpr::Loop { text, .. } => text.clone(),
        RsExpr::Match(text) => text.clone(),
        RsExpr::Assign { text, .. } => text.clone(),
        RsExpr::Paren { text, .. } => text.clone(),
        RsExpr::Group { text, .. } => text.clone(),
        RsExpr::Reference { text, .. } => text.clone(),
        RsExpr::Index { text, .. } => text.clone(),
        RsExpr::Other(text) => text.clone(),
        _ => String::new(),
    }
}

fn convert_if_stmt(e: &RsExpr) -> (r: String)
    ensures
        r@ == ts_if(*e),
    decreases e, 0int,
{
    match e {
        RsExpr::If { cond, then_branch, else_branch, .. } => {
            let mut out = match &**cond {
                RsExpr::Let { pat, expr, .. } => {
                    let pat_name = iflet_binding(pat);
                    let value = convert_expr(expr);
                    let mut o = "  // Rust if-let\n".to_owned();
                    o.push_str("  const __tmp = ");
                    o.push_str(value.as_str());
                    o.push_str(";\n");
                    o.push_str("  if (__tmp !== undefined) {\n");
                    o.push_str("    const ");
                    o.push_str(pat_name.as_str());
                    o.push_str(" = __tmp;\n");
                    o
                },
                _ => {
                    let c = convert_expr(cond);
                    let mut o = "  // Rust if\n".to_owned();
                    o.push_str("  if (");
                    o.push_str(c.as_str());
                    o.push_str(") {\n");
                    o
                },
            };
            let tb = convert_block(then_branch);
            out.push_str(tb.as_str());
            match else_branch {
                Some(eb) => match &**eb {
                    RsExpr::Block { stmts, .. } => {
                        out.push_str("  } else {\n");
                        let b = convert_block(stmts);
                        out.push_str(b.as_str());
                        out.push_str("  }\n");
                    },
                    _ => {
                        out.push_str("  } else {\n");
                        out.push_str("    // Unsupported else expression: ");
                        let t = text_of_expr(eb);
                        out.push_str(t.as_str());
                        out.push_str("\n");
                        out.push_str("  }\n");
                    },
                },
                None => {
                    out.push_str("  }\n");
                },
            }
            out
        },
        _ => String::new(),
    }
}


fn param_text(a: &RsFnArg) -> (r: String)
    ensures
        r@ == ts_param(*a),
{
    match a {
        RsFnArg::Typed { pat, ty, pat_text } => {
            let mut out = match pat {
                Some(p) => p.clone(),
                None => pat_text.clone(),
            };
            out.push_str(": ");
            let t = convert_type(ty);
            out.push_str(t.as_str());
            out
        },
        RsFnArg::Receiver => "this: any".to_owned(),
    }
}

fn return_text(o: &Option<RsType>) -> (r: String)
    ensures
        r@ == ts_return(*o),
{
    match o {
        Some(t) => {
            let mut out = ": ".to_owned();
            let s = convert_type(t);
            out.push_str(s.as_str());
            out
        },
        None => ": void".to_owned(),
    }
}

/// `<A, B>` for a non-empty list, nothing otherwise.
fn generic_suffix(gs: &Vec<String>) -> (r: String)
    ensures
        r@ == angle_list(names_view(gs@)),
{
    if gs.len() == 0 {
        String::new()
    } else {
        let mut out = "<".to_owned();
        let j = join_args(gs);
        out.push_str(j.as_str());
        out.push_str(">");
        out
    }
}

fn convert_function(f: &RsFn) -> (r: String)
    ensures
        r@ == ts_function(*f),
{
    let mut out = "// Converted from Rust: fn ".to_owned();
    out.push_str(f.name.as_str());
    out.push_str("(...)\n");
    out.push_str("export ");
    out.push_str("function ");
    out.push_str(f.name.as_str());
    let g = generic_suffix(&f.generics);
    out.push_str(g.as_str());
    out.push_str("(");
    let mut params: Vec<String> = Vec::new();
    let mut i: usize = 0;
    while i < f.inputs.len()
        invariant
            i <= f.inputs@.len(),
            names_view(params@) =~= ts_params(f.inputs@).subrange(0, i as int),
        decreases f.inputs@.len() - i,
    {
        let p = param_text(&f.inputs[i]);
        let ghost before = names_view(params@);
        params.push(p);
        assert(names_view(params@) =~= before.push(p@));
        i += 1;
    }
    assert(ts_params(f.inputs@).subrange(0, f.inputs@.len() as int) =~= ts_params(f.inputs@));
    let j = join_args(&params);
    out.push_str(j.as_str());
    out.push_str(")");
    let rt = return_text(&f.output);
    out.push_str(rt.as_str());
    out.push_str(" {\n");
    let b = convert_block(&f.stmts);
    out.push_str(b.as_str());
    out.push_str("}\n\n");
    out
}

fn convert_struct(name: &String, generics: &Vec<String>, named_fields: &Option<Vec<RsField>>) -> (r: String)
    ensures
        r@ == ts_struct(
            name@,
            names_view(generics@),
            match *named_fields {
                Some(fs) => Some(fs@),
                None => None,
            },
        ),
{
    let mut out = "// Converted from Rust: struct ".to_owned();
    out.push_str(name.as_str());
    out.push_str("\n");
    out.push_str("interface ");
    out.push_str(name.as_str());
    let g = generic_suffix(generics);
    out.push_str(g.as_str());
    out.push_str(" {\n");
    let ghost head = out@;
    match named_fields {
        Some(fs) => {
            let mut i: usize = 0;
            while i < fs.len()
                invariant
                    i <= fs@.len(),
                    out@ == head + ts_fields(fs@.subrange(0, i as int)),
                decreases fs@.len() - i,
            {
                out.push_str("  ");
                out.push_str(fs[i].name.as_str());
                out.push_str(": ");
                let t = convert_type(&fs[i].ty);
                out.push_str(t.as_str());
                out.push_str(";\n");
                assert(fs@.subrange(0, i + 1).drop_last() =~= fs@.subrange(0, i as int));
                i += 1;
            }
            assert(fs@.subrange(0, fs@.len() as int) =~= fs@);
        },
        None => {},
    }
    out.push_str("}\n\n");
    if str_eq(name.as_str(), "NeuralNetwork") {
        out.push_str("export const NeuralNetwork: any = {};\n\n");
    }
    out
}

fn impl_name(t: &RsType) -> (r: String)
    ensures
        r@ == impl_type_name(*t),
{
    match t {
        RsType::Path { ident, .. } => ident.clone(),
        _ => "Self".to_owned(),
    }
}

fn fn_has_receiver(f: &RsFn) -> (r: bool)
    ensures
        r == has_receiver(*f),
{
    if f.inputs.len() > 0 {
        match &f.inputs[0] {
            RsFnArg::Receiver => true,
            _ => false,
        }
    } else {
        false
    }
}

fn has_assoc(fns: &Vec<RsFn>, name: &str) -> (r: bool)
    ensures
        r == has_assoc_fn(fns@, name@),
{
    let mut i: usize = 0;
    while i < fns.len()
        invariant
            i <= fns@.len(),
            forall|j: int| 0 <= j < i ==> !(!has_receiver(#[trigger] fns@[j]) && fns@[j].name@ == name@),
        decreases fns@.len() - i,
    {
        if !fn_has_receiver(&fns[i]) && str_eq(fns[i].name.as_str(), name) {
            return true;
        }
        i += 1;
    }
    false
}

fn names_contain(v: &Vec<String>, s: &String) -> (r: bool)
    ensures
        r == names_view(v@).contains(s@),
{
    let mut i: usize = 0;
    while i < v.len()
        invariant
            i <= v@.len(),
            forall|j: int| 0 <= j < i ==> #[trigger] v@[j]@ != s@,
        decreases v@.len() - i,
    {
        if str_eq(v[i].as_str(), s.as_str()) {
            assert(names_view(v@)[i as int] == s@);
            return true;
        }
        i += 1;
    }
    assert forall|j: int| 0 <= j < names_view(v@).len() implies names_view(v@)[j] != s@ by {
        assert(names_view(v@)[j] == v@[j]@);
    }
    false
}

fn merge_generic_names(acc: &Vec<String>, gs: &Vec<String>) -> (r: Vec<String>)
    ensures
        names_view(r@) == merge_generics(names_view(acc@), names_view(gs@)),
{
    let mut all: Vec<String> = Vec::new();
    let mut k: usize = 0;
    while k < acc.len()
        invariant
            k <= acc@.len(),
            names_view(all@) =~= names_view(acc@).subrange(0, k as int),
        decreases acc@.len() - k,
    {
        let ghost before = names_view(all@);
        let c = acc[k].clone();
        all.push(c);
        assert(names_view(all@) =~= before.push(c@));
        k += 1;
    }
    assert(names_view(acc@).subrange(0, acc@.len() as int) =~= names_view(acc@));
    let mut i: usize = 0;
    while i < gs.len()
        invariant
            i <= gs@.len(),
            names_view(all@) == merge_generics(names_view(acc@), names_view(gs@.subrange(0, i as int))),
        decreases gs@.len() - i,
    {
        let ghost before = names_view(all@);
        assert(names_view(gs@.subrange(0, i + 1)).drop_last() =~= names_view(gs@.subrange(0, i as int)));
        assert(names_view(gs@.subrange(0, i + 1)).last() == gs@[i as int]@);
        if !names_contain(&all, &gs[i]) {
            all.push(gs[i].clone());
            assert(names_view(all@) =~= before.push(gs@[i as int]@));
        }
        i += 1;
    }
    assert(gs@.subrange(0, gs@.len() as int) =~= gs@);
    all
}

fn convert_method(tname: &String, gens: &Vec<String>, f: &RsFn) -> (r: String)
    ensures
        r@ == ts_method(tname@, names_view(gens@), *f),
{
    let gsuf = generic_suffix(gens);
    let mut out = "// Converted from Rust: impl ".to_owned();
    out.push_str(tname.as_str());
    out.push_str(gsuf.as_str());
    out.push_str("::");
    out.push_str(f.name.as_str());
    out.push_str("\n");
    out.push_str("function ");
    out.push_str(tname.as_str());
    out.push_str("_");
    out.push_str(f.name.as_str());
    let all = merge_generic_names(gens, &f.generics);
    let asuf = generic_suffix(&all);
    out.push_str(asuf.as_str());
    out.push_str("(");
    let mut params: Vec<String> = Vec::new();
    if fn_has_receiver(f) {
        let mut sp = "selfObj: ".to_owned();
        sp.push_str(tname.as_str());
        sp.push_str(gsuf.as_str());
        params.push(sp);
    }
    let ghost lead = names_view(params@);
    let mut i: usize = 0;
    while i < f.inputs.len()
        invariant
            i <= f.inputs@.len(),
            names_view(params@) == lead + typed_params(f.inputs@.subrange(0, i as int)),
        decreases f.inputs@.len() - i,
    {
        let ghost before = names_view(params@);
        assert(f.inputs@.subrange(0, i + 1).drop_last() =~= f.inputs@.subrange(0, i as int));
        match &f.inputs[i] {
            RsFnArg::Typed { .. } => {
                let p = param_text(&f.inputs[i]);
                params.push(p);
                assert(names_view(params@) =~= before.push(p@));
            },
            RsFnArg::Receiver => {},
        }
        assert(names_view(params@) =~= lead + typed_params(f.inputs@.subrange(0, i + 1)));
        i += 1;
    }
    assert(f.inputs@.subrange(0, f.inputs@.len() as int) =~= f.inputs@);
    assert(names_view(params@) =~= method_params(tname@, gsuf@, *f));
    let j = join_args(&params);
    out.push_str(j.as_str());
    out.push_str(")");
    let rt = return_text(&f.output);
    out.push_str(rt.as_str());
    out.push_str(" {\n");
    let b = convert_block(&f.stmts);
    out.push_str(b.as_str());
    out.push_str("}\n\n");
    out
}

fn convert_impl_inherent(self_ty: &RsType, generics: &Vec<String>, fns: &Vec<RsFn>) -> (r: String)
    ensures
        r@ == ts_impl(*self_ty, names_view(generics@), fns@),
{
    let tname = impl_name(self_ty);
    let mut out = String::new();
    if str_eq(tname.as_str(), "NeuralNetwork") {
        if has_assoc(fns, "new_with_value") {
            out.push_str(NN_NEW_WITH_VALUE_TS);
        }
        if has_assoc(fns, "random_uniform") {
            out.push_str(NN_RANDOM_UNIFORM_TS);
        }
    }
    let ghost head = out@;
    let mut i: usize = 0;
    while i < fns.len()
        invariant
            i <= fns@.len(),
            tname@ == impl_type_name(*self_ty),
            out@ == head + ts_methods(tname@, names_view(generics@), fns@.subrange(0, i as int)),
        decreases fns@.len() - i,
    {
        let m = convert_method(&tname, generics, &fns[i]);
        out.push_str(m.as_str());
        assert(fns@.subrange(0, i + 1).drop_last() =~= fns@.subrange(0, i as int));
        i += 1;
    }
    assert(fns@.subrange(0, fns@.len() as int) =~= fns@);
    out
}

fn convert_item(it: &RsItem) -> (r: String)
    ensures
        r@ == ts_item(*it),
{
    match it {
        RsItem::Fn(f) => convert_function(f),
        RsItem::Struct { name, generics, named_fields } => convert_struct(name, generics, named_fields),
        RsItem::Impl { is_trait, self_ty, generics, fns } => {
            if *is_trait {
                "// Skipped trait implementation (not yet supported)\n\n".to_owned()
            } else {
                convert_impl_inherent(self_ty, generics, fns)
            }
        },
        RsItem::Use => String::new(),
        RsItem::Mod => String::new(),
        RsItem::Other(t) => {
            let mut out = "// Unsupported Rust item: ".to_owned();
            out.push_str(t.as_str());
            out.push_str("\n\n");
            out
        },
    }
}

/// The TypeScript text of a parsed Rust file (see [`spec_rust_to_ts`]); the
/// source text itself is not read.
pub fn convert_rust_to_ts(ast: &RsFile, _source: &str, is_main_file: bool) -> (r: String)
    ensures
        r@ == spec_rust_to_ts(*ast, is_main_file),
{
    let mut out = String::new();
    if is_main_file {
        out.push_str(MAIN_IMPORT);
    }
    let ghost head = out@;
    let mut i: usize = 0;
    while i < ast.items.len()
        invariant
            i <= ast.items@.len(),
            out@ == head + ts_items(ast.items@.subrange(0, i as int)),
        decreases ast.items@.len() - i,
    {
        let t = convert_item(&ast.items[i]);
        out.push_str(t.as_str());
        assert(ast.items@.subrange(0, i + 1).drop_last() =~= ast.items@.subrange(0, i as int));
        i += 1;
    }
    assert(ast.items@.subrange(0, ast.items@.len() as int) =~= ast.items@);
    out
}


proof fn lemma_ts_items_concat(a: Seq<RsItem>, b: Seq<RsItem>)
    ensures
        ts_items(a + b) == ts_items(a) + ts_items(b),
    decreases b.len(),
{
    if b.len() == 0 {
        assert(a + b =~= a);
        assert(ts_items(a) + ts_items(b) =~= ts_items(a));
    } else {
        lemma_ts_items_concat(a, b.drop_last());
        assert((a + b).drop_last() =~= a + b.drop_last());
        assert((a + b).last() == b.last());
        assert(ts_items(a + b) =~= ts_items(a) + ts_items(b));
    }
}

/// An item without a TypeScript form is kept in the output as a comment
/// holding its Rust text.
pub proof fn lemma_unsupported_item_kept(file: RsFile, is_main_file: bool, i: int)
    requires
        0 <= i < file.items@.len(),
        file.items@[i] is Other,
    ensures
        contains_text(
            spec_rust_to_ts(file, is_main_file),
            "// Unsupported Rust item: "@ + (match file.items@[i] {
                RsItem::Other(t) => t@,
                _ => Seq::empty(),
            }),
        ),
{
    let items = file.items@;
    let t = match items[i] {
        RsItem::Other(t) => t@,
        _ => Seq::empty(),
    };
    let pre = items.subrange(0, i);
    let rest = items.subrange(i + 1, items.len() as int);
    assert(items =~= pre.push(items[i]) + rest);
    lemma_ts_items_concat(pre.push(items[i]), rest);
    assert(pre.push(items[i]).drop_last() =~= pre);
    let head = (if is_main_file { MAIN_IMPORT@ } else { Seq::<char>::empty() }) + ts_items(pre);
    let out = spec_rust_to_ts(file, is_main_file);
    let needle = "// Unsupported Rust item: "@ + t;
    assert(out =~= head + (needle + "\n\n"@) + ts_items(rest));
    assert(out.subrange(head.len() as int, head.len() as int + needle.len()) =~= needle);
}

/// A `for` loop over a half-open range `a..b` becomes a counting loop
/// whose condition is `i < b`, so that it visits the `b - a` values of the
/// Rust range; only an inclusive range `a..=b` gives the condition `i <= b`.
/// A missing start counts from `0`.
pub proof fn lemma_range_loop_condition(
    name: String,
    mutable: bool,
    start: Option<Box<RsExpr>>,
    end: Box<RsExpr>,
    closed: bool,
    range_text: String,
    body: Vec<RsStmt>,
    text: String,
    pat_text: String,
    iter_text: String,
    semi: bool,
    stmt_text: String,
)
    ensures
        ({
            let e = RsExpr::ForLoop {
                pat: RsPat::Ident { name, mutable },
                iter: Box::new(RsExpr::Range { start, end: Some(end), closed, text: range_text }),
                body,
                text,
                pat_text,
                iter_text,
            };
            let from = match start {
                Some(b) => ts_expr(*b),
                None => "0"@,
            };
            let out = ts_stmt(RsStmt::Expr { expr: e, semi, text: stmt_text });
            &&& !closed ==> out == "  // Rust for-loop\n"@ + "  for (let "@ + name@ + " = "@ + from + "; "@ + name@ + " < "@
                + ts_expr(*end) + "; "@ + name@ + "++) {\n"@ + ts_block(body@) + "  }\n"@
            &&& closed ==> out == "  // Rust for-loop\n"@ + "  for (let "@ + name@ + " = "@ + from + "; "@ + name@ + " <= "@
                + ts_expr(*end) + "; "@ + name@ + "++) {\n"@ + ts_block(body@) + "  }\n"@
        }),
{
}

} // verus!
