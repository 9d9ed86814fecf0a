//! The decisions of the example tester: which `.rs`/`.ts` pair an example
//! directory runs, which example is compared loosely, which round-trip
//! check an input gets, and the Deno wrapper that runs the TypeScript side
//! with the generator and seed given to the Rust side.

use vstd::prelude::*;
use crate::rng::{default_seed, parse_u64, spec_parse_u64, spec_rng_choice, spec_rng_name};
use crate::text::{ascii_lower_seq, ascii_lowercase, chars_of, chars_start_with, spec_decimal, starts_with, str_eq, u64_to_decimal};

verus! {

/// Whether the last three path components are `Examples/src/converter`.
pub open spec fn converter_root(last: Option<Seq<char>>, parent: Option<Seq<char>>, grandparent: Option<Seq<char>>) -> bool {
    last == Some("converter"@) && parent == Some("src"@) && grandparent == Some("Examples"@)
}

pub open spec fn str_opt_view(s: Option<&str>) -> Option<Seq<char>> {
    match s {
        Some(s) => Some(s@),
        None => None,
    }
}

fn opt_is(s: Option<&str>, want: &str) -> (r: bool)
    ensures
        r == (str_opt_view(s) == Some(want@)),
{
    match s {
        Some(s) => str_eq(s, want),
        None => false,
    }
}

/// Whether an example directory is the converter example under
/// `Examples/src/converter`, given the names of its last three components
/// (none where the path has no such component); its outputs are not
/// compared.
pub fn is_examples_src_converter_root(last: Option<&str>, parent: Option<&str>, grandparent: Option<&str>) -> (r: bool)
    ensures
        r == converter_root(str_opt_view(last), str_opt_view(parent), str_opt_view(grandparent)),
{
    opt_is(last, "converter") && opt_is(parent, "src") && opt_is(grandparent, "Examples")
}

/// The first position holding the stem `s`.
pub open spec fn first_stem(stems: Seq<Option<Seq<char>>>, s: Seq<char>) -> Option<int>
    decreases stems.len(),
{
    if stems.len() == 0 {
        None
    } else if stems[0] == Some(s) {
        Some(0)
    } else {
        match first_stem(stems.drop_first(), s) {
            Some(i) => Some(i + 1),
            None => None,
        }
    }
}

/// From position `i` on, the first Rust file whose stem some TypeScript
/// file shares, with the first such TypeScript file.
pub open spec fn stem_pair_from(rs: Seq<Option<Seq<char>>>, ts: Seq<Option<Seq<char>>>, i: int) -> Option<(int, int)>
    decreases rs.len() - i,
{
    if i < 0 || i >= rs.len() {
        None
    } else {
        match rs[i] {
            Some(s) => match first_stem(ts, s) {
                Some(j) => Some((i, j)),
                None => stem_pair_from(rs, ts, i + 1),
            },
            None => stem_pair_from(rs, ts, i + 1),
        }
    }
}

/// The pair an example runs: the first `main.rs` with the first `main.ts`
/// when both exist, else the first Rust file sharing its stem with a
/// TypeScript file.
pub open spec fn spec_example_pair(rs: Seq<Option<Seq<char>>>, ts: Seq<Option<Seq<char>>>) -> Option<(int, int)> {
    match (first_stem(rs, "main"@), first_stem(ts, "main"@)) {
        (Some(a), Some(b)) => Some((a, b)),
        _ => stem_pair_from(rs, ts, 0),
    }
}

pub open spec fn stems_view(v: Seq<Option<String>>) -> Seq<Option<Seq<char>>> {
    v.map_values(|s: Option<String>| match s {
        Some(s) => Some(s@),
        None => None,
    })
}

proof fn lemma_first_stem(stems: Seq<Option<Seq<char>>>, s: Seq<char>, i: int)
    requires
        0 <= i <= stems.len(),
        forall|k: int| 0 <= k < i ==> stems[k] != Some(s),
        i == stems.len() || stems[i] == Some(s),
    ensures
        first_stem(stems, s) == (if i == stems.len() { None::<int> } else { Some(i) }),
    decreases i,
{
    if i > 0 {
        assert forall|k: int| 0 <= k < i - 1 implies stems.drop_first()[k] != Some(s) by {
            assert(stems.drop_first()[k] == stems[k + 1]);
        }
        if i < stems.len() {
            assert(stems.drop_first()[i - 1] == stems[i]);
        }
        lemma_first_stem(stems.drop_first(), s, i - 1);
    }
}

fn find_stem(stems: &Vec<Option<String>>, s: &str) -> (r: Option<usize>)
    ensures
        match r {
            Some(i) => first_stem(stems_view(stems@), s@) == Some(i as int),
            None => first_stem(stems_view(stems@), s@).is_none(),
        },
{
    let ghost v = stems_view(stems@);
    let mut i: usize = 0;
    while i < stems.len()
        invariant
            i <= stems@.len(),
            v == stems_view(stems@),
            forall|k: int| 0 <= k < i ==> v[k] != Some(s@),
        decreases stems@.len() - i,
    {
        let hit = match &stems[i] {
            Some(t) => str_eq(t.as_str(), s),
            None => false,
        };
        if hit {
            proof {
                lemma_first_stem(v, s@, i as int);
            }
            return Some(i);
        }
        i += 1;
    }
    proof {
        lemma_first_stem(v, s@, v.len() as int);
    }
    None
}

/// The positions of the Rust and TypeScript files an example runs, given
/// the stems of the `.rs` and `.ts` files found (see [`spec_example_pair`]).
pub fn find_example_pair(rs_stems: &Vec<Option<String>>, ts_stems: &Vec<Option<String>>) -> (r: Option<(usize, usize)>)
    ensures
        match r {
            Some((a, b)) => spec_example_pair(stems_view(rs_stems@), stems_view(ts_stems@)) == Some((a as int, b as int)),
            None => spec_example_pair(stems_view(rs_stems@), stems_view(ts_stems@)).is_none(),
        },
{
    let ghost rv = stems_view(rs_stems@);
    let ghost tv = stems_view(ts_stems@);
    match (find_stem(rs_stems, "main"), find_stem(ts_stems, "main")) {
        (Some(a), Some(b)) => {
            return Some((a, b));
        },
        _ => {},
    }
    assert(spec_example_pair(rv, tv) == stem_pair_from(rv, tv, 0));
    let mut i: usize = 0;
    while i < rs_stems.len()
        invariant
            i <= rs_stems@.len(),
            rv == stems_view(rs_stems@),
            tv == stems_view(ts_stems@),
            spec_example_pair(rv, tv) == stem_pair_from(rv, tv, i as int),
        decreases rs_stems@.len() - i,
    {
        match &rs_stems[i] {
            Some(s) => {
                assert(rv[i as int] == Some(s@));
                match find_stem(ts_stems, s.as_str()) {
                    Some(j) => {
                        return Some((i, j));
                    },
                    None => {},
                }
            },
            None => {
                assert(rv[i as int] == None::<Seq<char>>);
            },
        }
        i += 1;
    }
    None
}

/// The check an input of the BPMN round trip gets, by its extension.
#[derive(Debug, Clone, Copy, PartialEq, Eq)]
pub enum RoundtripInput {
    Bpmn,
    Rust,
    Unsupported,
}

/// By the extension, compared without regard to ASCII case: `bpmn` and
/// `xml` files are BPMN, `rs` files Rust, anything else unsupported.
pub open spec fn spec_roundtrip_input(ext: Seq<char>) -> RoundtripInput {
    let e = ascii_lower_seq(ext);
    if e == "bpmn"@ || e == "xml"@ {
        RoundtripInput::Bpmn
    } else if e == "rs"@ {
        RoundtripInput::Rust
    } else {
        RoundtripInput::Unsupported
    }
}

pub fn roundtrip_input_kind(ext: &str) -> (r: RoundtripInput)
    ensures
        r == spec_roundtrip_input(ext@),
{
    let cs = chars_of(ext);
    let lower = ascii_lowercase(cs.as_slice());
    let mut e = String::new();
    crate::text::push_chars(&mut e, lower.as_slice());
    let s = e.as_str();
    if str_eq(s, "bpmn") || str_eq(s, "xml") {
        RoundtripInput::Bpmn
    } else if str_eq(s, "rs") {
        RoundtripInput::Rust
    } else {
        RoundtripInput::Unsupported
    }
}

/// Whether the example passes: the converter example always does, any other
/// when both outputs are the same text.
pub fn outputs_match(is_converter_example: bool, rust_out: &str, ts_out: &str) -> (r: bool)
    ensures
        r == (is_converter_example || rust_out@ == ts_out@),
{
    is_converter_example || str_eq(rust_out, ts_out)
}

/// A path without the `\\?\` prefix of Windows verbatim paths.
pub open spec fn strip_verbatim(p: Seq<char>) -> Seq<char> {
    if starts_with(p, "\\\\?\\"@) {
        p.subrange(4, p.len() as int)
    } else {
        p
    }
}

/// The `file:///` URL of an absolute path, with `\` written as `/`.
pub open spec fn spec_file_url(abs: Seq<char>) -> Seq<char> {
    "file:///"@ + strip_verbatim(abs).map_values(|c: char| if c == '\\' { '/' } else { c })
}

/// The last argument that starts with `p`.
pub open spec fn last_with_prefix(args: Seq<Seq<char>>, p: Seq<char>) -> Option<Seq<char>>
    decreases args.len(),
{
    if args.len() == 0 {
        None
    } else if starts_with(args.last(), p) {
        Some(args.last())
    } else {
        last_with_prefix(args.drop_last(), p)
    }
}

/// The seed of the last `--seed=` argument whose value is a `u64`.
pub open spec fn spec_seed_arg(args: Seq<Seq<char>>) -> Option<u64>
    decreases args.len(),
{
    if args.len() == 0 {
        None
    } else {
        let a = args.last();
        if starts_with(a, "--seed="@) && spec_parse_u64(a.subrange(7, a.len() as int)) is Some {
            spec_parse_u64(a.subrange(7, a.len() as int))
        } else {
            spec_seed_arg(args.drop_last())
        }
    }
}

/// The globals that pass the seed on: the low 32 bits as a number and the
/// whole seed as a `BigInt`, from the last `--seed=` argument whose value
/// is a `u64` (the one the Rust side takes).
pub open spec fn seed_preamble(args: Seq<Seq<char>>) -> Seq<char> {
    match spec_seed_arg(args) {
        Some(v) => "(globalThis as any).__RUST_TO_TS_SEED = "@ + spec_decimal((v % 0x1_0000_0000) as nat)
            + " as number;\n"@ + "(globalThis as any).__RUST_TO_TS_SEED_U64 = BigInt(\""@ + spec_decimal(v as nat)
            + "\");\n"@,
        None => Seq::empty(),
    }
}

/// The global that names the generator, from the last `--rng=` argument,
/// in ASCII lower case (the name the Rust side reports).
pub open spec fn rng_preamble(args: Seq<Seq<char>>) -> Seq<char> {
    match last_with_prefix(args, "--rng="@) {
        Some(a) => "(globalThis as any).__RUST_TO_TS_RNG = \""@ + ascii_lower_seq(a.subrange(6, a.len() as int)) + "\";\n"@,
        None => Seq::empty(),
    }
}

/// What follows the import in the wrapper: a `run` that calls the module's
/// `main` (or a global `main`).
pub const DENO_WRAPPER_TAIL: &'static str = "\";\nasync function run() {\n  if (typeof (mod as any).main === 'function') {\n    await (mod as any).main();\n    return;\n  }\n  // Fallback to global main if someone inlines the function into globalThis\n  const g: any = globalThis as any;\n  if (typeof g.main === 'function') {\n    g.main();\n    return;\n  }\n  console.error('No main() found to run');\n  Deno.exit(1);\n}\nrun().catch((e) => { console.error(e); Deno.exit(1); });\n";

/// The Deno wrapper that runs the TypeScript module at the absolute path
/// `abs`, with the globals for the seed and generator of `args` set first.
pub open spec fn spec_deno_wrapper(abs: Seq<char>, args: Seq<Seq<char>>) -> Seq<char> {
    "// auto-generated wrapper for Deno\n"@ + seed_preamble(args) + rng_preamble(args) + "import * as mod from \""@
        + spec_file_url(abs) + DENO_WRAPPER_TAIL@
}

/// The position of the last argument that starts with `p`.
fn last_arg_with_prefix(args: &[String], p: &str) -> (r: Option<usize>)
    ensures
        match r {
            Some(i) => i < args@.len() && last_with_prefix(args@.map_values(|a: String| a@), p@) == Some(args@[i as int]@)
                && starts_with(args@[i as int]@, p@),
            None => last_with_prefix(args@.map_values(|a: String| a@), p@).is_none(),
        },
{
    let ghost av = args@.map_values(|a: String| a@);
    let mut found: Option<usize> = None;
    let mut i: usize = 0;
    while i < args.len()
        invariant
            i <= av.len(),
            av == args@.map_values(|a: String| a@),
            match found {
                Some(j) => j < i && last_with_prefix(av.subrange(0, i as int), p@) == Some(av[j as int])
                    && starts_with(av[j as int], p@),
                None => last_with_prefix(av.subrange(0, i as int), p@).is_none(),
            },
        decreases av.len() - i,
    {
        assert(av.subrange(0, i + 1).drop_last() =~= av.subrange(0, i as int));
        assert(av.subrange(0, i + 1).last() == av[i as int]);
        let cs = chars_of(args[i].as_str());
        if chars_start_with(cs.as_slice(), p) {
            found = Some(i);
        }
        i += 1;
    }
    assert(av.subrange(0, av.len() as int) =~= av);
    found
}

/// The seed of the last `--seed=` argument whose value is a `u64`.
fn seed_arg(args: &[String]) -> (r: Option<u64>)
    ensures
        r == spec_seed_arg(args@.map_values(|a: String| a@)),
{
    let ghost av = args@.map_values(|a: String| a@);
    let mut seed: Option<u64> = None;
    let mut i: usize = 0;
    while i < args.len()
        invariant
            i <= av.len(),
            av == args@.map_values(|a: String| a@),
            seed == spec_seed_arg(av.subrange(0, i as int)),
        decreases av.len() - i,
    {
        assert(av.subrange(0, i + 1).drop_last() =~= av.subrange(0, i as int));
        assert(av.subrange(0, i + 1).last() == av[i as int]);
        proof {
            reveal_strlit("--seed=");
        }
        let cs = chars_of(args[i].as_str());
        let n = cs.len();
        if chars_start_with(cs.as_slice(), "--seed=") {
            match parse_u64(&cs.as_slice()[7..n]) {
                Some(v) => {
                    seed = Some(v);
                },
                None => {},
            }
        }
        i += 1;
    }
    assert(av.subrange(0, av.len() as int) =~= av);
    seed
}

fn file_url(abs: &str) -> (r: String)
    ensures
        r@ == spec_file_url(abs@),
{
    let cs = chars_of(abs);
    let verbatim = chars_start_with(cs.as_slice(), "\\\\?\\");
    let from: usize = if verbatim { 4 } else { 0 };
    proof {
        reveal_strlit("\\\\?\\");
    }
    let mut out = "file:///".to_owned();
    let ghost head = out@;
    let ghost body = strip_verbatim(abs@);
    assert(body =~= cs@.subrange(from as int, cs@.len() as int));
    let mut i: usize = from;
    while i < cs.len()
        invariant
            from <= i <= cs@.len(),
            body == cs@.subrange(from as int, cs@.len() as int),
            out@ == head + body.subrange(0, i - from).map_values(|c: char| if c == '\\' { '/' } else { c }),
        decreases cs@.len() - i,
    {
        let c = cs[i];
        if c == '\\' {
            out.push('/');
        } else {
            out.push(c);
        }
        assert(body.subrange(0, i + 1 - from) =~= body.subrange(0, i - from).push(c));
        assert(out@ =~= head + body.subrange(0, i + 1 - from).map_values(|c: char| if c == '\\' { '/' } else { c }));
        i += 1;
    }
    assert(body.subrange(0, body.len() as int) =~= body);
    out
}

fn low32(v: u64) -> (r: u64)
    ensures
        r == v % 0x1_0000_0000,
{
    let r = v & 0xFFFF_FFFF;
    assert(v & 0xFFFF_FFFF == v % 0x1_0000_0000) by (bit_vector);
    r
}

/// The Deno wrapper for a TypeScript module (see [`spec_deno_wrapper`]).
pub fn deno_wrapper_code(abs: &str, args: &[String]) -> (r: String)
    ensures
        r@ == spec_deno_wrapper(abs@, args@.map_values(|a: String| a@)),
{
    let ghost av = args@.map_values(|a: String| a@);
    let mut out = "// auto-generated wrapper for Deno\n".to_owned();
    match seed_arg(args) {
        Some(v) => {
            out.push_str("(globalThis as any).__RUST_TO_TS_SEED = ");
            let d = u64_to_decimal(low32(v));
            out.push_str(d.as_str());
            out.push_str(" as number;\n");
            out.push_str("(globalThis as any).__RUST_TO_TS_SEED_U64 = BigInt(\"");
            let e = u64_to_decimal(v);
            out.push_str(e.as_str());
            out.push_str("\");\n");
        },
        None => {},
    }
    match last_arg_with_prefix(args, "--rng=") {
        Some(i) => {
            proof {
                reveal_strlit("--rng=");
            }
            let cs = chars_of(args[i].as_str());
            let n = cs.len();
            assert(n >= 6);
            let lower = ascii_lowercase(&cs.as_slice()[6..n]);
            out.push_str("(globalThis as any).__RUST_TO_TS_RNG = \"");
            crate::text::push_chars(&mut out, lower.as_slice());
            out.push_str("\";\n");
        },
        None => {},
    }
    out.push_str("import * as mod from \"");
    let u = file_url(abs);
    out.push_str(u.as_str());
    out.push_str(DENO_WRAPPER_TAIL);
    out
}

/// The seed the wrapper hands to the TypeScript side is the seed the Rust
/// side runs with: for all arguments, when the wrapper sets a seed it is
/// the seed that the Rust side's choice holds, and when it sets none the
/// Rust side runs with its default seed.
pub proof fn lemma_wrapper_seed_is_rust_seed(args: Seq<Seq<char>>)
    ensures
        match spec_seed_arg(args) {
            Some(v) => spec_rng_choice(args).1 == v,
            None => spec_rng_choice(args).1 == default_seed(),
        },
    decreases args.len(),
{
    if args.len() > 0 {
        lemma_wrapper_seed_is_rust_seed(args.drop_last());
        let a = args.last();
        reveal_strlit("--rng=");
        reveal_strlit("--seed=");
        if starts_with(a, "--rng="@) && starts_with(a, "--seed="@) {
            assert(a[2] == "--rng="@[2]);
            assert(a[2] == "--seed="@[2]);
        }
    }
}

/// The generator name the wrapper hands to the TypeScript side is the name
/// the Rust side reports: for all arguments with a `--rng=` among them.
pub proof fn lemma_wrapper_rng_is_rust_name(args: Seq<Seq<char>>)
    ensures
        match last_with_prefix(args, "--rng="@) {
            Some(a) => ascii_lower_seq(a.subrange(6, a.len() as int)) == spec_rng_name(args),
            None => true,
        },
    decreases args.len(),
{
    if args.len() > 0 {
        lemma_wrapper_rng_is_rust_name(args.drop_last());
    }
}

} // verus!
