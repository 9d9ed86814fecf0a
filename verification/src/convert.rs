//! The file converters: Rust to TypeScript and TypeScript to Rust, on the
//! text (or parsed syntax) of a file, its stem and its path; and what the
//! folder converter does with each file it meets.

use vstd::prelude::*;

use crate::rust_ast::{from_rust_src, module_to_rust, spec_from_rust_src, spec_module_to_rust};
use crate::rust_syntax::RsFile;
use crate::text::str_eq;
use vstd::string::StringSliceAdditionalSpecFns;
use crate::tagging::{spec_tag_for_path, tag_special_functions_for_path};
use crate::ts_ast::{from_ts_src, module_to_ts, spec_from_ts_src, spec_module_to_ts};

verus! {

/// The TypeScript text for a parsed Rust file: its module (named after the
/// file's stem), tagged for the file's path, written as TypeScript; a
/// parse error is reported as `Failed to parse Rust source: <error>`.
pub open spec fn spec_rust_file_to_ts(
    parsed: Result<RsFile, String>,
    file_stem: Seq<char>,
    path: Seq<char>,
) -> Result<Seq<char>, Seq<char>> {
    match spec_from_rust_src(parsed, file_stem) {
        Ok(m) => Ok(spec_module_to_ts(spec_tag_for_path(m, path))),
        Err(e) => Err(e),
    }
}

pub fn convert_rust_file_to_ts(parsed: &Result<RsFile, String>, file_stem: &str, path: &str) -> (r: Result<String, String>)
    ensures
        match r {
            Ok(t) => spec_rust_file_to_ts(*parsed, file_stem@, path@) == Ok::<Seq<char>, Seq<char>>(t@),
            Err(e) => spec_rust_file_to_ts(*parsed, file_stem@, path@) == Err::<Seq<char>, Seq<char>>(e@),
        },
{
    match from_rust_src(parsed, file_stem) {
        Ok(mut module) => {
            tag_special_functions_for_path(&mut module, path);
            Ok(module_to_ts(&module))
        },
        Err(e) => Err(e),
    }
}

/// Rust source for a TypeScript file, given its text and its stem.
pub fn convert_ts_file_to_rust(src: &str, file_stem: &str) -> (r: String)
    ensures
        r@ == spec_module_to_rust(spec_from_ts_src(src@, file_stem@)),
{
    let module = from_ts_src(src, file_stem);
    module_to_rust(&module)
}

/// Which way the folder converter turns `.rs` and `.ts` files.
#[derive(Clone, Copy, Debug, PartialEq, Eq, Structural)]
pub enum Direction {
    RsToTs,
    TsToRs,
    Both,
}

/// What the folder converter does with one file.
#[derive(Clone, Copy, Debug, PartialEq, Eq, Structural)]
pub enum FileAction {
    /// `Cargo.toml`: copied into the output tree as it is.
    MirrorManifest,
    /// Neither Rust, TypeScript nor BPMN: left alone.
    Skip,
    /// BPMN: copied, and its module written as both Rust and TypeScript.
    BpmnToBoth,
    /// Rust: copied, and converted to TypeScript.
    RustToTs,
    /// TypeScript: copied, and converted to Rust.
    TsToRust,
    /// A source that the chosen direction does not convert: only copied.
    MirrorOnly,
}

/// The action for a file, by its name and its lower-cased extension.
pub open spec fn spec_file_action(file_name: Option<Seq<char>>, ext: Seq<char>, direction: Direction) -> FileAction {
    if file_name == Some("Cargo.toml"@) {
        FileAction::MirrorManifest
    } else if ext == "bpmn"@ {
        FileAction::BpmnToBoth
    } else if ext == "rs"@ {
        if direction == Direction::TsToRs {
            FileAction::MirrorOnly
        } else {
            FileAction::RustToTs
        }
    } else if ext == "ts"@ {
        if direction == Direction::RsToTs {
            FileAction::MirrorOnly
        } else {
            FileAction::TsToRust
        }
    } else {
        FileAction::Skip
    }
}

/// What to do with a file (see [`spec_file_action`]); `ext` is its
/// extension, lower-cased.
pub fn file_action(file_name: Option<&str>, ext: &str, direction: Direction) -> (r: FileAction)
    ensures
        r == spec_file_action(
            match file_name {
                Some(n) => Some(n@),
                None => None,
            },
            ext@,
            direction,
        ),
{
    let is_manifest = match file_name {
        Some(n) => str_eq(n, "Cargo.toml"),
        None => false,
    };
    if is_manifest {
        FileAction::MirrorManifest
    } else if str_eq(ext, "bpmn") {
        FileAction::BpmnToBoth
    } else if str_eq(ext, "rs") {
        match direction {
            Direction::TsToRs => FileAction::MirrorOnly,
            _ => FileAction::RustToTs,
        }
    } else if str_eq(ext, "ts") {
        match direction {
            Direction::RsToTs => FileAction::MirrorOnly,
            _ => FileAction::TsToRust,
        }
    } else {
        FileAction::Skip
    }
}

} // verus!
