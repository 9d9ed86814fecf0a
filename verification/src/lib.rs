//! Converters between a small shared program model, TypeScript text,
//! Rust text and BPMN process XML, together with the sample
//! neural-network grid and seeded generators used by the examples.

pub mod text;
pub mod ast;
pub mod rust_syntax;
pub mod rust_ast;
pub mod ts_ast;
pub mod ts_round_trip;
pub mod text_laws;
pub mod tagging;
pub mod tester;
pub mod ts_template;
pub mod convert;
pub mod compare;
pub mod converter;
pub mod neural;
pub mod rng;
pub mod editor;
pub mod bpmn;
