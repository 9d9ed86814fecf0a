//! BPMN XML: the process model, its text form, and the conversions
//! between processes and the shared program model.

pub mod model;
pub mod xmltext;
pub mod emit;
pub mod parse;
pub mod graph;
pub mod directive;
pub mod to_module;
pub mod from_module;
pub mod from_rust;
pub mod rust_source;
pub mod rust_to_bpmn;
pub mod rust_dir;
pub mod laws;
pub mod xml_laws;

pub use model::{BpmnNode, BpmnProcess, BpmnSequenceFlow, RustFieldSig, RustParamSig};
pub use emit::emit_bpmn_xml;
pub use parse::parse_bpmn_xml;
pub use graph::{best_effort_linearize, find_start_event_id, outgoing_map};
pub use to_module::{bpmn_process_to_module, convert_bpmn_xml_to_module, convert_bpmn_xml_to_rust_code};
pub use from_module::{convert_module_to_bpmn_xml, module_to_bpmn_process, validate_bpmn_xml};
pub use rust_to_bpmn::{convert_rust_code_to_bpmn_xml, convert_rust_code_to_bpmn_xml_with_path};
pub use from_rust::rust_code_to_bpmn_process;
