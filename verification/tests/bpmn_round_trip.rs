use rust_to_ts::ast::{Field, Function, FunctionKind, Module, Param, TypeDecl, TypeKind, TypeRef};
use rust_to_ts::bpmn::parse::{read_xml_events, XmlEvent};
use rust_to_ts::bpmn::xmltext::{hex_decode, hex_encode, kv_list_decode, kv_list_encode};
use rust_to_ts::bpmn::{emit_bpmn_xml, parse_bpmn_xml, BpmnNode, BpmnProcess, BpmnSequenceFlow, RustFieldSig, RustParamSig};
use rust_to_ts::bpmn::{bpmn_process_to_module, convert_bpmn_xml_to_module, convert_module_to_bpmn_xml, module_to_bpmn_process};

#[test]
fn module_round_trips_through_bpmn_xml() {
    let module = Module {
        name: "hello".to_string(),
        types: vec![TypeDecl {
            name: "Person".to_string(),
            kind: TypeKind::Struct,
            fields: vec![
                Field {
                    name: "name".to_string(),
                    ty: TypeRef::String,
                },
                Field {
                    name: "age".to_string(),
                    ty: TypeRef::Number,
                },
            ],
        }],
        functions: vec![
            Function {
                name: "add".to_string(),
                params: vec![
                    Param {
                        name: "x".to_string(),
                        ty: TypeRef::Number,
                    },
                    Param {
                        name: "y".to_string(),
                        ty: TypeRef::Number,
                    },
                ],
                return_type: Some(TypeRef::Number),
                kind: FunctionKind::Normal,
                body: vec!["return x + y;".to_string()],
            },
            Function {
                name: "main".to_string(),
                params: vec![],
                return_type: None,
                kind: FunctionKind::Normal,
                body: vec!["let _ = add(2, 2);".to_string()],
            },
        ],
    };

    let xml = convert_module_to_bpmn_xml(&module).expect("module->bpmn xml");
    let module2 = convert_bpmn_xml_to_module(&xml).expect("bpmn xml->module");

    assert_eq!(module2.name, module.name);
    assert_eq!(module2.types, module.types);
    assert_eq!(module2.functions, module.functions);
}

#[test]
fn name_type_lists_read_back() {
    let items = vec![
        ("x".to_string(), "number".to_string()),
        ("label".to_string(), "Vec<u8>".to_string()),
        ("".to_string(), "".to_string()),
    ];
    let text = kv_list_encode(&items);
    assert_eq!(text, "x:number;label:Vec<u8>;:");
    assert_eq!(kv_list_decode(&text), items);
    assert_eq!(kv_list_decode("  a : b ;; c:d ; junk "), vec![
        ("a".to_string(), "b".to_string()),
        ("c".to_string(), "d".to_string()),
    ]);
    assert!(kv_list_decode("   ").is_empty());
}

#[test]
fn hex_reads_back() {
    let bytes: Vec<u8> = vec![0, 1, 0x7f, 0x80, 0xab, 0xff];
    let h = hex_encode(&bytes);
    assert_eq!(h, "00017f80abff");
    assert_eq!(hex_decode(&h), Ok(bytes));
    assert_eq!(hex_decode(" 4A4b "), Ok(vec![0x4a, 0x4b]));
    assert!(hex_decode("abc").is_err());
    assert!(hex_decode("zz").is_err());
}

#[test]
fn module_round_trips_through_the_process() {
    let module = Module {
        name: "m".to_string(),
        types: vec![TypeDecl {
            name: "P".to_string(),
            kind: TypeKind::Struct,
            fields: vec![Field { name: "v".to_string(), ty: TypeRef::Custom("Vec<u8>".to_string()) }],
        }],
        functions: vec![
            Function {
                name: "main".to_string(),
                params: vec![Param { name: "a".to_string(), ty: TypeRef::Bool }],
                return_type: Some(TypeRef::String),
                kind: FunctionKind::Normal,
                body: vec!["let s = \"a;b\";".to_string(), "".to_string()],
            },
        ],
    };
    let p = module_to_bpmn_process(&module);
    let back = bpmn_process_to_module(&p);
    assert_eq!(back.types, module.types);
    assert_eq!(back.functions, module.functions);
}

#[test]
fn process_reads_back_from_its_xml() {
    let p = BpmnProcess {
        id: "Process_1".to_string(),
        name: Some("demo".to_string()),
        nodes: vec![
            BpmnNode::StartEvent { id: "Start".to_string(), name: None },
            BpmnNode::Task { id: "T1".to_string(), name: Some("work; more".to_string()) },
            BpmnNode::RustType {
                id: "Ty".to_string(),
                name: "Point".to_string(),
                kind: "struct".to_string(),
                fields: vec![RustFieldSig { name: "x".to_string(), ty: "f64".to_string() }],
            },
            BpmnNode::RustFunction {
                id: "Fn".to_string(),
                name: "main".to_string(),
                params: vec![RustParamSig { name: "n".to_string(), ty: "u32".to_string() }],
                return_type: Some("u32".to_string()),
                body: vec!["let a = 1;".to_string(), "".to_string(), "a + n".to_string()],
            },
            BpmnNode::Unknown { tag: "dataObject".to_string(), id: Some("D".to_string()), name: None },
            BpmnNode::EndEvent { id: "End".to_string(), name: Some("done".to_string()) },
        ],
        flows: vec![
            BpmnSequenceFlow { id: "F1".to_string(), source_ref: "Start".to_string(), target_ref: "T1".to_string(), name: None },
            BpmnSequenceFlow { id: "F2".to_string(), source_ref: "T1".to_string(), target_ref: "End".to_string(), name: Some("ok".to_string()) },
        ],
    };
    let xml = emit_bpmn_xml(&p);
    assert_eq!(parse_bpmn_xml(&xml), Ok(p));
}

#[test]
fn one_empty_body_line_reads_back_as_no_body() {
    let p = BpmnProcess {
        id: "P".to_string(),
        name: None,
        nodes: vec![BpmnNode::RustFunction {
            id: "Fn".to_string(),
            name: "f".to_string(),
            params: vec![],
            return_type: None,
            body: vec!["".to_string()],
        }],
        flows: vec![],
    };
    let back = parse_bpmn_xml(&emit_bpmn_xml(&p)).expect("parses");
    match &back.nodes[0] {
        BpmnNode::RustFunction { body, .. } => assert!(body.is_empty()),
        other => panic!("unexpected node {:?}", other),
    }
}

#[test]
fn generic_type_names_do_not_survive_the_xml_form() {
    let module = Module {
        name: "m".to_string(),
        types: vec![TypeDecl {
            name: "P".to_string(),
            kind: TypeKind::Struct,
            fields: vec![Field { name: "v".to_string(), ty: TypeRef::Custom("Vec<u8>".to_string()) }],
        }],
        functions: vec![Function {
            name: "main".to_string(),
            params: vec![],
            return_type: None,
            kind: FunctionKind::Normal,
            body: vec![],
        }],
    };
    let xml = convert_module_to_bpmn_xml(&module).expect("module->bpmn xml");
    let back = convert_bpmn_xml_to_module(&xml).expect("bpmn xml->module");
    assert_eq!(back.types[0].fields[0].ty, TypeRef::Custom("Vec&lt".to_string()));
    assert_ne!(back.types, module.types);
    assert_eq!(back.functions, module.functions);
}

#[test]
fn written_document_tokenises_into_its_elements() {
    let p = BpmnProcess {
        id: "P1".to_string(),
        name: Some("demo".to_string()),
        nodes: vec![
            BpmnNode::StartEvent { id: "S".to_string(), name: None },
            BpmnNode::Task { id: "T".to_string(), name: Some("work".to_string()) },
        ],
        flows: vec![BpmnSequenceFlow {
            id: "F".to_string(),
            source_ref: "S".to_string(),
            target_ref: "T".to_string(),
            name: None,
        }],
    };
    let xml = emit_bpmn_xml(&p);
    let events = read_xml_events(&xml);
    let attr = |k: &str, v: &str| Some((k.as_bytes().to_vec(), v.as_bytes().to_vec()));
    let ns = "http://www.omg.org/spec/BPMN/20100524/MODEL";
    assert_eq!(events, vec![
        XmlEvent::Other,
        XmlEvent::Element {
            name: b"definitions".to_vec(),
            attrs: vec![attr("xmlns", ns), attr("xmlns:bpmn", ns), attr("id", "Definitions_1")],
        },
        XmlEvent::Element { name: b"process".to_vec(), attrs: vec![attr("id", "P1"), attr("name", "demo")] },
        XmlEvent::Element { name: b"startEvent".to_vec(), attrs: vec![attr("id", "S")] },
        XmlEvent::Element { name: b"task".to_vec(), attrs: vec![attr("id", "T"), attr("name", "work")] },
        XmlEvent::Element {
            name: b"sequenceFlow".to_vec(),
            attrs: vec![attr("id", "F"), attr("sourceRef", "S"), attr("targetRef", "T")],
        },
        XmlEvent::Other,
        XmlEvent::Other,
        XmlEvent::Eof,
    ]);
}
