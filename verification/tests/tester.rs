use rust_to_ts::bpmn::rust_dir::{is_skipped_build_dir, rust_dir_bpmn_process, text_order};
use rust_to_ts::bpmn::{BpmnNode, BpmnSequenceFlow};
use rust_to_ts::rng::{rng_choice_from_args, rng_name_from_args, RngKind};
use rust_to_ts::tester::{
    deno_wrapper_code, find_example_pair, is_examples_src_converter_root, outputs_match, roundtrip_input_kind,
    RoundtripInput,
};

fn stems(names: &[Option<&str>]) -> Vec<Option<String>> {
    names.iter().map(|n| n.map(|s| s.to_string())).collect()
}

#[test]
fn converter_example_is_recognised_by_its_last_components() {
    assert!(is_examples_src_converter_root(Some("converter"), Some("src"), Some("Examples")));
    assert!(!is_examples_src_converter_root(Some("converter"), Some("src"), Some("examples")));
    assert!(!is_examples_src_converter_root(Some("converter"), Some("src"), None));
    assert!(!is_examples_src_converter_root(Some("NeuralNetwork"), Some("Examples"), None));
}

#[test]
fn example_pairs_prefer_main() {
    let rs = stems(&[Some("lib"), Some("main")]);
    let ts = stems(&[Some("lib"), Some("main")]);
    assert_eq!(find_example_pair(&rs, &ts), Some((1, 1)));
    let rs = stems(&[Some("main"), Some("hello_world")]);
    let ts = stems(&[Some("other"), Some("hello_world"), Some("hello_world")]);
    assert_eq!(find_example_pair(&rs, &ts), Some((1, 1)));
    let rs = stems(&[None, Some("x")]);
    let ts = stems(&[Some("y"), None]);
    assert_eq!(find_example_pair(&rs, &ts), None);
    assert_eq!(find_example_pair(&vec![], &ts), None);
}

#[test]
fn round_trip_inputs_by_extension() {
    assert_eq!(roundtrip_input_kind("BPMN"), RoundtripInput::Bpmn);
    assert_eq!(roundtrip_input_kind("Xml"), RoundtripInput::Bpmn);
    assert_eq!(roundtrip_input_kind("rs"), RoundtripInput::Rust);
    assert_eq!(roundtrip_input_kind("RS"), RoundtripInput::Rust);
    assert_eq!(roundtrip_input_kind("ts"), RoundtripInput::Unsupported);
    assert_eq!(roundtrip_input_kind(""), RoundtripInput::Unsupported);
}

#[test]
fn outputs_compare_exactly_except_for_the_converter() {
    assert!(outputs_match(false, "a\n", "a\n"));
    assert!(!outputs_match(false, "a\n", "a"));
    assert!(outputs_match(true, "a", "b"));
}

#[test]
fn deno_wrapper_passes_seed_and_generator() {
    let args = vec![
        "--seed=4294967297".to_string(),
        "--rng=ChaCha8".to_string(),
        "--seed=5".to_string(),
        "--rng=pcg64".to_string(),
    ];
    let code = deno_wrapper_code("\\\\?\\C:\\x\\main.ts", &args);
    let expected = [
        "// auto-generated wrapper for Deno\n",
        "(globalThis as any).__RUST_TO_TS_SEED = 5 as number;\n",
        "(globalThis as any).__RUST_TO_TS_SEED_U64 = BigInt(\"5\");\n",
        "(globalThis as any).__RUST_TO_TS_RNG = \"pcg64\";\n",
        "import * as mod from \"file:///C:/x/main.ts\";\n",
        "async function run() {\n",
        "  if (typeof (mod as any).main === 'function') {\n",
        "    await (mod as any).main();\n",
        "    return;\n",
        "  }\n",
        "  // Fallback to global main if someone inlines the function into globalThis\n",
        "  const g: any = globalThis as any;\n",
        "  if (typeof g.main === 'function') {\n",
        "    g.main();\n",
        "    return;\n",
        "  }\n",
        "  console.error('No main() found to run');\n",
        "  Deno.exit(1);\n",
        "}\n",
        "run().catch((e) => { console.error(e); Deno.exit(1); });\n",
    ]
    .concat();
    assert_eq!(code, expected);
    let plain = deno_wrapper_code("/tmp/m.ts", &[]);
    assert!(plain.starts_with("// auto-generated wrapper for Deno\nimport * as mod from \"file:////tmp/m.ts\";\n"));
    let high = deno_wrapper_code("/tmp/m.ts", &["--seed=4294967297".to_string(), "--seed=x".to_string()]);
    assert!(high.starts_with(
        "// auto-generated wrapper for Deno\n(globalThis as any).__RUST_TO_TS_SEED = 1 as number;\n(globalThis as any).__RUST_TO_TS_SEED_U64 = BigInt(\"4294967297\");\nimport"
    ));
}

#[test]
fn deno_wrapper_takes_the_seed_and_generator_the_rust_side_takes() {
    let args: Vec<String> = ["--seed=1", "--rng=pcg64", "--seed=2", "--seed=bad", "--rng=ChaCha8"]
        .iter()
        .map(|s| s.to_string())
        .collect();
    assert_eq!(rng_choice_from_args(&args), (RngKind::ChaCha8(0), 2));
    assert_eq!(rng_name_from_args(&args), "chacha8");
    let code = deno_wrapper_code("/tmp/m.ts", &args);
    assert!(code.contains("__RUST_TO_TS_SEED_U64 = BigInt(\"2\");\n"));
    assert!(code.contains("__RUST_TO_TS_RNG = \"chacha8\";\n"));
    assert!(!code.contains("BigInt(\"1\")"));
}

#[test]
fn paths_are_taken_in_stable_text_order() {
    let keys: Vec<String> = ["b", "a", "b", "a0", "A"].iter().map(|s| s.to_string()).collect();
    assert_eq!(text_order(&keys), vec![4, 1, 3, 0, 2]);
    assert!(text_order(&vec![]).is_empty());
    assert!(is_skipped_build_dir("Target"));
    assert!(is_skipped_build_dir("node_modules"));
    assert!(!is_skipped_build_dir("src"));
}

#[test]
fn a_directory_becomes_a_chain_of_sources() {
    let files = vec![(Some("a.rs".to_string()), "fn main() {}".to_string()), (None, "é".to_string())];
    let p = rust_dir_bpmn_process(Some("d".to_string()), &files);
    assert_eq!(p.id, "rust_dir");
    assert_eq!(p.name, Some("d".to_string()));
    assert_eq!(p.nodes.len(), 4);
    assert_eq!(
        p.nodes[1],
        BpmnNode::RustSource {
            id: "RustSource_1".to_string(),
            path: Some("a.rs".to_string()),
            content_hex: "666e206d61696e2829207b7d".to_string(),
        }
    );
    assert_eq!(
        p.nodes[2],
        BpmnNode::RustSource { id: "RustSource_2".to_string(), path: None, content_hex: "c3a9".to_string() }
    );
    assert_eq!(
        p.flows[2],
        BpmnSequenceFlow {
            id: "Flow_3".to_string(),
            source_ref: "RustSource_2".to_string(),
            target_ref: "EndEvent_1".to_string(),
            name: None,
        }
    );
    assert_eq!(rust_dir_bpmn_process(None, &vec![]).name, Some("rust_dir".to_string()));
}
