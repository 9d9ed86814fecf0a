use rust_to_ts::editor::{editor_port_from_args, DEFAULT_EDITOR_PORT};

fn args(v: &[&str]) -> Vec<String> {
    v.iter().map(|s| s.to_string()).collect()
}

#[test]
fn editor_port_defaults_and_reads_port() {
    assert_eq!(editor_port_from_args(&args(&[])), Ok(DEFAULT_EDITOR_PORT));
    assert_eq!(DEFAULT_EDITOR_PORT, 15123);
    assert_eq!(editor_port_from_args(&args(&["--port", "8080"])), Ok(8080));
    assert_eq!(editor_port_from_args(&args(&["--port", "+80", "--port", "9000"])), Ok(9000));
    assert_eq!(editor_port_from_args(&args(&["--port", "65535"])), Ok(65535));
}

#[test]
fn editor_port_refuses_bad_arguments() {
    assert_eq!(editor_port_from_args(&args(&["--port"])), Err("--port requires a value".to_string()));
    assert_eq!(editor_port_from_args(&args(&["--port", "65536"])), Err("Invalid --port value: 65536".to_string()));
    assert_eq!(editor_port_from_args(&args(&["--port", "-1"])), Err("Invalid --port value: -1".to_string()));
    assert_eq!(editor_port_from_args(&args(&["--verbose"])), Err("Unknown arg: --verbose".to_string()));
    assert_eq!(editor_port_from_args(&args(&["--port", "80", "x"])), Err("Unknown arg: x".to_string()));
}
