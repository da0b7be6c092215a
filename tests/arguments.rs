use rspsxserial::cmdline::{app, cmd_line_args, process_arguments, BAUDRATE_INDEX, CDIMG_FOLDER_INDEX, DISABLE_OUTPUT_INDEX, PORT_NAME_INDEX, TCP_INDEX};

fn args(a: &[&str]) -> Vec<String> {
    a.iter().map(|s| s.to_string()).collect()
}

#[test]
fn options_are_read_with_their_values() {
    let v = process_arguments(&args(&[
        "--port-name", "/dev/ttyUSB0", "--baud-rate", "4800", "--disable-output",
        "--cdimg-folder", "/mnt/img",
    ]))
    .unwrap();
    assert_eq!(v[PORT_NAME_INDEX], Some("/dev/ttyUSB0".to_string()));
    assert_eq!(v[BAUDRATE_INDEX], Some("4800".to_string()));
    assert_eq!(v[DISABLE_OUTPUT_INDEX], Some(String::new()));
    assert_eq!(v[CDIMG_FOLDER_INDEX], Some("/mnt/img".to_string()));
    assert_eq!(v[TCP_INDEX], None);
    let s = app(&v).unwrap();
    assert_eq!(s.port_name, "/dev/ttyUSB0");
    assert_eq!(s.folder, "/mnt/img");
    assert_eq!(s.baud_rate, Some("4800".to_string()));
    assert_eq!(s.tcp_addr, None);
}

#[test]
fn missing_required_option_is_refused() {
    assert_eq!(process_arguments(&args(&["--port-name", "COM1"])), None);
    assert_eq!(process_arguments(&args(&["--cdimg-folder", "/mnt"])), None);
    assert_eq!(process_arguments(&args(&[])), None);
}

#[test]
fn unknown_option_is_refused() {
    assert_eq!(
        process_arguments(&args(&["--port-name", "COM1", "--cdimg-folder", "/m", "--fast"])),
        None
    );
    assert_eq!(process_arguments(&args(&["COM1"])), None);
}

#[test]
fn later_value_wins() {
    let v = process_arguments(&args(&[
        "--port-name", "A", "--cdimg-folder", "/m", "--port-name", "B", "--tcp",
    ]))
    .unwrap();
    assert_eq!(v[PORT_NAME_INDEX], Some("B".to_string()));
    assert_eq!(v[TCP_INDEX], None);
}

#[test]
fn app_needs_port_and_folder() {
    assert!(app(&vec![None, None, None, None, Some("/m".to_string())]).is_none());
    assert!(app(&vec![Some("p".to_string()), None, None, None, None]).is_none());
    assert!(app(&vec![]).is_none());
    let s = app(&vec![
        Some("p".to_string()),
        None,
        None,
        Some("127.0.0.1:8080".to_string()),
        Some("/m".to_string()),
    ])
    .unwrap();
    assert_eq!(s.tcp_addr, Some("127.0.0.1:8080".to_string()));
    assert_eq!(s.baud_rate, None);
}

#[test]
fn option_table_lists_five_options() {
    let t = cmd_line_args();
    assert_eq!(t.len(), 5);
    assert_eq!(t[PORT_NAME_INDEX].arg_str, "--port-name");
    assert!(t[PORT_NAME_INDEX].is_required);
    assert!(t[DISABLE_OUTPUT_INDEX].param_str.is_none());
}
