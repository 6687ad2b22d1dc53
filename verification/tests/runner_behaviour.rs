use oqto::runner::{
    already_exists_error, invalid_json_error, not_found_error, not_rpc_error, ErrorCode,
    ManagedEntry, ProcessTable, StdoutBuffer, MAX_BUFFERED_LINES,
};

fn entry(id: &str, is_rpc: bool) -> ManagedEntry {
    ManagedEntry {
        id: id.to_string(),
        pid: 42,
        binary: "pi".to_string(),
        cwd: "/w".to_string(),
        is_rpc,
    }
}

#[test]
fn error_answers() {
    let e = already_exists_error("p1");
    assert_eq!(e.code, ErrorCode::ProcessAlreadyExists);
    assert_eq!(e.message, "Process with ID 'p1' already exists");
    assert_eq!(not_found_error("p1").message, "Process 'p1' not found");
    assert_eq!(not_rpc_error("p1").message, "Process 'p1' is not an RPC process");
    let e = invalid_json_error("eof");
    assert_eq!(e.code, ErrorCode::InvalidRequest);
    assert_eq!(e.message, "Invalid JSON: eof");
}

#[test]
fn process_table_lookups() {
    let mut t = ProcessTable::new();
    assert!(t.check_spawn("a").is_ok());
    t.register(entry("a", true));
    t.register(entry("b", false));
    let e = t.check_spawn("a").unwrap_err();
    assert_eq!(e.code, ErrorCode::ProcessAlreadyExists);
    assert_eq!(t.find("b").unwrap().binary, "pi");
    assert_eq!(t.find("zz").unwrap_err().code, ErrorCode::ProcessNotFound);
    assert!(t.find_rpc("a").is_ok());
    assert_eq!(t.find_rpc("b").unwrap_err().code, ErrorCode::NotRpcProcess);
    assert_eq!(t.find_rpc("zz").unwrap_err().code, ErrorCode::ProcessNotFound);
    assert_eq!(t.entries().len(), 2);
    assert_eq!(t.remove("a").unwrap().id, "a");
    assert!(t.remove("a").is_none());
    assert!(t.find("a").is_err());
    assert_eq!(t.entries().len(), 1);
    assert!(t.check_spawn("a").is_ok());
}

#[test]
fn stdout_is_read_as_newline_terminated_lines() {
    let mut b = StdoutBuffer::new();
    assert!(!b.ready());
    let (data, more) = b.take_output();
    assert_eq!(data, "");
    assert!(more);
    b.push_line("one".to_string());
    b.push_line("two".to_string());
    assert!(b.ready());
    assert_eq!(b.snapshot(), vec!["one", "two"]);
    let (data, more) = b.take_output();
    assert_eq!(data, "one\ntwo\n");
    assert!(more);
    assert!(b.snapshot().is_empty());
    b.close();
    assert!(b.ready());
    let (data, more) = b.take_output();
    assert_eq!(data, "");
    assert!(!more);
}

#[test]
fn stdout_buffer_keeps_most_recent_lines() {
    let mut b = StdoutBuffer::new();
    for i in 0..(MAX_BUFFERED_LINES + 5) {
        b.push_line(i.to_string());
    }
    let lines = b.snapshot();
    assert_eq!(lines.len(), MAX_BUFFERED_LINES);
    assert_eq!(lines[0], "5");
    assert_eq!(lines[MAX_BUFFERED_LINES - 1], (MAX_BUFFERED_LINES + 4).to_string());
}
