use mcp_hub_lib::mcp::logs::{LogEntry, LogSink, LogStream};
use mcp_hub_lib::mcp::strmap::StrMap;

#[test]
fn log_sink_keeps_recent_lines_per_server() {
    let mut sink = LogSink::new(3);
    for i in 0..5 {
        sink.push(&LogEntry::new("a".to_string(), LogStream::Stdout, format!("line {}", i)));
    }
    sink.push(&LogEntry::new("b".to_string(), LogStream::Stderr, "other".to_string()));
    let a = sink.snapshot("a", 10);
    let msgs: Vec<&str> = a.iter().map(|e| e.message.as_str()).collect();
    assert_eq!(msgs, vec!["line 2", "line 3", "line 4"]);
    assert_eq!(sink.snapshot("a", 2).len(), 2);
    assert_eq!(sink.snapshot("a", 2)[1].message, "line 4");
    assert_eq!(sink.snapshot("b", 10).len(), 1);
    sink.clear("a");
    assert!(sink.snapshot("a", 10).is_empty());
    assert_eq!(sink.snapshot("b", 10).len(), 1);
}

#[test]
fn str_map_replaces_and_removes() {
    let mut m: StrMap<u32> = StrMap::new();
    m.insert("x".to_string(), 1);
    m.insert("y".to_string(), 2);
    m.insert("x".to_string(), 3);
    assert_eq!(m.len(), 2);
    assert_eq!(m.remove("x"), Some(3));
    assert_eq!(m.remove("x"), None);
    assert_eq!(m.len(), 1);
}
