use mcp_hub_lib::db::models::{default_transport, prepare_install, InstallServerRequest, ServerStatus, Transport};
use mcp_hub_lib::db::permissions::RequestedPermission;
use mcp_hub_lib::error::AppError;

fn request(name: &str, command: &str) -> InstallServerRequest {
    InstallServerRequest {
        name: name.to_string(),
        description: "d".to_string(),
        command: command.to_string(),
        args: vec!["a".to_string()],
        env: vec![("K".to_string(), "V".to_string())],
        transport: Transport::Http,
        version: Some("1.0".to_string()),
        source: None,
        icon_url: None,
        permissions: vec![RequestedPermission { scope: "fs.read".to_string(), target: None, reason: None }],
    }
}

#[test]
fn names_round_trip() {
    for t in [Transport::Stdio, Transport::Sse, Transport::Http] {
        assert_eq!(Transport::from_str(t.as_str()), t);
    }
    for s in [ServerStatus::Stopped, ServerStatus::Starting, ServerStatus::Running, ServerStatus::Crashed] {
        assert_eq!(ServerStatus::from_str(s.as_str()), s);
    }
    assert_eq!(Transport::from_str("carrier-pigeon"), Transport::Stdio);
    assert_eq!(ServerStatus::from_str("???"), ServerStatus::Stopped);
    assert_eq!(default_transport(), Transport::Stdio);
    assert_eq!(Transport::Sse.as_str(), "sse");
    assert_eq!(ServerStatus::Crashed.as_str(), "crashed");
}

#[test]
fn install_builds_a_stopped_server() {
    let (s, perms) = prepare_install(request("Files", "npx")).ok().expect("valid");
    assert_eq!(s.name, "Files");
    assert_eq!(s.status, ServerStatus::Stopped);
    assert_eq!(s.transport, Transport::Http);
    assert_eq!(s.installed_at, s.updated_at);
    assert_eq!(s.env, vec![("K".to_string(), "V".to_string())]);
    assert!(!s.id.is_empty());
    assert_eq!(perms.len(), 1);
}

#[test]
fn blank_name_or_command_is_refused() {
    match prepare_install(request("  \t", "npx")) {
        Err(AppError::InvalidManifest(m)) => assert_eq!(m, "name must not be empty"),
        _ => panic!("expected InvalidManifest"),
    }
    match prepare_install(request("Files", " ")) {
        Err(AppError::InvalidManifest(m)) => assert_eq!(m, "command must not be empty"),
        _ => panic!("expected InvalidManifest"),
    }
    match prepare_install(request("", "")) {
        Err(AppError::InvalidManifest(m)) => assert_eq!(m, "name must not be empty"),
        _ => panic!("expected InvalidManifest"),
    }
}

#[test]
fn error_messages_name_the_variant() {
    assert_eq!(AppError::ServerNotFound("x".to_string()).message(), "server not found: x");
    assert_eq!(AppError::Internal("boom".to_string()).message(), "internal error: boom");
    assert_eq!(AppError::Database("locked".to_string()).message(), "database error: locked");
    assert_eq!(AppError::Io("eof".to_string()).message(), "io error: eof");
    assert_eq!(AppError::PermissionDenied("p".to_string()).message(), "permission denied: p");
    assert_eq!(AppError::InvalidManifest("m".to_string()).message(), "invalid manifest: m");
    assert_eq!(AppError::Process("p".to_string()).message(), "process error: p");
    assert_eq!(AppError::ServerAlreadyExists("s".to_string()).message(), "server already exists: s");
}
