use mcp_hub_lib::db::models::ServerStatus;
use mcp_hub_lib::error::AppError;
use mcp_hub_lib::mcp::lifecycle::start_outcome;

#[test]
fn spawned_server_runs_and_failed_spawn_crashes() {
    let (status, err) = start_outcome("npx", None);
    assert_eq!(status, ServerStatus::Running);
    assert!(err.is_none());
    let (status, err) = start_outcome("npx", Some("No such file or directory (os error 2)"));
    assert_eq!(status, ServerStatus::Crashed);
    match err {
        Some(AppError::Process(m)) => assert_eq!(m, "failed to spawn npx: No such file or directory (os error 2)"),
        _ => panic!("a process error"),
    }
}
