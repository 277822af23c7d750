use mcp_hub_lib::commands::system::{escape_json_string, proxy_config, sanitize_key};
use mcp_hub_lib::db::models::{McpServer, ServerStatus, Transport};
use mcp_hub_lib::session::types::WallTime;

#[test]
fn keys_keep_safe_characters_and_lower_case() {
    assert_eq!(sanitize_key("My Server (v2)"), "my-server--v2-");
    assert_eq!(sanitize_key("file_system-X"), "file_system-x");
    assert_eq!(sanitize_key("Ünïcode"), "-n-code");
    assert_eq!(sanitize_key(""), "");
}

#[test]
fn json_strings_escape_quotes_and_backslashes() {
    assert_eq!(escape_json_string(r#"C:\a "b""#), r#"C:\\a \"b\""#);
    assert_eq!(escape_json_string("plain"), "plain");
}

#[test]
fn snippet_routes_the_server_through_the_proxy() {
    let server = McpServer {
        id: "id-1".to_string(),
        name: "My Files".to_string(),
        description: String::new(),
        command: "npx".to_string(),
        args: Vec::new(),
        env: Vec::new(),
        transport: Transport::Stdio,
        status: ServerStatus::Stopped,
        installed_at: WallTime { secs: 0, nanos: 0 },
        updated_at: WallTime { secs: 0, nanos: 0 },
        version: None,
        source: None,
        icon_url: None,
    };
    let c = proxy_config(&server, "/Apps/MCP Hub/mcp-hub-proxy", "/data/proxy.sock");
    assert_eq!(c.server_id, "id-1");
    assert_eq!(c.server_name, "My Files");
    assert_eq!(c.sock_path, "/data/proxy.sock");
    assert_eq!(
        c.snippet,
        "{\n  \"mcpServers\": {\n    \"my-files\": {\n      \"command\": \"/Apps/MCP Hub/mcp-hub-proxy\",\n      \"args\": [\"id-1\"]\n    }\n  }\n}"
    );
    let parsed: serde_json::Value = serde_json::from_str(&c.snippet).unwrap();
    assert_eq!(parsed["mcpServers"]["my-files"]["args"][0], "id-1");
}
