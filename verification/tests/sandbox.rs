use mcp_hub_lib::db::models::{McpServer, ServerStatus, Transport};
use mcp_hub_lib::db::permissions::PersistedPermission;
use mcp_hub_lib::security::sandbox::{
    build_macos_profile, expand_target, macos_profile, profile_file_name, MacosSandbox, NoopSandbox, Sandbox,
    sanitize_for_comment, sanitize_path, write_subpath_write,
};
use mcp_hub_lib::session::types::WallTime;

fn perm(scope: &str, target: Option<&str>) -> PersistedPermission {
    PersistedPermission {
        id: 0,
        server_id: "test".to_string(),
        scope: scope.to_string(),
        target: target.map(String::from),
        reason: None,
        granted: true,
        granted_at: Some(WallTime { secs: 1_700_000_000, nanos: 0 }),
    }
}

fn home() -> String {
    dirs::home_dir().unwrap().to_string_lossy().into_owned()
}

#[test]
fn baseline_is_permissive_with_explicit_denies() {
    let p = macos_profile(&Vec::new(), None);
    assert!(p.contains("(allow default)"));
    assert!(p.contains("(deny file-write*)"));
    assert!(p.contains("(deny network*)"));
}

#[test]
fn fs_write_grants_become_subpath_allows() {
    let perms = vec![perm("fs.write", Some("$HOME/Projects"))];
    let p = macos_profile(&perms, None);
    let home = home();
    assert!(p.contains(&format!("(allow file-write* (subpath \"{}/Projects\"))", home)));
}

#[test]
fn internet_grant_replaces_deny_network() {
    let perms = vec![perm("internet", Some("api.github.com"))];
    let p = macos_profile(&perms, None);
    assert!(p.contains("(allow network*)"));
    assert!(!p.contains("(deny network*)"));
}

#[test]
fn revoked_perms_are_skipped() {
    let mut perms = vec![perm("fs.write", Some("/Users/x/x"))];
    perms[0].granted = false;
    let p = macos_profile(&perms, None);
    assert!(!p.contains("(allow file-write* (subpath \"/Users/x/x\"))"));
}

const HEADER: &str = "(version 1)\n;; Generated by MCP Hub. Permissive baseline + explicit denies.\n;; Reorder/strip rules at your own risk \u{2014} they encode the\n;; trust contract from the install dialog.\n\n(allow default)\n\n;; File-write policy: deny everywhere, then re-allow the\n;; paths the user granted plus the runtime scratch areas.\n(deny file-write*)\n";

#[test]
fn profile_with_fixed_home_and_tmpdir_is_exact() {
    let perms = vec![
        perm("fs.write", Some("~/work")),
        perm("net.outbound", Some("example.org")),
        perm("fs.read", Some("/etc")),
    ];
    let p = build_macos_profile(&perms, Some("/Users/t"), Some("/var/tmp//"));
    let expected = format!(
        "{}{}{}",
        HEADER,
        "(allow file-write* (subpath \"/private/tmp\"))\n\
(allow file-write* (subpath \"/tmp\"))\n\
(allow file-write* (subpath \"/private/var/folders\"))\n\
(allow file-write* (subpath \"/var/tmp\"))\n\
(allow file-write* (subpath \"/Users/t/.npm\"))\n\
(allow file-write* (subpath \"/Users/t/.cache\"))\n\
(allow file-write* (subpath \"/Users/t/.nvm\"))\n\
(allow file-write* (subpath \"/Users/t/.volta\"))\n\
(allow file-write* (subpath \"/Users/t/.bun\"))\n\
(allow file-write* (subpath \"/Users/t/.config\"))\n",
        ";;   granted fs.write scope: /Users/t/work\n(allow file-write* (subpath \"/Users/t/work\"))\n\n;; Network policy.\n;;   granted host: example.org\n(allow network*)\n",
    );
    assert_eq!(p, expected);
}

#[test]
fn wildcard_host_opens_network_without_comment() {
    let perms = vec![perm("internet", Some("*"))];
    let p = build_macos_profile(&perms, None, None);
    assert!(p.ends_with("\n;; Network policy.\n(allow network*)\n"));
    assert!(!p.contains("granted host"));
}

#[test]
fn targets_resolve_against_home() {
    let h = Some("/h");
    assert_eq!(expand_target(Some("*"), h).as_deref(), Some("/h"));
    assert_eq!(expand_target(Some(" ~ "), h).as_deref(), Some("/h"));
    assert_eq!(expand_target(Some("$HOME"), h).as_deref(), Some("/h"));
    assert_eq!(expand_target(Some("~/a"), h).as_deref(), Some("/h/a"));
    assert_eq!(expand_target(Some("$HOME/b"), h).as_deref(), Some("/h/b"));
    assert_eq!(expand_target(Some("${HOME}c"), h).as_deref(), Some("/hc"));
    assert_eq!(expand_target(Some("/abs"), h).as_deref(), Some("/abs"));
    assert_eq!(expand_target(Some("   "), h), None);
    assert_eq!(expand_target(None, h), None);
    assert_eq!(expand_target(Some("/abs"), None), None);
}

#[test]
fn paths_and_comments_are_escaped() {
    assert_eq!(sanitize_path("a\\b\"c"), "a\\\\b\\\"c");
    assert_eq!(sanitize_for_comment("x\ny\rz"), "x y z");
    let mut p = String::from("> ");
    write_subpath_write(&mut p, "/q\"");
    assert_eq!(p, "> (allow file-write* (subpath \"/q\\\"\"))\n");
}

fn server() -> McpServer {
    McpServer {
        id: "srv-1".to_string(),
        name: "Files".to_string(),
        description: String::new(),
        command: "npx".to_string(),
        args: vec!["-y".to_string(), "pkg".to_string()],
        env: Vec::new(),
        transport: Transport::Stdio,
        status: ServerStatus::Stopped,
        installed_at: WallTime { secs: 0, nanos: 0 },
        updated_at: WallTime { secs: 0, nanos: 0 },
        version: None,
        source: None,
        icon_url: None,
    }
}

#[test]
fn launch_commands_wrap_or_pass_through() {
    let s = server();
    let noop_launch = NoopSandbox.prepare(&s, &Vec::new(), None, "/profiles/srv-1.sb");
    assert!(noop_launch.profile.is_none());
    let noop = noop_launch.command;
    assert_eq!(noop.program, "npx");
    assert_eq!(noop.args, vec!["-y", "pkg"]);
    assert_eq!(noop.enforcement, "noop");
    let perms = vec![perm("fs.write", Some("/Users/t/p"))];
    let launch = MacosSandbox.prepare(&s, &perms, Some("/tmp"), "/profiles/srv-1.sb");
    assert_eq!(launch.profile, Some(macos_profile(&perms, Some("/tmp"))));
    let wrapped = launch.command;
    assert_eq!(wrapped.program, "sandbox-exec");
    assert_eq!(wrapped.args, vec!["-f", "/profiles/srv-1.sb", "npx", "-y", "pkg"]);
    assert_eq!(wrapped.enforcement, "macos-sandbox-exec");
    assert_eq!(profile_file_name("srv-1"), "srv-1.sb");
}
