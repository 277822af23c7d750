use mcp_hub_lib::mcp::expand::{expand_env, expand_env_with};

fn vars(pairs: &[(&str, &str)]) -> Vec<(String, String)> {
    pairs.iter().map(|(k, v)| (k.to_string(), v.to_string())).collect()
}

fn expand(input: &str, env: &[(&str, &str)]) -> String {
    expand_env_with(input, Some("/home/tester"), &vars(env))
}

#[test]
fn passes_through_plain_strings() {
    assert_eq!(expand("hello", &[]), "hello");
    assert_eq!(expand("", &[]), "");
    assert_eq!(expand("a/b/c", &[]), "a/b/c");
}

#[test]
fn resolves_named_var() {
    let env = [("MCP_HUB_TEST_VAR", "value42")];
    assert_eq!(expand("$MCP_HUB_TEST_VAR", &env), "value42");
    assert_eq!(expand("x=$MCP_HUB_TEST_VAR;", &env), "x=value42;");
    assert_eq!(expand("${MCP_HUB_TEST_VAR}_suffix", &env), "value42_suffix");
}

#[test]
fn unset_var_expands_to_empty() {
    assert_eq!(expand("$MCP_HUB_TEST_MISSING", &[]), "");
    assert_eq!(expand("a${MCP_HUB_TEST_MISSING}b", &[]), "ab");
}

#[test]
fn dangling_dollar_left_literal() {
    assert_eq!(expand("$", &[]), "$");
    assert_eq!(expand("$1", &[]), "$1");
    assert_eq!(expand("${unclosed", &[]), "${unclosed");
}

#[test]
fn tilde_prefix_expands_to_home() {
    if let Some(home) = dirs::home_dir() {
        let expected = home.display().to_string();
        let h = Some(expected.as_str());
        assert_eq!(expand_env_with("~", h, &Vec::new()), expected);
        assert_eq!(expand_env_with("~/code", h, &Vec::new()), format!("{}/code", expected));
        assert_eq!(expand_env_with("a/~/b", h, &Vec::new()), "a/~/b");
        assert_eq!(expand_env("~", &Vec::new()), expected);
        assert_eq!(expand_env("~/code", &Vec::new()), format!("{}/code", expected));
    }
}

#[test]
fn without_home_tilde_stays() {
    assert_eq!(expand_env_with("~", None, &Vec::new()), "~");
    assert_eq!(expand_env_with("~/x", None, &Vec::new()), "~/x");
}

#[test]
fn names_stop_at_non_name_characters() {
    let env = [("A", "1"), ("A_B", "2")];
    assert_eq!(expand("$A-$A_B.$A_", &env), "1-2.");
    assert_eq!(expand("${A}${A_B}", &env), "12");
    assert_eq!(expand("$$A", &env), "$1");
    assert_eq!(expand("~/$A", &env), "/home/tester/1");
}

#[test]
fn first_binding_of_a_name_wins() {
    let env = [("X", "first"), ("X", "second")];
    assert_eq!(expand("$X", &env), "first");
}

#[test]
fn braces_take_any_name() {
    let env = [("odd name", "v")];
    assert_eq!(expand("${odd name}!", &env), "v!");
    assert_eq!(expand("${}", &env), "");
}
