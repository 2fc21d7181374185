use mcp_hub::init::{
    format_toml_block, is_valid_server_name, parse_args_list, plan_server_entry_write, toml_escape,
    validate_new_server_name,
};

// ── format_toml_block ──────────────────────────────────────────────────────

#[test]
fn format_block_with_args_and_stdio_transport() {
    let block = format_toml_block(
        "github",
        "npx",
        &["@anthropic/mcp-github".to_string()],
        "stdio",
    );
    assert!(block.contains("[servers.github]"), "missing header");
    assert!(block.contains("command = \"npx\""), "missing command");
    assert!(
        block.contains("args = [\"@anthropic/mcp-github\"]"),
        "missing args"
    );
    assert!(
        !block.contains("transport"),
        "transport must be omitted for stdio"
    );
}

#[test]
fn format_block_with_http_transport() {
    let block = format_toml_block("api", "python", &[], "http");
    assert!(block.contains("[servers.api]"), "missing header");
    assert!(block.contains("command = \"python\""), "missing command");
    assert!(!block.contains("args"), "args must be omitted when empty");
    assert!(block.contains("transport = \"http\""), "missing transport");
}

#[test]
fn format_block_empty_args_omits_args_line() {
    let block = format_toml_block("test", "echo", &[], "stdio");
    assert!(
        !block.contains("args"),
        "args line must be absent when slice is empty"
    );
}

#[test]
fn format_block_stdio_omits_transport_line() {
    let block = format_toml_block("test", "echo", &[], "stdio");
    assert!(
        !block.contains("transport"),
        "transport line must be absent for stdio default"
    );
}

#[test]
fn format_block_multiple_args() {
    let args = vec!["server.py".to_string(), "--port=8080".to_string()];
    let block = format_toml_block("api", "python", &args, "http");
    assert!(
        block.contains("args = [\"server.py\", \"--port=8080\"]"),
        "args must be quoted and comma-separated"
    );
    assert!(block.contains("transport = \"http\""), "transport present");
}

#[test]
fn format_block_starts_with_newline_for_append_separation() {
    let block = format_toml_block("s", "cmd", &[], "stdio");
    assert!(
        block.starts_with('\n'),
        "block must start with newline for append separation"
    );
}

#[test]
fn format_block_exact_text() {
    let block = format_toml_block(
        "api",
        "py\"thon",
        &["a".to_string(), "b\\c".to_string()],
        "http",
    );
    assert_eq!(
        block,
        "\n[servers.api]\ncommand = \"py\\\"thon\"\nargs = [\"a\", \"b\\\\c\"]\ntransport = \"http\"\n"
    );
}

#[test]
fn test_format_block_no_args_stdio() {
    let block = format_toml_block("test", "echo", &[], "stdio");
    assert!(block.contains("[servers.test]"), "header present");
    assert!(block.contains("command = \"echo\""), "command present");
    assert!(!block.contains("args"), "args omitted when empty");
    assert!(!block.contains("transport"), "transport omitted for stdio");
}

#[test]
fn test_format_block_with_args_http() {
    let block = format_toml_block(
        "api",
        "python",
        &["server.py".to_string(), "--port=8080".to_string()],
        "http",
    );
    assert!(
        block.contains("args = [\"server.py\", \"--port=8080\"]"),
        "args formatted correctly"
    );
    assert!(block.contains("transport = \"http\""), "transport included");
}

#[test]
fn test_format_block_args_omitted_when_empty() {
    let block = format_toml_block("srv", "cmd", &[], "http");
    assert!(
        !block.contains("args"),
        "args must be omitted when empty vec"
    );
    assert!(block.contains("transport = \"http\""), "transport present");
}

#[test]
fn test_format_block_escapes_backslash_and_quote() {
    let command = r#"C:\tools\mcp.exe"#;
    let block = format_toml_block("win", command, &[], "stdio");
    let content = block.trim_start_matches('\n');
    let parsed: toml::Value =
        toml::from_str(content).expect("TOML with escaped backslash must parse");
    let parsed_cmd = parsed["servers"]["win"]["command"].as_str().unwrap();
    assert_eq!(parsed_cmd, command, "backslash must roundtrip");
}

#[test]
fn test_format_block_escapes_double_quote_in_command() {
    let command = r#"node "my server.js""#;
    let block = format_toml_block("quoted", command, &[], "stdio");
    let content = block.trim_start_matches('\n');
    let parsed: toml::Value = toml::from_str(content).expect("TOML with escaped quote must parse");
    let parsed_cmd = parsed["servers"]["quoted"]["command"].as_str().unwrap();
    assert_eq!(parsed_cmd, command, "double-quote must roundtrip");
}

#[test]
fn test_format_block_escapes_args_with_special_chars() {
    let args = vec![
        r#"--config="my config.json""#.to_string(),
        r#"C:\Users\me\file.txt"#.to_string(),
    ];
    let block = format_toml_block("special", "cmd", &args, "stdio");
    let content = block.trim_start_matches('\n');
    let parsed: toml::Value = toml::from_str(content).expect("TOML with escaped args must parse");
    let parsed_args: Vec<String> = parsed["servers"]["special"]["args"]
        .as_array()
        .unwrap()
        .iter()
        .map(|v| v.as_str().unwrap().to_string())
        .collect();
    assert_eq!(parsed_args, args, "args with special chars must roundtrip");
}

// ── is_valid_server_name ───────────────────────────────────────────────────

#[test]
fn valid_server_names() {
    assert!(is_valid_server_name("github"));
    assert!(is_valid_server_name("my-server"));
    assert!(is_valid_server_name("server_1"));
    assert!(is_valid_server_name("MCP1"));
}

#[test]
fn invalid_server_names() {
    assert!(!is_valid_server_name(""));
    assert!(!is_valid_server_name("has space"));
    assert!(!is_valid_server_name("has.dot"));
    assert!(!is_valid_server_name("[brackets]"));
    assert!(!is_valid_server_name("has\nnewline"));
    assert!(!is_valid_server_name("has\"quote"));
}

#[test]
fn rejects_unicode_server_names() {
    assert!(!is_valid_server_name("cafe\u{0301}"));
    assert!(!is_valid_server_name("\u{6570}\u{636e}"));
    assert!(!is_valid_server_name("serveur-francais-e\u{0301}"));
}

// ── toml_escape ────────────────────────────────────────────────────────────

#[test]
fn toml_escape_plain_string_unchanged() {
    assert_eq!(toml_escape("hello"), "hello");
}

#[test]
fn toml_escape_backslash() {
    assert_eq!(toml_escape("C:\\tools\\mcp.exe"), "C:\\\\tools\\\\mcp.exe");
}

#[test]
fn toml_escape_double_quote() {
    assert_eq!(toml_escape("node \"server.js\""), "node \\\"server.js\\\"");
}

#[test]
fn toml_escape_both() {
    assert_eq!(toml_escape("back\\and\"quote"), "back\\\\and\\\"quote");
}

// ── Wizard input rules ─────────────────────────────────────────────────────

#[test]
fn wizard_name_rules() {
    let existing = vec!["github".to_string(), "files".to_string()];
    assert_eq!(validate_new_server_name("new-one", &existing), Ok(()));
    assert_eq!(
        validate_new_server_name("", &existing),
        Err("Server name must not be empty".to_string())
    );
    assert_eq!(
        validate_new_server_name("bad name", &existing),
        Err("Server name may only contain letters, digits, hyphens, and underscores".to_string())
    );
    assert_eq!(
        validate_new_server_name("files", &existing),
        Err("Name 'files' already exists. Existing servers: github, files".to_string())
    );
}

#[test]
fn wizard_args_are_split_and_trimmed() {
    assert_eq!(
        parse_args_list(" -y , @scope/server,, /tmp "),
        vec!["-y".to_string(), "@scope/server".to_string(), "/tmp".to_string()]
    );
    assert!(parse_args_list("").is_empty());
    assert!(parse_args_list(" , ,").is_empty());
    assert_eq!(parse_args_list("one"), vec!["one".to_string()]);
}

#[test]
fn entry_write_plans() {
    let block = "\n[servers.a]\ncommand = \"x\"\n";
    let w = plan_server_entry_write(None, block);
    assert!(!w.append);
    assert_eq!(w.content, "[servers.a]\ncommand = \"x\"\n");
    assert!(!w.content.starts_with('\n'), "new file must not start with a blank line");

    let w = plan_server_entry_write(Some("[servers.b]\ncommand = \"y\"\n"), block);
    assert!(w.append);
    assert_eq!(w.content, block);

    let w = plan_server_entry_write(Some("[servers.b]\ncommand = \"y\""), block);
    assert!(w.append);
    assert_eq!(w.content, format!("\n{block}"));

    let w = plan_server_entry_write(Some(""), block);
    assert_eq!(w.content, format!("\n{block}"));
}
