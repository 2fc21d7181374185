use mcp_hub::config::{
    check_has_servers, combine_found_configs, default_transport, merge_env_file, unknown_server_fields, validate_config, HubConfig,
    ServerConfig,
};

fn server(command: &str, transport: &str) -> ServerConfig {
    ServerConfig {
        command: command.to_string(),
        args: Vec::new(),
        env: Vec::new(),
        env_file: None,
        transport: transport.to_string(),
        cwd: None,
        health_check_interval: None,
        max_retries: None,
        restart_delay: None,
    }
}

#[test]
fn transport_defaults_to_stdio() {
    assert_eq!(default_transport(), "stdio");
}

#[test]
fn valid_config_passes() {
    let c = HubConfig {
        servers: vec![("a".to_string(), server("npx", "stdio")), ("b".to_string(), server("py", "http"))],
    };
    assert_eq!(validate_config(&c), Ok(()));
}

#[test]
fn validation_collects_all_problems() {
    let c = HubConfig {
        servers: vec![
            ("broken".to_string(), server("", "stdio")),
            ("odd".to_string(), server("x", "grpc")),
            ("both".to_string(), server("", "tcp")),
        ],
    };
    assert_eq!(
        validate_config(&c),
        Err([
            "Server 'broken': 'command' must not be empty",
            "Server 'odd': unknown transport 'grpc' (expected 'stdio' or 'http')",
            "Server 'both': 'command' must not be empty",
            "Server 'both': unknown transport 'tcp' (expected 'stdio' or 'http')",
        ]
        .join("\n"))
    );
}

#[test]
fn env_file_overrides_inline_values() {
    let env = vec![("KEY1".to_string(), "inline".to_string()), ("KEY2".to_string(), "keep-this".to_string())];
    let content = "# comment\n\n KEY1 = file-value \r\nKEY3=new-key\nnot an assignment\nURL=a=b";
    let merged = merge_env_file(&env, content);
    let mut map = std::collections::HashMap::new();
    for (k, v) in merged {
        map.insert(k, v);
    }
    assert_eq!(map.get("KEY1").map(String::as_str), Some("file-value"));
    assert_eq!(map.get("KEY2").map(String::as_str), Some("keep-this"));
    assert_eq!(map.get("KEY3").map(String::as_str), Some("new-key"));
    assert_eq!(map.get("URL").map(String::as_str), Some("a=b"));
    assert_eq!(map.len(), 4);
}

#[test]
fn unknown_fields_are_reported() {
    let fields: Vec<String> = ["command", "colour", "args", "health_check_interval", "retries"]
        .iter()
        .map(|s| s.to_string())
        .collect();
    assert_eq!(unknown_server_fields(&fields), vec!["colour".to_string(), "retries".to_string()]);
}

#[test]
fn local_config_overrides_global() {
    let global = HubConfig {
        servers: vec![("a".to_string(), server("ga", "stdio")), ("b".to_string(), server("gb", "stdio"))],
    };
    let local = HubConfig {
        servers: vec![("b".to_string(), server("lb", "http")), ("c".to_string(), server("lc", "stdio"))],
    };
    let merged = combine_found_configs(Some(global), Some(local)).ok().unwrap();
    let summary: Vec<(String, String)> =
        merged.servers.iter().map(|(n, s)| (n.clone(), s.command.clone())).collect();
    assert_eq!(
        summary,
        vec![("a".to_string(), "ga".to_string()), ("b".to_string(), "lb".to_string()), ("c".to_string(), "lc".to_string())]
    );
    assert_eq!(
        combine_found_configs(None, None).err(),
        Some("No mcp-hub.toml found. Create one or run `mcp-hub init`.".to_string())
    );
    let only = combine_found_configs(None, Some(HubConfig { servers: vec![("x".to_string(), server("c", "stdio"))] }));
    assert_eq!(only.ok().unwrap().servers.len(), 1);
}

#[test]
fn a_config_needs_a_server() {
    assert_eq!(
        check_has_servers(&HubConfig { servers: Vec::new() }),
        Err("No servers defined in config. Add servers to mcp-hub.toml or run `mcp-hub init`.".to_string())
    );
    let one = HubConfig { servers: vec![("a".to_string(), server("echo", "stdio"))] };
    assert_eq!(check_has_servers(&one), Ok(()));
}
