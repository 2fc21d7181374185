use mcp_hub::outline::{
    server_names_in, server_names_of_outline, unknown_fields_in, unknown_fields_of_outline,
    OutlineEntry,
};

fn s(x: &str) -> String {
    x.to_string()
}

#[test]
fn server_names_are_read_from_the_servers_table() {
    let content = "[servers.alpha]\ncommand = \"npx\"\n\n[servers.beta]\ncommand = \"uvx\"\n";
    assert_eq!(server_names_in(content), Ok(vec![s("alpha"), s("beta")]));
}

#[test]
fn document_without_servers_has_no_server_names() {
    assert_eq!(server_names_in(""), Ok(Vec::new()));
    assert_eq!(server_names_in("title = \"x\"\n"), Ok(Vec::new()));
}

#[test]
fn servers_key_that_is_not_a_table_has_no_server_names() {
    assert_eq!(server_names_in("servers = 5\n"), Ok(Vec::new()));
}

#[test]
fn invalid_toml_reports_the_parse_error() {
    let r = server_names_in("[servers.alpha\ncommand = ");
    assert!(r.is_err());
    assert!(!r.unwrap_err().is_empty());
    assert!(unknown_fields_in("= = =").is_err());
}

#[test]
fn unknown_fields_are_listed_with_their_server() {
    let content = "[servers.alpha]\ncommand = \"npx\"\nfuture_field = 1\n\n[servers.beta]\ncommand = \"uvx\"\nargs = []\nzzz = true\n";
    assert_eq!(
        unknown_fields_in(content),
        Ok(vec![(s("alpha"), s("future_field")), (s("beta"), s("zzz"))])
    );
}

#[test]
fn known_fields_raise_no_warning() {
    let content = "[servers.alpha]\ncommand = \"npx\"\nargs = [\"a\"]\nenv = { K = \"v\" }\nenv_file = \".env\"\ntransport = \"http\"\ncwd = \"/tmp\"\nhealth_check_interval = 5\nmax_retries = 3\nrestart_delay = 2\n";
    assert_eq!(unknown_fields_in(content), Ok(Vec::new()));
}

#[test]
fn outline_lookup_takes_the_servers_entry() {
    let outline: Vec<OutlineEntry> = vec![
        (s("hub"), Some(vec![(s("servers"), None)])),
        (s("servers"), Some(vec![(s("x"), Some(vec![s("command"), s("extra")])), (s("y"), None)])),
    ];
    assert_eq!(server_names_of_outline(&outline), vec![s("x"), s("y")]);
    assert_eq!(unknown_fields_of_outline(&outline), vec![(s("x"), s("extra"))]);
}

#[test]
fn outline_without_servers_table_yields_nothing() {
    let outline: Vec<OutlineEntry> = vec![(s("servers"), None), (s("other"), Some(Vec::new()))];
    assert!(server_names_of_outline(&outline).is_empty());
    assert!(unknown_fields_of_outline(&outline).is_empty());
}
