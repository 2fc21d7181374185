use mcp_hub::env_expand::{expand_env_values, expand_vars_in};

fn vars(pairs: &[(&str, &str)]) -> Vec<(String, String)> {
    pairs.iter().map(|(k, v)| (k.to_string(), v.to_string())).collect()
}

#[test]
fn reference_is_replaced_by_its_value() {
    let env = vars(&[("GITHUB_TOKEN", "ghp_abc")]);
    assert_eq!(expand_vars_in("${GITHUB_TOKEN}", &env), "ghp_abc");
    assert_eq!(expand_vars_in("Bearer ${GITHUB_TOKEN}!", &env), "Bearer ghp_abc!");
}

#[test]
fn unset_variable_expands_to_nothing() {
    let env = vars(&[("A", "1")]);
    assert_eq!(expand_vars_in("x${MISSING}y", &env), "xy");
}

#[test]
fn text_without_references_is_unchanged() {
    let env = vars(&[("A", "1")]);
    assert_eq!(expand_vars_in("plain value / path", &env), "plain value / path");
    assert_eq!(expand_vars_in("$A and $", &env), "$A and $");
}

#[test]
fn unterminated_reference_is_kept() {
    let env = vars(&[("A", "1")]);
    assert_eq!(expand_vars_in("${A", &env), "${A");
    assert_eq!(expand_vars_in("${A}${A", &env), "1${A");
}

#[test]
fn last_assignment_wins_and_several_references_expand() {
    let env = vars(&[("A", "old"), ("B", "b"), ("A", "new")]);
    assert_eq!(expand_vars_in("${A}-${B}-${A}", &env), "new-b-new");
    assert_eq!(expand_vars_in("${}", &env), "");
}

#[test]
fn env_values_are_expanded_names_kept() {
    let env = vars(&[("API_KEY", "${MY_KEY}"), ("MODE", "prod")]);
    let process = vars(&[("MY_KEY", "secret")]);
    assert_eq!(
        expand_env_values(&env, &process),
        vars(&[("API_KEY", "secret"), ("MODE", "prod")])
    );
}
