use xrl_router::combos::{combo_json, validate_combo_name, validate_members, Combo};

fn strings(v: &[&str]) -> Vec<String> {
    v.iter().map(|s| s.to_string()).collect()
}

#[test]
fn combo_names_are_trimmed_and_must_not_be_aliases() {
    let aliases = strings(&["gpt-4o", "opus"]);
    assert_eq!(validate_combo_name("  mix  ", &aliases), Ok("mix".to_string()));
    assert_eq!(validate_combo_name("   ", &aliases), Err("Combo name must not be empty".to_string()));
    assert_eq!(
        validate_combo_name(" opus ", &aliases),
        Err("Combo name 'opus' conflicts with an existing model alias".to_string())
    );
}

#[test]
fn combo_members_are_normalized_and_must_exist() {
    let aliases = strings(&["a", "b", "c"]);
    assert_eq!(validate_members(&strings(&[" b", "a", "b ", ""]), &aliases), Ok(strings(&["b", "a"])));
    assert_eq!(validate_members(&strings(&["", "  "]), &aliases), Err("Combo must have at least one member".to_string()));
    assert_eq!(
        validate_members(&strings(&["a", "x", "y", "x"]), &aliases),
        Err("Members not found as model aliases: x, y".to_string())
    );
}

#[test]
fn combo_documents() {
    let c = Combo { id: "id1".to_string(), name: "mix".to_string(), enabled: true, created_at: 10, updated_at: 20 };
    let v = combo_json(&c, &strings(&["a", "b"]));
    assert_eq!(v.str_at("id"), Some("id1"));
    assert_eq!(v.str_at("name"), Some("mix"));
    assert_eq!(v.bool_at("enabled"), Some(true));
    assert_eq!(v.array_at("members").unwrap().len(), 2);
    assert_eq!(v.u64_at("created_at"), Some(10));
    assert_eq!(v.u64_at("updated_at"), Some(20));
}
