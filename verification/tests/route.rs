use xrl_router::route::{
    model_not_found_body, plugin_id_of_config, resolve_candidates, resolve_route, resolve_route_candidates,
    PluginEndpoint, RouteRow,
};

fn row(model: &str, provider: &str, config: &str) -> RouteRow {
    RouteRow {
        model_row_id: model.to_string(),
        real_model_id: format!("real-{}", model),
        provider_id: provider.to_string(),
        provider_name: format!("P-{}", provider),
        base_url: format!("https://{}.example.com", provider),
        api_path: "/v1/chat/completions".to_string(),
        kind: "chat_completions".to_string(),
        config_json: config.to_string(),
    }
}

#[test]
fn test_candidates_sorted_and_resolve_route_regression() {
    // Rows arrive in provider order (sort_order ascending): p2, p1, p3.
    let rows = vec![row("m-p2", "p2", "{}"), row("m-p1", "p1", "{}"), row("m-p3", "p3", "{}")];
    let candidates = resolve_route_candidates(&rows, &vec![]).unwrap();
    let order: Vec<&str> = candidates.iter().map(|c| c.provider_id.as_str()).collect();
    assert_eq!(order, vec!["p2", "p1", "p3"]);
    let r = resolve_route(&rows, &vec![]).unwrap();
    assert_eq!(r.provider_id, "p2");
    assert_eq!(r.upstream_url, "https://p2.example.com/v1/chat/completions");
}

#[test]
fn test_candidates_skip_offline_plugin() {
    let only = vec![row("m-pp", "pp", r#"{"plugin_id": "plug-nonexistent"}"#)];
    assert!(resolve_route_candidates(&only, &vec![]).is_none());
    let rows = vec![row("m-pp", "pp", r#"{"plugin_id": "plug-nonexistent"}"#), row("m-p1", "p1", "{}")];
    let candidates = resolve_route_candidates(&rows, &vec![]).unwrap();
    assert_eq!(candidates.len(), 1);
    assert_eq!(candidates[0].provider_id, "p1");
}

#[test]
fn test_candidates_dedup_provider() {
    let rows = vec![row("m1a", "p1", "{}"), row("m1b", "p1", "{}"), row("m2", "p2", "{}")];
    let candidates = resolve_route_candidates(&rows, &vec![]).unwrap();
    assert_eq!(candidates.len(), 2);
    let order: Vec<&str> = candidates.iter().map(|c| c.provider_id.as_str()).collect();
    assert_eq!(order, vec!["p1", "p2"]);
    assert_eq!(candidates[0].model_row_id, "m1a");
}

#[test]
fn test_candidates_none_when_no_match() {
    assert!(resolve_route_candidates(&vec![], &vec![]).is_none());
    assert!(resolve_route(&vec![], &vec![]).is_none());
}

#[test]
fn delegated_provider_uses_plugin_endpoint() {
    let rows = vec![row("m", "pp", r#"{"plugin_id": "plug-1", "x": 1}"#)];
    let eps = vec![
        PluginEndpoint { plugin_id: "plug-0".into(), base_url: "http://a".into(), api_path: "/x".into() },
        PluginEndpoint { plugin_id: "plug-1".into(), base_url: "http://127.0.0.1:9000".into(), api_path: "/v1/messages".into() },
    ];
    let r = resolve_route(&rows, &eps).unwrap();
    assert_eq!(r.upstream_url, "http://127.0.0.1:9000/v1/messages");
    assert_eq!(r.plugin_id.as_deref(), Some("plug-1"));
    assert_eq!(plugin_id_of_config("not json"), None);
    assert_eq!(plugin_id_of_config(r#"{"plugin_id": 3}"#), None);
    assert!(resolve_route(&vec![row("m", "pp", r#"{"plugin_id": "gone"}"#)], &eps).is_none());
}

#[test]
fn candidates_of_aliases_and_combos() {
    let rows = vec![row("m-p2", "p2", "{}"), row("m-p1", "p1", "{}")];
    let set = resolve_candidates(None, true, &rows, &vec![]).unwrap();
    assert_eq!(set.candidates.len(), 2);
    assert!(set.failover && !set.is_combo);
    let set = resolve_candidates(None, false, &rows, &vec![]).unwrap();
    assert_eq!(set.candidates.len(), 1);
    assert_eq!(set.candidates[0].provider_id, "p2");
    assert!(!set.failover && !set.is_combo);
    assert!(resolve_candidates(None, true, &vec![], &vec![]).is_none());
    let members = resolve_route_candidates(&rows, &vec![]).unwrap();
    let set = resolve_candidates(Some(members), false, &vec![], &vec![]).unwrap();
    assert_eq!(set.candidates.len(), 2);
    assert!(set.failover && set.is_combo);
    assert!(resolve_candidates(Some(vec![]), true, &rows, &vec![]).is_none());
    let body = model_not_found_body();
    let err = body.get("error").unwrap();
    assert_eq!(err.str_at("type"), Some("invalid_request_error"));
    assert_eq!(err.str_at("message"), Some("Model not found or not available"));
}
