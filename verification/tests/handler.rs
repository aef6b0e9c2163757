use xrl_router::handler::{
    admit_request, api_key_of, model_list_json, string_list_of, ComboRow, ModelRow, ProxyReject,
};
use xrl_router::ir::{IrRequest, IrSystemBlock, IrSystemContent};

fn request(model: &str, system: Option<IrSystemContent>, stream: bool) -> IrRequest {
    IrRequest {
        model: model.to_string(),
        system,
        messages: vec![],
        tools: vec![],
        tool_choice: None,
        max_tokens: None,
        temperature: None,
        top_p: None,
        thinking: None,
        stream,
    }
}

#[test]
fn api_key_prefers_the_protocols_own_header() {
    assert_eq!(api_key_of(Some("xk"), Some("Bearer bk"), true), "xk");
    assert_eq!(api_key_of(Some("xk"), Some("Bearer bk"), false), "bk");
    assert_eq!(api_key_of(None, Some("Bearer bk"), true), "bk");
    assert_eq!(api_key_of(Some("xk"), Some("Basic zz"), false), "xk");
    assert_eq!(api_key_of(None, Some("Basic zz"), false), "");
    assert_eq!(api_key_of(None, None, true), "");
}

#[test]
fn admission_refuses_a_model_outside_the_whitelist() {
    let allowed = vec!["a".to_string(), "b".to_string()];
    match admit_request(request("c", None, false), &allowed, "") {
        Err(e) => {
            assert_eq!(e, ProxyReject::ModelNotAllowed);
            assert_eq!(e.status(), 403);
            let body = e.body();
            let err = body.get("error").unwrap();
            assert_eq!(err.str_at("type"), Some("forbidden"));
            assert_eq!(err.str_at("message"), Some("Model not allowed for this service key"));
        },
        Ok(_) => panic!("expected a refusal"),
    }
    assert!(admit_request(request("b", None, false), &allowed, "").is_ok());
    assert!(admit_request(request("anything", None, false), &vec![], "").is_ok());
}

#[test]
fn admission_forces_streaming_and_injects_the_session_text() {
    let a = admit_request(
        request("m", Some(IrSystemContent::Text("base".to_string())), false),
        &vec![],
        "extra",
    )
    .unwrap();
    assert!(!a.client_wants_stream);
    assert!(a.ir_request.stream);
    assert!(matches!(a.ir_request.system, Some(IrSystemContent::Text(ref t)) if t == "base\nextra"));

    let a = admit_request(request("m", None, true), &vec![], "extra").unwrap();
    assert!(a.client_wants_stream);
    assert!(matches!(a.ir_request.system, Some(IrSystemContent::Text(ref t)) if t == "extra"));

    let blocks = vec![IrSystemBlock { text: "p".to_string(), cache_control: None }];
    let a = admit_request(request("m", Some(IrSystemContent::Blocks(blocks)), true), &vec![], "extra").unwrap();
    match a.ir_request.system {
        Some(IrSystemContent::Blocks(bs)) => {
            assert_eq!(bs.len(), 2);
            assert_eq!(bs[1].text, "extra");
            assert!(bs[1].cache_control.is_none());
        },
        _ => panic!("expected blocks"),
    }

    let a = admit_request(request("m", None, true), &vec![], "").unwrap();
    assert!(a.ir_request.system.is_none());
}

#[test]
fn invalid_key_body() {
    let e = ProxyReject::InvalidKey;
    assert_eq!(e.status(), 401);
    let body = e.body();
    let err = body.get("error").unwrap();
    assert_eq!(err.str_at("type"), Some("authentication_error"));
    assert_eq!(err.str_at("message"), Some("Invalid API key"));
}

#[test]
fn string_lists_read_only_arrays_of_strings() {
    assert_eq!(string_list_of("[\"text\",\"tools\"]"), vec!["text".to_string(), "tools".to_string()]);
    assert!(string_list_of("[\"text\",1]").is_empty());
    assert!(string_list_of("not json").is_empty());
    assert!(string_list_of("{}").is_empty());
    assert!(string_list_of("[]").is_empty());
}

fn model(name: &str, caps: &str) -> ModelRow {
    ModelRow {
        display_name: name.to_string(),
        tier: "pro".to_string(),
        owned_by: "prov".to_string(),
        context_window: 200000,
        max_output_tokens: 8192,
        capabilities: caps.to_string(),
    }
}

#[test]
fn model_list_has_models_then_combos() {
    let models = vec![model("m1", "[\"text\",\"tools\"]"), model("m2", "garbage")];
    let combos = vec![ComboRow { name: "c1".to_string(), created_at: 42 }];
    let v = model_list_json(&models, &combos, &vec![]);
    assert_eq!(v.str_at("object"), Some("list"));
    let data = v.array_at("data").unwrap();
    assert_eq!(data.len(), 3);
    assert_eq!(data[0].str_at("id"), Some("m1"));
    assert_eq!(data[0].str_at("owned_by"), Some("prov"));
    assert_eq!(data[0].u64_at("created"), Some(1699000000));
    assert_eq!(data[0].u64_at("context_window"), Some(200000));
    assert_eq!(data[0].array_at("capabilities").unwrap().len(), 2);
    assert_eq!(data[1].array_at("capabilities").unwrap().len(), 0);
    assert_eq!(data[2].str_at("id"), Some("c1"));
    assert_eq!(data[2].str_at("owned_by"), Some("combo"));
    assert_eq!(data[2].str_at("tier"), Some("combo"));
    assert_eq!(data[2].u64_at("created"), Some(42));
    assert_eq!(data[2].u64_at("max_output_tokens"), Some(0));
}

#[test]
fn model_list_follows_the_whitelist() {
    let models = vec![model("m1", "[]"), model("m2", "[]")];
    let combos = vec![ComboRow { name: "c1".to_string(), created_at: 1 }];
    let allowed = vec!["m2".to_string(), "c1".to_string()];
    let v = model_list_json(&models, &combos, &allowed);
    let data = v.array_at("data").unwrap();
    assert_eq!(data.len(), 2);
    assert_eq!(data[0].str_at("display_name"), Some("m2"));
    assert_eq!(data[1].str_at("display_name"), Some("c1"));
}
