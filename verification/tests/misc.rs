use xrl_router::config::Config;
use xrl_router::failover::ProviderCooldowns;
use xrl_router::fm::{resume_position, seed_from_wallclock, track_starts, FmControl};
use xrl_router::handlers::{default_filter, default_limit, HfSearchQuery, UpdatePluginBody};
use xrl_router::key_rotation::{header_timeout_for, plugin_placeholder_key, update_key_health, KeyHealthUpdate};
use xrl_router::router::mime_for_filename;
use xrl_router::config::ConfigEnv;
use xrl_router::config::parse_u16;
use xrl_router::config::parse_origins;
use xrl_router::router::asset_path_for;
use xrl_router::handlers::{allowed_models_json, mask_key, new_service_key, quota_setting};
use xrl_router::handlers::{validate_reorder, ReorderError};
use xrl_router::handlers::{fetch_models_headers, model_ids_of};
use xrl_router::json::parse_json;
use xrl_router::handlers::{log_page, setting_bool_text, stats_window};
use xrl_router::handlers::{settings_json, ui_settings_json};
use xrl_router::config::parse_i32;
use xrl_router::fm::{FmAction, FmEvent, FmPhase, FmRadio};

#[test]
fn test_mark_failed_enters_cooldown() {
    let mut c = ProviderCooldowns::new();
    let now = 1_000;
    assert!(!c.is_provider_cooling("p1", now));
    c.mark_provider_failed("p1", now);
    assert!(c.is_provider_cooling("p1", now));
    assert!(!c.is_provider_cooling("p2", now));
}

#[test]
fn test_mark_ok_clears_cooldown() {
    let mut c = ProviderCooldowns::new();
    c.mark_provider_failed("p1", 1_000);
    c.mark_provider_ok("p1");
    assert!(!c.is_provider_cooling("p1", 1_000));
}

#[test]
fn test_expired_cooldown_is_not_cooling() {
    let mut c = ProviderCooldowns::new();
    c.mark_provider_failed("p1", 1_000);
    assert!(c.is_provider_cooling("p1", 1_059));
    assert!(!c.is_provider_cooling("p1", 1_060));
}

#[test]
fn test_clear_cooldowns() {
    let mut c = ProviderCooldowns::new();
    c.mark_provider_failed("p1", 5);
    c.mark_provider_failed("p2", 5);
    c.clear_cooldowns();
    assert!(!c.is_provider_cooling("p1", 5));
    assert!(!c.is_provider_cooling("p2", 5));
}

#[test]
fn failing_twice_keeps_one_entry() {
    let mut c = ProviderCooldowns::new();
    c.mark_provider_failed("p1", 5);
    c.mark_provider_failed("p1", 100);
    assert_eq!(c.entries.len(), 1);
    assert!(c.is_provider_cooling("p1", 150));
}

#[test]
fn key_health_by_status() {
    assert_eq!(update_key_health(401), KeyHealthUpdate::MarkInvalid);
    assert_eq!(update_key_health(403), KeyHealthUpdate::MarkInvalid);
    assert_eq!(update_key_health(402), KeyHealthUpdate::MarkLowQuota);
    assert_eq!(update_key_health(429), KeyHealthUpdate::MarkLowQuota);
    assert_eq!(update_key_health(204), KeyHealthUpdate::RecordSuccess);
    assert_eq!(update_key_health(500), KeyHealthUpdate::Unchanged);
    assert_eq!(update_key_health(400), KeyHealthUpdate::Unchanged);
}

#[test]
fn plugin_key_is_a_placeholder() {
    let k = plugin_placeholder_key("p9", "Plugin P");
    assert_eq!(k.id, "plugin:p9");
    assert_eq!(k.key_hash, "xrl-router");
    assert_eq!(k.key_masked, "xrl-router");
}

#[test]
fn header_timeout_grows_with_input() {
    assert_eq!(header_timeout_for(0), 300);
    assert_eq!(header_timeout_for(50_000), 480);
    assert_eq!(header_timeout_for(100_000), 600);
}

#[test]
fn config_defaults_and_address() {
    let c = Config::default();
    assert_eq!(c.port, 19068);
    assert_eq!(c.addr(), "0.0.0.0:19068");
    assert_eq!(c.cors_origins.len(), 7);
    let c2 = Config { port: 8, host: "h".to_string(), ..Config::default() };
    assert_eq!(c2.addr(), "h:8");
}

#[test]
fn search_query_defaults() {
    assert_eq!(default_filter(), "gguf");
    assert_eq!(default_limit(), 30);
    let q = HfSearchQuery::with_defaults("qwen");
    assert_eq!(q.filter, "gguf");
    let b = UpdatePluginBody::default();
    assert!(b.autostart.is_none() && b.work_dir.is_none());
    assert_ne!(FmControl::Play, FmControl::Pause);
}

#[test]
fn wallclock_seed_finds_the_playing_track() {
    let starts = track_starts();
    assert_eq!(starts[0], 0);
    assert_eq!(starts[1], 107);
    assert_eq!(seed_from_wallclock(0, &starts), 0);
    assert_eq!(seed_from_wallclock(106, &starts), 0);
    assert_eq!(seed_from_wallclock(107, &starts), 1);
    assert_eq!(seed_from_wallclock(4097 + 107, &starts), 1);
    assert_eq!(seed_from_wallclock(4096, &starts), 20);
    assert_eq!(seed_from_wallclock(4097, &starts), 0);
    assert_eq!(resume_position(4096, &starts, 20), (20, 182, false));
}

#[test]
fn mime_types_by_extension() {
    assert_eq!(mime_for_filename("app.js"), "text/javascript; charset=utf-8");
    assert_eq!(mime_for_filename("a.b.css"), "text/css; charset=utf-8");
    assert_eq!(mime_for_filename("font.woff2"), "font/woff2");
    assert_eq!(mime_for_filename("noext"), "application/octet-stream");
    assert_eq!(mime_for_filename("png"), "image/png");
}

#[test]
fn config_from_values_overrides_defaults() {
    let env = ConfigEnv {
        port: Some("8080".to_string()),
        host: Some("127.0.0.1".to_string()),
        db_path: None,
        log_level: Some("debug".to_string()),
        api_key: Some("".to_string()),
        cors_origins: Some(" http://a , ,http://b,".to_string()),
    };
    let c = Config::from_values(&env);
    assert_eq!(c.port, 8080);
    assert_eq!(c.host, "127.0.0.1");
    assert_eq!(c.db_path, "data/xrl-router.db");
    assert_eq!(c.log_level, "debug");
    assert!(c.api_key.is_none());
    assert_eq!(c.cors_origins, vec!["http://a".to_string(), "http://b".to_string()]);
    assert_eq!(c.addr(), "127.0.0.1:8080");
}

#[test]
fn config_from_values_ignores_bad_values() {
    let env = ConfigEnv {
        port: Some("70000".to_string()),
        host: None,
        db_path: None,
        log_level: None,
        api_key: Some("k".to_string()),
        cors_origins: Some(" , ".to_string()),
    };
    let c = Config::from_values(&env);
    assert_eq!(c.port, 19068);
    assert_eq!(c.api_key.as_deref(), Some("k"));
    assert_eq!(c.cors_origins.len(), 7);
}

#[test]
fn port_numbers_read_as_u16_does() {
    for t in ["0", "+5", "65535", "0080", "", "+", "-1", "65536", "1a", " 1", "99999999999"] {
        assert_eq!(parse_u16(t), t.parse::<u16>().ok(), "{:?}", t);
    }
}

#[test]
fn origins_split_like_str_split() {
    for t in ["", ",", "a", "a,b", " a ,,\tb\n", "a,", ",a"] {
        let expected: Vec<String> =
            t.split(',').map(|s| s.trim().to_string()).filter(|s| !s.is_empty()).collect();
        assert_eq!(parse_origins(t), expected, "{:?}", t);
    }
}

#[test]
fn asset_paths_refuse_traversal() {
    assert_eq!(asset_path_for("index-abc.js").as_deref(), Some("assets/index-abc.js"));
    assert_eq!(asset_path_for("../secret"), None);
    assert_eq!(asset_path_for("a\\b"), None);
    assert_eq!(asset_path_for("a..b"), None);
    assert_eq!(asset_path_for("a.b").as_deref(), Some("assets/a.b"));
}

#[test]
fn service_keys_are_masked_to_their_last_four() {
    let k = new_service_key();
    assert_eq!(k.raw_key.len(), 36);
    assert!(k.raw_key.starts_with("xrl-"));
    assert!(k.raw_key[4..].chars().all(|c| c.is_ascii_hexdigit() && !c.is_ascii_uppercase()));
    assert_eq!(k.key_masked, format!("****{}", &k.raw_key[32..]));
    assert_eq!(mask_key("abc"), "****");
    assert_eq!(mask_key("abcdef"), "****cdef");
    assert_eq!(allowed_models_json(&vec!["a".to_string(), "b\"c".to_string()]), "[\"a\",\"b\\\"c\"]");
    assert_eq!(allowed_models_json(&vec![]), "[]");
    assert_eq!(quota_setting(Some(-1)), None);
    assert_eq!(quota_setting(Some(0)), Some(0));
    assert_eq!(quota_setting(None), None);
}

#[test]
fn provider_reorder_is_checked_in_order() {
    let known = vec!["a".to_string(), "b".to_string(), "c".to_string()];
    let ids = |v: &[&str]| v.iter().map(|s| s.to_string()).collect::<Vec<String>>();
    assert_eq!(validate_reorder(&ids(&["c", "a", "b"]), &known), Ok(()));
    let e = validate_reorder(&ids(&[]), &known).unwrap_err();
    assert_eq!(e, ReorderError::Empty);
    assert_eq!(e.message(), "ids must not be empty");
    let e = validate_reorder(&ids(&["a", "x", "a"]), &known).unwrap_err();
    assert_eq!(e, ReorderError::Unknown("x".to_string()));
    assert_eq!(e.message(), "unknown provider id: x");
    let e = validate_reorder(&ids(&["a", "a", "x"]), &known).unwrap_err();
    assert_eq!(e, ReorderError::Duplicate("a".to_string()));
    assert_eq!(e.message(), "duplicate id: a");
}

#[test]
fn upstream_model_lists_and_their_headers() {
    let h = fetch_models_headers("messages", Some("k1"));
    assert_eq!(h, vec![
        ("x-api-key".to_string(), "k1".to_string()),
        ("anthropic-version".to_string(), "2023-06-01".to_string()),
    ]);
    let h = fetch_models_headers("chat_completions", Some("k1"));
    assert_eq!(h, vec![("Authorization".to_string(), "Bearer k1".to_string())]);
    assert!(fetch_models_headers("messages", Some("")).is_empty());
    assert!(fetch_models_headers("messages", None).is_empty());
    let body = parse_json(r#"{"data":[{"id":"a"},{"name":"x"},{"id":3},{"id":"b"}]}"#).unwrap();
    assert_eq!(model_ids_of(&body), vec!["a".to_string(), "b".to_string()]);
    let body = parse_json(r#"{"models":[]}"#).unwrap();
    assert!(model_ids_of(&body).is_empty());
}

#[test]
fn log_pages_and_stats_windows() {
    assert_eq!(log_page(None, None), (1, 10));
    assert_eq!(log_page(Some(0), Some(500)), (1, 100));
    assert_eq!(log_page(Some(3), Some(0)), (3, 1));
    let w = stats_window(None, None, None, None, 1_000_000);
    assert_eq!((w.from, w.to, w.bucket_seconds, w.tz_offset), (1_000_000 - 86400, 1_000_000, 86400, 0));
    let w = stats_window(Some(5), Some(9), Some("hour"), Some(-480), 1_000_000);
    assert_eq!((w.from, w.to, w.bucket_seconds, w.tz_offset), (5, 9, 3600, -480));
    assert_eq!(stats_window(None, None, Some("day"), None, 100_000).bucket_seconds, 86400);
    assert_eq!(setting_bool_text(true), "true");
    assert_eq!(setting_bool_text(false), "false");
}

#[test]
fn settings_documents_fill_in_defaults() {
    let v = ui_settings_json(&None, &None, &None);
    assert_eq!(v.str_at("theme"), Some("system"));
    assert_eq!(v.u64_at("hue"), Some(264));
    assert_eq!(v.str_at("locale"), Some("zh-CN"));
    let v = ui_settings_json(&Some("dark".to_string()), &Some("bad".to_string()), &Some("en".to_string()));
    assert_eq!(v.str_at("theme"), Some("dark"));
    assert_eq!(v.u64_at("hue"), Some(264));
    assert_eq!(v.str_at("locale"), Some("en"));
    let v = settings_json(true, false, true, &None, &Some("120".to_string()), &None);
    assert_eq!(v.bool_at("mcp_websearch"), Some(true));
    assert_eq!(v.bool_at("mcp_webfetch"), Some(false));
    assert_eq!(v.bool_at("failover_enabled"), Some(true));
    assert_eq!(v.u64_at("hue"), Some(120));
}

#[test]
fn signed_numbers_read_as_i32_does() {
    for t in ["0", "-0", "+7", "-2147483648", "2147483647", "2147483648", "-2147483649", "", "-", "+", "1-", " 3", "0042"] {
        assert_eq!(parse_i32(t), t.parse::<i32>().ok(), "{:?}", t);
    }
}

#[test]
fn keys_for_plugin_candidates_are_placeholders() {
    use_pick_key();
}

fn use_pick_key() {
    let mut cand = xrl_router::route::ResolvedRoute {
        upstream_url: "http://x".to_string(),
        provider_kind: "messages".to_string(),
        provider_id: "p1".to_string(),
        provider_name: "P one".to_string(),
        real_model_id: "m".to_string(),
        model_row_id: "r".to_string(),
        plugin_id: Some("plug".to_string()),
    };
    let k = xrl_router::key_rotation::pick_key_for(&cand, None).unwrap();
    assert_eq!(k.id, "plugin:p1");
    assert_eq!(k.name, "P one");
    assert_eq!(k.key_hash, "xrl-router");
    assert_eq!(k.key_masked, "xrl-router");
    cand.plugin_id = None;
    assert!(xrl_router::key_rotation::pick_key_for(&cand, None).is_none());
    let pooled = plugin_placeholder_key("z", "Z");
    let k = xrl_router::key_rotation::pick_key_for(&cand, Some(pooled)).unwrap();
    assert_eq!(k.id, "plugin:z");
}

#[test]
fn fm_radio_follows_the_wall_clock() {
    // 1_000_000 % 4097 == 332: the second track (start 107) at offset 225.
    let (mut r, a) = FmRadio::new(1_000_000);
    assert_eq!(r.idx, 1);
    assert_eq!(a, FmAction::Load(1));
    assert!(r.muted);
    assert_eq!(r.step(FmEvent::Loaded), FmAction::Start { index: 1, audible: false, seek: Some(225), preload: 2 });
    assert_eq!(r.phase, FmPhase::Wait);
    // Play ten seconds later: the same track, ten seconds further.
    assert_eq!(r.step(FmEvent::Control(FmControl::Play, 1_000_010)), FmAction::Resume { offset: 235 });
    assert!(!r.muted);
    assert_eq!(r.step(FmEvent::Control(FmControl::Play, 1_000_011)), FmAction::Nothing);
    assert_eq!(r.step(FmEvent::Control(FmControl::Toggle, 1_000_020)), FmAction::Mute);
    assert_eq!(r.step(FmEvent::Control(FmControl::Pause, 1_000_021)), FmAction::Nothing);
    // Unmute half an hour later: another track is due.
    match r.step(FmEvent::Control(FmControl::Toggle, 1_001_800)) {
        FmAction::Reload(i) => {
            // 1_001_800 % 4097 == 2132: the tenth track (start 1747) at 385.
            assert_eq!(i, 9);
            assert_eq!(r.pending_seek, Some(385));
        },
        other => panic!("expected a reload, got {:?}", other),
    }
    assert_eq!(r.step(FmEvent::Loaded), FmAction::Start { index: 9, audible: true, seek: Some(385), preload: 10 });
    assert_eq!(r.step(FmEvent::TrackEnded), FmAction::Load(10));
    assert_eq!(r.step(FmEvent::LoadFailed), FmAction::Load(11));
    assert!(!r.fits(&FmEvent::TrackEnded));
    r.step(FmEvent::Loaded);
    assert_eq!(r.step(FmEvent::Disconnected), FmAction::Stop);
    assert!(!r.fits(&FmEvent::Control(FmControl::Play, 0)));
}

#[test]
fn fm_radio_wraps_around_the_playlist() {
    // 4096 is the last second of the playlist: the last track.
    let (mut r, a) = FmRadio::new(4096);
    assert_eq!(a, FmAction::Load(20));
    r.step(FmEvent::Loaded);
    assert_eq!(r.step(FmEvent::TrackEnded), FmAction::Load(0));
}

#[test]
fn fm_radio_starts_on_the_playlist_track_of_the_moment() {
    let (r, a) = FmRadio::new(50);
    assert_eq!((r.idx, r.pending_seek, a), (0, Some(50), FmAction::Load(0)));
    assert_eq!(r.starts, track_starts());
    let (r, _) = FmRadio::new(4097 * 3 + 428);
    assert_eq!((r.idx, r.pending_seek), (2, Some(0)));
}
