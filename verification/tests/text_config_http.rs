use roxlit::config::{
    default_config, is_project_candidate, merge_update_state, set_active_project, set_place_id,
    set_update_delay, upsert_project, ProjectEntry,
};
use roxlit::digits::{parse_u64, u64_to_padded_string, u64_to_string};
use roxlit::events::{calculate_total_steps, rbxsync_asset_name, rbxsync_mcp_download_url, InstallConfig};
use roxlit::http::{process_log_batch, request_body, route_request, route_response, Route};
use roxlit::logging::{
    format_log_line, is_session_log, latest_log_path, level_prefix, logs_dir, rotation_plan,
    session_footer, session_header, session_log_name, session_timestamp,
};
use roxlit::templates::{
    debug_plugin_luau, debug_plugin_rbxm, luaurc, project_json, rbxsync_json, server_script,
};
use roxlit::text::{parse_rojo_port, split_words, strip_ansi, to_ascii_lower};
use roxlit::util::{expand_tilde, expand_tilde_with};

#[test]
fn strip_ansi_removes_color_codes() {
    assert_eq!(strip_ansi("\u{1b}[32mhello\u{1b}[0m world"), "hello world");
    assert_eq!(strip_ansi("plain"), "plain");
    assert_eq!(strip_ansi("\u{1b}x rest"), " rest");
    assert_eq!(strip_ansi("tail\u{1b}"), "tail");
}

#[test]
fn rojo_port_parsing() {
    assert_eq!(parse_rojo_port("Rojo server listening on port 34872"), Some(34872));
    assert_eq!(parse_rojo_port("Rojo server listening at localhost:34872"), Some(34872));
    assert_eq!(parse_rojo_port("LISTENING :8080"), Some(8080));
    // ports below 1024 are not believed
    assert_eq!(parse_rojo_port("listening on port 80"), None);
    // unrelated lines never name a port
    assert_eq!(parse_rojo_port("compiled 34872 files"), None);
    assert_eq!(parse_rojo_port("nothing here"), None);
}

#[test]
fn word_and_case_helpers() {
    assert_eq!(split_words(" a  bb\tc "), vec!["a", "bb", "c"]);
    assert_eq!(split_words(""), Vec::<String>::new());
    assert_eq!(to_ascii_lower("Rojo PORT"), "rojo port");
}

#[test]
fn decimal_printing_and_parsing() {
    assert_eq!(u64_to_string(0), "0");
    assert_eq!(u64_to_string(1735689600), "1735689600");
    assert_eq!(u64_to_padded_string(7, 4), "0007");
    assert_eq!(u64_to_padded_string(12345, 4), "12345");
    assert_eq!(parse_u64("34872"), Some(34872));
    assert_eq!(parse_u64(""), None);
    assert_eq!(parse_u64("12x"), None);
    assert_eq!(parse_u64("18446744073709551615"), Some(u64::MAX));
    assert_eq!(parse_u64("18446744073709551616"), None);
}

#[test]
fn session_log_rotation_and_names() {
    assert_eq!(logs_dir("/p"), "/p/.roxlit/logs");
    assert_eq!(latest_log_path("/p"), "/p/.roxlit/logs/latest.log");
    assert_eq!(session_log_name(1735689600), "session-1735689600.log");
    assert_eq!(rotation_plan(false, 5), None);
    assert_eq!(rotation_plan(true, 1735689600), Some("session-1735689600.log".to_string()));
    assert!(is_session_log("session-5.log"));
    assert!(!is_session_log("latest.log"));
    assert_eq!(session_timestamp("session-1735689600.log"), Some(1735689600));
    assert_eq!(session_timestamp("session-x.log"), None);
    assert_eq!(session_timestamp("other.log"), None);
}

#[test]
fn log_lines_and_markers() {
    assert_eq!(
        format_log_line(1735689600, "rojo", "started"),
        "[2025-01-01T00:00:00Z] [rojo] started\n"
    );
    assert_eq!(session_header(0), "=== Roxlit Session — 1970-01-01T00:00:00Z ===\n\n");
    assert_eq!(session_footer(0), "\n=== Session ended — 1970-01-01T00:00:00Z ===\n");
    assert_eq!(level_prefix("error"), "studio-err");
    assert_eq!(level_prefix("warn"), "studio-warn");
    assert_eq!(level_prefix("info"), "studio");
    assert_eq!(level_prefix("anything"), "studio");
}

#[test]
fn request_routing() {
    assert_eq!(route_request("GET /health HTTP/1.1"), Route::Health);
    assert_eq!(route_request("POST /log HTTP/1.1"), Route::Log);
    assert_eq!(route_request("OPTIONS /log HTTP/1.1"), Route::Preflight);
    assert_eq!(route_request("GET /other HTTP/1.1"), Route::NotFound);
    assert!(route_response(Route::Health).starts_with("HTTP/1.1 200 OK"));
    assert!(route_response(Route::Log).contains("ok"));
    assert!(route_response(Route::Preflight).starts_with("HTTP/1.1 204"));
    assert!(route_response(Route::NotFound).starts_with("HTTP/1.1 404"));
}

#[test]
fn body_extraction() {
    let req = "POST /log HTTP/1.1\r\nContent-Length: 2\r\n\r\n[]";
    assert_eq!(request_body(req), Some("[]"));
    assert_eq!(request_body("GET /health HTTP/1.1\r\n"), None);
}

#[test]
fn log_batch_processing() {
    let body = r#"[{"message": "hello", "level": "error", "timestamp": 1.5},
                   {"message": "fine", "level": "info", "timestamp": 2.0},
                   {"level": "warn", "timestamp": 3.0}]"#;
    let lines = process_log_batch(body, 0);
    assert_eq!(
        lines,
        vec![
            "[1970-01-01T00:00:00Z] [studio-err] hello\n".to_string(),
            "[1970-01-01T00:00:00Z] [studio] fine\n".to_string(),
            "[1970-01-01T00:00:00Z] [studio-warn] \n".to_string(),
        ]
    );
    // malformed bodies are dropped without a line
    assert!(process_log_batch("not json", 0).is_empty());
    assert!(process_log_batch("{\"message\": \"solo\"}", 0).is_empty());
}

#[test]
fn tilde_expansion() {
    assert_eq!(expand_tilde_with("~/game", Some("/home/u"), false), "/home/u/game");
    assert_eq!(expand_tilde_with("~", Some("/home/u"), false), "/home/u");
    assert_eq!(expand_tilde_with("/abs/game", Some("/home/u"), false), "/abs/game");
    assert_eq!(expand_tilde_with("~/game", None, false), "~/game");
    // on Windows the separators are normalized as well
    assert_eq!(expand_tilde_with("~/game/sub", Some("C:/Users/u"), true), "C:\\Users\\u\\game\\sub");
    assert_eq!(expand_tilde_with("a/b", None, true), "a\\b");
    // without a tilde the home directory cannot matter
    assert_eq!(expand_tilde("/abs/game", false), "/abs/game");
}

#[test]
fn config_upsert_preserves_linked_ids() {
    let mut config = default_config();
    upsert_project(
        &mut config,
        ProjectEntry {
            name: "game".to_string(),
            path: "/p/game".to_string(),
            ai_tool: "cursor".to_string(),
            created_at: "2025-01-01T00:00:00Z".to_string(),
            place_id: Some(77),
            universe_id: Some(88),
        },
    );
    assert_eq!(config.projects.len(), 1);
    assert_eq!(config.last_active_project.as_deref(), Some("/p/game"));

    // saving the same path without identifiers keeps the stored ones
    upsert_project(
        &mut config,
        ProjectEntry {
            name: "game2".to_string(),
            path: "/p/game".to_string(),
            ai_tool: "cursor".to_string(),
            created_at: "2025-02-01T00:00:00Z".to_string(),
            place_id: None,
            universe_id: None,
        },
    );
    assert_eq!(config.projects.len(), 1);
    assert_eq!(config.projects[0].name, "game2");
    assert_eq!(config.projects[0].ai_tool, "cursor");
    assert_eq!(config.projects[0].place_id, Some(77));
    assert_eq!(config.projects[0].universe_id, Some(88));

    // a different path is appended
    upsert_project(
        &mut config,
        ProjectEntry {
            name: "other".to_string(),
            path: "/p/other".to_string(),
            ai_tool: "cursor".to_string(),
            created_at: "2025-03-01T00:00:00Z".to_string(),
            place_id: None,
            universe_id: None,
        },
    );
    assert_eq!(config.projects.len(), 2);
    assert_eq!(config.last_active_project.as_deref(), Some("/p/other"));
}

#[test]
fn config_update_state_and_settings() {
    let mut config = default_config();
    merge_update_state(&mut config, Some("2025-01-01T00:00:00Z".to_string()), None);
    assert_eq!(config.last_update_check.as_deref(), Some("2025-01-01T00:00:00Z"));
    assert_eq!(config.dismissed_version, None);
    merge_update_state(&mut config, None, Some("0.2.0".to_string()));
    assert_eq!(config.last_update_check.as_deref(), Some("2025-01-01T00:00:00Z"));
    assert_eq!(config.dismissed_version.as_deref(), Some("0.2.0"));
    set_update_delay(&mut config, 3);
    assert_eq!(config.update_delay_days, Some(3));
    set_active_project(&mut config, "/p/game".to_string());
    assert_eq!(config.last_active_project.as_deref(), Some("/p/game"));
}

#[test]
fn config_place_id_updates_matching_entry() {
    let mut config = default_config();
    upsert_project(
        &mut config,
        ProjectEntry {
            name: "game".to_string(),
            path: "/p/game".to_string(),
            ai_tool: "cursor".to_string(),
            created_at: "t".to_string(),
            place_id: None,
            universe_id: Some(5),
        },
    );
    assert!(set_place_id(&mut config, "/p/game", 123, None));
    assert_eq!(config.projects[0].place_id, Some(123));
    assert_eq!(config.projects[0].universe_id, Some(5));
    assert!(set_place_id(&mut config, "/p/game", 124, Some(9)));
    assert_eq!(config.projects[0].universe_id, Some(9));
    assert!(!set_place_id(&mut config, "/p/missing", 1, None));
}

#[test]
fn project_scan_decisions() {
    assert!(is_project_candidate("game", true, true));
    assert!(!is_project_candidate(".hidden", true, true));
    assert!(!is_project_candidate("file", false, true));
    assert!(!is_project_candidate("empty", true, false));
}

#[test]
fn installer_step_counts_and_assets() {
    let base = InstallConfig {
        ai_tool: "cursor".to_string(),
        project_path: "/p".to_string(),
        project_name: "game".to_string(),
        skip_aftman: false,
        skip_rojo: false,
        skip_rbxsync: false,
        plugins_path: None,
    };
    assert_eq!(calculate_total_steps(&base), 6);
    let all_skipped = InstallConfig { skip_aftman: true, skip_rojo: true, skip_rbxsync: true, ..base };
    assert_eq!(calculate_total_steps(&all_skipped), 3);

    assert_eq!(rbxsync_asset_name("windows", "x86_64"), Some("rbxsync-windows-x86_64.exe"));
    assert_eq!(rbxsync_asset_name("macos", "aarch64"), Some("rbxsync-macos-aarch64"));
    assert_eq!(rbxsync_asset_name("macos", "x86_64"), Some("rbxsync-macos-x86_64"));
    assert_eq!(rbxsync_asset_name("linux", "x86_64"), None);
    assert!(rbxsync_mcp_download_url("macos", "aarch64").unwrap().contains("rbxsync-mcp-macos-arm64"));
    assert!(rbxsync_mcp_download_url("windows", "x86_64").unwrap().ends_with("rbxsync-mcp.exe"));
    assert_eq!(rbxsync_mcp_download_url("linux", "x86_64"), None);
}

#[test]
fn templates_carry_the_project_name() {
    let pj = project_json("my-game");
    assert!(pj.contains("\"name\": \"my-game\""));
    assert!(pj.contains("globIgnorePaths"));
    let rj = rbxsync_json("my-game");
    assert!(rj.contains("\"name\": \"my-game\""));
    assert!(rj.contains("excludeServices"));
    assert!(luaurc().contains("strict"));
    assert!(server_script().contains("PlayerAdded"));
    let plugin = debug_plugin_luau();
    assert!(plugin.contains("RoxlitDebug v1.0.1"));
}

#[test]
fn plugin_model_file_layout() {
    let bytes = debug_plugin_rbxm();
    assert_eq!(&bytes[0..8], b"<roblox!");
    assert_eq!(&bytes[8..14], &[0x89, 0xFF, 0x0D, 0x0A, 0x1A, 0x0A]);
    // version 0, one class, one instance
    assert_eq!(&bytes[14..16], &[0, 0]);
    assert_eq!(&bytes[16..20], &[1, 0, 0, 0]);
    assert_eq!(&bytes[20..24], &[1, 0, 0, 0]);
    // first chunk declares the Script class
    assert_eq!(&bytes[32..36], b"INST");
    // and the file ends with the closing tag
    assert_eq!(&bytes[bytes.len() - 9..], b"</roblox>");
}

#[test]
fn studio_deep_link() {
    assert_eq!(
        roxlit::util::studio_url(123, 9),
        "roblox-studio:1+launchmode:edit+task:EditPlace+placeId:123+universeId:9"
    );
}
