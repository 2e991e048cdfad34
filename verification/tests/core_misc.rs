use minmax_code::commands::{handle_command, CommandResult};
use minmax_code::quota::{
    format_minimax_error, minimax_error_solution, parse_minimax_error, parse_quota_info,
    quota_counts, quota_outcome, to_minutes, QuotaAttempt,
};
use minmax_code::settings::{config_file, is_valid_model, normalize_model, AppConfig};
use minmax_code::stream::QuotaInfo;
use minmax_code::themes::{get_theme, theme_names, Color};
use minmax_code::version::is_newer;

fn json(s: &str) -> serde_json::Value {
    serde_json::from_str::<serde_json::Value>(s).unwrap()
}

#[test]
fn hex_color_parsing() {
    let c = Color::from_hex("#1a1b26");
    assert_eq!(c.r, 0x1a);
    assert_eq!(c.g, 0x1b);
    assert_eq!(c.b, 0x26);
}

#[test]
fn hex_color_round_trip() {
    let c = Color::rgb(255, 128, 0);
    assert_eq!(c.to_hex(), "#ff8000");
    let c2 = Color::from_hex(&c.to_hex());
    assert_eq!(c, c2);
}

#[test]
fn all_themes_exist() {
    let names = theme_names();
    assert!(names.contains(&"tokyo-night"));
    assert!(names.contains(&"rose-pine"));
    assert!(names.contains(&"gruvbox"));
}

#[test]
fn get_theme_fallback() {
    let t = get_theme("nonexistent");
    assert_eq!(t.name, "Tokyo Night");
}

#[test]
fn newer_major() {
    assert!(is_newer("1.0.0", "0.1.0"));
}

#[test]
fn newer_minor() {
    assert!(is_newer("0.2.0", "0.1.0"));
}

#[test]
fn newer_patch() {
    assert!(is_newer("0.1.1", "0.1.0"));
}

#[test]
fn same_version() {
    assert!(!is_newer("0.1.0", "0.1.0"));
}

#[test]
fn older_version() {
    assert!(!is_newer("0.0.9", "0.1.0"));
}

#[test]
fn default_config_has_expected_values() {
    let config = AppConfig::default();
    assert_eq!(config.api_key, "");
    assert_eq!(config.model, "MiniMax-M2.5");
    assert_eq!(config.theme, "tokyo-night");
    assert!(config.mcp_servers.is_empty());
}

#[test]
fn config_file_path_under_home() {
    assert_eq!(config_file("/home/someone"), "/home/someone/.minmax-code/config.json");
}

#[test]
fn invalid_model_resets_to_default() {
    assert!(is_valid_model("MiniMax-M2.5-highspeed"));
    assert!(!is_valid_model("Old-Model"));
    assert_eq!(normalize_model("Old-Model"), "MiniMax-M2.5");
    assert_eq!(normalize_model("MiniMax-M2.5-highspeed"), "MiniMax-M2.5-highspeed");
}

#[test]
fn to_minutes_handles_ms_and_seconds() {
    assert_eq!(to_minutes(14940000), 249);
    assert_eq!(to_minutes(14940), 249);
}

#[test]
fn parse_quota_info_standard_shape() {
    let payload = json(
        r#"{"base_resp": {"status_code": 0, "status_msg": "success"},
            "model_remains": [{"current_interval_total_count": 1500,
                               "current_interval_usage_count": 15,
                               "remains_time": 14940000}]}"#,
    );
    let quota = parse_quota_info(&payload).unwrap();
    assert_eq!(quota.total, 1500);
    assert_eq!(quota.used, 15);
    assert_eq!(quota.remaining, 1485);
    assert_eq!(quota.reset_minutes, 249);
}

#[test]
fn parse_quota_info_nested_data_and_string_values() {
    let payload = json(
        r#"{"data": {"model_remains": [{"current_interval_total_count": "1000",
                                        "current_interval_usage_count": "10",
                                        "remains_time": "14940"}]}}"#,
    );
    let quota = parse_quota_info(&payload).unwrap();
    assert_eq!(quota.total, 1000);
    assert_eq!(quota.used, 10);
    assert_eq!(quota.remaining, 990);
    assert_eq!(quota.reset_minutes, 249);
}

#[test]
fn parse_quota_info_rejects_api_error_payload() {
    let payload = json(r#"{"base_resp": {"status_code": 1004, "status_msg": "invalid token"}}"#);
    let err = parse_quota_info(&payload).unwrap_err();
    assert!(err.contains("MiniMax error 1004"));
}

#[test]
fn parse_quota_info_accepts_model_remains_even_with_nonzero_status() {
    let payload = json(
        r#"{"base_resp": {"status_code": 1000, "status_msg": "unknown error"},
            "model_remains": [{"current_interval_total_count": 1200,
                               "current_interval_usage_count": 12,
                               "remains_time": 14940000}]}"#,
    );
    let quota = parse_quota_info(&payload).unwrap();
    assert_eq!(quota.total, 1200);
    assert_eq!(quota.used, 12);
    assert_eq!(quota.remaining, 1188);
    assert_eq!(quota.reset_minutes, 249);
}

#[test]
fn parse_minimax_error_from_base_resp() {
    let payload = json(r#"{"base_resp": {"status_code": 1004, "status_msg": "invalid token"}}"#);
    let msg = parse_minimax_error(&payload).unwrap();
    assert!(msg.contains("MiniMax error 1004"));
    assert!(msg.contains("Check your API key"));
}

#[test]
fn parse_minimax_error_from_error_object() {
    let payload = json(r#"{"error": {"code": 2056, "message": "usage limit exceeded"}}"#);
    let msg = parse_minimax_error(&payload).unwrap();
    assert!(msg.contains("MiniMax error 2056"));
    assert!(msg.contains("5-hour window"));
}

#[test]
fn error_table_formats_guidance() {
    assert_eq!(minimax_error_solution(1008), Some("Check your account balance."));
    assert_eq!(minimax_error_solution(424242), None);
    assert_eq!(
        format_minimax_error(1008, "no balance"),
        "MiniMax error 1008: no balance. Check your account balance."
    );
    assert_eq!(format_minimax_error(424242, "odd"), "MiniMax error 424242: odd");
}

#[test]
fn quota_counts_derive_missing_fields() {
    assert_eq!(quota_counts(1500, Some(15), None), (15, 1485));
    assert_eq!(quota_counts(1500, None, Some(1485)), (15, 1485));
    assert_eq!(quota_counts(10, None, Some(50)), (0, 50));
}

#[test]
fn quota_chain_third_endpoint_succeeds() {
    let q = QuotaInfo { used: 1, total: 10, remaining: 9, reset_minutes: 5 };
    let attempts = vec![
        QuotaAttempt::Failure("urlA -> HTTP 500".to_string()),
        QuotaAttempt::Failure("urlB -> HTTP 403".to_string()),
        QuotaAttempt::Success(q.clone()),
    ];
    assert_eq!(quota_outcome(&attempts).unwrap(), q);
}

#[test]
fn quota_chain_all_failures_aggregate() {
    let attempts = vec![
        QuotaAttempt::Failure("urlA -> HTTP 500".to_string()),
        QuotaAttempt::Failure("urlB -> HTTP 403".to_string()),
        QuotaAttempt::Failure("urlC -> invalid JSON".to_string()),
    ];
    let err = quota_outcome(&attempts).unwrap_err();
    assert_eq!(
        err,
        "Quota API failed across all endpoints: urlA -> HTTP 500 | urlB -> HTTP 403 | urlC -> invalid JSON"
    );
}

#[test]
fn non_command_returns_none() {
    assert_eq!(handle_command("hello"), CommandResult::NotCommand);
    assert_eq!(handle_command("not a /command"), CommandResult::NotCommand);
}

#[test]
fn basic_commands() {
    assert_eq!(handle_command("/new"), CommandResult::NewSession);
    assert_eq!(handle_command("/clear"), CommandResult::Clear);
    assert_eq!(handle_command("/exit"), CommandResult::Exit);
    assert_eq!(handle_command("/quit"), CommandResult::Exit);
    assert_eq!(handle_command("/sessions"), CommandResult::Sessions);
    assert_eq!(handle_command("/config"), CommandResult::Config);
    assert_eq!(handle_command("/init"), CommandResult::CreateAgentFile);
}

#[test]
fn model_command() {
    match handle_command("/model MiniMax-M2.5") {
        CommandResult::SetModel(m) => assert_eq!(m, "MiniMax-M2.5"),
        _ => panic!("expected a model change"),
    }
    match handle_command("/model minimax-m2.5") {
        CommandResult::SetModel(m) => assert_eq!(m, "MiniMax-M2.5"),
        _ => panic!("expected a case-blind model change"),
    }
    match handle_command("/model") {
        CommandResult::Message(msg) => assert!(msg.contains("Available models")),
        _ => panic!("expected the model listing"),
    }
    match handle_command("/model nonexistent") {
        CommandResult::Message(msg) => assert!(msg.contains("Unknown model")),
        _ => panic!("expected an unknown-model message"),
    }
}

#[test]
fn theme_command() {
    match handle_command("/theme gruvbox") {
        CommandResult::SetTheme(t) => assert_eq!(t, "gruvbox"),
        _ => panic!("expected a theme change"),
    }
    match handle_command("/theme") {
        CommandResult::Message(msg) => assert!(msg.contains("Available themes")),
        _ => panic!("expected the theme listing"),
    }
}

#[test]
fn help_command() {
    match handle_command("/help") {
        CommandResult::Message(msg) => {
            assert!(msg.contains("/new"));
            assert!(msg.contains("/exit"));
            assert!(msg.contains("/help"));
        },
        _ => panic!("expected the help text"),
    }
}

#[test]
fn unknown_command() {
    match handle_command("/foo") {
        CommandResult::Message(msg) => assert!(msg.contains("Unknown command")),
        _ => panic!("expected an unknown-command message"),
    }
}

#[test]
fn quota_counts_accept_plus_signed_strings() {
    let payload = json(
        r#"{"model_remains": [{"current_interval_total_count": "1000",
                               "current_interval_usage_count": "+10"}]}"#,
    );
    let quota = parse_quota_info(&payload).unwrap();
    assert_eq!(quota.used, 10);
    assert_eq!(quota.remaining, 990);
}

#[test]
fn quota_counts_saturate_exponent_renderings() {
    let payload = json(
        r#"{"model_remains": [{"current_interval_total_count": 1.5e30,
                               "current_interval_usage_count": 1e-3}]}"#,
    );
    let quota = parse_quota_info(&payload).unwrap();
    assert_eq!(quota.total, u64::MAX);
    assert_eq!(quota.used, 0);
}

#[test]
fn quota_rejections_name_the_reason() {
    let no_entries = parse_quota_info(&json(r#"{"unrelated": true}"#)).unwrap_err();
    assert_eq!(no_entries, "No model_remains data in response");
    let empty_entry =
        parse_quota_info(&json(r#"{"model_remains": [{"irrelevant": 1}]}"#)).unwrap_err();
    assert_eq!(empty_entry, "Quota values missing in model_remains entry");
}
