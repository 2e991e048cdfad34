use minmax_code::picker::{FileEntry, FilePickerState};
use minmax_code::ui::{
    abbreviate_args, api_key_prompt_key, format_reset, format_tokens, mask_api_key, panel_height,
    shorten_path, truncate_chars, ApiKeyAction, ApiKeyPromptState, Key,
};

#[test]
fn format_tokens_small() {
    assert_eq!(format_tokens(0), "0");
    assert_eq!(format_tokens(500), "500");
}

#[test]
fn format_tokens_thousands() {
    assert_eq!(format_tokens(1200), "1.2k");
    assert_eq!(format_tokens(15000), "15.0k");
}

#[test]
fn format_tokens_millions() {
    assert_eq!(format_tokens(1_500_000), "1.5M");
}

#[test]
fn format_reset_minutes_only() {
    assert_eq!(format_reset(9), "9m");
}

#[test]
fn format_reset_hours_and_minutes() {
    assert_eq!(format_reset(249), "4h 9m");
}

#[test]
fn panel_height_small_list() {
    assert_eq!(panel_height(3), 5);
}

#[test]
fn panel_height_max_items() {
    assert_eq!(panel_height(8), 10);
}

#[test]
fn panel_height_overflow() {
    assert_eq!(panel_height(12), 11);
}

#[test]
fn panel_height_empty() {
    assert_eq!(panel_height(0), 2);
}

#[test]
fn panel_height_one_item() {
    assert_eq!(panel_height(1), 3);
}

#[test]
fn mask_empty_key() {
    assert_eq!(mask_api_key(""), "(not set)");
}

#[test]
fn mask_short_key() {
    assert_eq!(mask_api_key("abc"), "***");
}

#[test]
fn mask_normal_key() {
    assert_eq!(mask_api_key("abcdefghijklmnop"), "abcd...mnop");
}

#[test]
fn shorten_path_short() {
    assert_eq!(shorten_path("/home"), "/home");
    assert_eq!(shorten_path("/home/user"), "/home/user");
}

#[test]
fn shorten_path_long() {
    assert_eq!(shorten_path("/home/user/projects/minmax-code"), ".../projects/minmax-code");
}

#[test]
fn truncation_appends_an_ellipsis() {
    assert_eq!(truncate_chars("short", 10), "short");
    assert_eq!(truncate_chars("a very long line", 6), "a very\u{2026}");
}

#[test]
fn tool_view_abbreviate_short_args() {
    let args = r#"{"path":"main.rs"}"#;
    let result = abbreviate_args(args, 60);
    assert_eq!(result, r#"path="main.rs""#);
}

#[test]
fn tool_view_abbreviate_long_args() {
    let long_val = "a".repeat(100);
    let args = format!(r#"{{"content":"{}"}}"#, long_val);
    let result = abbreviate_args(&args, 60);
    assert!(result.chars().count() <= 60 || result.contains('\u{2026}'));
}

#[test]
fn initial_state() {
    let state = ApiKeyPromptState::new();
    assert!(state.input.is_empty());
    assert_eq!(state.cursor, 0);
    assert!(state.error.is_none());
}

#[test]
fn with_error_state() {
    let state = ApiKeyPromptState::with_error("Invalid key".to_string());
    assert_eq!(state.error, Some("Invalid key".to_string()));
}

#[test]
fn type_characters() {
    let mut state = ApiKeyPromptState::new();
    api_key_prompt_key(&mut state, Key::Char('a'));
    api_key_prompt_key(&mut state, Key::Char('b'));
    assert_eq!(state.input, "ab");
    assert_eq!(state.cursor, 2);
}

#[test]
fn backspace_removes_char() {
    let mut state = ApiKeyPromptState::new();
    for c in "abc".chars() {
        api_key_prompt_key(&mut state, Key::Char(c));
    }
    api_key_prompt_key(&mut state, Key::Backspace);
    assert_eq!(state.input, "ab");
    assert_eq!(state.cursor, 2);
}

#[test]
fn empty_submit_shows_error() {
    let mut state = ApiKeyPromptState::new();
    let action = api_key_prompt_key(&mut state, Key::Enter);
    assert_eq!(action, ApiKeyAction::Stay);
    assert!(state.error.is_some());
}

#[test]
fn short_key_shows_error() {
    let mut state = ApiKeyPromptState::new();
    for c in "short".chars() {
        api_key_prompt_key(&mut state, Key::Char(c));
    }
    let action = api_key_prompt_key(&mut state, Key::Enter);
    assert_eq!(action, ApiKeyAction::Stay);
    assert!(state.error.is_some());
}

#[test]
fn valid_key_submits() {
    let mut state = ApiKeyPromptState::new();
    for c in "abcdefghijklmnop".chars() {
        api_key_prompt_key(&mut state, Key::Char(c));
    }
    let action = api_key_prompt_key(&mut state, Key::Enter);
    assert_eq!(action, ApiKeyAction::Submit("abcdefghijklmnop".to_string()));
}

#[test]
fn escape_quits() {
    let mut state = ApiKeyPromptState::new();
    let action = api_key_prompt_key(&mut state, Key::Esc);
    assert_eq!(action, ApiKeyAction::Quit);
}

#[test]
fn typing_clears_error() {
    let mut state = ApiKeyPromptState::with_error("Some error".to_string());
    api_key_prompt_key(&mut state, Key::Char('x'));
    assert!(state.error.is_none());
}

#[test]
fn cursor_moves_within_bounds() {
    let mut state = ApiKeyPromptState::new();
    for c in "ab".chars() {
        api_key_prompt_key(&mut state, Key::Char(c));
    }
    api_key_prompt_key(&mut state, Key::Home);
    assert_eq!(state.cursor, 0);
    api_key_prompt_key(&mut state, Key::Left);
    assert_eq!(state.cursor, 0);
    api_key_prompt_key(&mut state, Key::Right);
    assert_eq!(state.cursor, 1);
    api_key_prompt_key(&mut state, Key::End);
    assert_eq!(state.cursor, 2);
    api_key_prompt_key(&mut state, Key::Right);
    assert_eq!(state.cursor, 2);
}

#[test]
fn picker_state_init() {
    let state = FilePickerState::new(Vec::new());
    assert!(state.query.is_empty());
    assert_eq!(state.selected, 0);
}

#[test]
fn filter_updates_on_query_change() {
    let files = vec![
        FileEntry { path: "main.rs".to_string(), is_dir: false },
        FileEntry { path: "lib.rs".to_string(), is_dir: false },
        FileEntry { path: "mod.rs".to_string(), is_dir: false },
    ];
    let mut state = FilePickerState::new(files);
    state.query = "main".to_string();
    state.update_filter();
    assert_eq!(state.filtered_indices.len(), 1);
    assert_eq!(state.all_files[state.filtered_indices[0]].path, "main.rs");
}

#[test]
fn filter_ranks_prefix_matches_first() {
    let files = vec![
        FileEntry { path: "alib.rs".to_string(), is_dir: false },
        FileEntry { path: "lib.rs".to_string(), is_dir: false },
        FileEntry { path: "zzz.txt".to_string(), is_dir: false },
    ];
    let mut state = FilePickerState::new(files);
    state.query = "LIB".to_string();
    state.update_filter();
    assert_eq!(state.filtered_indices, vec![1, 0]);
    let listed = state.filtered_entries();
    assert_eq!(listed[0].path, "lib.rs");
    assert_eq!(listed[1].path, "alib.rs");
    assert_eq!(state.selected_path().unwrap(), "lib.rs");
}

#[test]
fn wrap_text_short() {
    assert_eq!(minmax_code::wrap::wrap_text("hello world", 80), vec!["hello world"]);
}

#[test]
fn wrap_text_long() {
    assert_eq!(minmax_code::wrap::wrap_text("hello world foo bar", 12), vec!["hello world", "foo bar"]);
}

#[test]
fn wrap_text_empty() {
    assert_eq!(minmax_code::wrap::wrap_text("", 80), vec![""]);
}

#[test]
fn wrap_text_breaks_overlong_words() {
    assert_eq!(minmax_code::wrap::wrap_text("abcdefgh", 3), vec!["abc", "def", "gh"]);
}

#[test]
fn strip_ordered_list() {
    assert_eq!(minmax_code::wrap::strip_ordered_list_prefix("1. Hello"), Some("Hello".to_string()));
    assert_eq!(minmax_code::wrap::strip_ordered_list_prefix("12. Test"), Some("Test".to_string()));
    assert_eq!(minmax_code::wrap::strip_ordered_list_prefix("not a list"), None);
    assert_eq!(minmax_code::wrap::strip_ordered_list_prefix("a. nope"), None);
}

#[test]
fn resolve_no_references() {
    let (refs, clean) = minmax_code::picker::extract_file_references("hello world");
    assert!(refs.is_empty());
    assert_eq!(clean, "hello world");
}

#[test]
fn references_are_pulled_out_of_the_text() {
    let (refs, clean) = minmax_code::picker::extract_file_references("look at @src/lib.rs now");
    assert_eq!(refs, vec!["src/lib.rs".to_string()]);
    assert_eq!(clean, "look at  now");
}

#[test]
fn file_context_wraps_each_file() {
    let files = vec![("a.txt".to_string(), "one".to_string())];
    assert_eq!(
        minmax_code::picker::build_file_context(&files),
        "<file path=\"a.txt\">\none\n</file>"
    );
}

#[test]
fn format_size_scales_units() {
    assert_eq!(minmax_code::ui::format_size(512), "512B");
    assert_eq!(minmax_code::ui::format_size(1536), "1.5KB");
    assert_eq!(minmax_code::ui::format_size(3 * 1024 * 1024), "3.0MB");
}
