use minmax_code::menus::{
    config_menu_key, palette_key, CommandPaletteState, ConfigAction, ConfigMenuState, ConfigView,
    PaletteAction, PaletteView,
};
use minmax_code::themes::theme_names;
use minmax_code::ui::Key;

#[test]
fn palette_starts_at_main_view() {
    let state = CommandPaletteState::new();
    assert_eq!(state.view, PaletteView::Main);
    assert_eq!(state.selected, 0);
}

#[test]
fn navigate_down_and_up() {
    let mut state = CommandPaletteState::new();
    let action = palette_key(&mut state, Key::Down);
    assert_eq!(action, PaletteAction::Stay);
    assert_eq!(state.selected, 1);

    let action = palette_key(&mut state, Key::Up);
    assert_eq!(action, PaletteAction::Stay);
    assert_eq!(state.selected, 0);

    let action = palette_key(&mut state, Key::Up);
    assert_eq!(action, PaletteAction::Stay);
    assert_eq!(state.selected, 0);
}

#[test]
fn select_command_without_submenu() {
    let mut state = CommandPaletteState::new();
    let action = palette_key(&mut state, Key::Enter);
    assert_eq!(action, PaletteAction::Execute("/new".to_string()));
}

#[test]
fn select_theme_opens_submenu() {
    let mut state = CommandPaletteState::new();
    state.selected = 3;
    let action = palette_key(&mut state, Key::Enter);
    assert_eq!(action, PaletteAction::Stay);
    assert_eq!(state.view, PaletteView::ThemeList);
    assert_eq!(state.selected, 0);
}

#[test]
fn select_model_opens_submenu() {
    let mut state = CommandPaletteState::new();
    state.selected = 2;
    let action = palette_key(&mut state, Key::Enter);
    assert_eq!(action, PaletteAction::Stay);
    assert_eq!(state.view, PaletteView::ModelList);
    assert_eq!(state.selected, 0);
}

#[test]
fn escape_from_submenu_returns_to_main() {
    let mut state = CommandPaletteState::new();
    state.view = PaletteView::ThemeList;
    let action = palette_key(&mut state, Key::Esc);
    assert_eq!(action, PaletteAction::Stay);
    assert_eq!(state.view, PaletteView::Main);
}

#[test]
fn command_palette_escape_from_main_closes() {
    let mut state = CommandPaletteState::new();
    let action = palette_key(&mut state, Key::Esc);
    assert_eq!(action, PaletteAction::Close);
}

#[test]
fn select_theme_from_list() {
    let mut state = CommandPaletteState::new();
    state.view = PaletteView::ThemeList;
    state.selected = 0;
    let action = palette_key(&mut state, Key::Enter);
    match action {
        PaletteAction::SetTheme(name) => {
            assert!(theme_names().contains(&name.as_str()));
        }
        _ => panic!("expected a theme choice"),
    }
}

#[test]
fn select_model_from_list() {
    let mut state = CommandPaletteState::new();
    state.view = PaletteView::ModelList;
    state.selected = 0;
    let action = palette_key(&mut state, Key::Enter);
    assert_eq!(action, PaletteAction::SetModel("MiniMax-M2.5".to_string()));
}

#[test]
fn config_menu_starts_at_main() {
    let state = ConfigMenuState::new();
    assert_eq!(state.view, ConfigView::Main);
    assert_eq!(state.selected, 0);
}

#[test]
fn navigate_main_menu() {
    let mut state = ConfigMenuState::new();
    let action = config_menu_key(&mut state, Key::Down);
    assert_eq!(action, ConfigAction::Stay);
    assert_eq!(state.selected, 1);

    let action = config_menu_key(&mut state, Key::Up);
    assert_eq!(action, ConfigAction::Stay);
    assert_eq!(state.selected, 0);
}

#[test]
fn enter_api_key_view() {
    let mut state = ConfigMenuState::new();
    state.selected = 0;
    let action = config_menu_key(&mut state, Key::Enter);
    assert_eq!(action, ConfigAction::Stay);
    assert_eq!(state.view, ConfigView::ApiKey);
}

#[test]
fn api_key_validation_empty() {
    let mut state = ConfigMenuState::new();
    state.view = ConfigView::ApiKey;
    let action = config_menu_key(&mut state, Key::Enter);
    assert_eq!(action, ConfigAction::Stay);
    assert!(state.error.is_some());
}

#[test]
fn api_key_validation_short() {
    let mut state = ConfigMenuState::new();
    state.view = ConfigView::ApiKey;
    state.api_key_input = "short".to_string();
    let action = config_menu_key(&mut state, Key::Enter);
    assert_eq!(action, ConfigAction::Stay);
    assert!(state.error.is_some());
}

#[test]
fn api_key_validation_valid() {
    let mut state = ConfigMenuState::new();
    state.view = ConfigView::ApiKey;
    state.api_key_input = "abcdefghijk_valid_key".to_string();
    let action = config_menu_key(&mut state, Key::Enter);
    assert_eq!(action, ConfigAction::SetApiKey("abcdefghijk_valid_key".to_string()));
}

#[test]
fn escape_from_subview_returns_to_main() {
    let mut state = ConfigMenuState::new();
    state.view = ConfigView::ApiKey;
    let action = config_menu_key(&mut state, Key::Esc);
    assert_eq!(action, ConfigAction::Stay);
    assert_eq!(state.view, ConfigView::Main);
}

#[test]
fn config_menu_escape_from_main_closes() {
    let mut state = ConfigMenuState::new();
    let action = config_menu_key(&mut state, Key::Esc);
    assert_eq!(action, ConfigAction::Close);
}
