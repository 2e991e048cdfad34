//! The command palette and the configuration menu: small key-driven
//! navigation machines over fixed listings.

use vstd::prelude::*;

use crate::text::{chars_of, slice_range_to_vec, spec_trim, string_from_chars, trim_chars,
    append_chars};
use crate::ui::Key;

verus! {

/// Which listing the command palette shows.
#[derive(Debug, Clone, Copy, PartialEq, Eq, Structural)]
pub enum PaletteView {
    Main,
    ThemeList,
    ModelList,
}

/// State of the command palette.
#[derive(Debug, Clone)]
pub struct CommandPaletteState {
    pub view: PaletteView,
    pub selected: usize,
}

/// What a palette key did.
#[derive(Debug, Clone, PartialEq)]
pub enum PaletteAction {
    Stay,
    Close,
    Execute(String),
    SetTheme(String),
    SetModel(String),
}

/// How many entries the palette's main listing holds.
pub const PALETTE_COMMANDS: usize = 8;

/// The slash command at one main-listing position.
pub open spec fn spec_palette_command(k: int) -> Seq<char> {
    if k == 0 {
        "/new"@
    } else if k == 1 {
        "/sessions"@
    } else if k == 4 {
        "/config"@
    } else if k == 5 {
        "/init"@
    } else if k == 6 {
        "/clear"@
    } else {
        "/exit"@
    }
}

impl CommandPaletteState {
    /// The palette opens on the main listing.
    pub fn new() -> (r: CommandPaletteState)
        ensures
            r.view is Main,
            r.selected == 0,
    {
        CommandPaletteState { view: PaletteView::Main, selected: 0 }
    }

    /// The number of entries the current listing holds.
    fn item_count(&self) -> (r: usize)
        ensures
            self.view is Main ==> r == PALETTE_COMMANDS,
            self.view is ThemeList ==> r == 3,
            self.view is ModelList ==> r == 4,
    {
        match self.view {
            PaletteView::Main => PALETTE_COMMANDS,
            PaletteView::ThemeList => 3,
            PaletteView::ModelList => 4,
        }
    }
}

/// Drive the palette with one key. Escape leaves a sub-listing for the main
/// one and closes from there; the arrows move within the listing; enter
/// opens the model or theme sub-listing from their entries, and otherwise
/// resolves the selection.
pub fn palette_key(state: &mut CommandPaletteState, key: Key) -> (r: PaletteAction)
    ensures
        key is Esc ==> ({
            &&& old(state).view is Main ==> r == PaletteAction::Close && *final(state) == *old(state)
            &&& !(old(state).view is Main) ==> r == PaletteAction::Stay && final(state).view is Main && final(state).selected == 0
        }),
        key is Up ==> r == PaletteAction::Stay && final(state).view == old(state).view && final(state).selected as int == (if old(state).selected > 0 {
            old(state).selected - 1
        } else {
            0int
        }),
        key is Down ==> r == PaletteAction::Stay && final(state).view == old(state).view,
        key is Enter && old(state).view is Main ==> ({
            &&& old(state).selected == 2 ==> r == PaletteAction::Stay && final(state).view is ModelList && final(state).selected == 0
            &&& old(state).selected == 3 ==> r == PaletteAction::Stay && final(state).view is ThemeList && final(state).selected == 0
            &&& old(state).selected < PALETTE_COMMANDS && old(state).selected != 2 && old(state).selected != 3 ==> (r matches PaletteAction::Execute(cmd) && cmd@
                == spec_palette_command(old(state).selected as int))
        }),
{
    match key {
        Key::Esc => {
            match state.view {
                PaletteView::Main => PaletteAction::Close,
                _ => {
                    state.view = PaletteView::Main;
                    state.selected = 0;
                    PaletteAction::Stay
                },
            }
        },
        Key::Up => {
            if state.selected > 0 {
                state.selected = state.selected - 1;
            }
            PaletteAction::Stay
        },
        Key::Down => {
            let max = state.item_count();
            let limit: usize = if max > 0 {
                max - 1
            } else {
                0
            };
            if state.selected < limit {
                state.selected = state.selected + 1;
            }
            PaletteAction::Stay
        },
        Key::Enter => {
            match state.view {
                PaletteView::Main => {
                    if state.selected == 0 {
                        PaletteAction::Execute(string_from_chars(chars_of("/new").as_slice()))
                    } else if state.selected == 1 {
                        PaletteAction::Execute(
                            string_from_chars(chars_of("/sessions").as_slice()),
                        )
                    } else if state.selected == 2 {
                        state.view = PaletteView::ModelList;
                        state.selected = 0;
                        PaletteAction::Stay
                    } else if state.selected == 3 {
                        state.view = PaletteView::ThemeList;
                        state.selected = 0;
                        PaletteAction::Stay
                    } else if state.selected == 4 {
                        PaletteAction::Execute(string_from_chars(chars_of("/config").as_slice()))
                    } else if state.selected == 5 {
                        PaletteAction::Execute(string_from_chars(chars_of("/init").as_slice()))
                    } else if state.selected == 6 {
                        PaletteAction::Execute(string_from_chars(chars_of("/clear").as_slice()))
                    } else {
                        PaletteAction::Execute(string_from_chars(chars_of("/exit").as_slice()))
                    }
                },
                PaletteView::ThemeList => {
                    let names = crate::themes::theme_names();
                    if state.selected < names.len() {
                        PaletteAction::SetTheme(
                            string_from_chars(chars_of(names[state.selected]).as_slice()),
                        )
                    } else {
                        PaletteAction::Stay
                    }
                },
                PaletteView::ModelList => {
                    let ids = crate::settings::model_ids();
                    if state.selected < ids.len() {
                        PaletteAction::SetModel(
                            string_from_chars(chars_of(ids[state.selected]).as_slice()),
                        )
                    } else {
                        PaletteAction::Stay
                    }
                },
            }
        },
        _ => PaletteAction::Stay,
    }
}

/// Which pane the configuration menu shows.
#[derive(Debug, Clone, Copy, PartialEq, Eq, Structural)]
pub enum ConfigView {
    Main,
    ApiKey,
    ThemeSelect,
    ModelSelect,
}

/// State of the configuration menu.
#[derive(Debug, Clone)]
pub struct ConfigMenuState {
    pub view: ConfigView,
    pub selected: usize,
    pub api_key_input: String,
    pub api_key_cursor: usize,
    pub error: Option<String>,
}

/// What a configuration-menu key did.
#[derive(Debug, Clone, PartialEq)]
pub enum ConfigAction {
    Stay,
    Close,
    SetApiKey(String),
    SetTheme(String),
    SetModel(String),
}

impl ConfigMenuState {
    /// The menu opens on its main listing.
    pub fn new() -> (r: ConfigMenuState)
        ensures
            r.view is Main,
            r.selected == 0,
            r.api_key_input@.len() == 0,
            r.api_key_cursor == 0,
            r.error is None,
    {
        ConfigMenuState {
            view: ConfigView::Main,
            selected: 0,
            api_key_input: String::new(),
            api_key_cursor: 0,
            error: None,
        }
    }

    /// The caret sits inside the key draft.
    pub open spec fn wf(&self) -> bool {
        self.api_key_cursor <= self.api_key_input@.len()
    }
}

/// Drive the configuration menu with one key. The main listing opens the
/// key-entry, theme and model panes; each pane returns to the main listing
/// on escape; the key pane validates like the first-run prompt and resolves
/// to the trimmed key of at least ten characters.
pub fn config_menu_key(state: &mut ConfigMenuState, key: Key) -> (r: ConfigAction)
    requires
        old(state).wf(),
    ensures
        final(state).wf(),
        old(state).view is Main ==> ({
            &&& key is Esc ==> r == ConfigAction::Close
            &&& key is Enter && old(state).selected == 0 ==> r == ConfigAction::Stay && final(state).view is ApiKey && final(state).api_key_input@.len() == 0 && final(state).error is None
            &&& key is Enter && old(state).selected == 1 ==> r == ConfigAction::Stay && final(state).view is ThemeSelect && final(state).selected == 0
            &&& key is Enter && old(state).selected == 2 ==> r == ConfigAction::Stay && final(state).view is ModelSelect && final(state).selected == 0
        }),
        old(state).view is ApiKey ==> ({
            &&& key is Esc ==> r == ConfigAction::Stay && final(state).view is Main
            &&& key is Enter ==> ({
                let trimmed = spec_trim(old(state).api_key_input@);
                &&& trimmed.len() >= 10 ==> (r matches ConfigAction::SetApiKey(k) && k@ == trimmed)
                &&& trimmed.len() < 10 ==> r == ConfigAction::Stay && final(state).error is Some
            })
        }),
        (old(state).view is ThemeSelect || old(state).view is ModelSelect) && key is Esc ==> r
            == ConfigAction::Stay && final(state).view is Main && final(state).selected == 0,
{
    match state.view {
        ConfigView::Main => {
            match key {
                Key::Esc => ConfigAction::Close,
                Key::Up => {
                    if state.selected > 0 {
                        state.selected = state.selected - 1;
                    }
                    ConfigAction::Stay
                },
                Key::Down => {
                    if state.selected < 2 {
                        state.selected = state.selected + 1;
                    }
                    ConfigAction::Stay
                },
                Key::Enter => {
                    if state.selected == 0 {
                        state.view = ConfigView::ApiKey;
                        state.api_key_input = String::new();
                        state.api_key_cursor = 0;
                        state.error = None;
                    } else if state.selected == 1 {
                        state.view = ConfigView::ThemeSelect;
                        state.selected = 0;
                    } else if state.selected == 2 {
                        state.view = ConfigView::ModelSelect;
                        state.selected = 0;
                    }
                    ConfigAction::Stay
                },
                _ => ConfigAction::Stay,
            }
        },
        ConfigView::ApiKey => {
            match key {
                Key::Esc => {
                    state.view = ConfigView::Main;
                    state.selected = 0;
                    ConfigAction::Stay
                },
                Key::Enter => {
                    let iv = chars_of(state.api_key_input.as_str());
                    let trimmed = trim_chars(iv.as_slice());
                    if trimmed.len() == 0 {
                        state.error = Some(
                            string_from_chars(chars_of("API key cannot be empty").as_slice()),
                        );
                        ConfigAction::Stay
                    } else if trimmed.len() < 10 {
                        state.error = Some(
                            string_from_chars(
                                chars_of("API key must be at least 10 characters").as_slice(),
                            ),
                        );
                        ConfigAction::Stay
                    } else {
                        state.error = None;
                        ConfigAction::SetApiKey(string_from_chars(trimmed.as_slice()))
                    }
                },
                Key::Char(c) => {
                    let iv = chars_of(state.api_key_input.as_str());
                    let mut out = slice_range_to_vec(iv.as_slice(), 0, state.api_key_cursor);
                    out.push(c);
                    let tail = slice_range_to_vec(iv.as_slice(), state.api_key_cursor, iv.len());
                    append_chars(&mut out, tail.as_slice());
                    let grown = out.len();
                    proof {
                        assert(old(state).api_key_cursor < grown);
                    }
                    state.api_key_input = string_from_chars(out.as_slice());
                    state.api_key_cursor = state.api_key_cursor + 1;
                    state.error = None;
                    ConfigAction::Stay
                },
                Key::Backspace => {
                    if state.api_key_cursor > 0 {
                        let iv = chars_of(state.api_key_input.as_str());
                        let mut out = slice_range_to_vec(
                            iv.as_slice(),
                            0,
                            state.api_key_cursor - 1,
                        );
                        let tail = slice_range_to_vec(
                            iv.as_slice(),
                            state.api_key_cursor,
                            iv.len(),
                        );
                        append_chars(&mut out, tail.as_slice());
                        state.api_key_input = string_from_chars(out.as_slice());
                        state.api_key_cursor = state.api_key_cursor - 1;
                    }
                    ConfigAction::Stay
                },
                Key::Left => {
                    if state.api_key_cursor > 0 {
                        state.api_key_cursor = state.api_key_cursor - 1;
                    }
                    ConfigAction::Stay
                },
                Key::Right => {
                    let iv = chars_of(state.api_key_input.as_str());
                    if state.api_key_cursor < iv.len() {
                        state.api_key_cursor = state.api_key_cursor + 1;
                    }
                    ConfigAction::Stay
                },
                _ => ConfigAction::Stay,
            }
        },
        ConfigView::ThemeSelect => {
            match key {
                Key::Esc => {
                    state.view = ConfigView::Main;
                    state.selected = 0;
                    ConfigAction::Stay
                },
                Key::Up => {
                    if state.selected > 0 {
                        state.selected = state.selected - 1;
                    }
                    ConfigAction::Stay
                },
                Key::Down => {
                    if state.selected < 2 {
                        state.selected = state.selected + 1;
                    }
                    ConfigAction::Stay
                },
                Key::Enter => {
                    let names = crate::themes::theme_names();
                    if state.selected < names.len() {
                        ConfigAction::SetTheme(
                            string_from_chars(chars_of(names[state.selected]).as_slice()),
                        )
                    } else {
                        ConfigAction::Stay
                    }
                },
                _ => ConfigAction::Stay,
            }
        },
        ConfigView::ModelSelect => {
            match key {
                Key::Esc => {
                    state.view = ConfigView::Main;
                    state.selected = 0;
                    ConfigAction::Stay
                },
                Key::Up => {
                    if state.selected > 0 {
                        state.selected = state.selected - 1;
                    }
                    ConfigAction::Stay
                },
                Key::Down => {
                    if state.selected < 3 {
                        state.selected = state.selected + 1;
                    }
                    ConfigAction::Stay
                },
                Key::Enter => {
                    let ids = crate::settings::model_ids();
                    if state.selected < ids.len() {
                        ConfigAction::SetModel(
                            string_from_chars(chars_of(ids[state.selected]).as_slice()),
                        )
                    } else {
                        ConfigAction::Stay
                    }
                },
                _ => ConfigAction::Stay,
            }
        },
    }
}

} // verus!
