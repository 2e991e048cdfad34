//! Application configuration: the config data model, defaults, model
//! validation and the settings-file paths.

use vstd::prelude::*;

use crate::text::{append_chars, chars_of, string_from_chars, str_eq};

verus! {

/// Launch configuration of one external tool provider.
#[derive(Debug, Clone)]
pub struct McpServerConfig {
    pub command: String,
    pub args: Vec<String>,
    pub env: Vec<(String, String)>,
}

/// The persisted application configuration.
#[derive(Debug, Clone)]
pub struct AppConfig {
    pub api_key: String,
    pub model: String,
    pub theme: String,
    pub mcp_servers: Vec<(String, McpServerConfig)>,
}

/// The model used when none is configured.
pub fn default_model() -> (r: &'static str)
    ensures
        r@ == "MiniMax-M2.5"@,
{
    "MiniMax-M2.5"
}

/// Whether a configured model name is one this build accepts.
pub open spec fn spec_is_valid_model(m: Seq<char>) -> bool {
    m == "MiniMax-M2.5"@ || m == "MiniMax-M2.5-highspeed"@
}

/// Test a configured model name against the accepted set.
pub fn is_valid_model(m: &str) -> (r: bool)
    ensures
        r == spec_is_valid_model(m@),
{
    str_eq(m, "MiniMax-M2.5") || str_eq(m, "MiniMax-M2.5-highspeed")
}

/// A configured model kept when valid, reset to the default otherwise.
pub fn normalize_model(m: &str) -> (r: String)
    ensures
        spec_is_valid_model(m@) ==> r@ == m@,
        !spec_is_valid_model(m@) ==> r@ == "MiniMax-M2.5"@,
{
    if is_valid_model(m) {
        string_from_chars(chars_of(m).as_slice())
    } else {
        string_from_chars(chars_of("MiniMax-M2.5").as_slice())
    }
}

/// Every model the picker offers, with its short description.
pub fn available_models() -> (r: Vec<(&'static str, &'static str)>)
    ensures
        r@.len() == 4,
        r@[0].0@ == "MiniMax-M2.5"@,
        r@[1].0@ == "MiniMax-M2.5-highspeed"@,
        r@[2].0@ == "MiniMax-M2.1"@,
        r@[3].0@ == "MiniMax-M2.1-highspeed"@,
{
    let mut v: Vec<(&'static str, &'static str)> = Vec::new();
    v.push(("MiniMax-M2.5", "Latest, ~60 tps"));
    v.push(("MiniMax-M2.5-highspeed", "Latest fast, ~100 tps"));
    v.push(("MiniMax-M2.1", "Previous gen, ~60 tps"));
    v.push(("MiniMax-M2.1-highspeed", "Previous gen fast, ~100 tps"));
    v
}

/// Every model id the picker offers.
pub fn model_ids() -> (r: Vec<&'static str>)
    ensures
        r@.len() == 4,
        r@[0]@ == "MiniMax-M2.5"@,
        r@[1]@ == "MiniMax-M2.5-highspeed"@,
        r@[2]@ == "MiniMax-M2.1"@,
        r@[3]@ == "MiniMax-M2.1-highspeed"@,
{
    let mut v: Vec<&'static str> = Vec::new();
    v.push("MiniMax-M2.5");
    v.push("MiniMax-M2.5-highspeed");
    v.push("MiniMax-M2.1");
    v.push("MiniMax-M2.1-highspeed");
    v
}

impl Default for AppConfig {
    /// No key, the default model and theme, and no providers.
    fn default() -> (r: AppConfig)
        ensures
            r.api_key@ == Seq::<char>::empty(),
            r.model@ == "MiniMax-M2.5"@,
            r.theme@ == "tokyo-night"@,
            r.mcp_servers@.len() == 0,
    {
        AppConfig {
            api_key: String::new(),
            model: string_from_chars(chars_of("MiniMax-M2.5").as_slice()),
            theme: string_from_chars(chars_of("tokyo-night").as_slice()),
            mcp_servers: Vec::new(),
        }
    }
}

/// The settings directory under the user's home directory.
pub fn config_dir(home: &str) -> (r: String)
    ensures
        r@ == home@ + "/.minmax-code"@,
{
    let mut out = chars_of(home);
    let tail = chars_of("/.minmax-code");
    append_chars(&mut out, tail.as_slice());
    string_from_chars(out.as_slice())
}

/// The settings file under the user's home directory.
pub fn config_file(home: &str) -> (r: String)
    ensures
        r@ == home@ + "/.minmax-code/config.json"@,
{
    let mut out = chars_of(home);
    let tail = chars_of("/.minmax-code/config.json");
    append_chars(&mut out, tail.as_slice());
    string_from_chars(out.as_slice())
}

/// Apply a partial update: each given field replaces the configured one,
/// absent fields stay.
pub fn apply_config_update(
    config: &mut AppConfig,
    api_key: Option<String>,
    model: Option<String>,
    theme: Option<String>,
)
    ensures
        final(config).api_key == (match api_key {
            Some(k) => k,
            None => old(config).api_key,
        }),
        final(config).model == (match model {
            Some(m) => m,
            None => old(config).model,
        }),
        final(config).theme == (match theme {
            Some(t) => t,
            None => old(config).theme,
        }),
        final(config).mcp_servers == old(config).mcp_servers,
{
    match api_key {
        Some(k) => {
            config.api_key = k;
        },
        None => {},
    }
    match model {
        Some(m) => {
            config.model = m;
        },
        None => {},
    }
    match theme {
        Some(t) => {
            config.theme = t;
        },
        None => {},
    }
}

} // verus!
