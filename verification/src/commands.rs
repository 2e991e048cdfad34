//! Slash commands typed at the prompt.

use vstd::prelude::*;

use crate::parser::{is_ci_prefix, lower_eq};
use crate::text::{
    append_chars, chars_of, is_ws, slice_range_to_vec, spec_trim, string_from_chars, trim_chars,
};

verus! {

/// What a typed line asks the application to do.
#[derive(Debug, Clone, PartialEq)]
pub enum CommandResult {
    Message(String),
    NewSession,
    Clear,
    Exit,
    Sessions,
    Config,
    SetModel(String),
    SetTheme(String),
    CreateAgentFile,
    NotCommand,
}

/// Case-blind equality of a typed token against a known command word.
pub open spec fn ci_word(tok: Seq<char>, word: Seq<char>) -> bool {
    tok.len() == word.len() && is_ci_prefix(tok, word)
}

fn ci_word_exec(tok: &[char], word: &str) -> (r: bool)
    ensures
        r == ci_word(tok@, word@),
{
    let wv = chars_of(word);
    if tok.len() != wv.len() {
        return false;
    }
    let mut j: usize = 0;
    while j < tok.len()
        invariant
            tok@.len() == wv@.len(),
            wv@ == word@,
            0 <= j <= tok@.len(),
            forall|k: int| 0 <= k < j ==> lower_eq(tok@[k], word@[k]),
        decreases tok@.len() - j,
    {
        if !lower_eq_exec2(tok[j], wv[j]) {
            return false;
        }
        j += 1;
    }
    true
}

fn lower_eq_exec2(c: char, d: char) -> (r: bool)
    ensures
        r == lower_eq(c, d),
{
    let cu = c as u32;
    let du = d as u32;
    c == d || ('A' as u32 <= cu && cu <= 'Z' as u32 && cu + 32 == du)
}

/// Case-blind equality of two ASCII-cased words.
pub open spec fn fold_eq_char(c: char, d: char) -> bool {
    lower_eq(c, d) || lower_eq(d, c)
}

pub open spec fn fold_eq(a: Seq<char>, b: Seq<char>) -> bool {
    a.len() == b.len() && forall|j: int| 0 <= j < a.len() ==> fold_eq_char(a[j], b[j])
}

fn fold_eq_exec(a: &[char], b: &str) -> (r: bool)
    ensures
        r == fold_eq(a@, b@),
{
    let bv = chars_of(b);
    if a.len() != bv.len() {
        return false;
    }
    let mut j: usize = 0;
    while j < a.len()
        invariant
            a@.len() == bv@.len(),
            bv@ == b@,
            0 <= j <= a@.len(),
            forall|k: int| 0 <= k < j ==> fold_eq_char(a@[k], b@[k]),
        decreases a@.len() - j,
    {
        if !(lower_eq_exec2(a[j], bv[j]) || lower_eq_exec2(bv[j], a[j])) {
            return false;
        }
        j += 1;
    }
    true
}

/// Length of the run of non-whitespace characters starting at `p`.
pub open spec fn token_run(s: Seq<char>, p: int) -> int
    decreases s.len() - p,
    when 0 <= p
{
    if p >= s.len() || is_ws(s[p]) {
        0
    } else {
        1 + token_run(s, p + 1)
    }
}

proof fn lemma_token_run(s: Seq<char>, p: int)
    requires
        0 <= p <= s.len(),
    ensures
        0 <= token_run(s, p),
        p + token_run(s, p) <= s.len(),
    decreases s.len() - p,
{
    if p < s.len() && !is_ws(s[p]) {
        lemma_token_run(s, p + 1);
    }
}

fn token_run_exec(s: &[char], p: usize) -> (r: usize)
    requires
        p <= s@.len(),
    ensures
        r == token_run(s@, p as int),
        p + r <= s@.len(),
{
    proof {
        lemma_token_run(s@, p as int);
    }
    let mut q = p;
    while q < s.len() && !crate::text::is_ws_char(s[q])
        invariant
            p <= q <= s@.len(),
            token_run(s@, p as int) == (q - p) + token_run(s@, q as int),
        decreases s@.len() - q,
    {
        q += 1;
    }
    proof {
        assert(token_run(s@, q as int) == 0);
    }
    q - p
}

/// The first whitespace-free token of the trimmed line, and what follows
/// it, trimmed.
pub open spec fn spec_cmd_token(t: Seq<char>) -> Seq<char> {
    t.take(token_run(t, 0))
}

pub open spec fn spec_cmd_arg(t: Seq<char>) -> Seq<char> {
    spec_trim(t.skip(token_run(t, 0)))
}

/// Interpret one typed line. A line that does not open with `/` is no
/// command. The command word matches case-blind; `/model` and `/theme`
/// resolve their argument against the known sets and answer with the
/// canonical name, or with a listing or error message; `/init` asks the
/// application to create the instruction-file template.
pub fn handle_command(input: &str) -> (r: CommandResult)
    ensures
        ({
            let t = spec_trim(input@);
            let cmd = spec_cmd_token(t);
            let arg = spec_cmd_arg(t);
            let w_new = ci_word(cmd, "/new"@);
            let w_clear = ci_word(cmd, "/clear"@);
            let w_exit = ci_word(cmd, "/exit"@) || ci_word(cmd, "/quit"@);
            let w_sessions = ci_word(cmd, "/sessions"@);
            let w_config = ci_word(cmd, "/config"@);
            let w_init = ci_word(cmd, "/init"@);
            let w_help = ci_word(cmd, "/help"@);
            let w_model = ci_word(cmd, "/model"@);
            let w_theme = ci_word(cmd, "/theme"@);
            &&& (t.len() == 0 || t[0] != '/') ==> r is NotCommand
            &&& (t.len() > 0 && t[0] == '/') ==> {
                &&& w_new ==> r is NewSession
                &&& !w_new && w_clear ==> r is Clear
                &&& !w_new && !w_clear && w_exit ==> r is Exit
                &&& !w_new && !w_clear && !w_exit && w_sessions ==> r is Sessions
                &&& !w_new && !w_clear && !w_exit && !w_sessions && w_config ==> r is Config
                &&& !w_new && !w_clear && !w_exit && !w_sessions && !w_config && w_init
                    ==> r is CreateAgentFile
                &&& !w_new && !w_clear && !w_exit && !w_sessions && !w_config && !w_init && w_help
                    ==> r is Message
                &&& !w_new && !w_clear && !w_exit && !w_sessions && !w_config && !w_init && !w_help
                    && w_model && arg.len() == 0 ==> r is Message
                &&& !w_new && !w_clear && !w_exit && !w_sessions && !w_config && !w_init && !w_help
                    && w_model && fold_eq(arg, "MiniMax-M2.5"@) ==> (r matches
                    CommandResult::SetModel(m) && m@ == "MiniMax-M2.5"@)
                &&& !w_new && !w_clear && !w_exit && !w_sessions && !w_config && !w_init && !w_help
                    && !w_model && w_theme && arg.len() == 0 ==> r is Message
                &&& !w_new && !w_clear && !w_exit && !w_sessions && !w_config && !w_init && !w_help
                    && !w_model && w_theme && fold_eq(arg, "gruvbox"@) ==> (r matches
                    CommandResult::SetTheme(m) && m@ == "gruvbox"@)
            }
        }),
{
    let tv = chars_of(input);
    let t = trim_chars(tv.as_slice());
    if t.len() == 0 {
        return CommandResult::NotCommand;
    }
    if t[0] != '/' {
        return CommandResult::NotCommand;
    }
    let run = token_run_exec(t.as_slice(), 0);
    let cmd = slice_range_to_vec(t.as_slice(), 0, run);
    let rest = slice_range_to_vec(t.as_slice(), run, t.len());
    let arg = trim_chars(rest.as_slice());
    proof {
        assert(cmd@ =~= spec_cmd_token(t@));
        assert(rest@ =~= t@.skip(token_run(t@, 0)));
        reveal_strlit("/new");
        reveal_strlit("/clear");
        reveal_strlit("/exit");
        reveal_strlit("/quit");
        reveal_strlit("/sessions");
        reveal_strlit("/config");
        reveal_strlit("/init");
        reveal_strlit("/help");
        reveal_strlit("/model");
        reveal_strlit("/theme");
        assert("/new"@.len() == 4);
        assert("/clear"@.len() == 6);
        assert("/exit"@.len() == 5);
        assert("/quit"@.len() == 5);
        assert("/sessions"@.len() == 9);
        assert("/config"@.len() == 7);
        assert("/init"@.len() == 5);
        assert("/help"@.len() == 5);
        assert("/model"@.len() == 6);
        assert("/theme"@.len() == 6);
        reveal_strlit("MiniMax-M2.5");
        reveal_strlit("gruvbox");
        reveal_strlit("tokyo-night");
        reveal_strlit("rose-pine");
        assert("MiniMax-M2.5"@.len() == 12);
        assert("gruvbox"@.len() == 7);
        assert("tokyo-night"@.len() == 11);
        assert("rose-pine"@.len() == 9);
    }
    if ci_word_exec(cmd.as_slice(), "/new") {
        return CommandResult::NewSession;
    }
    if ci_word_exec(cmd.as_slice(), "/clear") {
        return CommandResult::Clear;
    }
    if ci_word_exec(cmd.as_slice(), "/exit") || ci_word_exec(cmd.as_slice(), "/quit") {
        return CommandResult::Exit;
    }
    if ci_word_exec(cmd.as_slice(), "/sessions") {
        return CommandResult::Sessions;
    }
    if ci_word_exec(cmd.as_slice(), "/config") {
        return CommandResult::Config;
    }
    if ci_word_exec(cmd.as_slice(), "/init") {
        return CommandResult::CreateAgentFile;
    }
    if ci_word_exec(cmd.as_slice(), "/help") {
        return CommandResult::Message(
            string_from_chars(
                chars_of(
                    "Available commands:\n  /new        - Start a new session\n  /sessions   - Browse previous sessions\n  /config     - Open configuration (API key, theme, model)\n  /model      - Change or list models\n  /theme      - Change or list themes\n  /init       - Create agent.md template\n  /clear      - Clear current chat\n  /exit       - Exit the terminal\n  /help       - Show this help",
                ).as_slice(),
            ),
        );
    }
    if ci_word_exec(cmd.as_slice(), "/model") {
        if arg.len() == 0 {
            return CommandResult::Message(
                string_from_chars(
                    chars_of(
                        "Available models:\n  - MiniMax-M2.5\n  - MiniMax-M2.5-highspeed\n  - MiniMax-M2.1\n  - MiniMax-M2.1-highspeed\n\nUsage: /model <name>",
                    ).as_slice(),
                ),
            );
        }
        if fold_eq_exec(arg.as_slice(), "MiniMax-M2.5") {
            return CommandResult::SetModel(
                string_from_chars(chars_of("MiniMax-M2.5").as_slice()),
            );
        }
        if fold_eq_exec(arg.as_slice(), "MiniMax-M2.5-highspeed") {
            return CommandResult::SetModel(
                string_from_chars(chars_of("MiniMax-M2.5-highspeed").as_slice()),
            );
        }
        if fold_eq_exec(arg.as_slice(), "MiniMax-M2.1") {
            return CommandResult::SetModel(
                string_from_chars(chars_of("MiniMax-M2.1").as_slice()),
            );
        }
        if fold_eq_exec(arg.as_slice(), "MiniMax-M2.1-highspeed") {
            return CommandResult::SetModel(
                string_from_chars(chars_of("MiniMax-M2.1-highspeed").as_slice()),
            );
        }
        return CommandResult::Message(unknown_choice_message("Unknown model \"", arg.as_slice(),
            "\". Available: MiniMax-M2.5, MiniMax-M2.5-highspeed, MiniMax-M2.1, MiniMax-M2.1-highspeed"));
    }
    if ci_word_exec(cmd.as_slice(), "/theme") {
        if arg.len() == 0 {
            return CommandResult::Message(
                string_from_chars(
                    chars_of(
                        "Available themes:\n  - tokyo-night\n  - rose-pine\n  - gruvbox\n\nUsage: /theme <name>",
                    ).as_slice(),
                ),
            );
        }
        if fold_eq_exec(arg.as_slice(), "tokyo-night") {
            return CommandResult::SetTheme(
                string_from_chars(chars_of("tokyo-night").as_slice()),
            );
        }
        if fold_eq_exec(arg.as_slice(), "rose-pine") {
            return CommandResult::SetTheme(string_from_chars(chars_of("rose-pine").as_slice()));
        }
        if fold_eq_exec(arg.as_slice(), "gruvbox") {
            return CommandResult::SetTheme(string_from_chars(chars_of("gruvbox").as_slice()));
        }
        return CommandResult::Message(unknown_choice_message("Unknown theme \"", arg.as_slice(),
            "\". Available: tokyo-night, rose-pine, gruvbox"));
    }
    CommandResult::Message(unknown_choice_message("Unknown command: ", cmd.as_slice(),
        ". Type /help for available commands."))
}

/// An error message naming the rejected word between a fixed head and tail.
fn unknown_choice_message(head: &str, word: &[char], tail: &str) -> (r: String)
    ensures
        r@ == head@ + word@ + tail@,
{
    let mut out = chars_of(head);
    append_chars(&mut out, word);
    let tv = chars_of(tail);
    append_chars(&mut out, tv.as_slice());
    string_from_chars(out.as_slice())
}

} // verus!
