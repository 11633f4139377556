//! Launch choices and the text of runtime failure reports.
use vstd::prelude::*;
use crate::text::{decimal, to_string, push_str, push_decimal, str_chars, string_from_chars};

verus! {

/// How the program was launched.
#[derive(Debug, Clone, Copy, PartialEq, Eq, Structural)]
pub enum LaunchMode {
    Game,
    Editor,
}

impl LaunchMode {
    /// The window title for the launch mode.
    pub fn window_title(self) -> (r: &'static str)
        ensures
            r@ == match self { LaunchMode::Game => "Starlight Ridge"@, LaunchMode::Editor => "Starlight Ridge Editor"@ },
    {
        match self {
            LaunchMode::Game => "Starlight Ridge",
            LaunchMode::Editor => "Starlight Ridge Editor",
        }
    }

    /// The launch mode's name in logs.
    pub fn label(self) -> (r: &'static str)
        ensures
            r@ == match self { LaunchMode::Game => "game"@, LaunchMode::Editor => "editor"@ },
    {
        match self {
            LaunchMode::Game => "game",
            LaunchMode::Editor => "editor",
        }
    }
}

/// The map a launch opens: the authored starter farm when the content has
/// it, else the autotile coast test scene when it has that, else the
/// default the boot state already holds.
pub fn launch_map_choice(has_starter_farm: bool, has_autotile_coast: bool) -> (r: Option<&'static str>)
    ensures
        has_starter_farm ==> r is Some && r->0@ == "starter_farm"@,
        !has_starter_farm && has_autotile_coast ==> r is Some && r->0@ == "autotile_test_coast"@,
        !has_starter_farm && !has_autotile_coast ==> r is None,
{
    if has_starter_farm {
        Some("starter_farm")
    } else if has_autotile_coast {
        Some("autotile_test_coast")
    } else {
        None
    }
}

/// The report written when a run fails with an error.
pub open spec fn failure_report(label: Seq<char>, timestamp: nat, error_text: Seq<char>) -> Seq<char> {
    "Starlight Ridge runtime failure\nlabel: "@ + label + "\nunix_timestamp: "@ + decimal(timestamp) + "\n\n"@ + error_text + "\n"@
}

/// The report written when a run fails with an error: the label, the time
/// in Unix seconds and the error's text.
pub fn runtime_failure_body(label: &str, timestamp: u64, error_text: &str) -> (r: String)
    ensures
        r@ == failure_report(label@, timestamp as nat, error_text@),
{
    let mut s = to_string("Starlight Ridge runtime failure\nlabel: ");
    push_str(&mut s, label);
    push_str(&mut s, "\nunix_timestamp: ");
    push_decimal(&mut s, timestamp);
    push_str(&mut s, "\n\n");
    push_str(&mut s, error_text);
    push_str(&mut s, "\n");
    s
}

/// The report written when a run panics.
pub open spec fn panic_report(label: Seq<char>, timestamp: nat, location: Seq<char>, payload: Seq<char>) -> Seq<char> {
    "Starlight Ridge panic\nlabel: "@ + label + "\nunix_timestamp: "@ + decimal(timestamp) + "\nlocation: "@ + location + "\n\n"@ + payload + "\n"@
}

/// The report written when a run panics: the label, the time in Unix
/// seconds, where it panicked and the panic message.
pub fn panic_body(label: &str, timestamp: u64, location: &str, payload: &str) -> (r: String)
    ensures
        r@ == panic_report(label@, timestamp as nat, location@, payload@),
{
    let mut s = to_string("Starlight Ridge panic\nlabel: ");
    push_str(&mut s, label);
    push_str(&mut s, "\nunix_timestamp: ");
    push_decimal(&mut s, timestamp);
    push_str(&mut s, "\nlocation: ");
    push_str(&mut s, location);
    push_str(&mut s, "\n\n");
    push_str(&mut s, payload);
    push_str(&mut s, "\n");
    s
}

/// The file the latest failure of a labelled run is written to.
pub fn failure_log_file_name(label: &str) -> (r: String)
    ensures
        r@ == label@ + "_runtime_failure_latest.log"@,
{
    let mut s = to_string(label);
    push_str(&mut s, "_runtime_failure_latest.log");
    s
}

/// The shown text of a long report: the whole text when it has at most
/// `max_chars` characters, else its first `max_chars` characters and a
/// note that it was cut.
pub open spec fn truncated(body: Seq<char>, max_chars: nat) -> Seq<char> {
    if body.len() <= max_chars { body } else { body.take(max_chars as int) + "\n... truncated; see full log file ..."@ }
}

/// A report cut to `max_chars` characters for a dialog.
pub fn truncate_for_dialog(body: &str, max_chars: usize) -> (r: String)
    ensures
        r@ == truncated(body@, max_chars as nat),
{
    let chars = str_chars(body);
    if chars.len() <= max_chars {
        return to_string(body);
    }
    let head = crate::text::sub_chars(&chars, 0, max_chars);
    let mut s = string_from_chars(&head);
    push_str(&mut s, "\n... truncated; see full log file ...");
    assert(head@ =~= body@.take(max_chars as int));
    s
}

/// The message of the failure dialog.
pub open spec fn dialog_message(label: Seq<char>, log_hint: Seq<char>, body: Seq<char>) -> Seq<char> {
    "Starlight Ridge "@ + label + " failed.\n\nA diagnostic log was written to:\n"@ + log_hint + "\n\n"@ + truncated(body, 1600)
}

/// The message of the failure dialog, with the report cut to 1600
/// characters.
pub fn failure_dialog_message(label: &str, log_hint: &str, body: &str) -> (r: String)
    ensures
        r@ == dialog_message(label@, log_hint@, body@),
{
    let mut s = to_string("Starlight Ridge ");
    push_str(&mut s, label);
    push_str(&mut s, " failed.\n\nA diagnostic log was written to:\n");
    push_str(&mut s, log_hint);
    push_str(&mut s, "\n\n");
    let t = truncate_for_dialog(body, 1600);
    push_str(&mut s, t.as_str());
    s
}

/// `c` in lower case when it is an ASCII capital letter.
pub open spec fn ascii_lower(c: char) -> char {
    if 'A' <= c <= 'Z' { (((c as u32) + 32) as u8) as char } else { c }
}

/// Whether a file extension, ignoring ASCII case, is one the live preview
/// reloads: png, ron, json or toml.
pub open spec fn live_preview_extension(ext: Seq<char>) -> bool {
    let lower = ext.map_values(|c: char| ascii_lower(c));
    lower == "png"@ || lower == "ron"@ || lower == "json"@ || lower == "toml"@
}

/// `c` in lower case when it is an ASCII capital letter.
pub(crate) fn lower_char(c: char) -> (r: char)
    ensures
        r == ascii_lower(c),
{
    if 'A' <= c && c <= 'Z' {
        let code: u8 = ((c as u32) + 32) as u8;
        code as char
    } else {
        c
    }
}

/// Whether a file with extension `ext` (if any) is one the live preview
/// reloads.
pub fn is_live_preview_extension(ext: Option<&str>) -> (r: bool)
    ensures
        r == match ext { Some(e) => live_preview_extension(e@), None => false },
{
    let e = match ext {
        Some(e) => e,
        None => return false,
    };
    let chars = str_chars(e);
    let mut lower: Vec<char> = Vec::new();
    let mut i: usize = 0;
    while i < chars.len()
        invariant
            i <= chars.len(),
            chars@ == e@,
            lower@ == chars@.subrange(0, i as int).map_values(|c: char| ascii_lower(c)),
        decreases chars.len() - i,
    {
        lower.push(lower_char(chars[i]));
        i = i + 1;
        assert(lower@ =~= chars@.subrange(0, i as int).map_values(|c: char| ascii_lower(c)));
    }
    assert(chars@.subrange(0, i as int) =~= chars@);
    let s = string_from_chars(&lower);
    let t = s.as_str();
    crate::text::str_eq(t, "png") || crate::text::str_eq(t, "ron") || crate::text::str_eq(t, "json") || crate::text::str_eq(t, "toml")
}

} // verus!
