//! The noalbs status that the dashboard shows, read from its log lines.
use vstd::prelude::*;

use crate::text::{
    chars_of, contains, contains_exec, ends_with, ends_with_exec, split_once,
    split_once_exec, split_second, split_second_exec, string_from, trim, trim_chars, trim_end,
    trim_end_chars,
};

verus! {

/// The connection between noalbs and OBS.
#[derive(Debug, Clone, Copy, PartialEq, Eq, Structural)]
pub enum ObsConnection {
    Disconnected,
    Connecting,
    Connected,
}

/// What the log has told about noalbs so far.
#[derive(Debug, Clone, PartialEq)]
pub struct NoalbsStatus {
    pub obs: ObsConnection,
    pub current_scene: Option<String>,
    pub last_switch_type: Option<String>,
    pub switcher_state: Option<String>,
    pub user: Option<String>,
}

/// A status with its texts as character sequences.
pub struct StatusView {
    pub obs: ObsConnection,
    pub current_scene: Option<Seq<char>>,
    pub last_switch_type: Option<Seq<char>>,
    pub switcher_state: Option<Seq<char>>,
    pub user: Option<Seq<char>>,
}

/// The characters of an optional string.
pub open spec fn opt_chars(o: Option<String>) -> Option<Seq<char>> {
    match o {
        Some(s) => Some(s@),
        None => None,
    }
}

impl View for NoalbsStatus {
    type V = StatusView;

    open spec fn view(&self) -> StatusView {
        StatusView {
            obs: self.obs,
            current_scene: opt_chars(self.current_scene),
            last_switch_type: opt_chars(self.last_switch_type),
            switcher_state: opt_chars(self.switcher_state),
            user: opt_chars(self.user),
        }
    }
}

impl Default for NoalbsStatus {
    fn default() -> (r: Self)
        ensures
            r@ == (StatusView {
                obs: ObsConnection::Disconnected,
                current_scene: None,
                last_switch_type: None,
                switcher_state: None,
                user: None,
            }),
    {
        NoalbsStatus {
            obs: ObsConnection::Disconnected,
            current_scene: None,
            last_switch_type: None,
            switcher_state: None,
            user: None,
        }
    }
}

/// The status with `switcher_state` set to `msg`.
pub open spec fn with_switcher(st: StatusView, msg: Seq<char>) -> StatusView {
    StatusView { switcher_state: Some(msg), ..st }
}

/// The status after one log line: a scene switch sets the scene and its type,
/// "Loaded user: " sets the user, a message ending the line sets the OBS
/// connection (`Disconnected` is tested before `Connected`), and the switcher
/// messages set the switcher state; the first matching rule wins and a line
/// that matches none leaves the status as it was.
pub open spec fn status_after(line: Seq<char>, st: StatusView) -> StatusView {
    if let Some(rest) = split_second(line, "Scene switched to ["@) {
        match split_once(rest, "] "@) {
            Some((ty, scene)) => StatusView {
                last_switch_type: Some(trim(ty)),
                current_scene: Some(trim(scene)),
                ..st
            },
            None => st,
        }
    } else if let Some(rest) = split_second(line, "Loaded user: "@) {
        StatusView { user: Some(trim(rest)), ..st }
    } else if ends_with(trim_end(line), "Disconnected"@) {
        StatusView { obs: ObsConnection::Disconnected, ..st }
    } else if ends_with(trim_end(line), "Connecting"@) {
        StatusView { obs: ObsConnection::Connecting, ..st }
    } else if ends_with(trim_end(line), "Connected"@) {
        StatusView { obs: ObsConnection::Connected, ..st }
    } else if contains(line, "Offline timeout reached"@) {
        with_switcher(st, "Offline timeout — stopping stream"@)
    } else if contains(line, "Switcher disabled"@) {
        with_switcher(st, "Disabled"@)
    } else if contains(line, "Waiting for OBS connection"@) {
        with_switcher(st, "Waiting for OBS"@)
    } else if contains(line, "Waiting till OBS starts streaming"@) {
        with_switcher(st, "Waiting for streaming"@)
    } else if contains(line, "waiting for scene switch to a switchable scene"@) {
        with_switcher(st, "Waiting for switchable scene"@)
    } else if contains(line, "Switcher running"@) || contains(line, "Running switcher"@) {
        with_switcher(st, "Running"@)
    } else {
        st
    }
}

/// Whether two optional strings hold the same characters.
fn same_opt(a: &Option<String>, b: &Option<String>) -> (r: bool)
    ensures
        r == (opt_chars(*a) == opt_chars(*b)),
{
    match (a, b) {
        (Some(x), Some(y)) => x.eq(y),
        (None, None) => true,
        _ => false,
    }
}

/// A copy of an optional string.
fn copy_opt(a: &Option<String>) -> (r: Option<String>)
    ensures
        opt_chars(r) == opt_chars(*a),
{
    match a {
        Some(x) => Some(x.clone()),
        None => None,
    }
}

impl NoalbsStatus {
    /// A copy of this status.
    pub fn copy(&self) -> (r: Self)
        ensures
            r@ == self@,
    {
        NoalbsStatus {
            obs: self.obs,
            current_scene: copy_opt(&self.current_scene),
            last_switch_type: copy_opt(&self.last_switch_type),
            switcher_state: copy_opt(&self.switcher_state),
            user: copy_opt(&self.user),
        }
    }

    /// Whether two statuses hold the same values.
    pub fn same_as(&self, other: &Self) -> (r: bool)
        ensures
            r == (self@ == other@),
    {
        self.obs == other.obs && same_opt(&self.current_scene, &other.current_scene) && same_opt(
            &self.last_switch_type,
            &other.last_switch_type,
        ) && same_opt(&self.switcher_state, &other.switcher_state) && same_opt(
            &self.user,
            &other.user,
        )
    }
}

/// True if the log line's message (the part after the last "<target>: ") equals
/// `msg` — i.e. the trimmed line ends with `msg`. Disambiguates Connected vs
/// Disconnected (checked in the right order by the caller).
fn ends_with_msg(line: &[char], msg: &str) -> (r: bool)
    ensures
        r == ends_with(trim_end(line@), msg@),
{
    let t = trim_end_chars(line);
    let m = chars_of(msg);
    ends_with_exec(t.as_slice(), m.as_slice())
}

/// Whether `line` contains `pat`.
fn line_has(line: &[char], pat: &str) -> (r: bool)
    ensures
        r == contains(line@, pat@),
{
    let p = chars_of(pat);
    contains_exec(line, p.as_slice())
}

/// Update `status` from a single captured log line. Returns true if anything
/// changed. Matches on the message text within tracing's default line format
/// (`<ts> <LEVEL> <target>: <message>`), so it is tolerant of the prefix.
pub fn parse_status_line(line: &str, status: &mut NoalbsStatus) -> (changed: bool)
    ensures
        final(status)@ == status_after(line@, old(status)@),
        changed == (final(status)@ != old(status)@),
{
    let before = status.copy();
    let l = chars_of(line);
    let scene_pat = chars_of("Scene switched to [");
    let user_pat = chars_of("Loaded user: ");
    if let Some(rest) = split_second_exec(l.as_slice(), scene_pat.as_slice()) {
        // rest looks like: `Normal] LIVE`
        let sep = chars_of("] ");
        if let Some((ty, scene)) = split_once_exec(rest.as_slice(), sep.as_slice()) {
            status.last_switch_type = Some(string_from(trim_chars(ty.as_slice()).as_slice()));
            status.current_scene = Some(string_from(trim_chars(scene.as_slice()).as_slice()));
        }
    } else if let Some(rest) = split_second_exec(l.as_slice(), user_pat.as_slice()) {
        status.user = Some(string_from(trim_chars(rest.as_slice()).as_slice()));
    } else if ends_with_msg(l.as_slice(), "Disconnected") {
        status.obs = ObsConnection::Disconnected;
    } else if ends_with_msg(l.as_slice(), "Connecting") {
        status.obs = ObsConnection::Connecting;
    } else if ends_with_msg(l.as_slice(), "Connected") {
        status.obs = ObsConnection::Connected;
    } else if line_has(l.as_slice(), "Offline timeout reached") {
        status.switcher_state = Some(String::from_str("Offline timeout — stopping stream"));
    } else if line_has(l.as_slice(), "Switcher disabled") {
        status.switcher_state = Some(String::from_str("Disabled"));
    } else if line_has(l.as_slice(), "Waiting for OBS connection") {
        status.switcher_state = Some(String::from_str("Waiting for OBS"));
    } else if line_has(l.as_slice(), "Waiting till OBS starts streaming") {
        status.switcher_state = Some(String::from_str("Waiting for streaming"));
    } else if line_has(l.as_slice(), "waiting for scene switch to a switchable scene") {
        status.switcher_state = Some(String::from_str("Waiting for switchable scene"));
    } else if line_has(l.as_slice(), "Switcher running") || line_has(
        l.as_slice(),
        "Running switcher",
    ) {
        status.switcher_state = Some(String::from_str("Running"));
    }
    !before.same_as(status)
}

} // verus!
