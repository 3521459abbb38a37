//! Properties that hold across the library's operations.
use vstd::prelude::*;

use crate::binary::{normalized, update_available, digits_and_dots};
use crate::commands::{data_dir, data_file, launch_dir, offered_update};
use crate::fs_path::{join, parent, portable_base, FsPath, PathView};
use crate::process::{log_ok, pushed, LogLine, LOG_CAP};
use crate::settings::SettingsView;
use crate::status::{status_after, StatusView};
use crate::text::{contains, ends_with, split_once, split_second, trim, trim_end};

verus! {

/// A version is never an update over itself, whether written as a tag or
/// as a version.
pub proof fn law_no_update_over_itself(latest: Seq<char>, installed: Seq<char>)
    requires
        normalized(latest) == normalized(installed),
    ensures
        !update_available(latest, installed),
{
}

/// Between two `MAJOR.MINOR.PATCH` versions, at most one is an update over
/// the other.
pub proof fn law_update_is_one_way(a: Seq<char>, b: Seq<char>)
    requires
        digits_and_dots(normalized(a)),
        digits_and_dots(normalized(b)),
    ensures
        update_available(a, b) ==> !update_available(b, a),
{
}

/// Being an update is transitive between `MAJOR.MINOR.PATCH` versions.
pub proof fn law_update_is_transitive(a: Seq<char>, b: Seq<char>, c: Seq<char>)
    requires
        digits_and_dots(normalized(a)),
        digits_and_dots(normalized(b)),
        digits_and_dots(normalized(c)),
        update_available(a, b),
        update_available(b, c),
    ensures
        update_available(a, c),
{
}

/// A tag `vX` and the version `X` it names are the same release to the
/// update check.
pub proof fn law_tag_names_its_version(x: Seq<char>, installed: Seq<char>)
    requires
        !(x.len() > 0 && x[0] == 'v'),
    ensures
        update_available(seq!['v'] + x, installed) == update_available(x, installed),
{
    assert((seq!['v'] + x).drop_first() =~= x);
}

/// Right after a release is recorded as installed, the update check offers
/// nothing for that same release.
pub proof fn law_recorded_release_is_not_offered(tag: Seq<char>)
    requires
        !(normalized(tag).len() > 0 && normalized(tag)[0] == 'v'),
    ensures
        offered_update(Some(normalized(tag)), tag) is None,
{
}

/// Reading the same log line twice changes the status only the first time.
pub proof fn law_status_line_idempotent(line: Seq<char>, st: StatusView)
    ensures
        status_after(line, status_after(line, st)) == status_after(line, st),
{
}

/// Capturing a line keeps the buffer numbered consecutively, holds at most
/// `LOG_CAP` lines, ends with the new line, and keeps the newest of the
/// lines it held before, in order.
pub proof fn law_push_keeps_newest(lines: Seq<LogLine>, next: u64, line: LogLine)
    requires
        log_ok(lines, next),
        next < u64::MAX,
        line.seq == next,
    ensures
        log_ok(pushed(lines, next, line), (next + 1) as u64),
        pushed(lines, next, line).last() == line,
        pushed(lines, next, line) == lines.push(line).subrange(
            lines.push(line).len() - pushed(lines, next, line).len(),
            lines.push(line).len() as int,
        ),
{
    let all = lines.push(line);
    if all.len() > LOG_CAP {
        assert(pushed(lines, next, line) == all.subrange(all.len() - LOG_CAP, all.len() as int));
    } else {
        assert(all.subrange(0, all.len() as int) =~= all);
    }
}

/// `config.json` and `.env` live side by side: either both have a place or
/// neither does, and then they share their directory.
pub proof fn law_config_beside_env(
    s: SettingsView,
    config: Result<FsPath, crate::error::AppError>,
    env: Result<FsPath, crate::error::AppError>,
)
    requires
        data_file(s, "config.json"@, config),
        data_file(s, ".env"@, env),
    ensures
        config is Ok <==> env is Ok,
        config matches Ok(c) ==> env matches Ok(e) ==> parent(c@) == parent(e@),
{
    match (config, env) {
        (Ok(c), Ok(e)) => {
            assert(c@.parts.drop_last() =~= e@.parts.drop_last());
        },
        _ => {},
    }
}

/// noalbs runs in the directory that holds its `config.json` and `.env`,
/// whenever there is one.
pub proof fn law_noalbs_runs_beside_its_config(s: SettingsView, binary: PathView)
    requires
        s.binary_path == Some(binary),
        data_dir(s) is Some,
    ensures
        launch_dir(s, binary) == data_dir(s)->0,
{
}

/// Updating the binary in place keeps the same `config.json` and `.env` in
/// use: the new binary goes where the old one was, so the directory they
/// live in does not change.
pub proof fn law_update_keeps_config_dir(s: SettingsView, old_binary: PathView, dir: PathView, name: Seq<char>)
    requires
        s.binary_path == Some(old_binary),
        parent(old_binary) == Some(dir),
    ensures
        data_dir(SettingsView { binary_path: Some(join(dir, name)), ..s }) == data_dir(s),
{
    assert(join(dir, name).parts.drop_last() =~= dir.parts);
}

/// Every scene switch is recorded, whatever the status held before: a line
/// with `Scene switched to [TYPE] SCENE` sets the scene to `SCENE` and the
/// switch type to `TYPE`, both trimmed, and leaves the rest of the status.
pub proof fn law_scene_switch_always_recorded(
    line: Seq<char>,
    st: StatusView,
    rest: Seq<char>,
    ty: Seq<char>,
    scene: Seq<char>,
)
    requires
        split_second(line, "Scene switched to ["@) == Some(rest),
        split_once(rest, "] "@) == Some((ty, scene)),
    ensures
        status_after(line, st).current_scene == Some(trim(scene)),
        status_after(line, st).last_switch_type == Some(trim(ty)),
        status_after(line, st).obs == st.obs,
        status_after(line, st).user == st.user,
        status_after(line, st).switcher_state == st.switcher_state,
{
}

/// "Switcher disabled" anywhere in a line sets the switcher state to
/// "Disabled", unless an earlier rule takes the line: a scene switch, a
/// loaded user, an OBS connection message at its end, or the offline timeout.
pub proof fn law_switcher_disabled_anywhere(line: Seq<char>, st: StatusView)
    requires
        contains(line, "Switcher disabled"@),
        !contains(line, "Scene switched to ["@),
        !contains(line, "Loaded user: "@),
        !ends_with(trim_end(line), "Disconnected"@),
        !ends_with(trim_end(line), "Connecting"@),
        !ends_with(trim_end(line), "Connected"@),
        !contains(line, "Offline timeout reached"@),
    ensures
        status_after(line, st).switcher_state == Some("Disabled"@),
        status_after(line, st).current_scene == st.current_scene,
        status_after(line, st).user == st.user,
        status_after(line, st).obs == st.obs,
{
}

/// A line that names the loaded user, and is no scene switch, sets the user
/// to the trimmed text after `Loaded user: `, whatever the status held.
pub proof fn law_loaded_user_recorded(line: Seq<char>, st: StatusView, rest: Seq<char>)
    requires
        !contains(line, "Scene switched to ["@),
        split_second(line, "Loaded user: "@) == Some(rest),
    ensures
        status_after(line, st).user == Some(trim(rest)),
        status_after(line, st).current_scene == st.current_scene,
        status_after(line, st).switcher_state == st.switcher_state,
        status_after(line, st).obs == st.obs,
{
}

/// Below the cap a captured line is only added: nothing already held is
/// dropped, whatever number the line gets.
pub proof fn law_push_below_cap_keeps_all(lines: Seq<LogLine>, next: u64, line: LogLine)
    requires
        lines.len() < LOG_CAP,
    ensures
        pushed(lines, next, line) == lines.push(line),
{
}

/// At the cap a captured line drops exactly the oldest line held.
pub proof fn law_push_at_cap_drops_oldest(lines: Seq<LogLine>, next: u64, line: LogLine)
    requires
        lines.len() == LOG_CAP,
    ensures
        pushed(lines, next, line) == lines.drop_first().push(line),
{
    assert(pushed(lines, next, line) =~= lines.drop_first().push(line));
}

/// An executable inside `Contents/MacOS` of a bundle with at least one
/// component above `Contents` gets its data beside the bundle: the path
/// without its last four components, joined with `noalbsgui-data`, however
/// many components lie above the bundle.
pub proof fn law_bundle_data_beside_app(exe: PathView)
    requires
        exe.parts.len() >= 4,
        exe.parts[exe.parts.len() - 3] == "Contents"@,
        exe.parts[exe.parts.len() - 2] == "MacOS"@,
    ensures
        portable_base(exe).root == exe.root,
        portable_base(exe).parts == exe.parts.take(exe.parts.len() - 4).push("noalbsgui-data"@),
{
    let d = exe.parts.drop_last();
    assert(d[d.len() - 2] == exe.parts[exe.parts.len() - 3]);
    assert(d.subrange(0, d.len() - 3) =~= exe.parts.take(exe.parts.len() - 4));
}

/// Any other executable gets its data beside itself: its directory joined
/// with `noalbsgui-data`.
pub proof fn law_data_beside_plain_exe(exe: PathView)
    requires
        exe.parts.len() >= 1,
        !(exe.parts.len() >= 3 && exe.parts[exe.parts.len() - 3] == "Contents"@
            && exe.parts[exe.parts.len() - 2] == "MacOS"@),
    ensures
        portable_base(exe).root == exe.root,
        portable_base(exe).parts == exe.parts.drop_last().push("noalbsgui-data"@),
{
    let d = exe.parts.drop_last();
    if d.len() >= 2 {
        assert(d[d.len() - 2] == exe.parts[exe.parts.len() - 3]);
        assert(d.last() == exe.parts[exe.parts.len() - 2]);
    }
}

/// A line that is no scene switch and names no user, and ends (before
/// trailing blanks) in an OBS connection message, sets the connection:
/// `Disconnected` is read before `Connected`, so it is never taken for it.
pub proof fn law_connection_from_line_end(line: Seq<char>, st: StatusView)
    requires
        !contains(line, "Scene switched to ["@),
        !contains(line, "Loaded user: "@),
    ensures
        ends_with(trim_end(line), "Disconnected"@) ==> status_after(line, st).obs
            == crate::status::ObsConnection::Disconnected,
        !ends_with(trim_end(line), "Disconnected"@) && ends_with(trim_end(line), "Connecting"@)
            ==> status_after(line, st).obs == crate::status::ObsConnection::Connecting,
        !ends_with(trim_end(line), "Disconnected"@) && !ends_with(trim_end(line), "Connecting"@)
            && ends_with(trim_end(line), "Connected"@) ==> status_after(line, st).obs
            == crate::status::ObsConnection::Connected,
        status_after(line, st).current_scene == st.current_scene,
        status_after(line, st).user == st.user,
{
}

/// A line that "Switcher running" or "Running switcher" appears in, and that
/// no earlier rule takes, sets the switcher state to "Running".
pub proof fn law_switcher_running_anywhere(line: Seq<char>, st: StatusView)
    requires
        contains(line, "Switcher running"@) || contains(line, "Running switcher"@),
        !contains(line, "Scene switched to ["@),
        !contains(line, "Loaded user: "@),
        !ends_with(trim_end(line), "Disconnected"@),
        !ends_with(trim_end(line), "Connecting"@),
        !ends_with(trim_end(line), "Connected"@),
        !contains(line, "Offline timeout reached"@),
        !contains(line, "Switcher disabled"@),
        !contains(line, "Waiting for OBS connection"@),
        !contains(line, "Waiting till OBS starts streaming"@),
        !contains(line, "waiting for scene switch to a switchable scene"@),
    ensures
        status_after(line, st).switcher_state == Some("Running"@),
{
}

/// A line that carries none of the messages the dashboard reads leaves the
/// status exactly as it was.
pub proof fn law_other_lines_change_nothing(line: Seq<char>, st: StatusView)
    requires
        !contains(line, "Scene switched to ["@),
        !contains(line, "Loaded user: "@),
        !ends_with(trim_end(line), "Disconnected"@),
        !ends_with(trim_end(line), "Connecting"@),
        !ends_with(trim_end(line), "Connected"@),
        !contains(line, "Offline timeout reached"@),
        !contains(line, "Switcher disabled"@),
        !contains(line, "Waiting for OBS connection"@),
        !contains(line, "Waiting till OBS starts streaming"@),
        !contains(line, "waiting for scene switch to a switchable scene"@),
        !contains(line, "Switcher running"@),
        !contains(line, "Running switcher"@),
    ensures
        status_after(line, st) == st,
{
}

} // verus!
