//! The steps that carry out a command on Linux.

use crate::audio::MediaKey;
use crate::commands;
use crate::commands::custom;
use crate::commands::custom::{execute_custom_command, InvocationView, Platform};
use crate::commands::dry_run;
use crate::commands::executor;
use crate::commands::executor::{
    normalize_payload, read_common_step, read_gate, shell_step, DropReason, ShellResolution,
    ShellView, Step, StepView,
};
use crate::commands::launcher;
use crate::commands::launcher_linux;
use crate::commands::launcher_linux::expand_launcher_shortcut;
use crate::config::Config;
use crate::power::sync_mqtt::sleep_connection;
use crate::text;
use crate::text::chars_of;
use vstd::prelude::*;
use vstd::string::*;

verus! {

/// The shell command that stands behind a name on Linux.
pub open spec fn predefined(name: Seq<char>) -> Option<Seq<char>> {
    if name == "Screensaver"@ {
        Some("xdg-screensaver activate"@)
    } else if name == "Shutdown"@ {
        Some("systemctl poweroff"@)
    } else if name == "Lock"@ {
        Some("loginctl lock-session"@)
    } else if name == "Restart"@ {
        Some("systemctl reboot"@)
    } else if name == "Logoff"@ {
        Some("loginctl terminate-session \"$XDG_SESSION_ID\""@)
    } else {
        None
    }
}

/// The shell command that stands behind a name on Linux, if there is one.
pub fn get_predefined_command(name: &str) -> (r: Option<&'static str>)
    ensures
        match r {
            Some(cmd) => predefined(name@) == Some(cmd@),
            None => predefined(name@) is None,
        },
{
    if name.eq("Screensaver") {
        Some("xdg-screensaver activate")
    } else if name.eq("Shutdown") {
        Some("systemctl poweroff")
    } else if name.eq("Lock") {
        Some("loginctl lock-session")
    } else if name.eq("Restart") {
        Some("systemctl reboot")
    } else if name.eq("Logoff") {
        Some("loginctl terminate-session \"$XDG_SESSION_ID\"")
    } else {
        None
    }
}

/// What a name and a normalized payload resolve to on Linux.
pub open spec fn shell_resolution(
    name: Seq<char>,
    payload: Seq<char>,
    allow_raw: bool,
) -> ShellView {
    executor::resolution(predefined(name), launcher_linux::expanded(payload), payload, allow_raw)
}

/// Nothing is expanded from an empty payload.
proof fn lemma_empty_payload()
    ensures
        launcher_linux::expanded(Seq::<char>::empty()) is None,
{
    text::lemma_first_index(Seq::<char>::empty(), ':');
}

/// Resolves a name and a normalized payload to a shell command.
pub fn resolve_shell_command(name: &str, payload: &str, allow_raw_commands: bool) -> (r:
    ShellResolution)
    ensures
        r@ == shell_resolution(name@, payload@, allow_raw_commands),
{
    match get_predefined_command(name) {
        Some(cmd) => {
            return ShellResolution::Predefined(cmd.to_string());
        },
        None => {},
    }
    proof {
        if payload@.len() == 0 {
            assert(payload@ =~= Seq::<char>::empty());
            lemma_empty_payload();
        }
    }
    match expand_launcher_shortcut(payload) {
        Some(cmd) => ShellResolution::LauncherShortcut(cmd),
        None => {
            if chars_of(payload).len() == 0 {
                ShellResolution::NotFound
            } else if allow_raw_commands {
                ShellResolution::RawCommand(payload.to_string())
            } else {
                ShellResolution::Blocked
            }
        },
    }
}

/// What the agent does itself on Linux.
pub open spec fn own_step(
    c: Config,
    name: Seq<char>,
    payload: Seq<char>,
    level: Option<u32>,
) -> Option<StepView> {
    if executor::common_step(c, name, payload, level) is Some {
        executor::common_step(c, name, payload, level)
    } else if name == "Sleep"@ {
        Some(StepView::Suspend { config: c, command: "systemctl suspend"@ })
    } else if name == "Hibernate"@ {
        Some(StepView::Suspend { config: c, command: "systemctl hibernate"@ })
    } else if name == "MonitorOff"@ {
        Some(StepView::MonitorOff)
    } else if name == "MonitorOn"@ {
        Some(StepView::WakeDisplay)
    } else if name == "CloseGame"@ {
        Some(StepView::CloseGames)
    } else {
        None
    }
}

/// What a command leads to on Linux.
pub open spec fn linux_step(
    c: Config,
    dry: bool,
    name: Seq<char>,
    payload: Seq<char>,
    level: Option<u32>,
) -> Result<StepView, Seq<char>> {
    let p = executor::normalized(payload);
    if executor::gate(c, dry, name, p) is Some {
        Ok(executor::gate(c, dry, name, p)->0)
    } else if own_step(c, name, p, level) is Some {
        Ok(own_step(c, name, p, level)->0)
    } else {
        executor::outside_step(
            custom::custom_outcome(c, name, Platform::Unix),
            shell_resolution(name, p, c.allow_raw_commands),
        )
    }
}

fn read_own_step(config: &Config, name: &str, payload: &str, level: Option<u32>) -> (r: Option<
    Step,
>)
    ensures
        match (r, own_step(*config, name@, payload@, level)) {
            (Some(s), Some(t)) => executor::is_step(s, t),
            (None, None) => true,
            _ => false,
        },
{
    match read_common_step(config, name, payload, level) {
        Some(s) => {
            return Some(s);
        },
        None => {},
    }
    if name.eq("Sleep") {
        return Some(
            Step::Suspend { connection: sleep_connection(config), command: "systemctl suspend" },
        );
    }
    if name.eq("Hibernate") {
        return Some(
            Step::Suspend { connection: sleep_connection(config), command: "systemctl hibernate" },
        );
    }
    if name.eq("MonitorOff") {
        return Some(Step::MonitorOff);
    }
    if name.eq("MonitorOn") {
        return Some(Step::WakeDisplay);
    }
    if name.eq("CloseGame") {
        return Some(Step::CloseGames);
    }
    None
}

/// The step that carries out a command on Linux, or why its custom command cannot
/// be run. `level` holds the bits of the single-precision number that the
/// normalized payload spells, or nothing where it spells none.
pub fn execute_command(
    config: &Config,
    dry: bool,
    name: &str,
    payload: &str,
    level: Option<u32>,
) -> (r: Result<Step, String>)
    ensures
        executor::is_outcome(r, linux_step(*config, dry, name@, payload@, level)),
{
    let p = normalize_payload(payload);
    match read_gate(config, dry, name, &p) {
        Some(s) => {
            return Ok(s);
        },
        None => {},
    }
    match read_own_step(config, name, &p, level) {
        Some(s) => {
            return Ok(s);
        },
        None => {},
    }
    match execute_custom_command(config, name, Platform::Unix) {
        Err(m) => Err(m),
        Ok(Some(i)) => Ok(Step::Custom(i)),
        Ok(None) => Ok(shell_step(resolve_shell_command(name, &p, config.allow_raw_commands))),
    }
}

// ---------------------------------------------------------------------------
// Closing games
// ---------------------------------------------------------------------------

/// The commands that close processes: one for each process whose name a shortcut
/// can carry, in order.
pub open spec fn close_commands(processes: Seq<Seq<char>>) -> Seq<Seq<char>>
    decreases processes.len(),
{
    if processes.len() == 0 {
        seq![]
    } else {
        let before = close_commands(processes.drop_last());
        match launcher_linux::expanded("close:"@ + processes.last()) {
            Some(cmd) => before.push(cmd),
            None => before,
        }
    }
}

/// The commands that close the running games.
pub fn close_running_games(processes: &Vec<String>) -> (r: Vec<String>)
    ensures
        text::views(r@) == close_commands(text::views(processes@)),
{
    let mut out: Vec<String> = Vec::new();
    let ghost ps = text::views(processes@);
    let mut i: usize = 0;
    proof {
        assert(ps.take(0) =~= Seq::<Seq<char>>::empty());
        assert(text::views(out@) =~= Seq::<Seq<char>>::empty());
    }
    while i < processes.len()
        invariant
            i <= processes.len(),
            ps == text::views(processes@),
            text::views(out@) == close_commands(ps.take(i as int)),
        decreases processes.len() - i,
    {
        proof {
            assert(ps.take(i + 1).drop_last() =~= ps.take(i as int));
            assert(ps.take(i + 1).last() == processes@[i as int]@);
        }
        let mut payload = "close:".to_string();
        payload.append(&processes[i]);
        match expand_launcher_shortcut(&payload) {
            Some(cmd) => {
                let ghost before = out@;
                let ghost line = cmd@;
                out.push(cmd);
                proof {
                    assert(text::views(out@) =~= text::views(before).push(line));
                }
            },
            None => {},
        }
        i += 1;
    }
    proof {
        assert(ps.take(ps.len() as int) =~= ps);
    }
    out
}

/// A dry run has no effect: it only reports, and the report is the same on every
/// platform.
pub proof fn law_dry_run_is_the_same_everywhere(
    c: Config,
    name: Seq<char>,
    payload: Seq<char>,
    level: Option<u32>,
)
    ensures
        linux_step(c, true, name, payload, level) == Ok::<StepView, Seq<char>>(
            StepView::Report(dry_run::action(c, name, executor::normalized(payload))),
        ),
        linux_step(c, true, name, payload, level) == executor::windows_step(
            c,
            true,
            name,
            payload,
            level,
        ),
{
}

/// A command whose feature is off does nothing.
pub proof fn law_disabled_features_do_nothing(
    c: Config,
    name: Seq<char>,
    payload: Seq<char>,
    level: Option<u32>,
)
    requires
        !commands::feature_enabled(name, c.features),
    ensures
        linux_step(c, false, name, payload, level) == Ok::<StepView, Seq<char>>(
            StepView::Drop(DropReason::FeatureDisabled),
        ),
{
}

/// Without permission no raw payload is ever run, and a launcher shortcut runs
/// with or without it.
pub proof fn law_only_raw_commands_need_permission(name: Seq<char>, payload: Seq<char>)
    ensures
        !(shell_resolution(name, payload, false) is RawCommand),
        shell_resolution(name, payload, false) is Blocked <==> shell_resolution(
            name,
            payload,
            true,
        ) is RawCommand,
        !(shell_resolution(name, payload, false) is Blocked) ==> shell_resolution(
            name,
            payload,
            false,
        ) == shell_resolution(name, payload, true),
        forall|allow_raw: bool|
            predefined(name) is None && launcher_linux::expanded(payload) is Some
                ==> #[trigger] shell_resolution(name, payload, allow_raw)
                == ShellView::LauncherShortcut(launcher_linux::expanded(payload)->0),
{
}

/// Every command obeys the switch of its own feature and no other, on every platform: it
/// is dropped because its feature is off exactly where that switch is off.
pub proof fn law_each_command_obeys_its_switch(c: Config, payload: Seq<char>, level: Option<u32>)
    ensures
        ({
            let f = c.features;
            let dropped = Ok::<StepView, Seq<char>>(StepView::Drop(DropReason::FeatureDisabled));
            let obeys = |name: Seq<char>, on: bool|
                {
                    &&& (executor::windows_step(c, false, name, payload, level) == dropped) == !on
                    &&& (linux_step(c, false, name, payload, level) == dropped) == !on
                };
            &&& obeys("Launch"@, f.launch_game)
            &&& obeys("CloseGame"@, f.close_game)
            &&& obeys("RefreshSteamGames"@, f.steam_library)
            &&& obeys("Screensaver"@, f.idle_tracking)
            &&& obeys("Wake"@, f.idle_tracking)
            &&& obeys("DiscordJoin"@, f.discord)
            &&& obeys("DiscordLeaveChannel"@, f.discord)
            &&& obeys("Shutdown"@, f.cmd_shutdown)
            &&& obeys("Restart"@, f.cmd_restart)
            &&& obeys("Sleep"@, f.cmd_sleep)
            &&& obeys("Hibernate"@, f.cmd_sleep)
            &&& obeys("Lock"@, f.cmd_lock)
            &&& obeys("Logoff"@, f.cmd_logoff)
            &&& obeys("MonitorOff"@, f.cmd_monitor)
            &&& obeys("MonitorOn"@, f.cmd_monitor)
            &&& obeys("MediaPlayPause"@, f.media_controls)
            &&& obeys("MediaNext"@, f.media_controls)
            &&& obeys("MediaPrevious"@, f.media_controls)
            &&& obeys("MediaStop"@, f.media_controls)
            &&& obeys("VolumeMute"@, f.media_controls)
            &&& obeys("VolumeSet"@, true)
            &&& obeys("notification"@, true)
        }),
{
    commands::law_each_command_has_its_feature(c.features);
    commands::lemma_command_names();
    lemma_dropped_iff_off(c, "Launch"@, payload, level);
    lemma_dropped_iff_off(c, "CloseGame"@, payload, level);
    lemma_dropped_iff_off(c, "RefreshSteamGames"@, payload, level);
    lemma_dropped_iff_off(c, "Screensaver"@, payload, level);
    lemma_dropped_iff_off(c, "Wake"@, payload, level);
    lemma_dropped_iff_off(c, "DiscordJoin"@, payload, level);
    lemma_dropped_iff_off(c, "DiscordLeaveChannel"@, payload, level);
    lemma_dropped_iff_off(c, "Shutdown"@, payload, level);
    lemma_dropped_iff_off(c, "Restart"@, payload, level);
    lemma_dropped_iff_off(c, "Sleep"@, payload, level);
    lemma_dropped_iff_off(c, "Hibernate"@, payload, level);
    lemma_dropped_iff_off(c, "Lock"@, payload, level);
    lemma_dropped_iff_off(c, "Logoff"@, payload, level);
    lemma_dropped_iff_off(c, "MonitorOff"@, payload, level);
    lemma_dropped_iff_off(c, "MonitorOn"@, payload, level);
    lemma_dropped_iff_off(c, "MediaPlayPause"@, payload, level);
    lemma_dropped_iff_off(c, "MediaNext"@, payload, level);
    lemma_dropped_iff_off(c, "MediaPrevious"@, payload, level);
    lemma_dropped_iff_off(c, "MediaStop"@, payload, level);
    lemma_dropped_iff_off(c, "VolumeMute"@, payload, level);
    lemma_dropped_iff_off(c, "VolumeSet"@, payload, level);
    lemma_dropped_iff_off(c, "notification"@, payload, level);
}

proof fn lemma_dropped_iff_off(
    c: Config,
    name: Seq<char>,
    payload: Seq<char>,
    level: Option<u32>,
)
    ensures
        (executor::windows_step(c, false, name, payload, level) == Ok::<StepView, Seq<char>>(
            StepView::Drop(DropReason::FeatureDisabled),
        )) == !commands::feature_enabled(name, c.features),
        (linux_step(c, false, name, payload, level) == Ok::<StepView, Seq<char>>(
            StepView::Drop(DropReason::FeatureDisabled),
        )) == !commands::feature_enabled(name, c.features),
{
}

/// What each command that the agent carries out itself does on Linux when its feature is
/// on.
pub proof fn law_own_commands(c: Config, payload: Seq<char>, level: Option<u32>)
    ensures
        ({
            let f = c.features;
            let p = executor::normalized(payload);
            let does = |name: Seq<char>, step: StepView|
                linux_step(c, false, name, payload, level) == Ok::<StepView, Seq<char>>(step);
            &&& f.idle_tracking ==> does("Wake"@, StepView::WakeDisplay)
            &&& f.discord ==> does(
                "DiscordLeaveChannel"@,
                StepView::Keybind(
                    match c.discord_keybind {
                        Some(k) => k@,
                        None => "ctrl+f6"@,
                    },
                ),
            )
            &&& f.steam_library ==> does("RefreshSteamGames"@, StepView::RefreshGames)
            &&& f.media_controls ==> does("MediaPlayPause"@, StepView::Media(MediaKey::PlayPause))
            &&& f.media_controls ==> does("MediaNext"@, StepView::Media(MediaKey::Next))
            &&& f.media_controls ==> does("MediaPrevious"@, StepView::Media(MediaKey::Previous))
            &&& f.media_controls ==> does("MediaStop"@, StepView::Media(MediaKey::Stop))
            &&& p.len() > 0 ==> does("notification"@, StepView::Notify(p))
            &&& p.len() == 0 ==> does(
                "notification"@,
                StepView::Drop(DropReason::EmptyNotification),
            )
            &&& level matches Some(v) ==> does("VolumeSet"@, StepView::SetVolume(v))
            &&& level is None ==> does("VolumeSet"@, StepView::Drop(DropReason::InvalidVolume))
            &&& f.media_controls && (p.len() == 0 || text::same_ignoring_case(p, "press"@)) ==> does(
                "VolumeMute"@,
                StepView::ToggleMute,
            )
            &&& f.media_controls && p.len() > 0 && !text::same_ignoring_case(p, "press"@) ==> does(
                "VolumeMute"@,
                StepView::SetMute(text::same_ignoring_case(p, "true"@) || p == "1"@),
            )
            &&& f.cmd_sleep ==> does(
                "Sleep"@,
                StepView::Suspend { config: c, command: "systemctl suspend"@ },
            )
            &&& f.cmd_sleep ==> does(
                "Hibernate"@,
                StepView::Suspend { config: c, command: "systemctl hibernate"@ },
            )
            &&& f.cmd_monitor ==> does("MonitorOff"@, StepView::MonitorOff)
            &&& f.cmd_monitor ==> does("MonitorOn"@, StepView::WakeDisplay)
            &&& f.close_game ==> does("CloseGame"@, StepView::CloseGames)
        }),
{
    commands::lemma_command_names();
}

/// The shell commands that stand behind names, where no custom command takes the name.
pub proof fn law_commands_behind_names(c: Config, payload: Seq<char>, level: Option<u32>)
    ensures
        ({
            let f = c.features;
            let runs = |name: Seq<char>, line: Seq<char>|
                custom::custom_outcome(c, name, Platform::Unix) == Ok::<
                    Option<InvocationView>,
                    Seq<char>,
                >(None) ==> linux_step(c, false, name, payload, level) == Ok::<StepView, Seq<char>>(
                    StepView::Shell(line),
                );
            &&& f.cmd_shutdown ==> runs("Shutdown"@, "systemctl poweroff"@)
            &&& f.cmd_restart ==> runs("Restart"@, "systemctl reboot"@)
            &&& f.cmd_lock ==> runs("Lock"@, "loginctl lock-session"@)
            &&& f.cmd_logoff ==> runs(
                "Logoff"@,
                "loginctl terminate-session \"$XDG_SESSION_ID\""@,
            )
            &&& f.idle_tracking ==> runs("Screensaver"@, "xdg-screensaver activate"@)
        }),
{
    commands::lemma_command_names();
}

/// A command that the agent does not carry out itself is the custom command with its
/// name; without one, and with no shell command behind the name, it is the launcher
/// shortcut in the payload, and else the payload itself where raw commands are allowed.
pub proof fn law_other_commands(
    c: Config,
    name: Seq<char>,
    payload: Seq<char>,
    level: Option<u32>,
)
    requires
        commands::feature_enabled(name, c.features),
        name != "DiscordLeaveChannel"@ && name != "Wake"@ && name != "notification"@ && name != "VolumeSet"@ && name != "VolumeMute"@ && name != "RefreshSteamGames"@ && name != "MediaPlayPause"@ && name != "MediaNext"@ && name != "MediaPrevious"@ && name != "MediaStop"@ && name != "Sleep"@ && name != "Hibernate"@ && name != "MonitorOff"@ && name != "MonitorOn"@ && name != "CloseGame"@,
    ensures
        ({
            let p = executor::normalized(payload);
            let done = linux_step(c, false, name, payload, level);
            match custom::custom_outcome(c, name, Platform::Unix) {
                Err(m) => done == Err::<StepView, Seq<char>>(m),
                Ok(Some(i)) => done == Ok::<StepView, Seq<char>>(StepView::Custom(i)),
                Ok(None) => name != "Shutdown"@ && name != "Restart"@ && name != "Lock"@ && name != "Logoff"@ && name != "Screensaver"@ ==> {
                    &&& p.len() == 0 ==> done == Ok::<StepView, Seq<char>>(
                        StepView::Drop(DropReason::NotConfigured),
                    )
                    &&& p.len() > 0 ==> match launcher_linux::expanded(p) {
                        Some(line) => done == Ok::<StepView, Seq<char>>(StepView::Shell(line)),
                        None => if c.allow_raw_commands {
                            done == Ok::<StepView, Seq<char>>(StepView::Shell(p))
                        } else {
                            done == Ok::<StepView, Seq<char>>(
                                StepView::Drop(DropReason::RawCommandBlocked),
                            )
                        },
                    }
                },
            }
        }),
{
}

/// Each running game is closed by its process name, in order, and one whose name holds
/// anything but ASCII letters, digits, dots, dashes and underscores is passed over.
pub proof fn law_running_games_are_closed(before: Seq<Seq<char>>, process: Seq<char>)
    requires
        launcher::is_trimmed(process),
        !text::has_suffix(process, ".exe"@),
    ensures
        close_commands(Seq::<Seq<char>>::empty()) == Seq::<Seq<char>>::empty(),
        close_commands(before.push(process)) == if forall|i: int|
            0 <= i < process.len() ==> '0' <= (#[trigger] process[i]) <= '9' || 'a' <= process[i]
                <= 'z' || 'A' <= process[i] <= 'Z' || process[i] == '.' || process[i] == '-'
                || process[i] == '_' {
            close_commands(before).push("pkill -f '"@ + process + "'"@)
        } else {
            close_commands(before)
        },
{
    launcher_linux::law_processes_are_closed(process);
    assert(before.push(process).drop_last() =~= before);
    assert(before.push(process).last() == process);
}

} // verus!
