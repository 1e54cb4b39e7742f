//! Command gates: which commands are built in, which feature allows each of
//! them, and which launch payloads need a permission of their own.

pub mod custom;
pub mod dry_run;
pub mod executor;
pub mod executor_linux;
pub mod keybind;
pub mod launcher;
pub mod launcher_linux;
pub mod variables;

use crate::config::{Config, FeatureConfig};
use crate::text;
use crate::text::{
    chars_of, is_text, split_once, starts_with, string_of, to_ascii_lower, trim_chars,
    trim_end_text, trim_start_chars,
};
use vstd::prelude::*;
use vstd::string::*;

verus! {

// ---------------------------------------------------------------------------
// Built-in commands and their features
// ---------------------------------------------------------------------------

/// Every built-in command.
pub open spec fn native_commands() -> Seq<Seq<char>> {
    seq![
        "Launch"@,
        "CloseGame"@,
        "RefreshSteamGames"@,
        "Screensaver"@,
        "Wake"@,
        "DiscordJoin"@,
        "DiscordLeaveChannel"@,
        "Shutdown"@,
        "Restart"@,
        "Sleep"@,
        "Hibernate"@,
        "Lock"@,
        "Logoff"@,
        "MonitorOff"@,
        "MonitorOn"@,
        "MediaPlayPause"@,
        "MediaNext"@,
        "MediaPrevious"@,
        "MediaStop"@,
        "VolumeMute"@,
    ]
}

/// The feature that allows a command is on. A command without a feature of its
/// own is allowed here and gated elsewhere.
pub open spec fn feature_enabled(name: Seq<char>, f: FeatureConfig) -> bool {
    if name == "Shutdown"@ {
        f.cmd_shutdown
    } else if name == "Restart"@ {
        f.cmd_restart
    } else if name == "Sleep"@ || name == "Hibernate"@ {
        f.cmd_sleep
    } else if name == "Lock"@ {
        f.cmd_lock
    } else if name == "Logoff"@ {
        f.cmd_logoff
    } else if name == "MonitorOff"@ || name == "MonitorOn"@ {
        f.cmd_monitor
    } else if name == "Launch"@ {
        f.launch_game
    } else if name == "CloseGame"@ {
        f.close_game
    } else if name == "RefreshSteamGames"@ {
        f.steam_library
    } else if name == "Screensaver"@ || name == "Wake"@ {
        f.idle_tracking
    } else if name == "DiscordJoin"@ || name == "DiscordLeaveChannel"@ {
        f.discord
    } else if name == "MediaPlayPause"@ || name == "MediaNext"@ || name == "MediaPrevious"@ || name == "MediaStop"@ || name == "VolumeMute"@ {
        f.media_controls
    } else {
        true
    }
}

/// Whether the feature that allows a command is on.
///
/// A command can arrive on a stale subscription after its feature was turned
/// off, so this is asked again before anything is done.
pub fn command_feature_enabled(name: &str, f: &FeatureConfig) -> (r: bool)
    ensures
        r == feature_enabled(name@, *f),
{
    if name.eq("Shutdown") {
        f.cmd_shutdown
    } else if name.eq("Restart") {
        f.cmd_restart
    } else if name.eq("Sleep") || name.eq("Hibernate") {
        f.cmd_sleep
    } else if name.eq("Lock") {
        f.cmd_lock
    } else if name.eq("Logoff") {
        f.cmd_logoff
    } else if name.eq("MonitorOff") || name.eq("MonitorOn") {
        f.cmd_monitor
    } else if name.eq("Launch") {
        f.launch_game
    } else if name.eq("CloseGame") {
        f.close_game
    } else if name.eq("RefreshSteamGames") {
        f.steam_library
    } else if name.eq("Screensaver") || name.eq("Wake") {
        f.idle_tracking
    } else if name.eq("DiscordJoin") || name.eq("DiscordLeaveChannel") {
        f.discord
    } else if name.eq("MediaPlayPause") || name.eq("MediaNext") || name.eq("MediaPrevious") || name.eq("MediaStop") || name.eq("VolumeMute") {
        f.media_controls
    } else {
        true
    }
}

/// Whether `name` is a built-in command. A custom command must not take such a
/// name: it would share the topics of the built-in one.
pub fn is_native_command(name: &str) -> (r: bool)
    ensures
        r == native_commands().contains(name@),
{
    let commands = native_command_list();
    let mut i: usize = 0;
    while i < commands.len()
        invariant
            i <= commands.len(),
            commands@.len() == native_commands().len(),
            forall|k: int|
                0 <= k < commands@.len() ==> (#[trigger] commands@[k])@ == native_commands()[k],
            forall|k: int| 0 <= k < i ==> native_commands()[k] != name@,
        decreases commands.len() - i,
    {
        if commands[i].eq(name) {
            proof {
                assert(native_commands()[i as int] == name@);
            }
            return true;
        }
        i += 1;
    }
    false
}

/// Every built-in command, in the order in which they are subscribed.
pub fn native_command_list() -> (r: Vec<&'static str>)
    ensures
        r@.len() == native_commands().len(),
        forall|k: int| 0 <= k < r@.len() ==> (#[trigger] r@[k])@ == native_commands()[k],
{
    vec![
        "Launch",
        "CloseGame",
        "RefreshSteamGames",
        "Screensaver",
        "Wake",
        "DiscordJoin",
        "DiscordLeaveChannel",
        "Shutdown",
        "Restart",
        "Sleep",
        "Hibernate",
        "Lock",
        "Logoff",
        "MonitorOff",
        "MonitorOn",
        "MediaPlayPause",
        "MediaNext",
        "MediaPrevious",
        "MediaStop",
        "VolumeMute",
    ]
}

// ---------------------------------------------------------------------------
// Launch payloads
// ---------------------------------------------------------------------------

/// The scheme of a launch payload, trimmed and in lower case as the launcher reads
/// it, and what follows the first colon.
pub open spec fn launch_parts(payload: Seq<char>) -> Option<(Seq<char>, Seq<char>)> {
    match text::split_once_spec(payload, ':') {
        Some((scheme, rest)) => Some((text::lowercase(text::trim(scheme)), rest)),
        None => None,
    }
}

fn read_launch_parts(payload: &str) -> (r: Option<(Vec<char>, Vec<char>)>)
    ensures
        match r {
            Some((scheme, rest)) => launch_parts(payload@) == Some((scheme@, rest@)),
            None => launch_parts(payload@) is None,
        },
{
    match split_once(&chars_of(payload), ':') {
        Some((scheme, rest)) => {
            let name = string_of(&trim_chars(&scheme));
            Some((chars_of(&name.to_lowercase()), rest))
        },
        None => None,
    }
}

/// A payload that runs an arbitrary program or opens an arbitrary URL: `exe:`,
/// `lnk:`, and `url:` unless it leads to a Discord channel.
pub open spec fn arbitrary_launch(payload: Seq<char>) -> bool {
    match launch_parts(payload) {
        Some((scheme, rest)) => {
            ||| scheme == "exe"@
            ||| scheme == "lnk"@
            ||| scheme == "url"@ && !text::has_prefix(
                text::ascii_lower_all(text::trim_start(rest)),
                "discord://"@,
            )
        },
        None => false,
    }
}

/// Whether a payload runs an arbitrary program or opens an arbitrary URL.
pub fn is_arbitrary_launch(payload: &str) -> (r: bool)
    ensures
        r == arbitrary_launch(payload@),
{
    match read_launch_parts(payload) {
        Some((scheme, rest)) => {
            if is_text(&scheme, "exe") || is_text(&scheme, "lnk") {
                true
            } else if is_text(&scheme, "url") {
                !starts_with(&to_ascii_lower(&trim_start_chars(&rest)), "discord://")
            } else {
                false
            }
        },
        None => false,
    }
}

/// Whether `payload` is the launch command of a configured game.
/// `launch_commands` holds these commands.
pub fn is_configured_launch(launch_commands: &Vec<String>, payload: &str) -> (r: bool)
    ensures
        r == text::views(launch_commands@).contains(payload@),
{
    let mut i: usize = 0;
    while i < launch_commands.len()
        invariant
            i <= launch_commands.len(),
            forall|k: int| 0 <= k < i ==> text::views(launch_commands@)[k] != payload@,
        decreases launch_commands.len() - i,
    {
        if launch_commands[i].as_str().eq(payload) {
            proof {
                assert(text::views(launch_commands@)[i as int] == payload@);
            }
            return true;
        }
        i += 1;
    }
    false
}

/// The process that a `close:` or `kill:` payload is aimed at.
pub open spec fn close_target_of(payload: Seq<char>) -> Option<Seq<char>> {
    match launch_parts(payload) {
        Some((scheme, rest)) => if scheme == "close"@ || scheme == "kill"@ {
            Some(text::strip_suffixes(text::trim(rest), ".exe"@))
        } else {
            None
        },
        None => None,
    }
}

/// The process that a `close:` or `kill:` payload is aimed at: the name after the
/// colon, trimmed and without `.exe`.
pub fn close_target(payload: &str) -> (r: Option<String>)
    ensures
        text::opt(r) == close_target_of(payload@),
{
    match read_launch_parts(payload) {
        Some((scheme, rest)) => {
            if is_text(&scheme, "close") || is_text(&scheme, "kill") {
                Some(string_of(&trim_end_text(&trim_chars(&rest), ".exe")))
            } else {
                None
            }
        },
        None => None,
    }
}

/// A launch by an id needs the permission for global launches unless it is the
/// command of a configured game; closing a process needs the permission for
/// global closes unless a configured game runs under that name.
pub open spec fn scheme_blocked(
    allow_global_launch: bool,
    allow_global_close: bool,
    payload: Seq<char>,
    launch_commands: Seq<Seq<char>>,
    target_is_game: bool,
) -> bool {
    match launch_parts(payload) {
        Some((scheme, _)) => {
            if scheme == "steam"@ || scheme == "epic"@ || scheme == "update"@ || scheme
                == "validate"@ {
                !allow_global_launch && !launch_commands.contains(payload)
            } else if scheme == "close"@ || scheme == "kill"@ {
                !allow_global_close && !target_is_game
            } else {
                false
            }
        },
        None => false,
    }
}

/// Whether a payload is blocked because it reaches beyond the configured games
/// without permission. `launch_commands` holds the launch commands of the
/// configured games; `target_is_game` says whether a configured game runs under
/// the name that `close_target` gives.
pub fn global_scheme_blocked(
    config: &Config,
    payload: &str,
    launch_commands: &Vec<String>,
    target_is_game: bool,
) -> (r: bool)
    ensures
        r == scheme_blocked(
            config.allow_global_launch,
            config.allow_global_close,
            payload@,
            text::views(launch_commands@),
            target_is_game,
        ),
{
    match read_launch_parts(payload) {
        Some((scheme, _rest)) => {
            if is_text(&scheme, "steam") || is_text(&scheme, "epic") || is_text(
                &scheme,
                "update",
            ) || is_text(&scheme, "validate") {
                !config.allow_global_launch && !is_configured_launch(launch_commands, payload)
            } else if is_text(&scheme, "close") || is_text(&scheme, "kill") {
                !config.allow_global_close && !target_is_game
            } else {
                false
            }
        },
        None => false,
    }
}

/// With both permissions no payload is blocked.
pub proof fn law_permissions_lift_the_gate(
    payload: Seq<char>,
    launch_commands: Seq<Seq<char>>,
    target_is_game: bool,
)
    ensures
        !scheme_blocked(true, true, payload, launch_commands, target_is_game),
{
}

/// The launch command of a configured game, and a process that a configured game
/// runs under, are never blocked.
pub proof fn law_configured_games_are_not_blocked(
    allow_global_launch: bool,
    allow_global_close: bool,
    payload: Seq<char>,
    launch_commands: Seq<Seq<char>>,
    target_is_game: bool,
)
    ensures
        launch_commands.contains(payload) && close_target_of(payload) is None ==> !scheme_blocked(
            allow_global_launch,
            allow_global_close,
            payload,
            launch_commands,
            target_is_game,
        ),
        target_is_game && close_target_of(payload) is Some ==> !scheme_blocked(
            allow_global_launch,
            allow_global_close,
            payload,
            launch_commands,
            target_is_game,
        ),
{
    reveal_strlit("steam");
    reveal_strlit("epic");
    reveal_strlit("update");
    reveal_strlit("validate");
    reveal_strlit("close");
    reveal_strlit("kill");
    assert("close"@[0] != "steam"@[0]);
    assert("kill"@[0] != "epic"@[0]);
}

/// A payload that runs an arbitrary program or opens an arbitrary URL is not judged
/// by its scheme: neither of the two permissions is about it.
pub proof fn law_arbitrary_launches_are_not_judged_by_scheme(
    allow_global_launch: bool,
    allow_global_close: bool,
    payload: Seq<char>,
    launch_commands: Seq<Seq<char>>,
    target_is_game: bool,
)
    requires
        arbitrary_launch(payload),
    ensures
        !scheme_blocked(
            allow_global_launch,
            allow_global_close,
            payload,
            launch_commands,
            target_is_game,
        ),
{
    reveal_strlit("exe");
    reveal_strlit("lnk");
    reveal_strlit("url");
    reveal_strlit("steam");
    reveal_strlit("epic");
    reveal_strlit("update");
    reveal_strlit("validate");
    reveal_strlit("close");
    reveal_strlit("kill");
    assert("exe"@.len() == 3 && "lnk"@.len() == 3 && "url"@.len() == 3);
    assert("steam"@.len() == 5 && "epic"@.len() == 4 && "update"@.len() == 6);
    assert("validate"@.len() == 8 && "close"@.len() == 5 && "kill"@.len() == 4);
}

/// The guards and the launcher read the same scheme, so nothing that is launched or
/// closed goes past them by the way in which its scheme is written.
pub proof fn law_guards_read_the_launchers_scheme(payload: Seq<char>)
    requires
        launcher::shortcut(payload) is Some,
    ensures
        launch_parts(payload) matches Some((scheme, _)) && scheme == (launcher::shortcut(
            payload,
        )->0).0,
{
}

/// The guard sees every launch of an arbitrary program: a payload that the launcher
/// takes as `exe:` or `lnk:`, or as a `url:` that leads to no Discord channel, is an
/// arbitrary launch however its scheme is written.
pub proof fn law_gate_covers_the_launcher(payload: Seq<char>, scheme: Seq<char>, rest: Seq<char>)
    requires
        text::split_once_spec(payload, ':') == Some((scheme, rest)),
    ensures
        launcher::shortcut(payload) matches Some((name, _)) ==> {
            &&& name == "exe"@ || name == "lnk"@ ==> arbitrary_launch(payload)
            &&& name == "url"@ && !text::has_prefix(
                text::ascii_lower_all(text::trim_start(rest)),
                "discord://"@,
            ) ==> arbitrary_launch(payload)
        },
{
}

/// A process that the launcher closes is the one that the guard is asked about, and
/// without the permission it is closed only where a configured game runs under its
/// name.
pub proof fn law_guard_covers_closing(
    allow_global_launch: bool,
    payload: Seq<char>,
    launch_commands: Seq<Seq<char>>,
)
    requires
        launcher::shortcut(payload) matches Some((name, _)) && (name == "close"@ || name
            == "kill"@),
    ensures
        close_target_of(payload) == Some(
            text::strip_suffixes((launcher::shortcut(payload)->0).1, ".exe"@),
        ),
        scheme_blocked(allow_global_launch, false, payload, launch_commands, false),
{
    launcher::lemma_launcher_names_differ();
    reveal_strlit("update");
    reveal_strlit("validate");
    reveal_strlit("close");
    reveal_strlit("kill");
    assert("update"@.len() == 6 && "validate"@.len() == 8);
    assert("close"@.len() == 5 && "kill"@.len() == 4);
}

// ---------------------------------------------------------------------------
// Names
// ---------------------------------------------------------------------------

/// What tells the names of the commands apart: their lengths and some of their letters.
pub proof fn lemma_command_names()
    ensures
        "Launch"@.len() == 6 && "Launch"@[0] == 'L' && "Launch"@[1] == 'a' && "Launch"@[5] == 'h',
        "CloseGame"@.len() == 9 && "CloseGame"@[0] == 'C' && "CloseGame"@[1] == 'l' && "CloseGame"@[5] == 'G',
        "RefreshSteamGames"@.len() == 17 && "RefreshSteamGames"@[0] == 'R' && "RefreshSteamGames"@[1] == 'e' && "RefreshSteamGames"@[5] == 's',
        "Screensaver"@.len() == 11 && "Screensaver"@[0] == 'S' && "Screensaver"@[1] == 'c' && "Screensaver"@[5] == 'n',
        "Wake"@.len() == 4 && "Wake"@[0] == 'W' && "Wake"@[1] == 'a',
        "DiscordJoin"@.len() == 11 && "DiscordJoin"@[0] == 'D' && "DiscordJoin"@[1] == 'i' && "DiscordJoin"@[5] == 'r',
        "DiscordLeaveChannel"@.len() == 19 && "DiscordLeaveChannel"@[0] == 'D' && "DiscordLeaveChannel"@[1] == 'i' && "DiscordLeaveChannel"@[5] == 'r',
        "Shutdown"@.len() == 8 && "Shutdown"@[0] == 'S' && "Shutdown"@[1] == 'h' && "Shutdown"@[5] == 'o',
        "Restart"@.len() == 7 && "Restart"@[0] == 'R' && "Restart"@[1] == 'e' && "Restart"@[5] == 'r',
        "Sleep"@.len() == 5 && "Sleep"@[0] == 'S' && "Sleep"@[1] == 'l',
        "Hibernate"@.len() == 9 && "Hibernate"@[0] == 'H' && "Hibernate"@[1] == 'i' && "Hibernate"@[5] == 'n',
        "Lock"@.len() == 4 && "Lock"@[0] == 'L' && "Lock"@[1] == 'o',
        "Logoff"@.len() == 6 && "Logoff"@[0] == 'L' && "Logoff"@[1] == 'o' && "Logoff"@[5] == 'f',
        "MonitorOff"@.len() == 10 && "MonitorOff"@[0] == 'M' && "MonitorOff"@[1] == 'o' && "MonitorOff"@[5] == 'o',
        "MonitorOn"@.len() == 9 && "MonitorOn"@[0] == 'M' && "MonitorOn"@[1] == 'o' && "MonitorOn"@[5] == 'o',
        "MediaPlayPause"@.len() == 14 && "MediaPlayPause"@[0] == 'M' && "MediaPlayPause"@[1] == 'e' && "MediaPlayPause"@[5] == 'P',
        "MediaNext"@.len() == 9 && "MediaNext"@[0] == 'M' && "MediaNext"@[1] == 'e' && "MediaNext"@[5] == 'N',
        "MediaPrevious"@.len() == 13 && "MediaPrevious"@[0] == 'M' && "MediaPrevious"@[1] == 'e' && "MediaPrevious"@[5] == 'P',
        "MediaStop"@.len() == 9 && "MediaStop"@[0] == 'M' && "MediaStop"@[1] == 'e' && "MediaStop"@[5] == 'S',
        "VolumeMute"@.len() == 10 && "VolumeMute"@[0] == 'V' && "VolumeMute"@[1] == 'o' && "VolumeMute"@[5] == 'e',
        "VolumeSet"@.len() == 9 && "VolumeSet"@[0] == 'V' && "VolumeSet"@[1] == 'o' && "VolumeSet"@[5] == 'e',
        "notification"@.len() == 12 && "notification"@[0] == 'n' && "notification"@[1] == 'o' && "notification"@[5] == 'i',
{
    reveal_strlit("Launch");
    reveal_strlit("CloseGame");
    reveal_strlit("RefreshSteamGames");
    reveal_strlit("Screensaver");
    reveal_strlit("Wake");
    reveal_strlit("DiscordJoin");
    reveal_strlit("DiscordLeaveChannel");
    reveal_strlit("Shutdown");
    reveal_strlit("Restart");
    reveal_strlit("Sleep");
    reveal_strlit("Hibernate");
    reveal_strlit("Lock");
    reveal_strlit("Logoff");
    reveal_strlit("MonitorOff");
    reveal_strlit("MonitorOn");
    reveal_strlit("MediaPlayPause");
    reveal_strlit("MediaNext");
    reveal_strlit("MediaPrevious");
    reveal_strlit("MediaStop");
    reveal_strlit("VolumeMute");
    reveal_strlit("VolumeSet");
    reveal_strlit("notification");
}

/// Each built-in command is allowed by its own feature and by no other, and a command
/// that is none of them is allowed here.
pub proof fn law_each_command_has_its_feature(f: FeatureConfig)
    ensures
        feature_enabled("Launch"@, f) == f.launch_game,
        feature_enabled("CloseGame"@, f) == f.close_game,
        feature_enabled("RefreshSteamGames"@, f) == f.steam_library,
        feature_enabled("Screensaver"@, f) == f.idle_tracking,
        feature_enabled("Wake"@, f) == f.idle_tracking,
        feature_enabled("DiscordJoin"@, f) == f.discord,
        feature_enabled("DiscordLeaveChannel"@, f) == f.discord,
        feature_enabled("Shutdown"@, f) == f.cmd_shutdown,
        feature_enabled("Restart"@, f) == f.cmd_restart,
        feature_enabled("Sleep"@, f) == f.cmd_sleep,
        feature_enabled("Hibernate"@, f) == f.cmd_sleep,
        feature_enabled("Lock"@, f) == f.cmd_lock,
        feature_enabled("Logoff"@, f) == f.cmd_logoff,
        feature_enabled("MonitorOff"@, f) == f.cmd_monitor,
        feature_enabled("MonitorOn"@, f) == f.cmd_monitor,
        feature_enabled("MediaPlayPause"@, f) == f.media_controls,
        feature_enabled("MediaNext"@, f) == f.media_controls,
        feature_enabled("MediaPrevious"@, f) == f.media_controls,
        feature_enabled("MediaStop"@, f) == f.media_controls,
        feature_enabled("VolumeMute"@, f) == f.media_controls,
        forall|name: Seq<char>|
            !native_commands().contains(name) ==> #[trigger] feature_enabled(name, f),
{
    lemma_command_names();
    assert forall|name: Seq<char>| !native_commands().contains(name) implies
        #[trigger] feature_enabled(name, f) by {
        lemma_native_commands(name);
    }
}

proof fn lemma_native_commands(name: Seq<char>)
    ensures
        native_commands().contains(name) <==> (name == "Launch"@ || name == "CloseGame"@ || name == "RefreshSteamGames"@ || name == "Screensaver"@ || name == "Wake"@ || name == "DiscordJoin"@ || name == "DiscordLeaveChannel"@ || name == "Shutdown"@ || name == "Restart"@ || name == "Sleep"@ || name == "Hibernate"@ || name == "Lock"@ || name == "Logoff"@ || name == "MonitorOff"@ || name == "MonitorOn"@ || name == "MediaPlayPause"@ || name == "MediaNext"@ || name == "MediaPrevious"@ || name == "MediaStop"@ || name == "VolumeMute"@),
{
    let all = native_commands();
    assert(all[0] == "Launch"@);
    assert(all[1] == "CloseGame"@);
    assert(all[2] == "RefreshSteamGames"@);
    assert(all[3] == "Screensaver"@);
    assert(all[4] == "Wake"@);
    assert(all[5] == "DiscordJoin"@);
    assert(all[6] == "DiscordLeaveChannel"@);
    assert(all[7] == "Shutdown"@);
    assert(all[8] == "Restart"@);
    assert(all[9] == "Sleep"@);
    assert(all[10] == "Hibernate"@);
    assert(all[11] == "Lock"@);
    assert(all[12] == "Logoff"@);
    assert(all[13] == "MonitorOff"@);
    assert(all[14] == "MonitorOn"@);
    assert(all[15] == "MediaPlayPause"@);
    assert(all[16] == "MediaNext"@);
    assert(all[17] == "MediaPrevious"@);
    assert(all[18] == "MediaStop"@);
    assert(all[19] == "VolumeMute"@);
}

/// The built-in commands are these and no others.
pub proof fn law_built_in_commands(name: Seq<char>)
    ensures
        native_commands().contains(name) <==> (name == "Launch"@ || name == "CloseGame"@ || name == "RefreshSteamGames"@ || name == "Screensaver"@ || name == "Wake"@ || name == "DiscordJoin"@ || name == "DiscordLeaveChannel"@ || name == "Shutdown"@ || name == "Restart"@ || name == "Sleep"@ || name == "Hibernate"@ || name == "Lock"@ || name == "Logoff"@ || name == "MonitorOff"@ || name == "MonitorOn"@ || name == "MediaPlayPause"@ || name == "MediaNext"@ || name == "MediaPrevious"@ || name == "MediaStop"@ || name == "VolumeMute"@),
{
    lemma_native_commands(name);
}

} // verus!
