//! Dry runs: what a command would do, as a text that is the same on every
//! platform.

use crate::config::Config;
use crate::text;
use crate::text::{chars_of, eq_ignore_case, split_once, trim_chars};
use vstd::prelude::*;
use vstd::string::*;

verus! {

/// The schemes of launcher shortcuts.
pub open spec fn launcher_schemes() -> Seq<Seq<char>> {
    seq![
        "steam"@,
        "update"@,
        "validate"@,
        "epic"@,
        "exe"@,
        "lnk"@,
        "url"@,
        "close"@,
        "kill"@,
    ]
}

/// `scheme` is the scheme of a launcher shortcut, in upper or lower case.
pub open spec fn known_scheme(scheme: Seq<char>) -> bool {
    exists|i: int|
        0 <= i < launcher_schemes().len() && text::same_ignoring_case(
            scheme,
            #[trigger] launcher_schemes()[i],
        )
}

/// The payload begins with the scheme of a launcher shortcut.
pub open spec fn names_scheme(payload: Seq<char>) -> bool {
    match text::split_once_spec(payload, ':') {
        Some((scheme, _)) => known_scheme(text::trim(scheme)),
        None => false,
    }
}

/// A custom command has the name.
pub open spec fn is_custom(c: Config, name: Seq<char>) -> bool {
    c.custom_commands_enabled && exists|i: int|
        0 <= i < c.custom_commands@.len() && (#[trigger] c.custom_commands@[i]).name@ == name
}

/// The keybind that leaves a voice channel.
pub open spec fn leave_keybind(c: Config) -> Seq<char> {
    match c.discord_keybind {
        Some(k) => k@,
        None => "ctrl+f6"@,
    }
}

/// The state that a mute command asks for: `None` where it toggles.
pub open spec fn mute_request(payload: Seq<char>) -> Option<bool> {
    if text::same_ignoring_case(payload, "press"@) || payload.len() == 0 {
        None
    } else {
        Some(text::same_ignoring_case(payload, "true"@) || payload == "1"@)
    }
}

/// The action of a command that acts on the machine itself.
pub open spec fn machine_action(name: Seq<char>) -> Option<Seq<char>> {
    if name == "Wake"@ {
        Some("native:wake"@)
    } else if name == "Lock"@ {
        Some("native:lock"@)
    } else if name == "Shutdown"@ {
        Some("native:shutdown"@)
    } else if name == "Sleep"@ {
        Some("native:sleep"@)
    } else if name == "Hibernate"@ {
        Some("native:hibernate"@)
    } else if name == "Restart"@ {
        Some("native:restart"@)
    } else if name == "Logoff"@ {
        Some("native:logoff"@)
    } else if name == "MonitorOff"@ {
        Some("native:monitor_off"@)
    } else if name == "MonitorOn"@ {
        Some("native:monitor_on"@)
    } else if name == "CloseGame"@ {
        Some("native:close_game"@)
    } else if name == "Screensaver"@ {
        Some("native:screensaver"@)
    } else if name == "RefreshSteamGames"@ {
        Some("native:refresh_steam_games"@)
    } else if name == "MediaPlayPause"@ {
        Some("media:play_pause"@)
    } else if name == "MediaNext"@ {
        Some("media:next"@)
    } else if name == "MediaPrevious"@ {
        Some("media:previous"@)
    } else if name == "MediaStop"@ {
        Some("media:stop"@)
    } else {
        None
    }
}

/// The action that a command resolves to. `payload` is normalized.
pub open spec fn action(c: Config, name: Seq<char>, payload: Seq<char>) -> Seq<char> {
    if name == "DiscordLeaveChannel"@ {
        "keybind:"@ + leave_keybind(c)
    } else if machine_action(name) is Some {
        machine_action(name)->0
    } else if name == "VolumeSet"@ {
        "volume:set:"@ + payload
    } else if name == "VolumeMute"@ {
        match mute_request(payload) {
            None => "volume:mute_toggle"@,
            Some(mute) => "volume:mute:"@ + (if mute {
                "true"@
            } else {
                "false"@
            }),
        }
    } else if name == "notification"@ {
        "notification:"@ + payload
    } else if is_custom(c, name) {
        "custom:"@ + name
    } else if names_scheme(payload) {
        "launch:"@ + payload
    } else if payload.len() == 0 {
        "not_found"@
    } else if c.allow_raw_commands {
        "raw:"@ + payload
    } else {
        "blocked"@
    }
}

/// The keybind that leaves a voice channel.
pub fn leave_channel_keybind(c: &Config) -> (r: String)
    ensures
        r@ == leave_keybind(*c),
{
    match &c.discord_keybind {
        Some(k) => k.clone(),
        None => "ctrl+f6".to_string(),
    }
}

/// The state that a mute command asks for: `None` where it toggles.
pub fn requested_mute(payload: &str) -> (r: Option<bool>)
    ensures
        r == mute_request(payload@),
{
    let p = chars_of(payload);
    if eq_ignore_case(&p, "press") || p.len() == 0 {
        None
    } else {
        Some(eq_ignore_case(&p, "true") || payload.eq("1"))
    }
}

fn is_custom_command(c: &Config, name: &str) -> (r: bool)
    ensures
        r == is_custom(*c, name@),
{
    if !c.custom_commands_enabled {
        return false;
    }
    let mut i: usize = 0;
    while i < c.custom_commands.len()
        invariant
            i <= c.custom_commands.len(),
            c.custom_commands_enabled,
            forall|k: int| 0 <= k < i ==> (#[trigger] c.custom_commands@[k]).name@ != name@,
        decreases c.custom_commands.len() - i,
    {
        if c.custom_commands[i].name.as_str().eq(name) {
            proof {
                assert(c.custom_commands@[i as int].name@ == name@);
            }
            return true;
        }
        i += 1;
    }
    false
}

fn is_launcher_scheme(scheme: &[char]) -> (r: bool)
    ensures
        r == known_scheme(scheme@),
{
    let schemes: [&str; 9] = [
        "steam",
        "update",
        "validate",
        "epic",
        "exe",
        "lnk",
        "url",
        "close",
        "kill",
    ];
    let mut i: usize = 0;
    while i < 9
        invariant
            i <= 9,
            schemes@.len() == 9,
            launcher_schemes().len() == 9,
            forall|k: int| 0 <= k < 9 ==> (#[trigger] schemes@[k])@ == launcher_schemes()[k],
            forall|k: int|
                0 <= k < i ==> !text::same_ignoring_case(scheme@, #[trigger] launcher_schemes()[k]),
        decreases 9 - i,
    {
        if eq_ignore_case(scheme, schemes[i]) {
            proof {
                assert(text::same_ignoring_case(scheme@, launcher_schemes()[i as int]));
            }
            return true;
        }
        i += 1;
    }
    false
}

fn has_launcher_scheme(payload: &str) -> (r: bool)
    ensures
        r == names_scheme(payload@),
{
    match split_once(&chars_of(payload), ':') {
        Some((scheme, _rest)) => is_launcher_scheme(&trim_chars(&scheme)),
        None => false,
    }
}

fn prefixed(prefix: &str, s: &str) -> (r: String)
    ensures
        r@ == prefix@ + s@,
{
    let mut r = prefix.to_string();
    r.append(s);
    r
}

fn read_machine_action(name: &str) -> (r: Option<&'static str>)
    ensures
        match r {
            Some(a) => machine_action(name@) == Some(a@),
            None => machine_action(name@) is None,
        },
{
    if name.eq("Wake") {
        Some("native:wake")
    } else if name.eq("Lock") {
        Some("native:lock")
    } else if name.eq("Shutdown") {
        Some("native:shutdown")
    } else if name.eq("Sleep") {
        Some("native:sleep")
    } else if name.eq("Hibernate") {
        Some("native:hibernate")
    } else if name.eq("Restart") {
        Some("native:restart")
    } else if name.eq("Logoff") {
        Some("native:logoff")
    } else if name.eq("MonitorOff") {
        Some("native:monitor_off")
    } else if name.eq("MonitorOn") {
        Some("native:monitor_on")
    } else if name.eq("CloseGame") {
        Some("native:close_game")
    } else if name.eq("Screensaver") {
        Some("native:screensaver")
    } else if name.eq("RefreshSteamGames") {
        Some("native:refresh_steam_games")
    } else if name.eq("MediaPlayPause") {
        Some("media:play_pause")
    } else if name.eq("MediaNext") {
        Some("media:next")
    } else if name.eq("MediaPrevious") {
        Some("media:previous")
    } else if name.eq("MediaStop") {
        Some("media:stop")
    } else {
        None
    }
}

/// What a command would do. `payload` is normalized.
pub fn resolve_action(c: &Config, name: &str, payload: &str) -> (r: String)
    ensures
        r@ == action(*c, name@, payload@),
{
    if name.eq("DiscordLeaveChannel") {
        return prefixed("keybind:", &leave_channel_keybind(c));
    }
    match read_machine_action(name) {
        Some(a) => {
            return a.to_string();
        },
        None => {},
    }
    if name.eq("VolumeSet") {
        return prefixed("volume:set:", payload);
    }
    if name.eq("VolumeMute") {
        return match requested_mute(payload) {
            None => "volume:mute_toggle".to_string(),
            Some(mute) => {
                if mute {
                    prefixed("volume:mute:", "true")
                } else {
                    prefixed("volume:mute:", "false")
                }
            },
        };
    }
    if name.eq("notification") {
        return prefixed("notification:", payload);
    }
    if is_custom_command(c, name) {
        return prefixed("custom:", name);
    }
    if has_launcher_scheme(payload) {
        return prefixed("launch:", payload);
    }
    if chars_of(payload).len() == 0 {
        return "not_found".to_string();
    }
    if c.allow_raw_commands {
        prefixed("raw:", payload)
    } else {
        "blocked".to_string()
    }
}

// ---------------------------------------------------------------------------
// Laws
// ---------------------------------------------------------------------------

/// The report of each command that the agent knows itself, whatever else is configured.
pub proof fn law_reports_of_known_commands(c: Config, payload: Seq<char>)
    ensures
        action(c, "Wake"@, payload) == "native:wake"@,
        action(c, "Lock"@, payload) == "native:lock"@,
        action(c, "Shutdown"@, payload) == "native:shutdown"@,
        action(c, "Sleep"@, payload) == "native:sleep"@,
        action(c, "Hibernate"@, payload) == "native:hibernate"@,
        action(c, "Restart"@, payload) == "native:restart"@,
        action(c, "Logoff"@, payload) == "native:logoff"@,
        action(c, "MonitorOff"@, payload) == "native:monitor_off"@,
        action(c, "MonitorOn"@, payload) == "native:monitor_on"@,
        action(c, "CloseGame"@, payload) == "native:close_game"@,
        action(c, "Screensaver"@, payload) == "native:screensaver"@,
        action(c, "RefreshSteamGames"@, payload) == "native:refresh_steam_games"@,
        action(c, "MediaPlayPause"@, payload) == "media:play_pause"@,
        action(c, "MediaNext"@, payload) == "media:next"@,
        action(c, "MediaPrevious"@, payload) == "media:previous"@,
        action(c, "MediaStop"@, payload) == "media:stop"@,
        action(c, "DiscordLeaveChannel"@, payload) == "keybind:"@ + (match c.discord_keybind {
            Some(k) => k@,
            None => "ctrl+f6"@,
        }),
        action(c, "VolumeSet"@, payload) == "volume:set:"@ + payload,
        action(c, "notification"@, payload) == "notification:"@ + payload,
        payload.len() == 0 || text::same_ignoring_case(payload, "press"@) ==> action(
            c,
            "VolumeMute"@,
            payload,
        ) == "volume:mute_toggle"@,
        payload.len() > 0 && !text::same_ignoring_case(payload, "press"@) ==> action(
            c,
            "VolumeMute"@,
            payload,
        ) == (if text::same_ignoring_case(payload, "true"@) || payload == "1"@ {
            "volume:mute:true"@
        } else {
            "volume:mute:false"@
        }),
{
    crate::commands::lemma_command_names();
    reveal_strlit("volume:mute:");
    reveal_strlit("true");
    reveal_strlit("false");
    reveal_strlit("volume:mute:true");
    reveal_strlit("volume:mute:false");
    assert("volume:mute:"@ + "true"@ =~= "volume:mute:true"@);
    assert("volume:mute:"@ + "false"@ =~= "volume:mute:false"@);
}

/// The report of any other command: a custom command that has the name, then a launch
/// where the payload names a launcher, then the payload itself where raw commands are
/// allowed.
pub proof fn law_reports_of_other_commands(c: Config, name: Seq<char>, payload: Seq<char>)
    requires
        name != "Wake"@ && name != "Lock"@ && name != "Shutdown"@ && name != "Sleep"@ && name != "Hibernate"@ && name != "Restart"@ && name != "Logoff"@ && name != "MonitorOff"@ && name != "MonitorOn"@ && name != "CloseGame"@ && name != "Screensaver"@ && name != "RefreshSteamGames"@ && name != "MediaPlayPause"@ && name != "MediaNext"@ && name != "MediaPrevious"@ && name != "MediaStop"@ && name != "DiscordLeaveChannel"@ && name != "VolumeSet"@ && name != "VolumeMute"@ && name != "notification"@,
    ensures
        ({
            let custom = c.custom_commands_enabled && exists|i: int|
                0 <= i < c.custom_commands@.len() && (#[trigger] c.custom_commands@[i]).name@
                    == name;
            &&& custom ==> action(c, name, payload) == "custom:"@ + name
            &&& !custom && names_scheme(payload) ==> action(c, name, payload) == "launch:"@
                + payload
            &&& !custom && !names_scheme(payload) && payload.len() == 0 ==> action(
                c,
                name,
                payload,
            ) == "not_found"@
            &&& !custom && !names_scheme(payload) && payload.len() > 0 ==> action(
                c,
                name,
                payload,
            ) == (if c.allow_raw_commands {
                "raw:"@ + payload
            } else {
                "blocked"@
            })
        }),
{
}

/// A payload names a launcher exactly where one of the nine launchers stands in front of
/// its first colon, in any letter case and with white space around it.
pub proof fn law_launcher_payloads(
    front: Seq<char>,
    scheme: Seq<char>,
    back: Seq<char>,
    rest: Seq<char>,
)
    requires
        forall|i: int| 0 <= i < front.len() ==> text::white_space(#[trigger] front[i]),
        forall|i: int| 0 <= i < back.len() ==> text::white_space(#[trigger] back[i]),
        scheme.len() > 0 ==> !text::white_space(scheme[0]) && !text::white_space(scheme.last()),
        !(front + scheme + back).contains(':'),
    ensures
        names_scheme(front + scheme + back + seq![':'] + rest) <==> (text::same_ignoring_case(scheme, "steam"@) || text::same_ignoring_case(scheme, "update"@) || text::same_ignoring_case(scheme, "validate"@) || text::same_ignoring_case(scheme, "epic"@) || text::same_ignoring_case(scheme, "exe"@) || text::same_ignoring_case(scheme, "lnk"@) || text::same_ignoring_case(scheme, "url"@) || text::same_ignoring_case(scheme, "close"@) || text::same_ignoring_case(scheme, "kill"@)),
        !names_scheme(front + scheme + back),
{
    let all = launcher_schemes();
    text::law_split_at_the_first(front + scheme + back, ':', rest);
    text::law_trim(front, scheme, back);
    assert(all[0] == "steam"@);
    assert(all[1] == "update"@);
    assert(all[2] == "validate"@);
    assert(all[3] == "epic"@);
    assert(all[4] == "exe"@);
    assert(all[5] == "lnk"@);
    assert(all[6] == "url"@);
    assert(all[7] == "close"@);
    assert(all[8] == "kill"@);
}

} // verus!
