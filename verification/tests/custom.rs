//! Custom commands, keybinds, variables and dry runs.

use pc_bridge::audio::MediaKey;
use pc_bridge::commands::custom::{
    escape_quotes, execute_custom_command, invocation, Invocation, Platform,
};
use pc_bridge::commands::dry_run::{leave_channel_keybind, requested_mute, resolve_action};
use pc_bridge::commands::executor::{
    execute_command, powershell_line, read_media_key, DropReason, Step,
};
use pc_bridge::commands::executor_linux;
use pc_bridge::commands::executor_linux::close_running_games;
use pc_bridge::commands::keybind::{
    parse_vk_code, send_keybind, send_keybind_linux, KeyEvent, KeybindError,
};
use pc_bridge::commands::variables::{expand_env_vars, referenced_variables};
use pc_bridge::config::{Config, CustomCommand, CustomCommandType};

fn command(command_type: CustomCommandType, text: &str) -> CustomCommand {
    CustomCommand {
        name: "mine".to_string(),
        command_type,
        icon: None,
        admin: false,
        script: Some(text.to_string()),
        path: Some(text.to_string()),
        args: None,
        command: Some(text.to_string()),
    }
}

fn line(i: Invocation) -> Vec<String> {
    let mut all = vec![i.program];
    all.extend(i.args);
    all
}

fn run(c: &CustomCommand, platform: Platform) -> Vec<String> {
    line(invocation(c, platform).unwrap())
}

#[test]
fn processes_of_custom_commands() {
    let mut c = command(CustomCommandType::Powershell, "echo 'x'");
    assert_eq!(
        run(&c, Platform::Windows),
        ["powershell", "-NoProfile", "-Command", "echo 'x'"]
    );
    c.admin = true;
    assert_eq!(
        run(&c, Platform::Windows)[3],
        "Start-Process powershell -Verb RunAs -ArgumentList '-NoProfile -Command \"echo ''x''\"'"
    );

    let mut c = command(CustomCommandType::Executable, "/opt/x");
    assert_eq!(run(&c, Platform::Unix), ["/opt/x"]);
    c.args = Some(vec!["a".to_string(), "b c".to_string()]);
    assert_eq!(run(&c, Platform::Windows), ["/opt/x", "a", "b c"]);
    c.admin = true;
    assert_eq!(run(&c, Platform::Unix), ["sudo", "/opt/x", "a", "b c"]);
    assert_eq!(
        run(&c, Platform::Windows)[3],
        "Start-Process '/opt/x' -Verb RunAs -ArgumentList 'a b c'"
    );

    let mut c = command(CustomCommandType::Shell, "it's");
    assert_eq!(run(&c, Platform::Unix), ["sh", "-c", "it's"]);
    assert_eq!(run(&c, Platform::Windows), ["cmd", "/c", "it's"]);
    c.admin = true;
    assert_eq!(run(&c, Platform::Unix), ["sudo", "sh", "-c", "it's"]);
    assert_eq!(
        run(&c, Platform::Windows)[3],
        "Start-Process cmd -Verb RunAs -ArgumentList '/c it''s'"
    );
}

#[test]
fn commands_that_lack_a_field() {
    let fail = |t, p| {
        let mut c = command(t, "");
        c.script = None;
        c.path = None;
        c.command = None;
        invocation(&c, p).unwrap_err()
    };
    assert_eq!(
        fail(CustomCommandType::Powershell, Platform::Windows),
        "No script for powershell command"
    );
    assert_eq!(
        fail(CustomCommandType::Powershell, Platform::Unix),
        "PowerShell not available on this platform"
    );
    assert_eq!(
        fail(CustomCommandType::Executable, Platform::Unix),
        "No path for executable command"
    );
    assert_eq!(
        fail(CustomCommandType::Shell, Platform::Windows),
        "No command for shell command"
    );
}

fn config_with(admin: bool) -> Config {
    let mut c = command(CustomCommandType::Shell, "x");
    c.admin = admin;
    Config {
        custom_commands_enabled: true,
        custom_commands: vec![c],
        ..Config::default()
    }
}

#[test]
fn nothing_runs_without_permission() {
    let mut config = config_with(true);
    assert_eq!(
        execute_custom_command(&config, "mine", Platform::Unix).unwrap_err(),
        "Admin command blocked - custom_command_privileges_allowed is false"
    );
    config.custom_command_privileges_allowed = true;
    let i = execute_custom_command(&config, "mine", Platform::Unix).unwrap();
    assert_eq!(line(i.unwrap()), ["sudo", "sh", "-c", "x"]);
    assert!(execute_custom_command(&config, "other", Platform::Unix)
        .unwrap()
        .is_none());
    config.custom_commands_enabled = false;
    assert!(execute_custom_command(&config, "mine", Platform::Unix)
        .unwrap()
        .is_none());
}

#[test]
fn quotes_are_doubled() {
    assert_eq!(escape_quotes("''a"), "''''a");
    assert_eq!(escape_quotes(""), "");
}

#[test]
fn variables_are_replaced() {
    let s = "%A%\\x%B%%%100% %";
    assert_eq!(referenced_variables(s), ["A", "B", ""]);
    let values = vec![Some("C:".to_string()), None, Some("!".to_string())];
    assert_eq!(expand_env_vars(s, &values), "C:\\x!100% %");
    assert_eq!(expand_env_vars("50% off", &Vec::new()), "50% off");
    assert!(referenced_variables("plain").is_empty());
    assert_eq!(expand_env_vars("plain", &values), "plain");
}

#[test]
fn powershell_lines_call_programs() {
    let none = Vec::new();
    assert_eq!(powershell_line("notepad.exe", &none), "& notepad.exe");
    assert_eq!(
        powershell_line("Start-Process x", &none),
        "Start-Process x"
    );
    let values = vec![Some("Start-Process".to_string())];
    assert_eq!(powershell_line("%P% x", &values), "Start-Process x");
}

fn down(code: u8) -> KeyEvent {
    KeyEvent { code, up: false }
}

fn up(code: u8) -> KeyEvent {
    KeyEvent { code, up: true }
}

#[test]
fn every_key_is_released() {
    assert_eq!(
        send_keybind("Ctrl + shift+m").unwrap(),
        [down(0x11), down(0x10), down(0x4D), up(0x4D), up(0x10), up(0x11)]
    );
    assert_eq!(send_keybind("f6").unwrap(), [down(0x75), up(0x75)]);
    assert!(matches!(send_keybind("ctrl+alt"), Err(KeybindError::NoKey)));
    assert!(matches!(
        send_keybind("ctrl+Foo"),
        Err(KeybindError::UnknownKey(k)) if k == "Foo"
    ));
}

#[test]
fn keys_have_codes() {
    let codes = [
        ("f1", 0x70),
        ("f12", 0x7B),
        ("a", 0x41),
        ("z", 0x5A),
        ("0", 0x30),
        ("9", 0x39),
        ("enter", 0x0D),
        ("escape", 0x1B),
        ("space", 0x20),
        ("tab", 0x09),
    ];
    for (name, code) in codes {
        assert_eq!(parse_vk_code(name), Some(code), "{name}");
    }
    assert_eq!(parse_vk_code("f13"), None);
    assert_eq!(parse_vk_code(""), None);
    assert_eq!(parse_vk_code("!"), None);
}

#[test]
fn keybinds_for_xdotool() {
    assert_eq!(send_keybind_linux("Control + F6"), "ctrl+F6");
    assert_eq!(send_keybind_linux("win+Shift+A"), "super+shift+a");
    assert_eq!(send_keybind_linux("alt+fn"), "alt+fn");
}

#[test]
fn dry_runs_name_the_action() {
    let mut config = config_with(false);
    let cases = [
        ("DiscordLeaveChannel", "", "keybind:ctrl+f6"),
        ("Wake", "x", "native:wake"),
        ("Lock", "", "native:lock"),
        ("Shutdown", "", "native:shutdown"),
        ("Sleep", "", "native:sleep"),
        ("Hibernate", "", "native:hibernate"),
        ("Restart", "", "native:restart"),
        ("Logoff", "", "native:logoff"),
        ("MonitorOff", "", "native:monitor_off"),
        ("MonitorOn", "", "native:monitor_on"),
        ("CloseGame", "", "native:close_game"),
        ("Screensaver", "", "native:screensaver"),
        ("RefreshSteamGames", "", "native:refresh_steam_games"),
        ("MediaPlayPause", "", "media:play_pause"),
        ("MediaNext", "", "media:next"),
        ("MediaPrevious", "", "media:previous"),
        ("MediaStop", "", "media:stop"),
        ("VolumeSet", "50", "volume:set:50"),
        ("VolumeMute", "", "volume:mute_toggle"),
        ("VolumeMute", "Press", "volume:mute_toggle"),
        ("VolumeMute", "TRUE", "volume:mute:true"),
        ("VolumeMute", "1", "volume:mute:true"),
        ("VolumeMute", "0", "volume:mute:false"),
        ("notification", "hi", "notification:hi"),
        ("mine", "steam:1", "custom:mine"),
        ("Launch", " STEAM :730", "launch: STEAM :730"),
        ("Launch", "kill:x", "launch:kill:x"),
        ("Launch", "", "not_found"),
        ("Launch", "ftp:x", "blocked"),
    ];
    for (name, payload, action) in cases {
        assert_eq!(resolve_action(&config, name, payload), action, "{name} {payload}");
    }
    config.allow_raw_commands = true;
    config.discord_keybind = Some("alt+x".to_string());
    assert_eq!(resolve_action(&config, "Launch", "ftp:x"), "raw:ftp:x");
    assert_eq!(leave_channel_keybind(&config), "alt+x");
    assert_eq!(requested_mute("false"), Some(false));
}

fn all_on() -> Config {
    let mut config = config_with(false);
    let f = &mut config.features;
    f.idle_tracking = true;
    f.media_controls = true;
    f.notifications = true;
    f.discord = true;
    f.launch_game = true;
    f.close_game = true;
    f.steam_library = true;
    config
}

fn windows(config: &Config, name: &str, payload: &str) -> Step {
    execute_command(config, false, name, payload, None).unwrap()
}

fn linux(config: &Config, name: &str, payload: &str) -> Step {
    executor_linux::execute_command(config, false, name, payload, None).unwrap()
}

#[test]
fn steps_on_both_platforms() {
    let c = all_on();
    for step in [windows, linux] {
        assert!(matches!(step(&c, "Wake", ""), Step::WakeDisplay));
        assert!(matches!(step(&c, "notification", " hi "), Step::Notify(t) if t == "hi"));
        assert!(matches!(
            step(&c, "notification", "PRESS"),
            Step::Drop(DropReason::EmptyNotification)
        ));
        assert!(matches!(
            step(&c, "VolumeSet", "loud"),
            Step::Drop(DropReason::InvalidVolume)
        ));
        assert!(matches!(step(&c, "VolumeMute", "press"), Step::ToggleMute));
        assert!(matches!(step(&c, "VolumeMute", "1"), Step::SetMute(true)));
        assert!(matches!(step(&c, "MediaNext", ""), Step::Media(MediaKey::Next)));
        assert!(matches!(step(&c, "RefreshSteamGames", ""), Step::RefreshGames));
        assert!(matches!(step(&c, "mine", ""), Step::Custom(_)));
        assert!(matches!(
            step(&c, "unheard_of", ""),
            Step::Drop(DropReason::NotConfigured)
        ));
        assert!(matches!(
            step(&c, "unheard_of", "rm x"),
            Step::Drop(DropReason::RawCommandBlocked)
        ));
        assert!(matches!(
            step(&c, "DiscordLeaveChannel", ""),
            Step::Keybind(k) if k == "ctrl+f6"
        ));
    }
    assert!(matches!(windows(&c, "Lock", ""), Step::Lock));
    assert!(matches!(windows(&c, "Hibernate", ""), Step::Hibernate));
    assert!(matches!(windows(&c, "Restart", ""), Step::Restart));
    assert!(matches!(
        linux(&c, "Lock", ""),
        Step::Shell(s) if s == "loginctl lock-session"
    ));
    assert!(matches!(
        linux(&c, "Sleep", ""),
        Step::Suspend { command: "systemctl suspend", connection } if connection.port == 1883
    ));
    assert!(matches!(linux(&c, "MonitorOff", ""), Step::MonitorOff));
    assert!(matches!(linux(&c, "CloseGame", ""), Step::CloseGames));
    let level = Some(42);
    let step = executor_linux::execute_command(&c, false, "VolumeSet", "x", level).unwrap();
    assert!(matches!(step, Step::SetVolume(42)));
}

#[test]
fn blocked_custom_commands_are_errors() {
    let mut c = all_on();
    c.custom_commands[0].admin = true;
    assert!(execute_command(&c, false, "mine", "", None).is_err());
    assert!(executor_linux::execute_command(&c, false, "mine", "", None).is_err());
}

#[test]
fn dry_runs_only_report() {
    let c = Config::default();
    for name in ["Shutdown", "Launch", "notification", "nothing"] {
        let w = execute_command(&c, true, name, " steam:1 ", None).unwrap();
        let l = executor_linux::execute_command(&c, true, name, " steam:1 ", None).unwrap();
        match (w, l) {
            (Step::Report(a), Step::Report(b)) => assert_eq!(a, b),
            _ => panic!("{name} did something"),
        }
    }
}

#[test]
fn features_that_are_off_do_nothing() {
    let mut c = all_on();
    c.features.cmd_lock = false;
    c.features.media_controls = false;
    for step in [windows, linux] {
        for name in ["Lock", "VolumeMute"] {
            assert!(matches!(
                step(&c, name, ""),
                Step::Drop(DropReason::FeatureDisabled)
            ));
        }
    }
}

#[test]
fn media_keys_have_names() {
    assert_eq!(read_media_key("MediaPlayPause"), Some(MediaKey::PlayPause));
    assert_eq!(read_media_key("MediaStop"), Some(MediaKey::Stop));
    assert_eq!(read_media_key("Media"), None);
}

#[test]
fn games_are_closed_one_by_one() {
    let commands = close_running_games(&vec!["cs2".to_string(), "a;b".to_string()]);
    assert_eq!(commands.len(), 1);
    assert!(commands[0].contains("cs2"));
}
