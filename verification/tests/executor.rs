//! Routing of commands on Windows.

use pc_bridge::commands::executor;
use pc_bridge::commands::executor::{
    get_predefined_command, needs_ampersand, normalize_payload, resolve_shell_command,
    CommandAction, ShellResolution, Step,
};
use pc_bridge::commands::variables;
use pc_bridge::config::Config;

/// The routing, with the number that the payload spells.
fn resolve_command_action(name: &str, payload: &str, allow_raw_commands: bool) -> CommandAction {
    let level = normalize_payload(payload)
        .parse::<f32>()
        .ok()
        .map(f32::to_bits);
    executor::resolve_command_action(name, payload, allow_raw_commands, level)
}

/// The text with its variables replaced from a list of variables.
fn expand_with(s: &str, environment: &[(&str, &str)]) -> String {
    let values = variables::referenced_variables(s)
        .iter()
        .map(|name| {
            environment
                .iter()
                .find(|(n, _)| n == name)
                .map(|(_, v)| v.to_string())
        })
        .collect();
    variables::expand_env_vars(s, &values)
}

fn expand_env_vars(s: &str) -> String {
    expand_with(s, &[])
}

#[test]
fn test_resolve_predefined_screensaver() {
    let result = resolve_shell_command("Screensaver", "", false);
    assert!(
        matches!(result, ShellResolution::Predefined(ref cmd) if cmd.contains("scrnsave.scr")),
        "Screensaver should resolve to predefined command: {result:?}"
    );
}

#[test]
fn test_resolve_predefined_shutdown() {
    let result = resolve_shell_command("Shutdown", "", false);
    assert_eq!(
        result,
        ShellResolution::Predefined("shutdown -s -t 0".to_string())
    );
}

#[test]
fn test_resolve_predefined_sleep() {
    let result = resolve_shell_command("Sleep", "", false);
    assert!(
        matches!(result, ShellResolution::Predefined(ref cmd) if cmd.contains("SetSuspendState")),
    );
}

#[test]
fn test_resolve_predefined_ignores_allow_raw_commands() {
    for allow_raw in [false, true] {
        let result = resolve_shell_command("Screensaver", "", allow_raw);
        assert!(
            matches!(result, ShellResolution::Predefined(_)),
            "Predefined should resolve with allow_raw={allow_raw}: {result:?}"
        );
    }
}

#[test]
fn test_resolve_predefined_with_payload_still_predefined() {
    let result = resolve_shell_command("Screensaver", "some:payload", false);
    assert!(matches!(result, ShellResolution::Predefined(_)));
}

#[test]
fn test_resolve_steam_shortcut_allowed_when_raw_disabled() {
    let result = resolve_shell_command("Launch", "steam:730", false);
    assert!(
        matches!(result, ShellResolution::LauncherShortcut(ref cmd) if cmd.contains("steam://rungameid/730")),
        "steam: shortcut must work with allow_raw_commands=false: {result:?}"
    );
}

#[test]
fn test_resolve_close_shortcut_allowed_when_raw_disabled() {
    let result = resolve_shell_command("Launch", "close:notepad", false);
    assert!(
        matches!(result, ShellResolution::LauncherShortcut(ref cmd) if cmd.contains("CloseMainWindow")),
        "close: shortcut must work with allow_raw_commands=false: {result:?}"
    );
}

#[test]
fn test_resolve_kill_shortcut_allowed_when_raw_disabled() {
    let result = resolve_shell_command("Launch", "kill:notepad", false);
    assert!(
        matches!(result, ShellResolution::LauncherShortcut(ref cmd) if cmd.contains("CloseMainWindow")),
        "kill: shortcut must work with allow_raw_commands=false: {result:?}"
    );
}

#[test]
fn test_resolve_exe_shortcut_allowed_when_raw_disabled() {
    let result = resolve_shell_command("Launch", r"exe:C:\Games\Game.exe", false);
    assert!(
        matches!(result, ShellResolution::LauncherShortcut(ref cmd) if cmd.contains("Start-Process")),
        "exe: shortcut must work with allow_raw_commands=false: {result:?}"
    );
}

#[test]
fn test_resolve_lnk_shortcut_allowed_when_raw_disabled() {
    let result = resolve_shell_command("Launch", r"lnk:C:\Users\user\Desktop\Game.lnk", false);
    assert!(
        matches!(result, ShellResolution::LauncherShortcut(ref cmd) if cmd.contains("Start-Process")),
        "lnk: shortcut must work with allow_raw_commands=false: {result:?}"
    );
}

#[test]
fn test_resolve_url_shortcut_allowed_when_raw_disabled() {
    let result =
        resolve_shell_command("Launch", "url:discord://discord.com/channels/1/2", false);
    assert!(
        matches!(result, ShellResolution::LauncherShortcut(ref cmd) if cmd.contains("Start-Process")),
        "url: shortcut must work with allow_raw_commands=false: {result:?}"
    );
}

#[test]
fn test_resolve_epic_shortcut_allowed_when_raw_disabled() {
    let result = resolve_shell_command("Launch", "epic:Fortnite", false);
    assert!(
        matches!(result, ShellResolution::LauncherShortcut(ref cmd) if cmd.contains("epicgames")),
        "epic: shortcut must work with allow_raw_commands=false: {result:?}"
    );
}

#[test]
fn test_resolve_all_launcher_types_with_raw_enabled() {
    let cases = vec![
        ("steam:730", "steam://rungameid"),
        ("close:notepad", "CloseMainWindow"),
        (r"exe:C:\app.exe", "Start-Process"),
        ("url:https://example.com", "Start-Process"),
        ("epic:GameName", "epicgames"),
    ];

    for (payload, expected_substr) in cases {
        let result = resolve_shell_command("Launch", payload, true);
        assert!(
            matches!(result, ShellResolution::LauncherShortcut(ref cmd) if cmd.contains(expected_substr)),
            "Launcher shortcut should work with raw=true: payload={payload}, result={result:?}"
        );
    }
}

#[test]
fn test_resolve_raw_payload_blocked_when_disabled() {
    let result = resolve_shell_command("Launch", "notepad.exe", false);
    assert_eq!(result, ShellResolution::Blocked);
}

#[test]
fn test_resolve_raw_payload_allowed_when_enabled() {
    let result = resolve_shell_command("Launch", "notepad.exe", true);
    assert_eq!(
        result,
        ShellResolution::RawCommand("notepad.exe".to_string())
    );
}

#[test]
fn test_resolve_raw_complex_payload_blocked() {
    let result = resolve_shell_command(
        "Launch",
        "Get-Process | Where-Object { $_.CPU -gt 100 }",
        false,
    );
    assert_eq!(result, ShellResolution::Blocked);
}

#[test]
fn test_resolve_raw_complex_payload_allowed() {
    let payload = "Get-Process | Where-Object { $_.CPU -gt 100 }";
    let result = resolve_shell_command("Launch", payload, true);
    assert_eq!(result, ShellResolution::RawCommand(payload.to_string()));
}

#[test]
fn test_resolve_unknown_name_empty_payload() {
    let result = resolve_shell_command("unknown_command", "", false);
    assert_eq!(result, ShellResolution::NotFound);
}

#[test]
fn test_resolve_unknown_name_empty_payload_raw_enabled() {
    let result = resolve_shell_command("unknown_command", "", true);
    assert_eq!(result, ShellResolution::NotFound);
}

#[test]
fn test_resolve_native_commands_return_not_found() {
    let native_names = [
        "Wake",
        "Lock",
        "Hibernate",
        "Restart",
        "VolumeSet",
        "VolumeMute",
        "MediaPlayPause",
        "MediaNext",
        "MediaPrevious",
        "MediaStop",
    ];

    for name in native_names {
        let result = resolve_shell_command(name, "", false);
        assert_eq!(
            result,
            ShellResolution::NotFound,
            "{name} should be NotFound (handled natively before this function)"
        );
    }
}

#[test]
fn test_resolve_invalid_steam_id_falls_through_to_raw() {
    let result = resolve_shell_command("Launch", "steam:abc", false);
    assert_eq!(result, ShellResolution::Blocked);

    let result = resolve_shell_command("Launch", "steam:abc", true);
    assert_eq!(result, ShellResolution::RawCommand("steam:abc".to_string()));
}

#[test]
fn test_resolve_url_without_scheme_falls_through() {
    let result = resolve_shell_command("Launch", "url:not-a-url", false);
    assert_eq!(result, ShellResolution::Blocked);
}

#[test]
fn test_resolve_shell_injection_in_url_falls_through() {
    let result = resolve_shell_command("Launch", "url:discord://x;rm -rf /", false);
    assert_eq!(result, ShellResolution::Blocked);
}

#[test]
fn test_resolve_close_with_injection_falls_through() {
    let result = resolve_shell_command("Launch", "close:bad;name", false);
    assert_eq!(result, ShellResolution::Blocked);
}

#[test]
fn test_resolve_empty_launcher_arg_falls_through() {
    let result = resolve_shell_command("Launch", "steam:", false);
    assert_eq!(result, ShellResolution::Blocked);
}

#[test]
fn test_predefined_screensaver() {
    let cmd = get_predefined_command("Screensaver");
    assert!(cmd.is_some());
    assert!(cmd.unwrap().contains("scrnsave.scr"));
}

#[test]
fn test_predefined_shutdown() {
    assert_eq!(get_predefined_command("Shutdown"), Some("shutdown -s -t 0"));
}

#[test]
fn test_predefined_sleep() {
    let cmd = get_predefined_command("Sleep");
    assert!(cmd.is_some());
    assert!(cmd.unwrap().contains("SetSuspendState"));
}

#[test]
fn test_predefined_native_commands_return_none() {
    for name in &[
        "Wake",
        "Lock",
        "Hibernate",
        "Restart",
        "VolumeSet",
        "VolumeMute",
        "MediaPlayPause",
        "MediaNext",
        "MediaPrevious",
        "MediaStop",
    ] {
        assert!(
            get_predefined_command(name).is_none(),
            "{name} should be None"
        );
    }
}

#[test]
fn test_predefined_unknown_returns_none() {
    assert!(get_predefined_command("nonexistent").is_none());
}

#[test]
fn test_needs_ampersand_plain_command() {
    assert!(needs_ampersand("notepad.exe"));
}

#[test]
fn test_needs_ampersand_path_command() {
    assert!(needs_ampersand(r"C:\Program Files\app.exe"));
}

#[test]
fn test_needs_ampersand_start_process() {
    assert!(!needs_ampersand("Start-Process notepad"));
}

#[test]
fn test_needs_ampersand_get_process() {
    assert!(!needs_ampersand("Get-Process notepad"));
}

#[test]
fn test_needs_ampersand_stop_process() {
    assert!(!needs_ampersand("Stop-Process -Name notepad"));
}

#[test]
fn test_needs_ampersand_add_type() {
    assert!(!needs_ampersand("Add-Type -TypeDefinition ..."));
}

#[test]
fn test_needs_ampersand_set_cmdlet() {
    assert!(!needs_ampersand("Set-Location C:\\"));
}

#[test]
fn test_needs_ampersand_new_cmdlet() {
    assert!(!needs_ampersand("New-Item -Path test.txt"));
}

#[test]
fn test_needs_ampersand_remove_cmdlet() {
    assert!(!needs_ampersand("Remove-Item test.txt"));
}

#[test]
fn test_needs_ampersand_invoke_cmdlet() {
    assert!(!needs_ampersand("Invoke-WebRequest https://example.com"));
}

#[test]
fn test_expand_env_no_vars() {
    assert_eq!(expand_env_vars("hello world"), "hello world");
}

#[test]
fn test_expand_env_known_var() {
    assert_eq!(
        expand_with("before %PC_BRIDGE_TEST_VAR% after", &[("PC_BRIDGE_TEST_VAR", "replaced")]),
        "before replaced after"
    );
}

#[test]
fn test_expand_env_unknown_var() {
    assert_eq!(
        expand_env_vars("before %UNLIKELY_VAR_39182% after"),
        "before  after"
    );
}

#[test]
fn test_expand_env_unclosed_percent() {
    assert_eq!(expand_env_vars("path %unclosed"), "path %unclosed");
}

#[test]
fn test_expand_env_multiple_vars() {
    assert_eq!(expand_with("%PC_BRIDGE_A%-%PC_BRIDGE_B%", &[("PC_BRIDGE_A", "X"), ("PC_BRIDGE_B", "Y")]), "X-Y");
}

#[test]
fn test_expand_env_empty_input() {
    assert_eq!(expand_env_vars(""), "");
}

#[test]
fn test_action_wake() {
    assert_eq!(
        resolve_command_action("Wake", "", false),
        CommandAction::Native("Wake")
    );
}

#[test]
fn test_action_lock() {
    assert_eq!(
        resolve_command_action("Lock", "", false),
        CommandAction::Native("Lock")
    );
}

#[test]
fn test_action_hibernate() {
    assert_eq!(
        resolve_command_action("Hibernate", "", false),
        CommandAction::Native("Hibernate")
    );
}

#[test]
fn test_action_restart() {
    assert_eq!(
        resolve_command_action("Restart", "", false),
        CommandAction::Native("Restart")
    );
}

#[test]
fn test_action_discord_leave() {
    assert_eq!(
        resolve_command_action("DiscordLeaveChannel", "", false),
        CommandAction::Native("DiscordLeaveChannel")
    );
}

#[test]
fn test_action_media_keys() {
    for name in &["MediaPlayPause", "MediaNext", "MediaPrevious", "MediaStop"] {
        assert_eq!(
            resolve_command_action(name, "PRESS", false),
            CommandAction::Native(name),
            "media key {name} should route to Native"
        );
    }
}

#[test]
fn test_action_notification_with_text() {
    assert_eq!(
        resolve_command_action("notification", "Hello world", false),
        CommandAction::Notification("Hello world".to_string())
    );
}

#[test]
fn test_action_notification_empty_is_noop() {
    assert_eq!(
        resolve_command_action("notification", "", false),
        CommandAction::NoOp("notification_empty")
    );
}

#[test]
fn test_action_notification_press_is_noop() {
    assert_eq!(
        resolve_command_action("notification", "PRESS", false),
        CommandAction::NoOp("notification_empty")
    );
}

#[test]
fn test_action_volume_set() {
    assert_eq!(
        resolve_command_action("VolumeSet", "75", false),
        CommandAction::VolumeSet(75.0f32.to_bits())
    );
}

#[test]
fn test_action_volume_set_decimal() {
    assert_eq!(
        resolve_command_action("VolumeSet", "33.5", false),
        CommandAction::VolumeSet(33.5f32.to_bits())
    );
}

#[test]
fn test_action_volume_set_invalid() {
    assert_eq!(
        resolve_command_action("VolumeSet", "loud", false),
        CommandAction::NoOp("volume_set_invalid")
    );
}

#[test]
fn test_action_volume_set_press_is_invalid() {
    assert_eq!(
        resolve_command_action("VolumeSet", "PRESS", false),
        CommandAction::NoOp("volume_set_invalid")
    );
}

#[test]
fn test_action_volume_mute_toggle() {
    assert_eq!(
        resolve_command_action("VolumeMute", "", false),
        CommandAction::VolumeMute(None)
    );
}

#[test]
fn test_action_volume_mute_press_toggles() {
    assert_eq!(
        resolve_command_action("VolumeMute", "PRESS", false),
        CommandAction::VolumeMute(None)
    );
}

#[test]
fn test_action_volume_mute_explicit_true() {
    assert_eq!(
        resolve_command_action("VolumeMute", "true", false),
        CommandAction::VolumeMute(Some(true))
    );
}

#[test]
fn test_action_volume_mute_explicit_false() {
    assert_eq!(
        resolve_command_action("VolumeMute", "false", false),
        CommandAction::VolumeMute(Some(false))
    );
}

#[test]
fn test_action_volume_mute_one() {
    assert_eq!(
        resolve_command_action("VolumeMute", "1", false),
        CommandAction::VolumeMute(Some(true))
    );
}

#[test]
fn test_action_screensaver_produces_shell() {
    let action = resolve_command_action("Screensaver", "", false);
    assert!(
        matches!(
            action,
            CommandAction::Shell(ShellResolution::Predefined(ref cmd))
            if cmd.contains("scrnsave.scr")
        ),
        "Screensaver should produce a shell command: {action:?}"
    );
}

#[test]
fn test_action_shutdown_produces_shell() {
    let action = resolve_command_action("Shutdown", "", false);
    assert_eq!(
        action,
        CommandAction::Shell(ShellResolution::Predefined("shutdown -s -t 0".to_string()))
    );
}

#[test]
fn test_action_sleep_produces_shell() {
    let action = resolve_command_action("Sleep", "", false);
    assert!(
        matches!(
            action,
            CommandAction::Shell(ShellResolution::Predefined(ref cmd))
            if cmd.contains("SetSuspendState")
        ),
        "Sleep should produce shell command: {action:?}"
    );
}

#[test]
fn test_action_launch_steam_raw_disabled() {
    let action = resolve_command_action("Launch", "steam:730", false);
    assert!(
        matches!(
            action,
            CommandAction::Shell(ShellResolution::LauncherShortcut(ref cmd))
            if cmd.contains("steam://rungameid/730")
        ),
        "steam: launcher MUST work with raw=false: {action:?}"
    );
}

#[test]
fn test_action_launch_close_raw_disabled() {
    let action = resolve_command_action("Launch", "close:notepad", false);
    assert!(
        matches!(
            action,
            CommandAction::Shell(ShellResolution::LauncherShortcut(ref cmd))
            if cmd.contains("CloseMainWindow")
        ),
        "close: launcher MUST work with raw=false: {action:?}"
    );
}

#[test]
fn test_action_launch_exe_raw_disabled() {
    let action = resolve_command_action("Launch", r"exe:C:\Games\Game.exe", false);
    assert!(
        matches!(
            action,
            CommandAction::Shell(ShellResolution::LauncherShortcut(ref cmd))
            if cmd.contains("Start-Process")
        ),
        "exe: launcher MUST work with raw=false: {action:?}"
    );
}

#[test]
fn test_action_launch_url_raw_disabled() {
    let action =
        resolve_command_action("Launch", "url:discord://discord.com/channels/123", false);
    assert!(
        matches!(
            action,
            CommandAction::Shell(ShellResolution::LauncherShortcut(ref cmd))
            if cmd.contains("discord://")
        ),
        "url: launcher MUST work with raw=false: {action:?}"
    );
}

#[test]
fn test_action_launch_epic_raw_disabled() {
    let action = resolve_command_action("Launch", "epic:Fortnite", false);
    assert!(
        matches!(
            action,
            CommandAction::Shell(ShellResolution::LauncherShortcut(ref cmd))
            if cmd.contains("epicgames")
        ),
        "epic: launcher MUST work with raw=false: {action:?}"
    );
}

#[test]
fn test_action_raw_command_blocked() {
    assert_eq!(
        resolve_command_action("Launch", "notepad.exe", false),
        CommandAction::NoOp("blocked")
    );
}

#[test]
fn test_action_raw_command_allowed() {
    let action = resolve_command_action("Launch", "notepad.exe", true);
    assert_eq!(
        action,
        CommandAction::Shell(ShellResolution::RawCommand("notepad.exe".to_string()))
    );
}

#[test]
fn test_action_unknown_empty_payload() {
    assert_eq!(
        resolve_command_action("totally_unknown", "", false),
        CommandAction::NoOp("not_found")
    );
}

#[test]
fn test_action_native_with_press_payload() {
    assert_eq!(
        resolve_command_action("Wake", "PRESS", false),
        CommandAction::Native("Wake")
    );
}

#[test]
fn test_action_press_normalisation_case_insensitive() {
    assert_eq!(
        resolve_command_action("Lock", "press", false),
        CommandAction::Native("Lock")
    );
    assert_eq!(
        resolve_command_action("Lock", "Press", false),
        CommandAction::Native("Lock")
    );
}

#[test]
fn test_action_payload_whitespace_trimmed() {
    let action = resolve_command_action("Launch", "  steam:730  ", false);
    assert!(
        matches!(
            action,
            CommandAction::Shell(ShellResolution::LauncherShortcut(ref cmd))
            if cmd.contains("steam://rungameid/730")
        ),
        "Whitespace-padded payload should still resolve: {action:?}"
    );
}

#[test]
fn test_action_wake_ignores_extra_payload() {
    assert_eq!(
        resolve_command_action("Wake", "some extra data", false),
        CommandAction::Native("Wake")
    );
}

#[test]
fn test_action_url_injection_blocked() {
    assert_eq!(
        resolve_command_action("Launch", "url:discord://x;rm -rf /", false),
        CommandAction::NoOp("blocked")
    );
}

#[test]
fn test_action_close_injection_blocked() {
    assert_eq!(
        resolve_command_action("Launch", "close:bad;name", false),
        CommandAction::NoOp("blocked")
    );
}

#[test]
fn the_steps_follow_the_routing() {
    let config = Config {
        allow_raw_commands: true,
        ..Config::default()
    };
    for (name, payload) in [("Shutdown", ""), ("x", "steam:730"), ("x", "echo hi")] {
        let CommandAction::Shell(resolved) = resolve_command_action(name, payload, true) else {
            panic!("{name} runs no shell command");
        };
        let wanted = match resolved {
            ShellResolution::Predefined(c)
            | ShellResolution::LauncherShortcut(c)
            | ShellResolution::RawCommand(c) => c,
            _ => panic!("{name} is not resolved"),
        };
        match executor::execute_command(&config, false, name, payload, None) {
            Ok(Step::Shell(c)) => assert_eq!(c, wanted),
            other => panic!("{name}: {other:?}"),
        }
    }
}
