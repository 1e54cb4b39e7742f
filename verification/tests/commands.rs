//! The gates of commands and launch payloads.

use pc_bridge::commands::launcher::expand_launcher_shortcut;
use pc_bridge::commands::{
    close_target, command_feature_enabled, global_scheme_blocked, is_arbitrary_launch,
    is_configured_launch, is_native_command, native_command_list,
};
use pc_bridge::config::{Config, FeatureConfig};

/// The guard without configured games.
fn scheme_blocked(config: &Config, payload: &str) -> bool {
    global_scheme_blocked(config, payload, &Vec::new(), false)
}

#[test]
fn test_global_scheme_gate_defaults() {
    let mut cfg = Config::default();
    assert!(cfg.allow_global_launch && !cfg.allow_global_close);

    assert!(!scheme_blocked(&cfg, "steam:730"));
    assert!(!scheme_blocked(&cfg, "epic:Fortnite"));
    assert!(scheme_blocked(&cfg, "kill:notepad"));
    assert!(scheme_blocked(&cfg, "close:chrome.exe"));
    assert!(!scheme_blocked(&cfg, "exe:/usr/bin/x"));

    cfg.allow_global_launch = false;
    assert!(scheme_blocked(&cfg, "steam:730")); // now blocked
    cfg.allow_global_close = true;
    assert!(!scheme_blocked(&cfg, "kill:notepad")); // now allowed
}

#[test]
fn test_is_arbitrary_launch() {
    assert!(is_arbitrary_launch("exe:C:/Games/g.exe"));
    assert!(is_arbitrary_launch("lnk:C:/x.lnk"));
    assert!(is_arbitrary_launch("url:steam://run/1"));
    assert!(!is_arbitrary_launch("steam:730"));
    assert!(!is_arbitrary_launch("epic:Fortnite"));
    assert!(!is_arbitrary_launch("close:notepad"));
}

#[test]
fn test_is_arbitrary_launch_normalizes_scheme() {
    assert!(is_arbitrary_launch("EXE:C:/x.exe"));
    assert!(is_arbitrary_launch("Exe:C:/x.exe"));
    assert!(is_arbitrary_launch("exe :C:/x.exe"));
    assert!(is_arbitrary_launch("  URL:steam://run/1"));
    assert!(is_arbitrary_launch("LNK:C:/x.lnk"));
}

#[test]
fn test_discord_deeplink_not_arbitrary() {
    assert!(!is_arbitrary_launch(
        "url:discord://discord.com/channels/1/2"
    ));
    assert!(!is_arbitrary_launch("URL:discord://x"));
    assert!(is_arbitrary_launch("url:file:///etc/passwd"));
    assert!(is_arbitrary_launch("url:https://evil"));
}

#[test]
fn test_command_feature_enabled() {
    let mut f = FeatureConfig::default();
    assert!(command_feature_enabled("Shutdown", &f));
    f.cmd_shutdown = false;
    assert!(!command_feature_enabled("Shutdown", &f));
    assert!(command_feature_enabled("Restart", &f)); // independent flag, still on
    assert!(!command_feature_enabled("Launch", &f)); // launch_game off by default
    f.launch_game = true;
    assert!(command_feature_enabled("Launch", &f));
    assert!(command_feature_enabled("notification", &f));
    assert!(command_feature_enabled("some_custom_command", &f));
}

#[test]
fn configured_games_pass_the_gate() {
    let config = Config {
        allow_global_launch: false,
        allow_global_close: false,
        ..Config::default()
    };
    let commands = vec!["steam:730".to_string()];
    assert!(is_configured_launch(&commands, "steam:730"));
    assert!(!global_scheme_blocked(&config, "steam:730", &commands, false));
    assert!(global_scheme_blocked(&config, "steam:731", &commands, false));
    assert!(!global_scheme_blocked(&config, "close:cs2.exe", &commands, true));
    assert!(!global_scheme_blocked(&config, "no scheme", &commands, false));
}

#[test]
fn close_target_is_trimmed() {
    assert_eq!(close_target("close: chrome.exe ").as_deref(), Some("chrome"));
    assert_eq!(close_target("KILL:notepad").as_deref(), Some("notepad"));
    assert_eq!(close_target("steam:730"), None);
}

#[test]
fn native_commands_are_known() {
    for name in native_command_list() {
        assert!(is_native_command(name));
    }
    assert!(!is_native_command("sleep"));
    assert_eq!(native_command_list().len(), 20);
}

#[test]
fn the_guards_read_schemes_as_the_launcher_does() {
    // The Kelvin sign is a k in lower case.
    let payload = "ln\u{212A}:C:/x.lnk";
    assert_eq!(
        expand_launcher_shortcut(payload).as_deref(),
        Some("Start-Process C:/x.lnk")
    );
    assert!(is_arbitrary_launch(payload));
    let config = Config::default();
    assert!(scheme_blocked(&config, "\u{212A}ill:notepad"));
    assert_eq!(close_target("\u{212A}ill:notepad.exe").as_deref(), Some("notepad"));
}
