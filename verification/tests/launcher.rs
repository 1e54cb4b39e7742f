//! Launcher shortcuts on Windows.

use pc_bridge::commands::launcher::expand_launcher_shortcut;

#[test]
fn launcher_test_steam_shortcut() {
    assert_eq!(
        expand_launcher_shortcut("steam:1234"),
        Some(r#"Start-Process "steam://rungameid/1234""#.to_string())
    );
    assert_eq!(expand_launcher_shortcut("steam:abc"), None);
}

#[test]
fn launcher_test_exe_shortcut() {
    let result = expand_launcher_shortcut(r"exe:C:\Games\Game.exe");
    assert!(result.is_some());
    assert!(result.unwrap().contains("Start-Process"));
}

#[test]
fn launcher_test_close_shortcut() {
    let result = expand_launcher_shortcut("close:notepad");
    assert!(result.is_some());
    assert!(result.unwrap().contains("CloseMainWindow"));
}

#[test]
fn test_url_shortcut_discord() {
    let result = expand_launcher_shortcut("url:discord://discord.com/channels/123/456");
    assert_eq!(
        result,
        Some(r#"Start-Process "discord://discord.com/channels/123/456""#.to_string())
    );
}

#[test]
fn test_url_shortcut_https() {
    let result = expand_launcher_shortcut("url:https://example.com");
    assert!(result.is_some());
    assert!(result.unwrap().contains("Start-Process"));
}

#[test]
fn test_url_shortcut_rejects_no_scheme() {
    assert_eq!(expand_launcher_shortcut("url:not-a-url"), None);
}

#[test]
fn test_url_shortcut_rejects_shell_injection() {
    assert_eq!(expand_launcher_shortcut("url:discord://x;rm -rf /"), None);
    assert_eq!(expand_launcher_shortcut("url:discord://x|evil"), None);
    assert_eq!(expand_launcher_shortcut("url:discord://x&evil"), None);
}
