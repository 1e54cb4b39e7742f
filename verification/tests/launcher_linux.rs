//! Launcher shortcuts on Linux.

use pc_bridge::commands::launcher_linux::expand_launcher_shortcut;

#[test]
fn launcher_linux_test_steam_shortcut() {
    let result = expand_launcher_shortcut("steam:1234");
    assert_eq!(
        result,
        Some("xdg-open 'steam://rungameid/1234'".to_string())
    );
}

#[test]
fn test_steam_rejects_non_numeric() {
    assert_eq!(expand_launcher_shortcut("steam:abc"), None);
}

#[test]
fn launcher_linux_test_exe_shortcut() {
    let result = expand_launcher_shortcut("exe:/opt/games/game");
    assert_eq!(result, Some("'/opt/games/game'".to_string()));
}

#[test]
fn test_exe_with_args() {
    let result = expand_launcher_shortcut("exe:/opt/games/game --fullscreen");
    assert_eq!(result, Some("'/opt/games/game' --fullscreen".to_string()));
}

#[test]
fn launcher_linux_test_close_shortcut() {
    let result = expand_launcher_shortcut("close:firefox");
    assert_eq!(result, Some("pkill -f 'firefox'".to_string()));
}

#[test]
fn test_close_strips_exe_extension() {
    let result = expand_launcher_shortcut("close:notepad.exe");
    assert_eq!(result, Some("pkill -f 'notepad'".to_string()));
}

#[test]
fn test_url_shortcut() {
    let result = expand_launcher_shortcut("url:https://example.com");
    assert_eq!(result, Some("xdg-open 'https://example.com'".to_string()));
}

#[test]
fn test_url_rejects_no_scheme() {
    assert_eq!(expand_launcher_shortcut("url:not-a-url"), None);
}

#[test]
fn test_url_rejects_shell_injection() {
    assert_eq!(expand_launcher_shortcut("url:https://x;rm -rf /"), None);
    assert_eq!(expand_launcher_shortcut("url:https://x|evil"), None);
    assert_eq!(expand_launcher_shortcut("url:https://x&evil"), None);
}

#[test]
fn test_lnk_rejected_on_linux() {
    assert_eq!(expand_launcher_shortcut("lnk:C:\\shortcut.lnk"), None);
}

#[test]
fn test_epic_shortcut() {
    let result = expand_launcher_shortcut("epic:Fortnite");
    assert_eq!(
        result,
        Some("xdg-open 'heroic://launch/Fortnite'".to_string())
    );
}

#[test]
fn test_empty_arg_rejected() {
    assert_eq!(expand_launcher_shortcut("steam:"), None);
    assert_eq!(expand_launcher_shortcut("exe:"), None);
}
