//! Audio, idle time, windows and HWiNFO.

use pc_bridge::audio::{
    mute_argument, mute_state, toggle_mute, volume_argument, volume_text, MediaKey,
};
use pc_bridge::hwinfo_supervisor::{
    is_instance, resolve_exe_path, ExePath, Supervisor, SupervisorAction, SupervisorEvent,
};
use pc_bridge::linux_idle::{desktop_idle_millis, IdleListener};
use pc_bridge::linux_wayland::{
    dpms_on, has_foreign_toplevel, has_output_power, is_activated, set_dpms, ToplevelState,
};

#[test]
fn media_keys_have_codes_and_names() {
    let keys = [
        (MediaKey::PlayPause, "XF86AudioPlay", 0xB3),
        (MediaKey::Next, "XF86AudioNext", 0xB0),
        (MediaKey::Previous, "XF86AudioPrev", 0xB1),
        (MediaKey::Stop, "XF86AudioStop", 0xB2),
        (MediaKey::VolumeUp, "XF86AudioRaiseVolume", 0xAF),
        (MediaKey::VolumeDown, "XF86AudioLowerVolume", 0xAE),
        (MediaKey::VolumeMute, "XF86AudioMute", 0xAD),
    ];
    for (key, name, code) in keys {
        assert_eq!(key.x11_name(), name);
        assert_eq!(key.virtual_key_code(), code);
    }
}

#[test]
fn volumes_are_read_from_the_mixer() {
    let out = "Volume: front-left: 32768 /  50% / -18.06 dB,   front-right: 32768 /  51%";
    assert_eq!(volume_text(out).as_deref(), Some("50"));
    assert_eq!(volume_text("no sink"), None);
    assert_eq!(volume_text("%").as_deref(), Some(""));
    assert!(mute_state("Mute: yes\n"));
    assert!(!mute_state("Mute: no\n"));
    assert_eq!(volume_argument(70), "70%");
    assert_eq!(mute_argument(true), "1");
    assert_eq!(mute_argument(false), "0");
}

#[test]
fn a_toggle_needs_the_current_state() {
    assert_eq!(toggle_mute(Some(true)), Some(false));
    assert_eq!(toggle_mute(Some(false)), Some(true));
    assert_eq!(toggle_mute(None), None);
}

#[test]
fn desktops_tell_the_idle_time() {
    assert_eq!(desktop_idle_millis(Some(5), Some(9)), Some(5));
    assert_eq!(desktop_idle_millis(None, Some(u32::MAX)), Some(4_294_967_295_000));
    assert_eq!(desktop_idle_millis(None, None), None);
}

#[test]
fn idle_time_counts_from_the_threshold() {
    let mut l = IdleListener::new();
    assert!(l.ensure_started());
    assert!(!l.ensure_started());
    assert_eq!(l.idle_millis(0), None);
    l.set_available(true);
    assert_eq!(l.idle_millis(50), Some(0));
    l.set_idle(true, 5000);
    assert_eq!(l.idle_millis(5000), Some(1000));
    assert_eq!(l.idle_millis(7000), Some(3000));
    assert_eq!(l.idle_millis(10), Some(0));
    l.set_idle(false, 8000);
    assert_eq!(l.idle_millis(9000), Some(0));
    l.set_idle(true, 500);
    assert_eq!(l.idle_millis(600), Some(100));
    l.set_available(false);
    assert_eq!(l.idle_millis(900), None);
    l.set_available(true);
    assert_eq!(l.idle_millis(900), Some(0));
}

#[test]
fn states_say_whether_a_window_is_active() {
    assert!(is_activated(&[0, 0, 0, 0, 2, 0, 0, 0], true));
    assert!(is_activated(&[0, 0, 0, 2], false));
    assert!(!is_activated(&[0, 0, 0, 2], true));
    assert!(!is_activated(&[2, 0, 0], true));
    assert!(!is_activated(&[0, 2, 0, 0, 0], true));
    assert!(!is_activated(&[], true));
}

#[test]
fn the_active_window_has_a_title() {
    let mut s = ToplevelState::new();
    assert_eq!(s.active_window_title(), None);
    s.on_title(1, "Editor");
    s.on_title(2, "Browser");
    assert_eq!(s.active_window_title(), None);
    s.on_state(2, &[2, 0, 0, 0], true);
    assert_eq!(s.active_window_title().as_deref(), Some("Browser"));
    s.on_title(2, "Mail");
    assert_eq!(s.active_window_title().as_deref(), Some("Mail"));
    s.on_state(2, &[], true);
    s.on_state(1, &[2, 0, 0, 0], true);
    assert_eq!(s.active_window_title().as_deref(), Some("Editor"));
    s.on_closed(1);
    assert_eq!(s.active_window_title(), None);
}

#[test]
fn outputs_have_power() {
    assert!(has_foreign_toplevel(true, true, true));
    assert!(!has_foreign_toplevel(true, false, true));
    assert!(!has_foreign_toplevel(false, true, true));
    assert!(!has_foreign_toplevel(true, true, false));
    assert!(has_output_power(true, true, true));
    assert!(!has_output_power(true, false, true));
    assert_eq!(dpms_on(None), None);
    assert_eq!(dpms_on(Some(&Vec::new())), None);
    assert_eq!(dpms_on(Some(&vec![false, true])), Some(true));
    assert_eq!(dpms_on(Some(&vec![false])), Some(false));
    assert!(set_dpms(Some(1)));
    assert!(!set_dpms(Some(0)));
    assert!(!set_dpms(None));
}

/// Runs the supervisor and returns what it does at each event.
fn supervise(has_desktop: bool, events: &[SupervisorEvent]) -> Vec<SupervisorAction> {
    let (mut s, first) = Supervisor::start(true);
    let mut actions = vec![first];
    for e in events {
        actions.push(s.on_event(*e, has_desktop));
    }
    actions
}

#[test]
fn a_running_instance_is_left_alone() {
    assert_eq!(
        supervise(
            true,
            &[
                SupervisorEvent::Running(true),
                SupervisorEvent::Running(true),
                SupervisorEvent::Shutdown,
            ]
        ),
        [
            SupervisorAction::Look(0),
            SupervisorAction::Look(0),
            SupervisorAction::Look(5),
            SupervisorAction::Stop,
        ]
    );
}

#[test]
fn an_own_instance_is_terminated() {
    assert_eq!(
        supervise(
            true,
            &[
                SupervisorEvent::Running(false),
                SupervisorEvent::Launched(false),
                SupervisorEvent::Elapsed,
                SupervisorEvent::Running(false),
                SupervisorEvent::Launched(true),
                SupervisorEvent::Exited(false),
                SupervisorEvent::Shutdown,
            ]
        ),
        [
            SupervisorAction::Look(0),
            SupervisorAction::Launch,
            SupervisorAction::Sleep(5),
            SupervisorAction::Look(0),
            SupervisorAction::Launch,
            SupervisorAction::LookAtChild(0),
            SupervisorAction::LookAtChild(5),
            SupervisorAction::KillAndStop,
        ]
    );
}

#[test]
fn without_a_hidden_desktop_nothing_is_launched() {
    let actions = supervise(
        false,
        &[
            SupervisorEvent::Running(false),
            SupervisorEvent::Elapsed,
            SupervisorEvent::Running(false),
        ],
    );
    assert!(!actions.contains(&SupervisorAction::Launch));
    assert_eq!(Supervisor::start(false).1, SupervisorAction::Stop);
}

#[test]
fn the_executable_has_a_path() {
    assert!(matches!(
        resolve_exe_path(Some("C:\\x.exe"), Some("C:\\p")),
        ExePath::Given(p) if p == "C:\\x.exe"
    ));
    assert!(matches!(
        resolve_exe_path(Some(""), Some("C:\\p")),
        ExePath::Beside(d) if d == "C:\\p"
    ));
    assert!(matches!(resolve_exe_path(None, None), ExePath::ByName));
}

#[test]
fn instances_are_told_by_name() {
    let mut units: Vec<u16> = "HWiNFO64.EXE".encode_utf16().collect();
    units.extend([0, 0]);
    assert!(is_instance(&units, "hwinfo64.exe"));
    assert!(!is_instance(&units, "hwinfo32.exe"));
}
