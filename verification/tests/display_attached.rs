//! Whether a monitor is attached.

use pc_bridge::power::display_attached::{
    is_virtual_display, on_event, physical_display_present, publish_change,
    virtual_display_markers, Attachment, DisplayAction, DisplayEvent,
};
use pc_bridge::power::display_attached_linux::read_drm_attached_in;

#[test]
fn parsec_vdd_link_is_recognized_as_virtual() {
    let link =
        r"\\?\DISPLAY#PSCCDD0#1&28a6823a&0&UID256_0#{e6f07b5f-ee97-4a90-b076-33f57bf4eaa7}";
    assert!(
        is_virtual_display(link),
        "Parsec VDD must be classified virtual"
    );
}

#[test]
fn real_monitor_link_is_not_virtual() {
    let link =
        r"\\?\DISPLAY#AUS27D2#5&1a2b3c4d&0&UID4353#{e6f07b5f-ee97-4a90-b076-33f57bf4eaa7}";
    assert!(
        !is_virtual_display(link),
        "a physical monitor must not be classified virtual"
    );
}

#[test]
fn markers_are_uppercase_so_matching_works() {
    for m in &virtual_display_markers() {
        assert_eq!(*m, m.to_ascii_uppercase(), "marker must be uppercase");
    }
}

/// A list of texts as the system gives it.
fn multi_sz(links: &[&str]) -> Vec<u16> {
    let mut list = Vec::new();
    for l in links {
        list.extend(l.encode_utf16());
        list.push(0);
    }
    list.push(0);
    list
}

#[test]
fn only_physical_monitors_count() {
    let parsec = r"\\?\DISPLAY#psccdd0#1&28a6823a&0&UID256_0#{e6f07b5f}";
    let real = r"\\?\DISPLAY#AUS27D2#5&1a2b3c4d&0&UID4353#{e6f07b5f}";
    assert_eq!(physical_display_present(Some(&multi_sz(&[parsec]))), Some(false));
    assert_eq!(physical_display_present(Some(&multi_sz(&[parsec, real]))), Some(true));
    assert_eq!(physical_display_present(Some(&multi_sz(&[real]))), Some(true));
    assert_eq!(physical_display_present(Some(&multi_sz(&[]))), Some(false));
    assert_eq!(physical_display_present(Some(&[])), Some(false));
    assert_eq!(physical_display_present(None), None);
}

#[test]
fn a_virtual_display_changes_nothing_wherever_it_stands() {
    let parsec = r"\\?\DISPLAY#psccdd0#1&28a6823a&0&UID256_0#{e6f07b5f}";
    let real = r"\\?\DISPLAY#AUS27D2#5&1a2b3c4d&0&UID4353#{e6f07b5f}";
    for rest in [&[][..], &[real][..], &[real, parsec][..]] {
        let mut with_virtual = vec![parsec];
        with_virtual.extend_from_slice(rest);
        assert_eq!(
            physical_display_present(Some(&multi_sz(&with_virtual))),
            physical_display_present(Some(&multi_sz(rest)))
        );
    }
    assert_eq!(physical_display_present(Some(&[0, 0, 0])), Some(false));
}

#[test]
fn only_changes_are_published() {
    assert_eq!(publish_change(None, Some(true)), Some(Attachment::Attached));
    assert_eq!(publish_change(Some(Attachment::Attached), Some(true)), None);
    assert_eq!(
        publish_change(Some(Attachment::Attached), Some(false)),
        Some(Attachment::Detached)
    );
    assert_eq!(
        publish_change(Some(Attachment::Attached), None),
        Some(Attachment::Unknown)
    );
    assert_eq!(publish_change(Some(Attachment::Unknown), None), None);
    assert_eq!(Attachment::Attached.as_str(), "attached");
    assert_eq!(Attachment::Detached.as_str(), "detached");
    assert_eq!(Attachment::Unknown.as_str(), "unknown");
}

fn statuses(s: &[&str]) -> Vec<String> {
    s.iter().map(|x| x.to_string()).collect()
}

#[test]
fn test_connected_connector_reads_attached() {
    let s = statuses(&["connected\n", "disconnected\n"]);
    assert_eq!(read_drm_attached_in(&s), Some(true));
}

#[test]
fn test_all_disconnected_reads_detached() {
    let s = statuses(&["disconnected\n", "disconnected\n"]);
    assert_eq!(read_drm_attached_in(&s), Some(false));
}

#[test]
fn test_connector_status_unknown_is_not_attached() {
    assert_eq!(read_drm_attached_in(&statuses(&["unknown\n"])), Some(false));
    assert_eq!(
        read_drm_attached_in(&statuses(&["unknown\n", "connected\n"])),
        Some(true)
    );
}

#[test]
fn test_non_connector_entries_are_skipped() {
    assert_eq!(
        read_drm_attached_in(&statuses(&[])),
        None,
        "no connectors at all is unobservable, not detached"
    );
    assert_eq!(read_drm_attached_in(&statuses(&["disconnected\n"])), Some(false));
}

#[test]
fn test_missing_drm_root_is_unobservable() {
    assert_eq!(read_drm_attached_in(&statuses(&[])), None);
}

#[test]
fn test_status_is_case_and_whitespace_tolerant() {
    assert_eq!(read_drm_attached_in(&statuses(&["  Connected  "])), Some(true));
}

#[test]
fn the_sensor_looks_and_publishes_what_is_new() {
    let probe = |settle_ms| DisplayAction::Probe { settle_ms };
    assert_eq!(on_event(None, DisplayEvent::Registered), (None, probe(0)));
    let seen = DisplayEvent::Probed(Some(true));
    let on = Some(Attachment::Attached);
    assert_eq!(on_event(None, seen), (on, DisplayAction::Publish(Attachment::Attached)));
    assert_eq!(on_event(on, seen), (on, DisplayAction::Wait));
    assert_eq!(on_event(on, DisplayEvent::Changed), (on, probe(750)));
    assert_eq!(on_event(on, DisplayEvent::Tick), (on, probe(0)));
    // The broker may have lost the value.
    assert_eq!(on_event(on, DisplayEvent::Reconnected), (None, probe(0)));
    for end in [
        DisplayEvent::ReconnectsClosed,
        DisplayEvent::ChangesClosed,
        DisplayEvent::Stopping,
    ] {
        assert_eq!(on_event(on, end), (on, DisplayAction::Stop));
    }
}

#[test]
fn a_sensor_that_hears_nothing_says_so_and_parks() {
    assert_eq!(
        on_event(None, DisplayEvent::RegistrationFailed).1,
        DisplayAction::PublishAndPark(Attachment::Unknown)
    );
}
