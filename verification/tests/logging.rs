//! The rotation of the log file.

use pc_bridge::commands::custom::Platform;
use pc_bridge::logging::{
    backup_path, log_dir, next_rotation, rotate, Reopen, RotateNext, RotateStep, RotatingWriter,
    MAX_BACKUPS,
};
use std::collections::HashMap;

/// Log files in memory.
struct Disk {
    files: HashMap<String, Vec<u8>>,
    path: String,
    writer: RotatingWriter,
}

impl Disk {
    fn with_limit(path: &str, max_bytes: u64) -> Self {
        let mut files = HashMap::new();
        files.insert(path.to_string(), Vec::new());
        Disk {
            files,
            path: path.to_string(),
            writer: RotatingWriter::with_limit(0, max_bytes),
        }
    }

    fn holds_file(&self, path: &str) -> bool {
        self.files.contains_key(path)
    }

    fn write_all(&mut self, bytes: &[u8]) {
        self.write_all_but(bytes, None);
    }

    /// Writes bytes, where the rename of this file fails if the log is rotated.
    fn write_all_but(&mut self, bytes: &[u8], stuck: Option<&str>) {
        if self.writer.must_rotate(bytes.len() as u64) {
            let steps = rotate(&self.path);
            let mut done = 0;
            let mut failed = false;
            let how = loop {
                match next_rotation(done, failed) {
                    RotateNext::Reopen(how) => break how,
                    RotateNext::Step(i) => match &steps[i] {
                        RotateStep::Remove(p) => {
                            self.files.remove(p);
                        }
                        RotateStep::Rename(from, to) => {
                            if stuck == Some(from.as_str()) {
                                failed = true;
                            } else if let Some(f) = self.files.remove(from) {
                                self.files.insert(to.clone(), f);
                            }
                        }
                    },
                }
                done += 1;
            };
            if how == Reopen::Truncate {
                self.files.insert(self.path.clone(), Vec::new());
            }
            self.writer.rotated(how);
        }
        self.files.get_mut(&self.path).unwrap().extend(bytes);
        self.writer.wrote(bytes.len() as u64);
    }
}

#[test]
fn backup_path_appends_index() {
    let p = "/var/log/pc-bridge.log";
    assert_eq!(backup_path(p, 1), "/var/log/pc-bridge.log.1");
    assert_eq!(backup_path(p, 3), "/var/log/pc-bridge.log.3");
}

#[test]
fn rotates_when_exceeding_limit() {
    let path = "pc-bridge.log";
    let mut w = Disk::with_limit(path, 64);

    for _ in 0..7 {
        w.write_all(b"0123456789");
    }

    assert!(w.holds_file(path), "active log should exist");
    assert!(
        w.holds_file(&backup_path(path, 1)),
        "first backup should be created on rotation"
    );
    assert_eq!(w.files[path].len(), 10);
    assert_eq!(w.files[&backup_path(path, 1)].len(), 60);
}

#[test]
fn retains_only_max_backups() {
    let path = "pc-bridge.log";
    let mut w = Disk::with_limit(path, 10);

    for _ in 0..20 {
        w.write_all(b"0123456789ABCDEF");
    }

    assert!(
        !w.holds_file(&backup_path(path, MAX_BACKUPS + 1)),
        "backups beyond MAX_BACKUPS must be pruned"
    );
    assert_eq!(w.files.len(), MAX_BACKUPS + 1);
}

#[test]
fn the_oldest_file_goes_and_the_others_move_up() {
    let path = "l";
    let mut w = Disk::with_limit(path, 1);
    for i in 0..5u8 {
        w.write_all(&[b'a' + i]);
    }
    assert_eq!(w.files["l"], b"e");
    assert_eq!(w.files["l.1"], b"d");
    assert_eq!(w.files["l.2"], b"c");
    assert_eq!(w.files["l.3"], b"b");
}

#[test]
fn a_failed_rename_leaves_the_logs_intact() {
    let mut w = Disk::with_limit("l", 1);
    for b in [b"a", b"b", b"c"] {
        w.write_all(b);
    }
    // The active file cannot be renamed: it goes on.
    w.write_all_but(b"d", Some("l"));
    assert_eq!(w.files["l"], b"cd");
    assert_eq!(w.files["l.2"], b"b");
    assert_eq!(w.files["l.3"], b"a");
    assert_eq!(w.writer.written, 2);
    w.write_all(b"e");
    assert_eq!(w.files["l"], b"e");
    assert_eq!(w.files["l.1"], b"cd");
    // An older file cannot be renamed: it is not written over.
    w.write_all_but(b"f", Some("l.1"));
    assert_eq!(w.files["l"], b"ef");
    assert_eq!(w.files["l.1"], b"cd");
}

#[test]
fn the_first_rotations_move_what_is_there() {
    let mut w = Disk::with_limit("l", 1);
    w.write_all(b"a");
    w.write_all(b"b");
    assert_eq!(w.files.len(), 2);
    assert_eq!(w.files["l"], b"b");
    assert_eq!(w.files["l.1"], b"a");
}

#[test]
fn a_full_counter_stays_full() {
    let mut w = RotatingWriter::open(u64::MAX - 1);
    assert!(w.must_rotate(u64::MAX));
    w.wrote(5);
    assert_eq!(w.written, u64::MAX);
    w.rotated(Reopen::Append);
    assert_eq!(w.written, u64::MAX);
    w.rotated(Reopen::Truncate);
    assert!(!w.must_rotate(5 * 1024 * 1024));
    assert!(w.must_rotate(5 * 1024 * 1024 + 1));
}

#[test]
fn the_log_stays_within_its_limit() {
    let mut w = Disk::with_limit("l", 10);
    for n in [4usize, 6, 1, 10, 3, 7, 9] {
        w.write_all(&vec![b'x'; n]);
        assert!(w.files["l"].len() <= 10);
        assert_eq!(w.writer.written, w.files["l"].len() as u64);
    }
}

#[test]
fn a_limit_that_no_counter_passes_is_never_exceeded() {
    let w = RotatingWriter::with_limit(u64::MAX, u64::MAX);
    assert!(!w.must_rotate(5));
}

#[test]
fn the_log_lies_in_the_directory_of_the_user() {
    assert_eq!(
        log_dir(Platform::Windows, Some("L"), Some("X"), Some("H"), "T"),
        ("L".to_string(), "pc-bridge")
    );
    assert_eq!(
        log_dir(Platform::Unix, Some("L"), Some("X"), Some("H"), "T"),
        ("X".to_string(), "pc-bridge")
    );
    assert_eq!(
        log_dir(Platform::Unix, None, None, Some("H"), "T"),
        ("H".to_string(), ".local/state/pc-bridge")
    );
    assert_eq!(
        log_dir(Platform::Unix, None, None, None, "T"),
        ("T".to_string(), "pc-bridge")
    );
    assert_eq!(
        log_dir(Platform::Windows, None, None, None, "T"),
        ("T".to_string(), "pc-bridge")
    );
}
