//! The log file: when it is rotated, and how the older files move along.

use crate::commands::custom::Platform;
use crate::text;
use crate::text::push_decimal;
use vstd::prelude::*;
use vstd::string::*;

verus! {

/// The largest size of the active file.
pub const MAX_LOG_BYTES: u64 = 5242880;

/// How many older files are kept.
pub const MAX_BACKUPS: usize = 3;

/// The size of the active file against its limit.
#[derive(Debug, Clone, Copy, PartialEq, Eq, Structural)]
pub struct RotatingWriter {
    pub written: u64,
    pub max_bytes: u64,
}

/// The sum, or the largest number where it does not fit.
pub open spec fn capped_sum(a: u64, b: u64) -> u64 {
    if a + b > u64::MAX {
        u64::MAX
    } else {
        (a + b) as u64
    }
}

impl RotatingWriter {
    /// So many more bytes take the file over its limit.
    pub open spec fn over_limit(self, len: u64) -> bool {
        capped_sum(self.written, len) > self.max_bytes
    }

    /// The file once it was rotated: the active one is empty.
    pub open spec fn after_rotation(self) -> Self {
        RotatingWriter { written: 0, ..self }
    }

    /// The file once so many bytes were written to it.
    pub open spec fn after_writing(self, n: u64) -> Self {
        RotatingWriter { written: capped_sum(self.written, n), ..self }
    }

    /// A file that holds so many bytes, with the usual limit.
    pub fn open(size: u64) -> (r: Self)
        ensures
            r == (RotatingWriter { written: size, max_bytes: MAX_LOG_BYTES }),
    {
        Self::with_limit(size, MAX_LOG_BYTES)
    }

    /// A file that holds so many bytes, with a limit.
    pub fn with_limit(size: u64, max_bytes: u64) -> (r: Self)
        ensures
            r == (RotatingWriter { written: size, max_bytes }),
    {
        RotatingWriter { written: size, max_bytes }
    }

    /// Whether the file is rotated before so many bytes are written to it: when
    /// they would take it over its limit.
    pub fn must_rotate(&self, len: u64) -> (r: bool)
        ensures
            r == self.over_limit(len),
    {
        if u64::MAX - self.written < len {
            return u64::MAX > self.max_bytes;
        }
        self.written + len > self.max_bytes
    }

    /// The active file was opened again after a rotation: one that begins anew is
    /// empty, one that goes on holds what it held.
    pub fn rotated(&mut self, reopen: Reopen)
        ensures
            *final(self) == (match reopen {
                Reopen::Truncate => old(self).after_rotation(),
                Reopen::Append => *old(self),
            }),
    {
        match reopen {
            Reopen::Truncate => {
                self.written = 0;
            },
            Reopen::Append => {},
        }
    }

    /// So many bytes were written.
    pub fn wrote(&mut self, n: u64)
        ensures
            *final(self) == old(self).after_writing(n),
    {
        if u64::MAX - self.written < n {
            self.written = u64::MAX;
        } else {
            self.written = self.written + n;
        }
    }
}

/// A file that is rotated whenever it would go over its limit stays within it, but
/// for a single record that is larger than the limit.
pub proof fn law_log_stays_within_its_limit(w: RotatingWriter, len: u64, n: u64)
    requires
        w.written <= w.max_bytes,
        n <= len,
    ensures
        !w.over_limit(len) ==> w.after_writing(n).written <= w.max_bytes,
        w.over_limit(len) ==> w.after_rotation().after_writing(n).written == n,
        w.over_limit(len) && n <= w.max_bytes ==> w.after_rotation().after_writing(n).written
            <= w.max_bytes,
{
}

/// The path of the `n`-th older file.
pub open spec fn backup_of(path: Seq<char>, n: nat) -> Seq<char> {
    path + "."@ + text::decimal(n)
}

/// The path of the `n`-th older file.
pub fn backup_path(path: &str, n: usize) -> (r: String)
    ensures
        r@ == backup_of(path@, n as nat),
{
    let mut s = path.to_string();
    s.append(".");
    push_decimal(&mut s, n as u64);
    s
}

/// A step of a rotation.
#[derive(Debug, Clone)]
pub enum RotateStep {
    /// Remove a file. It does not matter whether that fails.
    Remove(String),
    /// Rename a file if it exists.
    Rename(String, String),
}

/// How the active file is opened after a rotation.
#[derive(Debug, Clone, Copy, PartialEq, Eq, Structural)]
pub enum Reopen {
    /// It begins anew.
    Truncate,
    /// It goes on.
    Append,
}

/// What comes next in a rotation.
#[derive(Debug, Clone, Copy, PartialEq, Eq, Structural)]
pub enum RotateNext {
    /// The step with this index.
    Step(usize),
    /// The active file is opened.
    Reopen(Reopen),
}

/// A step as plain values.
pub enum RotateStepView {
    Remove(Seq<char>),
    Rename(Seq<char>, Seq<char>),
}

impl View for RotateStep {
    type V = RotateStepView;

    open spec fn view(&self) -> RotateStepView {
        match self {
            RotateStep::Remove(p) => RotateStepView::Remove(p@),
            RotateStep::Rename(a, b) => RotateStepView::Rename(a@, b@),
        }
    }
}

/// The rotation: the oldest file goes, each older one moves up by one, from the
/// oldest on, and the active file becomes the first older one.
pub open spec fn rotation(path: Seq<char>) -> Seq<RotateStepView> {
    seq![
        RotateStepView::Remove(backup_of(path, 3)),
        RotateStepView::Rename(backup_of(path, 2), backup_of(path, 3)),
        RotateStepView::Rename(backup_of(path, 1), backup_of(path, 2)),
        RotateStepView::Rename(path, backup_of(path, 1)),
    ]
}

/// The steps of a rotation, to be taken one by one as `next_rotation` says.
pub fn rotate(path: &str) -> (r: Vec<RotateStep>)
    ensures
        r@.map_values(|s: RotateStep| s@) == rotation(path@),
{
    let r = vec![
        RotateStep::Remove(backup_path(path, MAX_BACKUPS)),
        RotateStep::Rename(backup_path(path, 2), backup_path(path, 3)),
        RotateStep::Rename(backup_path(path, 1), backup_path(path, 2)),
        RotateStep::Rename(path.to_string(), backup_path(path, 1)),
    ];
    proof {
        assert(r@.map_values(|s: RotateStep| s@) =~= rotation(path@));
    }
    r
}

/// What comes next after some steps of a rotation.
pub open spec fn rotation_after(done: usize, rename_failed: bool) -> RotateNext {
    if rename_failed {
        RotateNext::Reopen(Reopen::Append)
    } else if done < 4 {
        RotateNext::Step(done)
    } else {
        RotateNext::Reopen(Reopen::Truncate)
    }
}

/// What comes next after so many steps of a rotation. `rename_failed` says that the
/// last of them was to rename a file that exists, and failed. Then the rotation ends
/// there, so that no file is written over, and the active file goes on. Only once it
/// was renamed does it begin anew.
pub fn next_rotation(done: usize, rename_failed: bool) -> (r: RotateNext)
    ensures
        r == rotation_after(done, rename_failed),
{
    if rename_failed {
        RotateNext::Reopen(Reopen::Append)
    } else if done < 4 {
        RotateNext::Step(done)
    } else {
        RotateNext::Reopen(Reopen::Truncate)
    }
}

/// The files of a directory: their paths and what they hold.
pub type Files = Map<Seq<char>, Seq<u8>>;

/// The files after a step that succeeds where it can.
pub open spec fn after_step(files: Files, step: RotateStepView) -> Files {
    match step {
        RotateStepView::Remove(p) => files.remove(p),
        RotateStepView::Rename(a, b) => if files.contains_key(a) {
            files.remove(a).insert(b, files[a])
        } else {
            files
        },
    }
}

/// The files once the active one was opened.
pub open spec fn after_reopen(files: Files, path: Seq<char>, reopen: Reopen) -> Files {
    if reopen == Reopen::Truncate || !files.contains_key(path) {
        files.insert(path, seq![])
    } else {
        files
    }
}

/// The files after the steps of a rotation that are taken from `done` on, and the
/// opening of the active file, when the step with the index `fails` is a rename that
/// fails. With no such index every step succeeds where it can.
pub open spec fn rotation_result(
    files: Files,
    path: Seq<char>,
    done: usize,
    fails: Option<usize>,
) -> Files
    decreases 4 - done,
{
    let failed = done > 0 && fails == Some((done - 1) as usize);
    match rotation_after(done, failed) {
        RotateNext::Reopen(how) => after_reopen(files, path, how),
        RotateNext::Step(i) => rotation_result(
            if fails == Some(i) {
                files
            } else {
                after_step(files, rotation(path)[i as int])
            },
            path,
            (done + 1) as usize,
            fails,
        ),
    }
}

proof fn lemma_backups_differ(path: Seq<char>)
    ensures
        path != backup_of(path, 1),
        path != backup_of(path, 2),
        path != backup_of(path, 3),
        backup_of(path, 1) != backup_of(path, 2),
        backup_of(path, 1) != backup_of(path, 3),
        backup_of(path, 2) != backup_of(path, 3),
{
    reveal_strlit(".");
    let d = "."@;
    assert(d.len() == 1);
    reveal_with_fuel(text::decimal, 2);
    let n = path.len() as int + 1;
    assert(text::decimal(1) =~= seq!['1']);
    assert(text::decimal(2) =~= seq!['2']);
    assert(text::decimal(3) =~= seq!['3']);
    assert(backup_of(path, 1)[n] == '1');
    assert(backup_of(path, 2)[n] == '2');
    assert(backup_of(path, 3)[n] == '3');
    assert(backup_of(path, 1).len() == path.len() + 2);
    assert(backup_of(path, 2).len() == path.len() + 2);
    assert(backup_of(path, 3).len() == path.len() + 2);
}

/// One file holds what the other held, or neither was there.
pub open spec fn took_over(now: Files, to: Seq<char>, before: Files, from: Seq<char>) -> bool {
    &&& now.contains_key(to) <==> before.contains_key(from)
    &&& before.contains_key(from) ==> now[to] == before[from]
}

/// A path that a rotation has nothing to do with.
pub open spec fn unrelated(path: Seq<char>, p: Seq<char>) -> bool {
    p != path && p != backup_of(path, 1) && p != backup_of(path, 2) && p != backup_of(path, 3)
}

/// A rotation moves each file that is there up by one, drops the oldest, and leaves
/// an empty active file. No other file is touched, so there is never a fourth older
/// file. It makes no difference which of the older files exist.
pub proof fn law_rotation_moves_every_file_up(files: Files, path: Seq<char>)
    ensures
        ({
            let now = rotation_result(files, path, 0, None);
            &&& now.contains_key(path) && now[path] == Seq::<u8>::empty()
            &&& took_over(now, backup_of(path, 1), files, path)
            &&& took_over(now, backup_of(path, 2), files, backup_of(path, 1))
            &&& took_over(now, backup_of(path, 3), files, backup_of(path, 2))
            &&& forall|p: Seq<char>| unrelated(path, p) ==> #[trigger] took_over(now, p, files, p)
        }),
{
    lemma_backups_differ(path);
    reveal_with_fuel(rotation_result, 5);
}

/// A rename that fails leaves the logs intact: the active file keeps what it holds
/// and goes on, and each of the older files but the oldest is where it was or one
/// further up.
pub proof fn law_failed_rename_keeps_the_logs(files: Files, path: Seq<char>, fails: usize)
    requires
        1 <= fails < 4,
        files.contains_key(path),
    ensures
        ({
            let now = rotation_result(files, path, 0, Some(fails));
            &&& took_over(now, path, files, path)
            &&& files.contains_key(backup_of(path, 1)) ==> took_over(
                now,
                backup_of(path, 1),
                files,
                backup_of(path, 1),
            ) || took_over(now, backup_of(path, 2), files, backup_of(path, 1))
            &&& files.contains_key(backup_of(path, 2)) ==> took_over(
                now,
                backup_of(path, 2),
                files,
                backup_of(path, 2),
            ) || took_over(now, backup_of(path, 3), files, backup_of(path, 2))
            &&& forall|p: Seq<char>| unrelated(path, p) ==> #[trigger] took_over(now, p, files, p)
        }),
{
    lemma_backups_differ(path);
    reveal_with_fuel(rotation_result, 5);
}

/// Where the log file lies: a directory of the environment and a path below it.
pub open spec fn log_place(
    platform: Platform,
    local_app_data: Option<Seq<char>>,
    state_home: Option<Seq<char>>,
    home: Option<Seq<char>>,
    temp: Seq<char>,
) -> (Seq<char>, Seq<char>) {
    match platform {
        Platform::Windows => match local_app_data {
            Some(d) => (d, "pc-bridge"@),
            None => (temp, "pc-bridge"@),
        },
        Platform::Unix => match state_home {
            Some(d) => (d, "pc-bridge"@),
            None => match home {
                Some(d) => (d, ".local/state/pc-bridge"@),
                None => (temp, "pc-bridge"@),
            },
        },
    }
}

/// The characters of an optional text.
pub open spec fn opt_view(s: Option<&str>) -> Option<Seq<char>> {
    match s {
        Some(t) => Some(t@),
        None => None,
    }
}

/// Where the log file lies: a directory of the environment, and a path below it.
pub fn log_dir(
    platform: Platform,
    local_app_data: Option<&str>,
    state_home: Option<&str>,
    home: Option<&str>,
    temp: &str,
) -> (r: (String, &'static str))
    ensures
        (r.0@, r.1@) == log_place(
            platform,
            opt_view(local_app_data),
            opt_view(state_home),
            opt_view(home),
            temp@,
        ),
{
    match platform {
        Platform::Windows => match local_app_data {
            Some(d) => (d.to_string(), "pc-bridge"),
            None => (temp.to_string(), "pc-bridge"),
        },
        Platform::Unix => match state_home {
            Some(d) => (d.to_string(), "pc-bridge"),
            None => match home {
                Some(d) => (d.to_string(), ".local/state/pc-bridge"),
                None => (temp.to_string(), "pc-bridge"),
            },
        },
    }
}

/// A file is rotated exactly where a record would take it over its limit, which is five
/// megabytes for the log. Three older files are kept, named after it with the numbers one
/// to three.
pub proof fn law_limits_and_names(w: RotatingWriter, len: u64, path: Seq<char>)
    ensures
        MAX_LOG_BYTES == 5 * 1024 * 1024,
        MAX_BACKUPS == 3,
        w.max_bytes < u64::MAX ==> (w.over_limit(len) <==> w.written + len > w.max_bytes),
        w.written + len <= u64::MAX ==> w.after_writing(len).written == w.written + len,
        w.after_writing(len).max_bytes == w.max_bytes,
        w.after_rotation().written == 0,
        w.after_rotation().max_bytes == w.max_bytes,
        backup_of(path, 1) == path + ".1"@,
        backup_of(path, 2) == path + ".2"@,
        backup_of(path, 3) == path + ".3"@,
{
    reveal_strlit(".");
    reveal_strlit(".1");
    reveal_strlit(".2");
    reveal_strlit(".3");
    reveal_with_fuel(text::decimal, 2);
    assert(backup_of(path, 1) =~= path + ".1"@);
    assert(backup_of(path, 2) =~= path + ".2"@);
    assert(backup_of(path, 3) =~= path + ".3"@);
}

/// A rotation takes its four steps in turn and then begins a new active file; a rename that
/// failed ends it at once, and the active file goes on.
pub proof fn law_steps_of_a_rotation(done: usize)
    ensures
        done < 4 ==> rotation_after(done, false) == RotateNext::Step(done),
        done >= 4 ==> rotation_after(done, false) == RotateNext::Reopen(Reopen::Truncate),
        rotation_after(done, true) == RotateNext::Reopen(Reopen::Append),
{
}

/// The log lies below the local application data on Windows, and below the state directory
/// or the home directory elsewhere; where none of these is known it lies below the
/// temporary directory.
pub proof fn law_place_of_the_log(
    app_data: Option<Seq<char>>,
    state: Option<Seq<char>>,
    home: Option<Seq<char>>,
    temp: Seq<char>,
)
    ensures
        app_data matches Some(d) ==> log_place(Platform::Windows, app_data, state, home, temp) == (
            d,
            "pc-bridge"@,
        ),
        app_data is None ==> log_place(Platform::Windows, app_data, state, home, temp) == (
            temp,
            "pc-bridge"@,
        ),
        state matches Some(d) ==> log_place(Platform::Unix, app_data, state, home, temp) == (
            d,
            "pc-bridge"@,
        ),
        state is None ==> (home matches Some(d) ==> log_place(
            Platform::Unix,
            app_data,
            state,
            home,
            temp,
        ) == (d, ".local/state/pc-bridge"@)),
        state is None && home is None ==> log_place(Platform::Unix, app_data, state, home, temp)
            == (temp, "pc-bridge"@),
{
}

/// Opening the active log to write it anew empties it, opening it to write on keeps what it
/// holds, and either creates it where it is missing. No other file changes.
pub proof fn law_opening_the_log(files: Files, path: Seq<char>, other: Seq<char>)
    requires
        other != path,
    ensures
        after_reopen(files, path, Reopen::Truncate).contains_key(path),
        after_reopen(files, path, Reopen::Append).contains_key(path),
        after_reopen(files, path, Reopen::Truncate)[path] == Seq::<u8>::empty(),
        files.contains_key(path) ==> after_reopen(files, path, Reopen::Append)[path]
            == files[path],
        !files.contains_key(path) ==> after_reopen(files, path, Reopen::Append)[path] == Seq::<
            u8,
        >::empty(),
        after_reopen(files, path, Reopen::Truncate).contains_key(other) == files.contains_key(
            other,
        ),
        after_reopen(files, path, Reopen::Append).contains_key(other) == files.contains_key(other),
        files.contains_key(other) ==> after_reopen(files, path, Reopen::Truncate)[other]
            == files[other] && after_reopen(files, path, Reopen::Append)[other] == files[other],
{
}

} // verus!
