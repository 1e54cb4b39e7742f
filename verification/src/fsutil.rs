//! Atomic writes: the steps in which a temporary file takes the place of the old
//! one, and the name of that temporary file.

use crate::text;
use crate::text::push_decimal;
use vstd::prelude::*;
use vstd::string::*;

verus! {

/// The extension of the `n`-th temporary file of a process.
pub open spec fn temp_extension_of(pid: nat, n: nat) -> Seq<char> {
    "tmp."@ + text::decimal(pid) + "."@ + text::decimal(n)
}

/// The extension of the `n`-th temporary file of a process. One that exists
/// already is passed over by taking the next number.
pub fn temp_extension(pid: u32, n: u64) -> (r: String)
    ensures
        r@ == temp_extension_of(pid as nat, n as nat),
{
    let mut s = "tmp.".to_string();
    push_decimal(&mut s, pid as u64);
    s.append(".");
    push_decimal(&mut s, n);
    s
}

proof fn lemma_decimal_value(n: nat)
    ensures
        text::digits_value(text::decimal(n)) == n,
        text::decimal(n).len() > 0,
        text::all_digits(text::decimal(n)),
    decreases n,
{
    let d = text::decimal(n);
    if n >= 10 {
        lemma_decimal_value(n / 10);
        assert(d.drop_last() =~= text::decimal(n / 10));
        assert(d.last() == text::digit_char(n % 10));
        assert forall|i: int| 0 <= i < d.len() implies text::is_digit(#[trigger] d[i]) by {
            if i < d.len() - 1 {
                assert(d[i] == text::decimal(n / 10)[i]);
                assert(text::is_digit(text::decimal(n / 10)[i]));
            }
        }
    } else {
        assert(d =~= seq![text::digit_char(n)]);
        assert(d.drop_last() =~= Seq::<char>::empty());
        assert(text::digits_value(d.drop_last()) == 0);
    }
}

/// No two temporary files of a process have the same name, so that writers do not
/// share one.
pub proof fn law_temp_names_differ(pid: nat, m: nat, n: nat)
    requires
        m != n,
    ensures
        temp_extension_of(pid, m) != temp_extension_of(pid, n),
{
    lemma_decimal_value(m);
    lemma_decimal_value(n);
    let head = "tmp."@ + text::decimal(pid) + "."@;
    let k = head.len() as int;
    let a = temp_extension_of(pid, m);
    let b = temp_extension_of(pid, n);
    if a == b {
        assert(a.skip(k) =~= text::decimal(m));
        assert(b.skip(k) =~= text::decimal(n));
    }
}

// ---------------------------------------------------------------------------
// Steps
// ---------------------------------------------------------------------------

/// A step of an atomic write.
#[derive(Debug, Clone, Copy, PartialEq, Eq, Structural)]
pub enum Stage {
    /// Create the temporary file, which must not exist yet, under the next number.
    Create,
    /// Write all bytes to the temporary file.
    Write,
    /// Wait until they are on the disk.
    Sync,
    /// Let the temporary file take the place of the old one.
    Rename,
    /// Wait until the directory knows of it.
    SyncDirectory,
    /// Remove the temporary file.
    RemoveTemp,
}

/// How a step ended.
#[derive(Debug, Clone, Copy, PartialEq, Eq, Structural)]
pub enum Outcome {
    Done,
    /// There is a file of that name already.
    Exists,
    Failed,
}

/// What follows a step.
#[derive(Debug, Clone, Copy, PartialEq, Eq, Structural)]
pub enum Next {
    Step(Stage),
    /// The file is written.
    Written,
    /// The file is not written. The error is that of the last step that was not a
    /// removal.
    GiveUp,
}

/// What follows a step. A temporary name that is taken is passed over, an error
/// ends the write, and a file that cannot be put in place is removed. Waiting for
/// the directory is tried only where there is one to wait for, and may fail.
pub open spec fn next(stage: Stage, outcome: Outcome, sync_directory: bool) -> Next {
    match (stage, outcome) {
        (Stage::Create, Outcome::Done) => Next::Step(Stage::Write),
        (Stage::Create, Outcome::Exists) => Next::Step(Stage::Create),
        (Stage::Write, Outcome::Done) => Next::Step(Stage::Sync),
        (Stage::Sync, Outcome::Done) => Next::Step(Stage::Rename),
        (Stage::Rename, Outcome::Done) => if sync_directory {
            Next::Step(Stage::SyncDirectory)
        } else {
            Next::Written
        },
        (Stage::Rename, _) => Next::Step(Stage::RemoveTemp),
        (Stage::SyncDirectory, _) => Next::Written,
        _ => Next::GiveUp,
    }
}

/// What follows a step of an atomic write, which begins with `Create`.
/// `sync_directory` says whether the directory can be waited for.
pub fn write_atomic(stage: Stage, outcome: Outcome, sync_directory: bool) -> (r: Next)
    ensures
        r == next(stage, outcome, sync_directory),
{
    match stage {
        Stage::Create => match outcome {
            Outcome::Done => Next::Step(Stage::Write),
            Outcome::Exists => Next::Step(Stage::Create),
            Outcome::Failed => Next::GiveUp,
        },
        Stage::Write => match outcome {
            Outcome::Done => Next::Step(Stage::Sync),
            _ => Next::GiveUp,
        },
        Stage::Sync => match outcome {
            Outcome::Done => Next::Step(Stage::Rename),
            _ => Next::GiveUp,
        },
        Stage::Rename => match outcome {
            Outcome::Done => if sync_directory {
                Next::Step(Stage::SyncDirectory)
            } else {
                Next::Written
            },
            _ => Next::Step(Stage::RemoveTemp),
        },
        Stage::SyncDirectory => Next::Written,
        Stage::RemoveTemp => Next::GiveUp,
    }
}

// ---------------------------------------------------------------------------
// Files
// ---------------------------------------------------------------------------

/// The files of a disk, by their names.
pub type Files = Map<Seq<char>, Seq<u8>>;

/// Where a writer stands.
pub enum Phase {
    /// This step is due.
    Due(Stage),
    /// It says that the file is written.
    Written,
    /// It says that the file is not written.
    GaveUp,
    /// It stopped in the middle of a step, as in a crash.
    Stopped,
}

/// A writer: what it writes, the temporary file that it last tried, where it stands,
/// and whether it has put its file in place.
pub ghost struct Writer {
    pub bytes: Seq<u8>,
    pub temp: Seq<char>,
    pub phase: Phase,
    pub renamed: bool,
}

/// The files, and those who write to one path at the same time, in this or in other
/// processes.
pub ghost struct Disk {
    pub files: Files,
    pub writers: Seq<Writer>,
}

/// What a writer does next: who, how its step ends (not at all where the writer stops
/// in the middle of it), and the temporary name that it tries where it creates one.
pub ghost struct Move {
    pub who: int,
    pub outcome: Option<Outcome>,
    pub name: Seq<char>,
}

/// Where a writer stands after a step.
pub open spec fn phase_after(stage: Stage, outcome: Option<Outcome>, sync_directory: bool) -> Phase {
    match outcome {
        None => Phase::Stopped,
        Some(o) => match next(stage, o, sync_directory) {
            Next::Step(s) => Phase::Due(s),
            Next::Written => Phase::Written,
            Next::GiveUp => Phase::GaveUp,
        },
    }
}

/// What a step may make of the files. A file is created only where none has the name;
/// a write that is not done may have got anywhere; a renaming has happened or has not,
/// and has not where it says that it failed.
pub open spec fn effect(
    before: Files,
    after: Files,
    stage: Stage,
    outcome: Option<Outcome>,
    temp: Seq<char>,
    path: Seq<char>,
    bytes: Seq<u8>,
) -> bool {
    let done = outcome == Some(Outcome::Done);
    match stage {
        Stage::Create => {
            ||| !done && after == before
            ||| (done || outcome is None) && !before.dom().contains(temp) && after
                == before.insert(temp, Seq::<u8>::empty())
        },
        Stage::Write => exists|n: int|
            0 <= n <= bytes.len() && (done ==> n == bytes.len()) && after == before.insert(
                temp,
                #[trigger] bytes.take(n),
            ),
        Stage::Sync | Stage::SyncDirectory => after == before,
        Stage::Rename => {
            ||| !done && after == before
            ||| (done || outcome is None) && after == before.remove(temp).insert(path, before[temp])
        },
        Stage::RemoveTemp => after == before || after == before.remove(temp),
    }
}

/// A writer takes the step that is due for it. No temporary file has the name of the
/// file itself.
pub open spec fn moves(
    s: Disk,
    t: Disk,
    m: Move,
    path: Seq<char>,
    sync_directory: bool,
) -> bool {
    let w = s.writers[m.who];
    &&& 0 <= m.who < s.writers.len()
    &&& m.name != path
    &&& w.phase matches Phase::Due(stage) && {
        let temp = if stage == Stage::Create {
            m.name
        } else {
            w.temp
        };
        &&& effect(s.files, t.files, stage, m.outcome, temp, path, w.bytes)
        &&& t.writers == s.writers.update(
            m.who,
            Writer {
                bytes: w.bytes,
                temp,
                phase: phase_after(stage, m.outcome, sync_directory),
                renamed: w.renamed || (stage == Stage::Rename && m.outcome == Some(Outcome::Done)),
            },
        )
    }
}

/// Before anyone has begun.
pub open spec fn at_start(s: Disk, found: Files) -> bool {
    &&& s.files == found
    &&& forall|i: int|
        0 <= i < s.writers.len() ==> (#[trigger] s.writers[i]).phase == Phase::Due(Stage::Create)
            && !s.writers[i].renamed
}

/// The move with the index `k` leads from one state to the next.
pub open spec fn is_move(
    disks: Seq<Disk>,
    ms: Seq<Move>,
    k: int,
    path: Seq<char>,
    sync_directory: bool,
) -> bool {
    moves(disks[k], disks[k + 1], ms[k], path, sync_directory)
}

/// The writers, each at its own pace, from the start on: every state, and the move that
/// follows it.
pub open spec fn is_run(
    disks: Seq<Disk>,
    ms: Seq<Move>,
    found: Files,
    path: Seq<char>,
    sync_directory: bool,
) -> bool {
    &&& disks.len() == ms.len() + 1
    &&& at_start(disks[0], found)
    &&& forall|k: int| 0 <= k < ms.len() ==> #[trigger] is_move(disks, ms, k, path, sync_directory)
}

/// The file at a path is what it was.
pub open spec fn untouched(files: Files, found: Files, path: Seq<char>) -> bool {
    files.dom().contains(path) == found.dom().contains(path) && (found.dom().contains(path)
        ==> files[path] == found[path])
}

/// The file at a path is the whole new one.
pub open spec fn replaced(files: Files, path: Seq<char>, bytes: Seq<u8>) -> bool {
    files.dom().contains(path) && files[path] == bytes
}

/// The file at a path is the whole one of a certain writer.
pub open spec fn replaced_by(s: Disk, path: Seq<char>, i: int) -> bool {
    0 <= i < s.writers.len() && replaced(s.files, path, s.writers[i].bytes)
}

/// The writer has a temporary file.
spec fn owns(w: Writer) -> bool {
    w.phase == Phase::Due(Stage::Write) || w.phase == Phase::Due(Stage::Sync) || w.phase
        == Phase::Due(Stage::Rename) || w.phase == Phase::Due(Stage::RemoveTemp)
}

/// The temporary file of the writer is complete.
spec fn complete(w: Writer) -> bool {
    w.phase == Phase::Due(Stage::Sync) || w.phase == Phase::Due(Stage::Rename)
}

/// What holds of one writer at any time.
spec fn writer_ok(s: Disk, i: int, path: Seq<char>) -> bool {
    let w = s.writers[i];
    &&& owns(w) ==> s.files.dom().contains(w.temp) && w.temp != path
    &&& complete(w) ==> s.files[w.temp] == w.bytes
    &&& w.renamed ==> w.phase == Phase::Due(Stage::SyncDirectory) || w.phase is Written || w.phase
        is Stopped
    &&& w.phase == Phase::Due(Stage::SyncDirectory) || w.phase is Written ==> w.renamed
}

/// What holds of all writers at any time.
spec fn disk_ok(s: Disk, path: Seq<char>) -> bool {
    &&& forall|i: int| 0 <= i < s.writers.len() ==> #[trigger] writer_ok(s, i, path)
    &&& forall|i: int, j: int|
        0 <= i < s.writers.len() && 0 <= j < s.writers.len() && i != j && owns(
            #[trigger] s.writers[i],
        ) && owns(#[trigger] s.writers[j]) ==> s.writers[i].temp != s.writers[j].temp
}

/// A move keeps what holds of the writers, and changes the file only by putting the
/// whole file of the mover in its place.
proof fn lemma_move(s: Disk, t: Disk, m: Move, path: Seq<char>, sync_directory: bool)
    requires
        disk_ok(s, path),
        moves(s, t, m, path, sync_directory),
    ensures
        disk_ok(t, path),
        untouched(t.files, s.files, path) || ((s.writers[m.who].phase == Phase::Due(Stage::Rename))
            && (m.outcome is None || m.outcome == Some(Outcome::Done)) && replaced(
            t.files,
            path,
            s.writers[m.who].bytes,
        )),
        s.writers[m.who].phase == Phase::Due(Stage::Rename) && m.outcome == Some(Outcome::Done)
            ==> replaced(t.files, path, s.writers[m.who].bytes),
{
    let i = m.who;
    let w = s.writers[i];
    let v = t.writers[i];
    let stage = w.phase->Due_0;
    assert(writer_ok(s, i, path));
    if stage == Stage::Write {
        assert(w.bytes.take(w.bytes.len() as int) =~= w.bytes);
    }
    assert(writer_ok(t, i, path));
    assert forall|j: int| 0 <= j < t.writers.len() implies #[trigger] writer_ok(t, j, path) by {
        assert(writer_ok(s, j, path));
        if j != i {
            let x = s.writers[j];
            assert(t.writers[j] == x);
            if owns(x) {
                if stage != Stage::Create && owns(w) {
                    assert(x.temp != w.temp);
                }
                assert(t.files.dom().contains(x.temp));
                assert(t.files[x.temp] == s.files[x.temp]);
            }
        }
    }
    assert forall|j: int, k: int|
        0 <= j < t.writers.len() && 0 <= k < t.writers.len() && j != k && owns(
            #[trigger] t.writers[j],
        ) && owns(#[trigger] t.writers[k]) implies t.writers[j].temp != t.writers[k].temp by {
        assert(writer_ok(s, j, path));
        assert(writer_ok(s, k, path));
        if j != i {
            assert(t.writers[j] == s.writers[j]);
        }
        if k != i {
            assert(t.writers[k] == s.writers[k]);
        }
    }
}

proof fn lemma_run(
    disks: Seq<Disk>,
    ms: Seq<Move>,
    found: Files,
    path: Seq<char>,
    sync_directory: bool,
    k: int,
)
    requires
        is_run(disks, ms, found, path, sync_directory),
        0 <= k < disks.len(),
    ensures
        disk_ok(disks[k], path),
        disks[k].writers.len() == disks[0].writers.len(),
        forall|i: int|
            0 <= i < disks[k].writers.len() ==> (#[trigger] disks[k].writers[i]).bytes
                == disks[0].writers[i].bytes,
        untouched(disks[k].files, found, path) || exists|i: int| replaced_by(disks[k], path, i),
    decreases k,
{
    if k == 0 {
        assert forall|i: int| 0 <= i < disks[0].writers.len() implies #[trigger] writer_ok(
            disks[0],
            i,
            path,
        ) by {
            assert(disks[0].writers[i].phase == Phase::Due(Stage::Create));
        }
    } else {
        lemma_run(disks, ms, found, path, sync_directory, k - 1);
        let s = disks[k - 1];
        let t = disks[k];
        let m = ms[k - 1];
        assert(is_move(disks, ms, k - 1, path, sync_directory));
        assert(moves(s, t, m, path, sync_directory));
        lemma_move(s, t, m, path, sync_directory);
        assert forall|i: int| 0 <= i < t.writers.len() implies (#[trigger] t.writers[i]).bytes
            == disks[0].writers[i].bytes by {
            assert(s.writers[i].bytes == disks[0].writers[i].bytes);
        }
        if !untouched(t.files, s.files, path) {
            assert(replaced_by(t, path, m.who));
        } else if !untouched(s.files, found, path) {
            let i = choose|i: int| replaced_by(s, path, i);
            assert(s.writers[i].bytes == disks[0].writers[i].bytes);
            assert(t.writers[i].bytes == disks[0].writers[i].bytes);
            assert(replaced_by(t, path, i));
        }
    }
}

/// However many write to a path at the same time, and wherever each of them stops, the
/// file is at every moment the old one or the whole one of one writer, never a part of
/// it and never a mixture.
pub proof fn law_no_file_is_torn(
    disks: Seq<Disk>,
    ms: Seq<Move>,
    found: Files,
    path: Seq<char>,
    sync_directory: bool,
    k: int,
)
    requires
        is_run(disks, ms, found, path, sync_directory),
        0 <= k < disks.len(),
    ensures
        untouched(disks[k].files, found, path) || exists|i: int| replaced_by(disks[k], path, i),
{
    lemma_run(disks, ms, found, path, sync_directory, k);
}

/// The move with the index `k` is that of a certain writer, and puts its whole file in
/// place.
pub open spec fn puts_in_place(
    disks: Seq<Disk>,
    ms: Seq<Move>,
    path: Seq<char>,
    who: int,
    k: int,
) -> bool {
    0 <= k < ms.len() && ms[k].who == who && replaced(
        disks[k + 1].files,
        path,
        disks[k].writers[who].bytes,
    )
}

proof fn lemma_renamed(
    disks: Seq<Disk>,
    ms: Seq<Move>,
    found: Files,
    path: Seq<char>,
    sync_directory: bool,
    who: int,
    end: int,
)
    requires
        is_run(disks, ms, found, path, sync_directory),
        0 <= end < disks.len(),
        0 <= who < disks[end].writers.len(),
        disks[end].writers[who].renamed,
    ensures
        exists|k: int| k < end && puts_in_place(disks, ms, path, who, k),
    decreases end,
{
    lemma_run(disks, ms, found, path, sync_directory, end);
    if end > 0 {
        lemma_run(disks, ms, found, path, sync_directory, end - 1);
        let s = disks[end - 1];
        let m = ms[end - 1];
        assert(is_move(disks, ms, end - 1, path, sync_directory));
        assert(moves(s, disks[end], m, path, sync_directory));
        if s.writers[who].renamed {
            lemma_renamed(disks, ms, found, path, sync_directory, who, end - 1);
        } else {
            lemma_move(s, disks[end], m, path, sync_directory);
            assert(m.who == who);
            assert(puts_in_place(disks, ms, path, who, end - 1));
        }
    }
}

/// A writer that says that the file is written has put exactly its bytes in place.
pub proof fn law_written_means_replaced(
    disks: Seq<Disk>,
    ms: Seq<Move>,
    found: Files,
    path: Seq<char>,
    sync_directory: bool,
    who: int,
    end: int,
)
    requires
        is_run(disks, ms, found, path, sync_directory),
        0 <= end < disks.len(),
        0 <= who < disks[end].writers.len(),
        disks[end].writers[who].phase is Written,
    ensures
        exists|k: int| k < end && puts_in_place(disks, ms, path, who, k),
{
    lemma_run(disks, ms, found, path, sync_directory, end);
    assert(writer_ok(disks[end], who, path));
    lemma_renamed(disks, ms, found, path, sync_directory, who, end);
}

/// What a writer has done, or that it has stopped, stays so.
proof fn lemma_stays(
    disks: Seq<Disk>,
    ms: Seq<Move>,
    found: Files,
    path: Seq<char>,
    sync_directory: bool,
    who: int,
    from: int,
    to: int,
)
    requires
        is_run(disks, ms, found, path, sync_directory),
        0 <= from <= to < disks.len(),
        0 <= who < disks[from].writers.len(),
    ensures
        who < disks[to].writers.len(),
        disks[from].writers[who].renamed ==> disks[to].writers[who].renamed,
        disks[from].writers[who].phase is Stopped ==> disks[to].writers[who].phase is Stopped,
    decreases to - from,
{
    if from < to {
        lemma_stays(disks, ms, found, path, sync_directory, who, from, to - 1);
        assert(is_move(disks, ms, to - 1, path, sync_directory));
    }
}

/// A writer that says that the file is not written has left it as it was: none of its
/// steps changed it.
pub proof fn law_failed_write_leaves_the_file(
    disks: Seq<Disk>,
    ms: Seq<Move>,
    found: Files,
    path: Seq<char>,
    sync_directory: bool,
    who: int,
    end: int,
    k: int,
)
    requires
        is_run(disks, ms, found, path, sync_directory),
        0 <= end < disks.len(),
        0 <= who < disks[end].writers.len(),
        disks[end].writers[who].phase is GaveUp,
        0 <= k < end,
        ms[k].who == who,
    ensures
        untouched(disks[k + 1].files, disks[k].files, path),
{
    lemma_run(disks, ms, found, path, sync_directory, k);
    lemma_run(disks, ms, found, path, sync_directory, end);
    assert(is_move(disks, ms, k, path, sync_directory));
    assert(moves(disks[k], disks[k + 1], ms[k], path, sync_directory));
    lemma_move(disks[k], disks[k + 1], ms[k], path, sync_directory);
    lemma_stays(disks, ms, found, path, sync_directory, who, k + 1, end);
    assert(writer_ok(disks[end], who, path));
}

/// The steps of a write in their order, what passes over a name that is taken, what ends the
/// write without a file, and what is done where the new file cannot be put in place.
pub proof fn law_steps_of_a_write(sync_directory: bool, o: Outcome)
    ensures
        next(Stage::Create, Outcome::Done, sync_directory) == Next::Step(Stage::Write),
        next(Stage::Create, Outcome::Exists, sync_directory) == Next::Step(Stage::Create),
        next(Stage::Create, Outcome::Failed, sync_directory) == Next::GiveUp,
        next(Stage::Write, Outcome::Done, sync_directory) == Next::Step(Stage::Sync),
        next(Stage::Sync, Outcome::Done, sync_directory) == Next::Step(Stage::Rename),
        next(Stage::Rename, Outcome::Done, true) == Next::Step(Stage::SyncDirectory),
        next(Stage::Rename, Outcome::Done, false) == Next::Written,
        next(Stage::SyncDirectory, o, sync_directory) == Next::Written,
        next(Stage::RemoveTemp, o, sync_directory) == Next::GiveUp,
        o != Outcome::Done ==> next(Stage::Write, o, sync_directory) == Next::GiveUp && next(
            Stage::Sync,
            o,
            sync_directory,
        ) == Next::GiveUp && next(Stage::Rename, o, sync_directory) == Next::Step(
            Stage::RemoveTemp,
        ),
{
}

/// What a temporary file is called: the process and the number of the file stand in its
/// extension.
pub proof fn law_temp_names(pid: nat, n: nat)
    ensures
        temp_extension_of(pid, n) == "tmp."@ + text::decimal(pid) + "."@ + text::decimal(n),
{
}

} // verus!
