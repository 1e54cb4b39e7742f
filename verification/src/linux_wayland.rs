//! The active window and the display power on Wayland compositors that speak the
//! wlr protocols.

use crate::text;
use vstd::prelude::*;
use vstd::string::*;

verus! {

// ---------------------------------------------------------------------------
// Windows
// ---------------------------------------------------------------------------

/// A window: its id, its title and whether it is active.
#[derive(Debug, Clone)]
pub struct Toplevel {
    pub id: u64,
    pub title: String,
    pub activated: bool,
}

/// The title and the activity of each window.
pub type WindowsView = Map<u64, (Seq<char>, bool)>;

/// The windows of a session.
#[derive(Debug, Clone)]
pub struct ToplevelState {
    pub windows: Vec<Toplevel>,
}

/// The windows as a map from their ids.
pub open spec fn windows_of(w: Seq<Toplevel>) -> WindowsView
    decreases w.len(),
{
    if w.len() == 0 {
        Map::empty()
    } else {
        windows_of(w.drop_last()).insert(w.last().id, (w.last().title@, w.last().activated))
    }
}

/// No id occurs twice.
pub open spec fn distinct_ids(w: Seq<Toplevel>) -> bool {
    forall|i: int, j: int| 0 <= i < j < w.len() ==> (#[trigger] w[i]).id != (#[trigger] w[j]).id
}

proof fn lemma_windows_of(w: Seq<Toplevel>)
    requires
        distinct_ids(w),
    ensures
        forall|i: int|
            0 <= i < w.len() ==> windows_of(w).contains_key((#[trigger] w[i]).id) && windows_of(
                w,
            )[w[i].id] == (w[i].title@, w[i].activated),
        forall|id: u64|
            windows_of(w).contains_key(id) ==> exists|i: int|
                0 <= i < w.len() && (#[trigger] w[i]).id == id,
    decreases w.len(),
{
    if w.len() > 0 {
        let p = w.drop_last();
        assert(distinct_ids(p)) by {
            assert forall|i: int, j: int| 0 <= i < j < p.len() implies (#[trigger] p[i]).id != (
            #[trigger] p[j]).id by {
                assert(p[i] == w[i] && p[j] == w[j]);
            }
        }
        lemma_windows_of(p);
        assert forall|i: int| 0 <= i < w.len() implies windows_of(w).contains_key(
            (#[trigger] w[i]).id,
        ) && windows_of(w)[w[i].id] == (w[i].title@, w[i].activated) by {
            if i < p.len() {
                assert(p[i] == w[i]);
                assert(w[i].id != w[w.len() - 1].id);
            }
        }
        assert forall|id: u64| windows_of(w).contains_key(id) implies exists|i: int|
            0 <= i < w.len() && (#[trigger] w[i]).id == id by {
            if id == w.last().id {
                assert(w[w.len() - 1].id == id);
            } else {
                assert(windows_of(p).contains_key(id));
                let i = choose|i: int| 0 <= i < p.len() && (#[trigger] p[i]).id == id;
                assert(p[i] == w[i]);
            }
        }
    }
}

/// What is known of a window that was not mentioned yet.
pub open spec fn known(w: WindowsView, id: u64) -> (Seq<char>, bool) {
    if w.contains_key(id) {
        w[id]
    } else {
        (Seq::<char>::empty(), false)
    }
}

/// The numbers of a list of bytes, four bytes each, hold the number of an active
/// window. A rest of fewer than four bytes does not count.
pub open spec fn says_activated(state: Seq<u8>, little_endian: bool) -> bool {
    exists|k: int|
        0 <= k && 4 * k + 4 <= state.len() && #[trigger] is_activated_word(state, k, little_endian)
}

/// The `k`-th number is that of an active window.
pub open spec fn is_activated_word(state: Seq<u8>, k: int, little_endian: bool) -> bool {
    if little_endian {
        state[4 * k] == 2 && state[4 * k + 1] == 0 && state[4 * k + 2] == 0 && state[4 * k + 3] == 0
    } else {
        state[4 * k] == 0 && state[4 * k + 1] == 0 && state[4 * k + 2] == 0 && state[4 * k + 3] == 2
    }
}

/// Whether a state event says that the window is active. The numbers have the byte
/// order of the machine.
pub fn is_activated(state: &[u8], little_endian: bool) -> (r: bool)
    ensures
        r == says_activated(state@, little_endian),
{
    let mut i: usize = 0;
    let ghost mut k: int = 0;
    while state.len() - i >= 4
        invariant
            i == 4 * k,
            0 <= k,
            i <= state@.len(),
            forall|j: int| 0 <= j < k ==> !#[trigger] is_activated_word(state@, j, little_endian),
        decreases state@.len() - i,
    {
        let hit = if little_endian {
            state[i] == 2 && state[i + 1] == 0 && state[i + 2] == 0 && state[i + 3] == 0
        } else {
            state[i] == 0 && state[i + 1] == 0 && state[i + 2] == 0 && state[i + 3] == 2
        };
        if hit {
            proof {
                assert(is_activated_word(state@, k, little_endian));
            }
            return true;
        }
        i += 4;
        proof {
            k = k + 1;
        }
    }
    proof {
        if says_activated(state@, little_endian) {
            let j = choose|j: int|
                0 <= j && 4 * j + 4 <= state@.len() && #[trigger] is_activated_word(
                    state@,
                    j,
                    little_endian,
                );
            assert(j < k);
        }
    }
    false
}

impl ToplevelState {
    /// No id occurs twice.
    pub open spec fn wf(self) -> bool {
        distinct_ids(self.windows@)
    }

    /// No windows yet.
    pub fn new() -> (r: Self)
        ensures
            r.wf(),
            windows_of(r.windows@) == WindowsView::empty(),
    {
        ToplevelState { windows: Vec::new() }
    }

    fn index(&self, id: u64) -> (r: Option<usize>)
        ensures
            match r {
                Some(i) => i < self.windows@.len() && self.windows@[i as int].id == id,
                None => forall|i: int|
                    0 <= i < self.windows@.len() ==> (#[trigger] self.windows@[i]).id != id,
            },
    {
        let mut i: usize = 0;
        while i < self.windows.len()
            invariant
                i <= self.windows.len(),
                forall|k: int| 0 <= k < i ==> (#[trigger] self.windows@[k]).id != id,
            decreases self.windows.len() - i,
        {
            if self.windows[i].id == id {
                return Some(i);
            }
            i += 1;
        }
        None
    }

    fn put(&mut self, id: u64, title: String, activated: bool)
        requires
            old(self).wf(),
        ensures
            final(self).wf(),
            windows_of(final(self).windows@) == windows_of(old(self).windows@).insert(
                id,
                (title@, activated),
            ),
    {
        let ghost before = self.windows@;
        proof {
            lemma_windows_of(before);
        }
        match self.index(id) {
            Some(i) => {
                let ghost entry = (title@, activated);
                self.windows.set(i, Toplevel { id, title, activated });
                proof {
                    let after = self.windows@;
                    assert(distinct_ids(after)) by {
                        assert forall|a: int, b: int| 0 <= a < b < after.len() implies (
                        #[trigger] after[a]).id != (#[trigger] after[b]).id by {
                            assert(after[a].id == before[a].id && after[b].id == before[b].id);
                        }
                    }
                    lemma_windows_of(after);
                    assert(windows_of(after) =~= windows_of(before).insert(id, entry)) by {
                        assert forall|x: u64| windows_of(after).contains_key(x)
                            == windows_of(before).insert(id, entry).contains_key(x) by {
                            if windows_of(after).contains_key(x) {
                                let j = choose|j: int|
                                    0 <= j < after.len() && (#[trigger] after[j]).id == x;
                                assert(before[j].id == x);
                            }
                            if windows_of(before).contains_key(x) {
                                let j = choose|j: int|
                                    0 <= j < before.len() && (#[trigger] before[j]).id == x;
                                assert(after[j].id == x);
                            }
                            assert(after[i as int].id == id);
                        }
                        assert forall|x: u64| windows_of(after).contains_key(x) implies windows_of(
                            after,
                        )[x] == windows_of(before).insert(id, entry)[x] by {
                            let j = choose|j: int|
                                0 <= j < after.len() && (#[trigger] after[j]).id == x;
                            if j != i {
                                assert(after[j] == before[j]);
                                assert(before[j].id != before[i as int].id);
                            }
                        }
                    }
                }
            },
            None => {
                self.windows.push(Toplevel { id, title, activated });
                proof {
                    let after = self.windows@;
                    assert(after.drop_last() =~= before);
                    assert(distinct_ids(after)) by {
                        assert forall|a: int, b: int| 0 <= a < b < after.len() implies (
                        #[trigger] after[a]).id != (#[trigger] after[b]).id by {
                            assert(after[a] == before[a]);
                            if b < before.len() {
                                assert(after[b] == before[b]);
                            }
                        }
                    }
                }
            },
        }
    }

    /// A window has a new title.
    pub fn on_title(&mut self, id: u64, title: &str)
        requires
            old(self).wf(),
        ensures
            final(self).wf(),
            windows_of(final(self).windows@) == windows_of(old(self).windows@).insert(
                id,
                (title@, known(windows_of(old(self).windows@), id).1),
            ),
    {
        proof {
            lemma_windows_of(self.windows@);
        }
        let activated = match self.index(id) {
            Some(i) => self.windows[i].activated,
            None => false,
        };
        self.put(id, title.to_string(), activated);
    }

    /// A window has a new state.
    pub fn on_state(&mut self, id: u64, state: &[u8], little_endian: bool)
        requires
            old(self).wf(),
        ensures
            final(self).wf(),
            windows_of(final(self).windows@) == windows_of(old(self).windows@).insert(
                id,
                (
                    known(windows_of(old(self).windows@), id).0,
                    says_activated(state@, little_endian),
                ),
            ),
    {
        proof {
            lemma_windows_of(self.windows@);
        }
        let title = match self.index(id) {
            Some(i) => self.windows[i].title.clone(),
            None => String::new(),
        };
        proof {
            assert(title@ =~= known(windows_of(self.windows@), id).0);
        }
        let activated = is_activated(state, little_endian);
        self.put(id, title, activated);
    }

    /// A window was closed.
    pub fn on_closed(&mut self, id: u64)
        requires
            old(self).wf(),
        ensures
            final(self).wf(),
            windows_of(final(self).windows@) == windows_of(old(self).windows@).remove(id),
    {
        let ghost before = self.windows@;
        proof {
            lemma_windows_of(before);
        }
        match self.index(id) {
            Some(i) => {
                self.windows.remove(i);
                proof {
                    let after = self.windows@;
                    assert(after =~= before.remove(i as int));
                    assert(distinct_ids(after)) by {
                        assert forall|a: int, b: int| 0 <= a < b < after.len() implies (
                        #[trigger] after[a]).id != (#[trigger] after[b]).id by {
                            let a0 = if a < i {
                                a
                            } else {
                                a + 1
                            };
                            let b0 = if b < i {
                                b
                            } else {
                                b + 1
                            };
                            assert(after[a] == before[a0] && after[b] == before[b0]);
                        }
                    }
                    lemma_windows_of(after);
                    assert(windows_of(after) =~= windows_of(before).remove(id)) by {
                        assert forall|x: u64| windows_of(after).contains_key(x)
                            == windows_of(before).remove(id).contains_key(x) by {
                            if windows_of(after).contains_key(x) {
                                let j = choose|j: int|
                                    0 <= j < after.len() && (#[trigger] after[j]).id == x;
                                let j0 = if j < i {
                                    j
                                } else {
                                    j + 1
                                };
                                assert(after[j] == before[j0]);
                                assert(before[j0].id == x && j0 != i);
                                assert(before[j0].id != before[i as int].id);
                            }
                            if windows_of(before).remove(id).contains_key(x) {
                                let j = choose|j: int|
                                    0 <= j < before.len() && (#[trigger] before[j]).id == x;
                                let j1 = if j < i {
                                    j
                                } else {
                                    j - 1
                                };
                                assert(after[j1] == before[j]);
                                assert(after[j1].id == x);
                            }
                        }
                        assert forall|x: u64| windows_of(after).contains_key(x) implies windows_of(
                            after,
                        )[x] == windows_of(before).remove(id)[x] by {
                            let j = choose|j: int|
                                0 <= j < after.len() && (#[trigger] after[j]).id == x;
                            let j0 = if j < i {
                                j
                            } else {
                                j + 1
                            };
                            assert(after[j] == before[j0]);
                        }
                    }
                }
            },
            None => {
                proof {
                    assert(windows_of(before).remove(id) =~= windows_of(before));
                }
            },
        }
    }

    /// The title of the active window: of the first one that was mentioned, where
    /// several are active. An empty title is none.
    pub fn active_window_title(&self) -> (r: Option<String>)
        ensures
            text::opt(r) == first_active(self.windows@),
    {
        let mut i: usize = 0;
        proof {
            assert(self.windows@.skip(0) =~= self.windows@);
        }
        while i < self.windows.len()
            invariant
                i <= self.windows.len(),
                first_active(self.windows@) == first_active(self.windows@.skip(i as int)),
            decreases self.windows.len() - i,
        {
            proof {
                assert(self.windows@.skip(i as int)[0] == self.windows@[i as int]);
                assert(self.windows@.skip(i as int).skip(1) =~= self.windows@.skip(i + 1));
            }
            if self.windows[i].activated {
                if self.windows[i].title.as_str().is_empty() {
                    return None;
                }
                return Some(self.windows[i].title.clone());
            }
            i += 1;
        }
        None
    }
}

/// The title of the first active window, unless it is empty.
pub open spec fn first_active(w: Seq<Toplevel>) -> Option<Seq<char>>
    decreases w.len(),
{
    if w.len() == 0 {
        None
    } else if w[0].activated {
        if w[0].title@.len() == 0 {
            None
        } else {
            Some(w[0].title@)
        }
    } else {
        first_active(w.skip(1))
    }
}

/// The compositor tells the titles of its windows: it could be reached, it offers the
/// protocol, and it answered.
pub fn has_foreign_toplevel(reached: bool, offers_protocol: bool, answered: bool) -> (r: bool)
    ensures
        r == (reached && offers_protocol && answered),
{
    reached && offers_protocol && answered
}

// ---------------------------------------------------------------------------
// Display power
// ---------------------------------------------------------------------------

/// The compositor lets the display power be controlled: it could be reached, it
/// offers the protocol, and it told the state of the outputs.
pub fn has_output_power(reached: bool, offers_protocol: bool, answered: bool) -> (r: bool)
    ensures
        r == (reached && offers_protocol && answered),
{
    reached && offers_protocol && answered
}

/// Whether the display is on: when any output is. `modes` holds whether each output
/// is on, where the display power can be controlled at all. Without outputs there
/// is no answer.
pub fn dpms_on(modes: Option<&Vec<bool>>) -> (r: Option<bool>)
    ensures
        r == (match modes {
            None => None,
            Some(m) => if m@.len() == 0 {
                None
            } else {
                Some(m@.contains(true))
            },
        }),
{
    match modes {
        None => None,
        Some(m) => {
            if m.len() == 0 {
                None
            } else {
                Some(any_on(m))
            }
        },
    }
}

fn any_on(m: &Vec<bool>) -> (r: bool)
    ensures
        r == m@.contains(true),
{
    let mut i: usize = 0;
    while i < m.len()
        invariant
            i <= m.len(),
            forall|k: int| 0 <= k < i ==> !m@[k],
        decreases m.len() - i,
    {
        if m[i] {
            proof {
                assert(m@[i as int] == true);
            }
            return true;
        }
        i += 1;
    }
    false
}

/// Whether setting the power of all outputs did anything: not without outputs.
pub fn set_dpms(outputs: Option<usize>) -> (r: bool)
    ensures
        r == (outputs matches Some(n) && n > 0),
{
    match outputs {
        Some(n) => n > 0,
        None => false,
    }
}

// ---------------------------------------------------------------------------
// Laws
// ---------------------------------------------------------------------------

/// The active window is the first that is active: its title is the answer, unless it is
/// empty. Without an active window there is none.
pub proof fn law_the_first_active_window_counts(w: Seq<Toplevel>, k: int)
    requires
        0 <= k <= w.len(),
        forall|i: int| 0 <= i < k ==> !(#[trigger] w[i]).activated,
        k < w.len() ==> w[k].activated,
    ensures
        k == w.len() ==> first_active(w) is None,
        k < w.len() && w[k].title@.len() > 0 ==> first_active(w) == Some(w[k].title@),
        k < w.len() && w[k].title@.len() == 0 ==> first_active(w) is None,
    decreases k,
{
    if k > 0 {
        let rest = w.skip(1);
        assert(!w[0].activated);
        assert forall|i: int| 0 <= i < k - 1 implies !(#[trigger] rest[i]).activated by {
            assert(rest[i] == w[i + 1]);
        }
        if k < w.len() {
            assert(rest[k - 1] == w[k]);
        }
        law_the_first_active_window_counts(rest, k - 1);
    }
}

/// The windows are known by their ids, each with its title and whether it is active.
pub proof fn law_windows_by_id(w: Seq<Toplevel>, id: u64)
    requires
        distinct_ids(w),
    ensures
        windows_of(w).contains_key(id) <==> exists|i: int|
            0 <= i < w.len() && (#[trigger] w[i]).id == id,
        forall|i: int|
            0 <= i < w.len() && (#[trigger] w[i]).id == id ==> windows_of(w)[id].0 == w[i].title@
                && windows_of(w)[id].1 == w[i].activated,
        windows_of(w).contains_key(id) ==> known(windows_of(w), id) == windows_of(w)[id],
        !windows_of(w).contains_key(id) ==> known(windows_of(w), id).0.len() == 0 && !known(
            windows_of(w),
            id,
        ).1,
{
    lemma_windows_of(w);
}

/// A window is active exactly where one of the numbers of its state, four bytes each, is
/// two.
pub proof fn law_active_windows(state: Seq<u8>, k: int)
    ensures
        0 <= k && 4 * k + 4 <= state.len() && state[4 * k] == 2 && state[4 * k + 1] == 0 && state[4
            * k + 2] == 0 && state[4 * k + 3] == 0 ==> says_activated(state, true),
        0 <= k && 4 * k + 4 <= state.len() && state[4 * k] == 0 && state[4 * k + 1] == 0 && state[4
            * k + 2] == 0 && state[4 * k + 3] == 2 ==> says_activated(state, false),
        (forall|j: int|
            0 <= j && 4 * j + 4 <= state.len() ==> #[trigger] state[4 * j] != 2) ==> !says_activated(
            state,
            true,
        ),
        (forall|j: int|
            0 <= j && 4 * j + 4 <= state.len() ==> #[trigger] state[4 * j + 3] != 2)
            ==> !says_activated(state, false),
        state.len() < 4 ==> !says_activated(state, true) && !says_activated(state, false),
{
    if 0 <= k && 4 * k + 4 <= state.len() && state[4 * k] == 2 && state[4 * k + 1] == 0 && state[4
        * k + 2] == 0 && state[4 * k + 3] == 0 {
        assert(is_activated_word(state, k, true));
    }
    if 0 <= k && 4 * k + 4 <= state.len() && state[4 * k] == 0 && state[4 * k + 1] == 0 && state[4
        * k + 2] == 0 && state[4 * k + 3] == 2 {
        assert(is_activated_word(state, k, false));
    }
}

} // verus!
