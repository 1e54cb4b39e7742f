//! Modules: external programs that the agent runs, supervises and stops.
//!
//! A module that needs administrator rights is started only where the
//! configuration allows it and the agent itself is elevated; it never gains
//! rights by being started.

use crate::config::{Config, ModuleDef, RestartPolicy};
use crate::json;
use crate::json::{quote, write_object, Member};
use crate::text;
use crate::text::{clone_opt, clone_strings, from_utf8_lossy};
use vstd::prelude::*;
use vstd::string::*;

verus! {

// ---------------------------------------------------------------------------
// States
// ---------------------------------------------------------------------------

/// The state of a module as Home Assistant sees it.
#[derive(Debug, Clone, Copy, PartialEq, Eq, Structural)]
pub enum ModuleState {
    Running,
    Stopped,
    /// Rights that it needs are missing.
    Blocked,
    Failed,
}

/// The text of a state.
pub open spec fn state_text(s: ModuleState) -> Seq<char> {
    match s {
        ModuleState::Running => "running"@,
        ModuleState::Stopped => "stopped"@,
        ModuleState::Blocked => "blocked"@,
        ModuleState::Failed => "failed"@,
    }
}

impl ModuleState {
    /// The text that is published.
    pub fn as_str(self) -> (r: &'static str)
        ensures
            r@ == state_text(self),
    {
        match self {
            ModuleState::Running => "running",
            ModuleState::Stopped => "stopped",
            ModuleState::Blocked => "blocked",
            ModuleState::Failed => "failed",
        }
    }
}

// ---------------------------------------------------------------------------
// Definitions
// ---------------------------------------------------------------------------

/// A definition as plain values.
#[verifier::ext_equal]
pub struct DefView {
    pub name: Seq<char>,
    pub command: Seq<char>,
    pub args: Seq<Seq<char>>,
    pub working_dir: Option<Seq<char>>,
    pub restart: RestartPolicy,
    pub admin: bool,
}

/// The values of a definition.
pub open spec fn def_view(d: ModuleDef) -> DefView {
    DefView {
        name: d.name@,
        command: d.command@,
        args: text::views(d.args@),
        working_dir: text::opt(d.working_dir),
        restart: d.restart,
        admin: d.admin,
    }
}

/// The values of definitions.
pub open spec fn defs_view(ds: Seq<ModuleDef>) -> Seq<DefView> {
    ds.map_values(|d: ModuleDef| def_view(d))
}

/// The first definition with the name.
pub open spec fn find_def(defs: Seq<DefView>, name: Seq<char>) -> Option<DefView>
    decreases defs.len(),
{
    if defs.len() == 0 {
        None
    } else if defs[0].name == name {
        Some(defs[0])
    } else {
        find_def(defs.skip(1), name)
    }
}

proof fn lemma_find_def(defs: Seq<DefView>, name: Seq<char>)
    ensures
        match find_def(defs, name) {
            Some(d) => d.name == name && defs.contains(d),
            None => forall|i: int| 0 <= i < defs.len() ==> (#[trigger] defs[i]).name != name,
        },
    decreases defs.len(),
{
    if defs.len() > 0 && defs[0].name != name {
        lemma_find_def(defs.skip(1), name);
        let rest = defs.skip(1);
        match find_def(rest, name) {
            Some(d) => {
                let k = choose|k: int| 0 <= k < rest.len() && rest[k] == d;
                assert(defs[k + 1] == d);
            },
            None => {
                assert forall|i: int| 0 <= i < defs.len() implies (#[trigger] defs[i]).name != name by {
                    if i > 0 {
                        assert(rest[i - 1] == defs[i]);
                    }
                }
            },
        }
    } else if defs.len() > 0 {
        assert(defs[0] == find_def(defs, name)->0);
    }
}

/// Some definition has the name.
pub open spec fn defines(defs: Seq<DefView>, name: Seq<char>) -> bool {
    find_def(defs, name) is Some
}

fn index_of_def(defs: &[ModuleDef], name: &str) -> (r: Option<usize>)
    ensures
        match r {
            Some(i) => i < defs@.len() && find_def(defs_view(defs@), name@) == Some(
                def_view(defs@[i as int]),
            ),
            None => find_def(defs_view(defs@), name@) is None,
        },
{
    let ghost all = defs_view(defs@);
    let mut i: usize = 0;
    proof {
        assert(all.skip(0) =~= all);
    }
    while i < defs.len()
        invariant
            i <= defs@.len(),
            all == defs_view(defs@),
            find_def(all, name@) == find_def(all.skip(i as int), name@),
        decreases defs@.len() - i,
    {
        proof {
            assert(all.skip(i as int)[0] == def_view(defs@[i as int]));
            assert(all.skip(i as int).skip(1) =~= all.skip(i + 1));
        }
        if defs[i].name.as_str().eq(name) {
            return Some(i);
        }
        i += 1;
    }
    None
}

fn same_texts(a: &Vec<String>, b: &Vec<String>) -> (r: bool)
    ensures
        r == (text::views(a@) == text::views(b@)),
{
    if a.len() != b.len() {
        proof {
            assert(text::views(a@).len() != text::views(b@).len());
        }
        return false;
    }
    let mut i: usize = 0;
    while i < a.len()
        invariant
            i <= a.len(),
            a.len() == b.len(),
            forall|k: int| 0 <= k < i ==> text::views(a@)[k] == text::views(b@)[k],
        decreases a.len() - i,
    {
        if !a[i].as_str().eq(b[i].as_str()) {
            proof {
                assert(text::views(a@)[i as int] != text::views(b@)[i as int]);
            }
            return false;
        }
        i += 1;
    }
    proof {
        assert(text::views(a@) =~= text::views(b@));
    }
    true
}

fn same_def(a: &ModuleDef, b: &ModuleDef) -> (r: bool)
    ensures
        r == (def_view(*a) == def_view(*b)),
{
    let same_dir = match (&a.working_dir, &b.working_dir) {
        (Some(x), Some(y)) => x.as_str().eq(y.as_str()),
        (None, None) => true,
        _ => false,
    };
    a.name.as_str().eq(b.name.as_str()) && a.command.as_str().eq(b.command.as_str()) && same_texts(
        &a.args,
        &b.args,
    ) && same_dir && a.restart == b.restart && a.admin == b.admin
}

fn copy_def(d: &ModuleDef) -> (r: ModuleDef)
    ensures
        def_view(r) == def_view(*d),
{
    ModuleDef {
        name: d.name.clone(),
        command: d.command.clone(),
        args: clone_strings(&d.args),
        working_dir: clone_opt(&d.working_dir),
        restart: d.restart,
        admin: d.admin,
    }
}

fn copy_defs(ds: &[ModuleDef]) -> (r: Vec<ModuleDef>)
    ensures
        defs_view(r@) == defs_view(ds@),
{
    let mut out: Vec<ModuleDef> = Vec::new();
    let mut i: usize = 0;
    while i < ds.len()
        invariant
            i <= ds@.len(),
            out@.len() == i,
            forall|k: int| 0 <= k < i ==> def_view(#[trigger] out@[k]) == def_view(ds@[k]),
        decreases ds@.len() - i,
    {
        out.push(copy_def(&ds[i]));
        i += 1;
    }
    proof {
        assert(defs_view(out@) =~= defs_view(ds@));
    }
    out
}

// ---------------------------------------------------------------------------
// Gates
// ---------------------------------------------------------------------------

/// Why a module may not start now.
pub open spec fn block(admin: bool, privileges_allowed: bool, elevated: bool) -> Option<Seq<char>> {
    if admin && !privileges_allowed {
        Some("admin=true but custom_command_privileges_allowed=false"@)
    } else if admin && !elevated {
        Some("admin=true but pc-bridge is not running elevated"@)
    } else {
        None
    }
}

/// Why a module may not start now, if it may not. `elevated` says whether the
/// agent runs with administrator rights.
pub fn blocked_reason(def: &ModuleDef, privileges_allowed: bool, elevated: bool) -> (r: Option<
    String,
>)
    ensures
        text::opt(r) == block(def.admin, privileges_allowed, elevated),
{
    if def.admin {
        if !privileges_allowed {
            return Some("admin=true but custom_command_privileges_allowed=false".to_string());
        }
        if !elevated {
            return Some("admin=true but pc-bridge is not running elevated".to_string());
        }
    }
    None
}

/// A running module must stop: no definition has its name any more, or the
/// definition is another than before.
pub open spec fn stale(name: Seq<char>, wanted: Seq<DefView>, previous: Seq<DefView>) -> bool {
    match find_def(wanted, name) {
        None => true,
        Some(d) => find_def(previous, name) != Some(d),
    }
}

/// Whether a running module must stop.
pub fn should_stop(name: &str, wanted: &[ModuleDef], previous: &[ModuleDef]) -> (r: bool)
    ensures
        r == stale(name@, defs_view(wanted@), defs_view(previous@)),
{
    match index_of_def(wanted, name) {
        None => true,
        Some(i) => match index_of_def(previous, name) {
            None => true,
            Some(j) => !same_def(&previous[j], &wanted[i]),
        },
    }
}

// ---------------------------------------------------------------------------
// The host
// ---------------------------------------------------------------------------

/// The names and states of the modules.
pub type StatusView = Seq<(Seq<char>, ModuleState)>;

/// The state of a module.
pub open spec fn state_of(status: StatusView, name: Seq<char>) -> Option<ModuleState>
    decreases status.len(),
{
    if status.len() == 0 {
        None
    } else if status.last().0 == name {
        Some(status.last().1)
    } else {
        state_of(status.drop_last(), name)
    }
}

/// The states without that of one module.
pub open spec fn without(status: StatusView, name: Seq<char>) -> StatusView
    decreases status.len(),
{
    if status.len() == 0 {
        seq![]
    } else if status.last().0 == name {
        without(status.drop_last(), name)
    } else {
        without(status.drop_last(), name).push(status.last())
    }
}

/// The states with that of one module set.
pub open spec fn with_state(status: StatusView, name: Seq<char>, state: ModuleState) -> StatusView {
    without(status, name).push((name, state))
}

/// The states of the modules that are defined.
pub open spec fn only_defined(status: StatusView, defs: Seq<DefView>) -> StatusView
    decreases status.len(),
{
    if status.len() == 0 {
        seq![]
    } else if defines(defs, status.last().0) {
        only_defined(status.drop_last(), defs).push(status.last())
    } else {
        only_defined(status.drop_last(), defs)
    }
}

/// The host as plain values: the definitions that it last acted on, the modules
/// that run, and the states.
#[verifier::ext_equal]
pub struct HostView {
    pub defs: Seq<DefView>,
    pub running: Seq<Seq<char>>,
    pub status: StatusView,
}

/// The running modules that need not stop.
pub open spec fn still_running(
    running: Seq<Seq<char>>,
    wanted: Seq<DefView>,
    previous: Seq<DefView>,
) -> Seq<Seq<char>>
    decreases running.len(),
{
    if running.len() == 0 {
        seq![]
    } else if stale(running.last(), wanted, previous) {
        still_running(running.drop_last(), wanted, previous)
    } else {
        still_running(running.drop_last(), wanted, previous).push(running.last())
    }
}

/// The running modules that must stop.
pub open spec fn stopped(
    running: Seq<Seq<char>>,
    wanted: Seq<DefView>,
    previous: Seq<DefView>,
) -> Seq<Seq<char>>
    decreases running.len(),
{
    if running.len() == 0 {
        seq![]
    } else if stale(running.last(), wanted, previous) {
        stopped(running.drop_last(), wanted, previous).push(running.last())
    } else {
        stopped(running.drop_last(), wanted, previous)
    }
}

/// What starting does: the modules that run and the states afterwards, and the
/// modules that are started.
#[verifier::ext_equal]
pub struct Started {
    pub running: Seq<Seq<char>>,
    pub status: StatusView,
    pub starts: Seq<DefView>,
}

/// Starts, in order, each module that does not run yet. One that lacks rights is
/// blocked instead.
pub open spec fn started(
    wanted: Seq<DefView>,
    running: Seq<Seq<char>>,
    status: StatusView,
    privileges_allowed: bool,
    elevated: bool,
) -> Started
    decreases wanted.len(),
{
    if wanted.len() == 0 {
        Started { running, status, starts: seq![] }
    } else {
        let s = started(wanted.drop_last(), running, status, privileges_allowed, elevated);
        let d = wanted.last();
        if s.running.contains(d.name) {
            s
        } else if block(d.admin, privileges_allowed, elevated) is Some {
            Started { status: with_state(s.status, d.name, ModuleState::Blocked), ..s }
        } else {
            Started {
                running: s.running.push(d.name),
                status: with_state(s.status, d.name, ModuleState::Running),
                starts: s.starts.push(d),
            }
        }
    }
}

/// The modules that the configuration asks for.
pub open spec fn wanted_defs(c: Config) -> Seq<DefView> {
    if c.modules_enabled {
        defs_view(c.modules@)
    } else {
        seq![]
    }
}

/// What a reload starts, on which modules it leaves running and in which states.
pub open spec fn reload_start(h: HostView, c: Config, elevated: bool) -> Started {
    started(
        wanted_defs(c),
        still_running(h.running, wanted_defs(c), h.defs),
        only_defined(h.status, wanted_defs(c)),
        c.custom_command_privileges_allowed,
        elevated,
    )
}

/// The host after a reload.
pub open spec fn reloaded(h: HostView, c: Config, elevated: bool) -> HostView {
    HostView {
        defs: wanted_defs(c),
        running: reload_start(h, c, elevated).running,
        status: reload_start(h, c, elevated).status,
    }
}

/// What a reload asks for: the modules to stop, then those to start.
#[derive(Debug, Clone)]
pub struct ReloadPlan {
    pub stop: Vec<String>,
    pub start: Vec<ModuleDef>,
}

/// The modules that the agent runs.
#[derive(Debug, Clone)]
pub struct ModuleManager {
    pub defs: Vec<ModuleDef>,
    pub running: Vec<String>,
    pub status: Vec<(String, ModuleState)>,
}

/// The values of the states.
pub open spec fn status_view(s: Seq<(String, ModuleState)>) -> StatusView {
    s.map_values(|x: (String, ModuleState)| (x.0@, x.1))
}

impl View for ModuleManager {
    type V = HostView;

    open spec fn view(&self) -> HostView {
        HostView {
            defs: defs_view(self.defs@),
            running: text::views(self.running@),
            status: status_view(self.status@),
        }
    }
}

/// Whether a list of names holds a name.
fn holds(names: &Vec<String>, name: &str) -> (r: bool)
    ensures
        r == text::views(names@).contains(name@),
{
    let mut i: usize = 0;
    while i < names.len()
        invariant
            i <= names.len(),
            forall|k: int| 0 <= k < i ==> text::views(names@)[k] != name@,
        decreases names.len() - i,
    {
        if names[i].as_str().eq(name) {
            proof {
                assert(text::views(names@)[i as int] == name@);
            }
            return true;
        }
        i += 1;
    }
    false
}

fn remove_state(status: &Vec<(String, ModuleState)>, name: &str) -> (r: Vec<(String, ModuleState)>)
    ensures
        status_view(r@) == without(status_view(status@), name@),
{
    let ghost all = status_view(status@);
    let mut out: Vec<(String, ModuleState)> = Vec::new();
    let mut i: usize = 0;
    proof {
        assert(all.take(0) =~= Seq::<(Seq<char>, ModuleState)>::empty());
        assert(status_view(out@) =~= Seq::<(Seq<char>, ModuleState)>::empty());
    }
    while i < status.len()
        invariant
            i <= status.len(),
            all == status_view(status@),
            status_view(out@) == without(all.take(i as int), name@),
        decreases status.len() - i,
    {
        proof {
            assert(all.take(i + 1).drop_last() =~= all.take(i as int));
            assert(all.take(i + 1).last() == all[i as int]);
        }
        if !status[i].0.as_str().eq(name) {
            let ghost before = out@;
            out.push((status[i].0.clone(), status[i].1));
            proof {
                assert(status_view(out@) =~= status_view(before).push(all[i as int]));
            }
        }
        i += 1;
    }
    proof {
        assert(all.take(all.len() as int) =~= all);
    }
    out
}

fn keep_defined(status: &Vec<(String, ModuleState)>, defs: &[ModuleDef]) -> (r: Vec<
    (String, ModuleState),
>)
    ensures
        status_view(r@) == only_defined(status_view(status@), defs_view(defs@)),
{
    let ghost all = status_view(status@);
    let mut out: Vec<(String, ModuleState)> = Vec::new();
    let mut i: usize = 0;
    proof {
        assert(all.take(0) =~= Seq::<(Seq<char>, ModuleState)>::empty());
        assert(status_view(out@) =~= Seq::<(Seq<char>, ModuleState)>::empty());
    }
    while i < status.len()
        invariant
            i <= status.len(),
            all == status_view(status@),
            status_view(out@) == only_defined(all.take(i as int), defs_view(defs@)),
        decreases status.len() - i,
    {
        proof {
            assert(all.take(i + 1).drop_last() =~= all.take(i as int));
            assert(all.take(i + 1).last() == all[i as int]);
        }
        if index_of_def(defs, &status[i].0).is_some() {
            let ghost before = out@;
            out.push((status[i].0.clone(), status[i].1));
            proof {
                assert(status_view(out@) =~= status_view(before).push(all[i as int]));
            }
        }
        i += 1;
    }
    proof {
        assert(all.take(all.len() as int) =~= all);
    }
    out
}

/// The states of the modules that are defined. A module that left the
/// configuration has no state.
pub fn prune_status(status: &Vec<(String, ModuleState)>, defs: &[ModuleDef]) -> (r: Vec<
    (String, ModuleState),
>)
    ensures
        status_view(r@) == only_defined(status_view(status@), defs_view(defs@)),
{
    keep_defined(status, defs)
}

fn split_running(running: &Vec<String>, wanted: &[ModuleDef], previous: &[ModuleDef]) -> (r: (
    Vec<String>,
    Vec<String>,
))
    ensures
        text::views(r.0@) == still_running(
            text::views(running@),
            defs_view(wanted@),
            defs_view(previous@),
        ),
        text::views(r.1@) == stopped(
            text::views(running@),
            defs_view(wanted@),
            defs_view(previous@),
        ),
{
    let ghost all = text::views(running@);
    let ghost w = defs_view(wanted@);
    let ghost p = defs_view(previous@);
    let mut keep: Vec<String> = Vec::new();
    let mut stop: Vec<String> = Vec::new();
    let mut i: usize = 0;
    proof {
        assert(all.take(0) =~= Seq::<Seq<char>>::empty());
        assert(text::views(keep@) =~= Seq::<Seq<char>>::empty());
    }
    while i < running.len()
        invariant
            i <= running.len(),
            all == text::views(running@),
            w == defs_view(wanted@),
            p == defs_view(previous@),
            text::views(keep@) == still_running(all.take(i as int), w, p),
            text::views(stop@) == stopped(all.take(i as int), w, p),
        decreases running.len() - i,
    {
        proof {
            assert(all.take(i + 1).drop_last() =~= all.take(i as int));
            assert(all.take(i + 1).last() == running@[i as int]@);
        }
        let name = running[i].clone();
        if should_stop(&name, wanted, previous) {
            let ghost before = stop@;
            stop.push(name);
            proof {
                assert(text::views(stop@) =~= text::views(before).push(all[i as int]));
            }
        } else {
            let ghost before = keep@;
            keep.push(name);
            proof {
                assert(text::views(keep@) =~= text::views(before).push(all[i as int]));
            }
        }
        i += 1;
    }
    proof {
        assert(all.take(all.len() as int) =~= all);
    }
    (keep, stop)
}

impl ModuleManager {
    /// Nothing runs yet.
    pub fn new() -> (r: Self)
        ensures
            r@ == (HostView { defs: seq![], running: seq![], status: seq![] }),
    {
        let r = ModuleManager { defs: Vec::new(), running: Vec::new(), status: Vec::new() };
        proof {
            assert(r@ =~= HostView { defs: seq![], running: seq![], status: seq![] });
        }
        r
    }

    fn set_state(&mut self, name: &str, state: ModuleState)
        ensures
            final(self)@ == (HostView {
                status: with_state(old(self)@.status, name@, state),
                ..old(self)@
            }),
    {
        let mut status = remove_state(&self.status, name);
        let ghost before = status@;
        status.push((name.to_string(), state));
        proof {
            assert(status_view(status@) =~= status_view(before).push((name@, state)));
        }
        self.status = status;
    }

    /// Makes the modules that run match the configuration: those that are gone or
    /// defined anew stop, and those that do not run start. An unchanged module
    /// keeps running.
    pub fn reload(&mut self, config: &Config, elevated: bool) -> (r: ReloadPlan)
        ensures
            final(self)@ == reloaded(old(self)@, *config, elevated),
            text::views(r.stop@) == stopped(
                old(self)@.running,
                wanted_defs(*config),
                old(self)@.defs,
            ),
            defs_view(r.start@) == reload_start(old(self)@, *config, elevated).starts,
    {
        let ghost h = self@;
        let ghost w = wanted_defs(*config);
        let wanted: Vec<ModuleDef> = if config.modules_enabled {
            copy_defs(&config.modules)
        } else {
            Vec::new()
        };
        proof {
            assert(defs_view(wanted@) =~= w);
        }
        let (keep, stop) = split_running(&self.running, &wanted, &self.defs);
        self.running = keep;
        self.status = keep_defined(&self.status, &wanted);
        let ghost running0 = still_running(h.running, w, h.defs);
        let ghost status0 = only_defined(h.status, w);
        let ghost allowed = config.custom_command_privileges_allowed;
        let mut start: Vec<ModuleDef> = Vec::new();
        let mut i: usize = 0;
        proof {
            assert(w.take(0) =~= Seq::<DefView>::empty());
            assert(defs_view(start@) =~= Seq::<DefView>::empty());
        }
        while i < wanted.len()
            invariant
                i <= wanted.len(),
                defs_view(wanted@) == w,
                allowed == config.custom_command_privileges_allowed,
                text::views(self.running@) == started(
                    w.take(i as int),
                    running0,
                    status0,
                    allowed,
                    elevated,
                ).running,
                status_view(self.status@) == started(
                    w.take(i as int),
                    running0,
                    status0,
                    allowed,
                    elevated,
                ).status,
                defs_view(start@) == started(
                    w.take(i as int),
                    running0,
                    status0,
                    allowed,
                    elevated,
                ).starts,
            decreases wanted.len() - i,
        {
            let ghost d = w[i as int];
            proof {
                assert(w.take(i + 1).drop_last() =~= w.take(i as int));
                assert(w.take(i + 1).last() == d);
                assert(d == def_view(wanted@[i as int]));
            }
            let def = &wanted[i];
            if !holds(&self.running, &def.name) {
                if blocked_reason(def, config.custom_command_privileges_allowed, elevated).is_some() {
                    self.set_state(&def.name, ModuleState::Blocked);
                } else {
                    let ghost before = self.running@;
                    let ghost starts = start@;
                    self.running.push(def.name.clone());
                    proof {
                        assert(text::views(self.running@) =~= text::views(before).push(d.name));
                    }
                    self.set_state(&def.name, ModuleState::Running);
                    start.push(copy_def(def));
                    proof {
                        assert(defs_view(start@) =~= defs_view(starts).push(d));
                    }
                }
            }
            i += 1;
        }
        proof {
            assert(w.take(w.len() as int) =~= w);
        }
        self.defs = wanted;
        ReloadPlan { stop, start }
    }

    /// Takes the state that a module reports. Returns whether the states are to be
    /// published: only when something changed.
    pub fn on_status(&mut self, name: &str, state: ModuleState) -> (r: bool)
        ensures
            r == (state_of(old(self)@.status, name@) != Some(state)),
            final(self)@ == (if r {
                HostView { status: with_state(old(self)@.status, name@, state), ..old(self)@ }
            } else {
                old(self)@
            }),
    {
        let same = match self.state(name) {
            Some(s) => s == state,
            None => false,
        };
        if same {
            return false;
        }
        self.set_state(name, state);
        true
    }

    /// The state of a module.
    pub fn state(&self, name: &str) -> (r: Option<ModuleState>)
        ensures
            r == state_of(self@.status, name@),
    {
        let ghost all = self@.status;
        let mut i: usize = self.status.len();
        proof {
            assert(all.take(i as int) =~= all);
        }
        while i > 0
            invariant
                i <= self.status.len(),
                all == status_view(self.status@),
                state_of(all, name@) == state_of(all.take(i as int), name@),
            decreases i,
        {
            proof {
                assert(all.take(i as int).drop_last() =~= all.take(i - 1));
                assert(all.take(i as int).last() == all[i - 1]);
            }
            i -= 1;
            if self.status[i].0.as_str().eq(name) {
                return Some(self.status[i].1);
            }
        }
        None
    }

    /// What is published of the modules: how many run, and the state of each of
    /// them as a JSON object.
    pub fn publish_status(&self) -> (r: (usize, String))
        ensures
            r.0 as nat == count_running(self@.status),
            json::json_text(status_members(self@.status)) == Some(r.1@),
    {
        let ghost all = self@.status;
        let mut members: Vec<Member> = Vec::new();
        let mut running: usize = 0;
        let mut i: usize = 0;
        proof {
            assert(all.take(0) =~= Seq::<(Seq<char>, ModuleState)>::empty());
        }
        while i < self.status.len()
            invariant
                i <= self.status.len(),
                all == status_view(self.status@),
                running as nat == count_running(all.take(i as int)),
                running <= i,
                members@.len() == i,
                forall|k: int|
                    0 <= k < i ==> (#[trigger] members@[k]).0@ == all[k].0 && members@[k].1@
                        == json::json_quoted(state_text(all[k].1)),
            decreases self.status.len() - i,
        {
            proof {
                assert(all.take(i + 1).drop_last() =~= all.take(i as int));
                assert(all.take(i + 1).last() == all[i as int]);
            }
            let state = self.status[i].1;
            if state == ModuleState::Running {
                running += 1;
            }
            members.push((self.status[i].0.clone(), quote(state.as_str())));
            i += 1;
        }
        proof {
            assert(all.take(all.len() as int) =~= all);
            assert(json::members_view(members@) =~= status_members(all));
            assert forall|k: int| 0 <= k < members@.len() implies json::is_string_literal(
                (#[trigger] members@[k]).1@,
            ) by {
                assert(members@[k].1@ == json::json_quoted(state_text(all[k].1)));
            }
        }
        (running, write_object(&members).unwrap())
    }
}

/// How many modules run.
pub open spec fn count_running(status: StatusView) -> nat
    decreases status.len(),
{
    if status.len() == 0 {
        0
    } else if status.last().1 == ModuleState::Running {
        count_running(status.drop_last()) + 1
    } else {
        count_running(status.drop_last())
    }
}

/// The states as members of a JSON object.
pub open spec fn status_members(status: StatusView) -> Seq<json::MemberView> {
    status.map_values(
        |x: (Seq<char>, ModuleState)| (x.0, json::json_quoted(state_text(x.1))),
    )
}

// ---------------------------------------------------------------------------
// What a reload keeps
// ---------------------------------------------------------------------------

proof fn lemma_still_running(
    running: Seq<Seq<char>>,
    wanted: Seq<DefView>,
    previous: Seq<DefView>,
    name: Seq<char>,
)
    ensures
        still_running(running, wanted, previous).contains(name) <==> running.contains(name)
            && !stale(name, wanted, previous),
        stopped(running, wanted, previous).contains(name) <==> running.contains(name) && stale(
            name,
            wanted,
            previous,
        ),
    decreases running.len(),
{
    if running.len() > 0 {
        let r = running.drop_last();
        lemma_still_running(r, wanted, previous, name);
        assert(running =~= r.push(running.last()));
        lemma_push_contains(r, running.last(), name);
        lemma_push_contains(still_running(r, wanted, previous), running.last(), name);
        lemma_push_contains(stopped(r, wanted, previous), running.last(), name);
    }
}

proof fn lemma_push_contains<A>(s: Seq<A>, a: A, x: A)
    ensures
        s.push(a).contains(x) <==> s.contains(x) || x == a,
{
    if s.contains(x) {
        let k = choose|k: int| 0 <= k < s.len() && s[k] == x;
        assert(s.push(a)[k] == x);
    }
    if x == a {
        assert(s.push(a)[s.len() as int] == x);
    }
    if s.push(a).contains(x) && x != a {
        let k = choose|k: int| 0 <= k < s.push(a).len() && s.push(a)[k] == x;
        assert(s[k] == x);
    }
}

proof fn lemma_started_keeps(
    wanted: Seq<DefView>,
    running: Seq<Seq<char>>,
    status: StatusView,
    allowed: bool,
    elevated: bool,
    name: Seq<char>,
)
    requires
        running.contains(name),
    ensures
        started(wanted, running, status, allowed, elevated).running.contains(name),
        forall|i: int|
            0 <= i < started(wanted, running, status, allowed, elevated).starts.len() ==> (
            #[trigger] started(wanted, running, status, allowed, elevated).starts[i]).name != name,
    decreases wanted.len(),
{
    if wanted.len() > 0 {
        let s = started(wanted.drop_last(), running, status, allowed, elevated);
        lemma_started_keeps(wanted.drop_last(), running, status, allowed, elevated, name);
        lemma_push_contains(s.running, wanted.last().name, name);
    }
}

/// A reload leaves an unchanged module alone: one that runs and whose definition
/// is the same keeps running, and is neither stopped nor started.
pub proof fn law_unchanged_modules_keep_running(
    h: HostView,
    c: Config,
    elevated: bool,
    name: Seq<char>,
)
    requires
        h.running.contains(name),
        !stale(name, wanted_defs(c), h.defs),
    ensures
        reloaded(h, c, elevated).running.contains(name),
        !stopped(h.running, wanted_defs(c), h.defs).contains(name),
        forall|i: int|
            0 <= i < reload_start(h, c, elevated).starts.len() ==> (#[trigger] reload_start(
                h,
                c,
                elevated,
            ).starts[i]).name != name,
{
    lemma_still_running(h.running, wanted_defs(c), h.defs, name);
    lemma_started_keeps(
        wanted_defs(c),
        still_running(h.running, wanted_defs(c), h.defs),
        only_defined(h.status, wanted_defs(c)),
        c.custom_command_privileges_allowed,
        elevated,
        name,
    );
}

proof fn lemma_started_gated(
    wanted: Seq<DefView>,
    running: Seq<Seq<char>>,
    status: StatusView,
    allowed: bool,
    elevated: bool,
    i: int,
)
    requires
        0 <= i < started(wanted, running, status, allowed, elevated).starts.len(),
    ensures
        wanted.contains(started(wanted, running, status, allowed, elevated).starts[i]),
        block(
            started(wanted, running, status, allowed, elevated).starts[i].admin,
            allowed,
            elevated,
        ) is None,
    decreases wanted.len(),
{
    let s = started(wanted.drop_last(), running, status, allowed, elevated);
    let w = wanted.drop_last();
    assert(wanted =~= w.push(wanted.last()));
    if i < s.starts.len() {
        lemma_started_gated(w, running, status, allowed, elevated, i);
        lemma_push_contains(w, wanted.last(), s.starts[i]);
    } else {
        lemma_push_contains(w, wanted.last(), wanted.last());
    }
}

/// Only modules that the configuration asks for are started, and one that needs
/// administrator rights only where they are allowed and the agent has them.
pub proof fn law_started_modules_have_their_rights(
    h: HostView,
    c: Config,
    elevated: bool,
    i: int,
)
    requires
        0 <= i < reload_start(h, c, elevated).starts.len(),
    ensures
        wanted_defs(c).contains(reload_start(h, c, elevated).starts[i]),
        reload_start(h, c, elevated).starts[i].admin ==> c.custom_command_privileges_allowed
            && elevated,
{
    lemma_started_gated(
        wanted_defs(c),
        still_running(h.running, wanted_defs(c), h.defs),
        only_defined(h.status, wanted_defs(c)),
        c.custom_command_privileges_allowed,
        elevated,
        i,
    );
}

proof fn lemma_started_running_defined(
    wanted: Seq<DefView>,
    running: Seq<Seq<char>>,
    status: StatusView,
    allowed: bool,
    elevated: bool,
    name: Seq<char>,
)
    requires
        started(wanted, running, status, allowed, elevated).running.contains(name),
    ensures
        running.contains(name) || exists|i: int|
            0 <= i < wanted.len() && (#[trigger] wanted[i]).name == name,
    decreases wanted.len(),
{
    if wanted.len() > 0 {
        let s = started(wanted.drop_last(), running, status, allowed, elevated);
        lemma_push_contains(s.running, wanted.last().name, name);
        if s.running.contains(name) {
            lemma_started_running_defined(
                wanted.drop_last(),
                running,
                status,
                allowed,
                elevated,
                name,
            );
            if !running.contains(name) {
                let i = choose|i: int|
                    0 <= i < wanted.drop_last().len() && (#[trigger] wanted.drop_last()[i]).name
                        == name;
                assert(wanted[i].name == name);
            }
        } else {
            assert(wanted[wanted.len() - 1].name == name);
        }
    }
}

/// After a reload only modules that the configuration asks for run.
pub proof fn law_only_wanted_modules_run(h: HostView, c: Config, elevated: bool, name: Seq<char>)
    requires
        reloaded(h, c, elevated).running.contains(name),
    ensures
        defines(wanted_defs(c), name),
{
    let w = wanted_defs(c);
    lemma_started_running_defined(
        w,
        still_running(h.running, w, h.defs),
        only_defined(h.status, w),
        c.custom_command_privileges_allowed,
        elevated,
        name,
    );
    lemma_still_running(h.running, w, h.defs, name);
    lemma_find_def(w, name);
}

/// Every state belongs to a module that is defined.
pub open spec fn states_are_defined(status: StatusView, defs: Seq<DefView>) -> bool {
    forall|i: int| 0 <= i < status.len() ==> defines(defs, (#[trigger] status[i]).0)
}

proof fn lemma_only_defined(status: StatusView, defs: Seq<DefView>)
    ensures
        states_are_defined(only_defined(status, defs), defs),
    decreases status.len(),
{
    if status.len() > 0 {
        lemma_only_defined(status.drop_last(), defs);
    }
}

proof fn lemma_without_defined(status: StatusView, defs: Seq<DefView>, name: Seq<char>)
    requires
        states_are_defined(status, defs),
    ensures
        states_are_defined(without(status, name), defs),
    decreases status.len(),
{
    if status.len() > 0 {
        assert(states_are_defined(status.drop_last(), defs)) by {
            assert forall|i: int| 0 <= i < status.drop_last().len() implies defines(
                defs,
                (#[trigger] status.drop_last()[i]).0,
            ) by {
                assert(status[i] == status.drop_last()[i]);
            }
        }
        lemma_without_defined(status.drop_last(), defs, name);
        assert(defines(defs, status[status.len() - 1].0));
    }
}

proof fn lemma_started_states(
    wanted: Seq<DefView>,
    running: Seq<Seq<char>>,
    status: StatusView,
    allowed: bool,
    elevated: bool,
    defs: Seq<DefView>,
)
    requires
        states_are_defined(status, defs),
        forall|i: int| 0 <= i < wanted.len() ==> defines(defs, (#[trigger] wanted[i]).name),
    ensures
        states_are_defined(started(wanted, running, status, allowed, elevated).status, defs),
    decreases wanted.len(),
{
    if wanted.len() > 0 {
        let w = wanted.drop_last();
        assert forall|i: int| 0 <= i < w.len() implies defines(defs, (#[trigger] w[i]).name) by {
            assert(wanted[i] == w[i]);
        }
        lemma_started_states(w, running, status, allowed, elevated, defs);
        let s = started(w, running, status, allowed, elevated);
        assert(defines(defs, wanted[wanted.len() - 1].name));
        lemma_without_defined(s.status, defs, wanted.last().name);
    }
}

/// After a reload no module that left the configuration has a state, whether it
/// ran or was blocked.
pub proof fn law_states_of_removed_modules_are_gone(h: HostView, c: Config, elevated: bool)
    ensures
        states_are_defined(reloaded(h, c, elevated).status, wanted_defs(c)),
{
    let w = wanted_defs(c);
    lemma_only_defined(h.status, w);
    assert forall|i: int| 0 <= i < w.len() implies defines(w, (#[trigger] w[i]).name) by {
        lemma_find_def(w, w[i].name);
    }
    lemma_started_states(
        w,
        still_running(h.running, w, h.defs),
        only_defined(h.status, w),
        c.custom_command_privileges_allowed,
        elevated,
        w,
    );
}

proof fn lemma_started_covers(
    wanted: Seq<DefView>,
    running: Seq<Seq<char>>,
    status: StatusView,
    allowed: bool,
    elevated: bool,
    i: int,
)
    requires
        0 <= i < wanted.len(),
    ensures
        started(wanted, running, status, allowed, elevated).running.contains(wanted[i].name)
            || block(wanted[i].admin, allowed, elevated) is Some,
    decreases wanted.len(),
{
    let w = wanted.drop_last();
    let s = started(w, running, status, allowed, elevated);
    if i < w.len() {
        lemma_started_covers(w, running, status, allowed, elevated, i);
        assert(w[i] == wanted[i]);
    }
    lemma_push_contains(s.running, wanted.last().name, wanted[i].name);
}

proof fn lemma_nothing_to_start(
    wanted: Seq<DefView>,
    running: Seq<Seq<char>>,
    status: StatusView,
    allowed: bool,
    elevated: bool,
)
    requires
        forall|i: int|
            0 <= i < wanted.len() ==> running.contains((#[trigger] wanted[i]).name) || block(
                wanted[i].admin,
                allowed,
                elevated,
            ) is Some,
    ensures
        started(wanted, running, status, allowed, elevated).running == running,
        started(wanted, running, status, allowed, elevated).starts == Seq::<DefView>::empty(),
    decreases wanted.len(),
{
    if wanted.len() > 0 {
        let w = wanted.drop_last();
        assert forall|i: int| 0 <= i < w.len() implies running.contains((#[trigger] w[i]).name)
            || block(w[i].admin, allowed, elevated) is Some by {
            assert(w[i] == wanted[i]);
        }
        lemma_nothing_to_start(w, running, status, allowed, elevated);
        assert(wanted[wanted.len() - 1] == wanted.last());
    }
}

proof fn lemma_nothing_to_stop(running: Seq<Seq<char>>, wanted: Seq<DefView>)
    requires
        forall|i: int| 0 <= i < running.len() ==> defines(wanted, #[trigger] running[i]),
    ensures
        still_running(running, wanted, wanted) == running,
        stopped(running, wanted, wanted) == Seq::<Seq<char>>::empty(),
    decreases running.len(),
{
    if running.len() > 0 {
        let r = running.drop_last();
        assert forall|i: int| 0 <= i < r.len() implies defines(wanted, #[trigger] r[i]) by {
            assert(r[i] == running[i]);
        }
        lemma_nothing_to_stop(r, wanted);
        assert(defines(wanted, running[running.len() - 1]));
        assert(r.push(running.last()) =~= running);
    }
}

/// A reload with an unchanged configuration stops nothing and starts nothing.
pub proof fn law_second_reload_does_nothing(h: HostView, c: Config, elevated: bool)
    ensures
        stopped(reloaded(h, c, elevated).running, wanted_defs(c), reloaded(h, c, elevated).defs)
            == Seq::<Seq<char>>::empty(),
        reload_start(reloaded(h, c, elevated), c, elevated).starts == Seq::<DefView>::empty(),
        reloaded(reloaded(h, c, elevated), c, elevated).running == reloaded(
            h,
            c,
            elevated,
        ).running,
{
    let w = wanted_defs(c);
    let h1 = reloaded(h, c, elevated);
    let allowed = c.custom_command_privileges_allowed;
    assert forall|i: int| 0 <= i < h1.running.len() implies defines(w, #[trigger] h1.running[i]) by {
        assert(h1.running.contains(h1.running[i]));
        law_only_wanted_modules_run(h, c, elevated, h1.running[i]);
    }
    lemma_nothing_to_stop(h1.running, w);
    assert forall|i: int| 0 <= i < w.len() implies h1.running.contains((#[trigger] w[i]).name)
        || block(w[i].admin, allowed, elevated) is Some by {
        lemma_started_covers(
            w,
            still_running(h.running, w, h.defs),
            only_defined(h.status, w),
            allowed,
            elevated,
            i,
        );
    }
    lemma_nothing_to_start(w, h1.running, only_defined(h1.status, w), allowed, elevated);
}

// ---------------------------------------------------------------------------
// What a reload does to each module
// ---------------------------------------------------------------------------

proof fn lemma_first_def(ds: Seq<ModuleDef>, name: Seq<char>, i: int)
    requires
        0 <= i < ds.len(),
        ds[i].name@ == name,
        forall|k: int| 0 <= k < i ==> (#[trigger] ds[k]).name@ != name,
    ensures
        find_def(defs_view(ds), name) == Some(def_view(ds[i])),
    decreases i,
{
    let all = defs_view(ds);
    assert(all[0] == def_view(ds[0]));
    if i > 0 {
        let rest = ds.skip(1);
        assert(ds[0].name@ != name);
        assert(rest[i - 1] == ds[i]);
        assert forall|k: int| 0 <= k < i - 1 implies (#[trigger] rest[k]).name@ != name by {
            assert(rest[k] == ds[k + 1]);
        }
        lemma_first_def(rest, name, i - 1);
        assert(all.skip(1) =~= defs_view(rest));
    }
}

proof fn lemma_def_index(ds: Seq<ModuleDef>, name: Seq<char>) -> (i: int)
    requires
        find_def(defs_view(ds), name) is Some,
    ensures
        0 <= i < ds.len(),
        ds[i].name@ == name,
        forall|k: int| 0 <= k < i ==> (#[trigger] ds[k]).name@ != name,
        find_def(defs_view(ds), name) == Some(def_view(ds[i])),
    decreases ds.len(),
{
    let all = defs_view(ds);
    assert(all.len() == ds.len());
    assert(all[0] == def_view(ds[0]));
    if ds[0].name@ == name {
        0
    } else {
        let rest = ds.skip(1);
        assert(all.skip(1) =~= defs_view(rest));
        let j = lemma_def_index(rest, name);
        assert(rest[j] == ds[j + 1]);
        assert forall|k: int| 0 <= k < j + 1 implies (#[trigger] ds[k]).name@ != name by {
            if k > 0 {
                assert(rest[k - 1] == ds[k]);
            }
        }
        j + 1
    }
}

proof fn lemma_first_is_started(
    wanted: Seq<DefView>,
    running: Seq<Seq<char>>,
    status: StatusView,
    allowed: bool,
    elevated: bool,
    i: int,
)
    requires
        0 <= i < wanted.len(),
        forall|k: int| 0 <= k < i ==> (#[trigger] wanted[k]).name != wanted[i].name,
        !running.contains(wanted[i].name),
        block(wanted[i].admin, allowed, elevated) is None,
    ensures
        started(wanted, running, status, allowed, elevated).starts.contains(wanted[i]),
    decreases wanted.len(),
{
    let w = wanted.drop_last();
    let s = started(w, running, status, allowed, elevated);
    let name = wanted[i].name;
    if i < w.len() {
        assert(w[i] == wanted[i]);
        assert forall|k: int| 0 <= k < i implies (#[trigger] w[k]).name != w[i].name by {
            assert(w[k] == wanted[k]);
        }
        lemma_first_is_started(w, running, status, allowed, elevated, i);
        lemma_push_contains(s.starts, wanted.last(), wanted[i]);
    } else {
        if s.running.contains(name) {
            lemma_started_running_defined(w, running, status, allowed, elevated, name);
            let k = choose|k: int| 0 <= k < w.len() && (#[trigger] w[k]).name == name;
            assert(wanted[k].name == name);
        }
        lemma_push_contains(s.starts, wanted.last(), wanted[i]);
    }
}

proof fn lemma_runs_or_is_started(
    wanted: Seq<DefView>,
    running: Seq<Seq<char>>,
    status: StatusView,
    allowed: bool,
    elevated: bool,
    name: Seq<char>,
)
    requires
        started(wanted, running, status, allowed, elevated).running.contains(name),
        !running.contains(name),
    ensures
        exists|k: int|
            0 <= k < started(wanted, running, status, allowed, elevated).starts.len() && (
            #[trigger] started(wanted, running, status, allowed, elevated).starts[k]).name == name,
    decreases wanted.len(),
{
    if wanted.len() > 0 {
        let w = wanted.drop_last();
        let s = started(w, running, status, allowed, elevated);
        let all = started(wanted, running, status, allowed, elevated);
        lemma_push_contains(s.running, wanted.last().name, name);
        if s.running.contains(name) {
            lemma_runs_or_is_started(w, running, status, allowed, elevated, name);
            let k = choose|k: int| 0 <= k < s.starts.len() && (#[trigger] s.starts[k]).name == name;
            assert(all.starts[k].name == name);
        } else {
            assert(all.starts[all.starts.len() - 1].name == name);
        }
    }
}

/// A running module whose definition was changed in anything (its program, arguments,
/// directory, restart policy or rights) is stopped, and started again as it is defined
/// now, where the rights that it needs are given.
pub proof fn law_changed_modules_are_replaced(
    h: HostView,
    previous: Seq<ModuleDef>,
    c: Config,
    elevated: bool,
    i: int,
    j: int,
)
    requires
        c.modules_enabled,
        h.defs == defs_view(previous),
        0 <= i < c.modules@.len(),
        forall|k: int| 0 <= k < i ==> (#[trigger] c.modules@[k]).name@ != c.modules@[i].name@,
        0 <= j < previous.len(),
        previous[j].name@ == c.modules@[i].name@,
        forall|k: int| 0 <= k < j ==> (#[trigger] previous[k]).name@ != c.modules@[i].name@,
        h.running.contains(c.modules@[i].name@),
        ({
            ||| c.modules@[i].command@ != previous[j].command@
            ||| c.modules@[i].args@.len() != previous[j].args@.len()
            ||| exists|q: int|
                0 <= q < c.modules@[i].args@.len() && (#[trigger] c.modules@[i].args@[q])@ != previous[j].args@[q]@
            ||| c.modules@[i].working_dir is Some != previous[j].working_dir is Some
            ||| c.modules@[i].working_dir is Some && c.modules@[i].working_dir->0@ != previous[j].working_dir->0@
            ||| c.modules@[i].restart != previous[j].restart
            ||| c.modules@[i].admin != previous[j].admin
        }),
    ensures
        stopped(h.running, wanted_defs(c), h.defs).contains(c.modules@[i].name@),
        !c.modules@[i].admin || (c.custom_command_privileges_allowed && elevated) ==> exists|s: int|
            #![trigger reload_start(h, c, elevated).starts[s]]
            {
                &&& 0 <= s < reload_start(h, c, elevated).starts.len()
                &&& reload_start(h, c, elevated).starts[s].name == c.modules@[i].name@
                &&& reload_start(h, c, elevated).starts[s].command == c.modules@[i].command@
                &&& reload_start(h, c, elevated).starts[s].args.len() == c.modules@[i].args@.len()
                &&& forall|q: int|
                    0 <= q < c.modules@[i].args@.len() ==> (#[trigger] reload_start(h, c, elevated).starts[s].args[q]) == c.modules@[i].args@[q]@
                &&& reload_start(h, c, elevated).starts[s].working_dir is Some == c.modules@[i].working_dir is Some
                &&& c.modules@[i].working_dir is Some ==> reload_start(h, c, elevated).starts[s].working_dir->0 == c.modules@[i].working_dir->0@
                &&& reload_start(h, c, elevated).starts[s].restart == c.modules@[i].restart
                &&& reload_start(h, c, elevated).starts[s].admin == c.modules@[i].admin
            },
{
    let new = c.modules@[i];
    let name = new.name@;
    let w = wanted_defs(c);
    let running = still_running(h.running, w, h.defs);
    let status = only_defined(h.status, w);
    let allowed = c.custom_command_privileges_allowed;
    lemma_first_def(c.modules@, name, i);
    lemma_first_def(previous, name, j);
    let a = def_view(new);
    if a == def_view(previous[j]) {
        lemma_same_fields(new, previous[j]);
    }
    lemma_still_running(h.running, w, h.defs, name);
    if !new.admin || (allowed && elevated) {
        assert(w[i] == a);
        assert forall|k: int| 0 <= k < i implies (#[trigger] w[k]).name != w[i].name by {
            assert(w[k] == def_view(c.modules@[k]));
        }
        lemma_first_is_started(w, running, status, allowed, elevated, i);
        let starts = reload_start(h, c, elevated).starts;
        let s = choose|s: int| 0 <= s < starts.len() && starts[s] == a;
        assert(starts[s].name == name);
    }
}

proof fn lemma_same_fields(a: ModuleDef, b: ModuleDef)
    requires
        def_view(a) == def_view(b),
    ensures
        a.name@ == b.name@,
        a.command@ == b.command@,
        a.args@.len() == b.args@.len(),
        forall|q: int| #![trigger a.args@[q]] 0 <= q < a.args@.len() ==> a.args@[q]@ == b.args@[q]@,
        a.working_dir is Some == b.working_dir is Some,
        a.working_dir is Some ==> a.working_dir->0@ == b.working_dir->0@,
        a.restart == b.restart,
        a.admin == b.admin,
{
    let x = def_view(a);
    let y = def_view(b);
    assert(x.args.len() == a.args@.len() && y.args.len() == b.args@.len());
    assert forall|q: int| #![trigger a.args@[q]] 0 <= q < a.args@.len() implies a.args@[q]@
        == b.args@[q]@ by {
        assert(x.args[q] == a.args@[q]@ && y.args[q] == b.args@[q]@);
    }
    assert(x.working_dir == y.working_dir);
}

proof fn lemma_kept_definition(
    h: HostView,
    previous: Seq<ModuleDef>,
    c: Config,
    elevated: bool,
    name: Seq<char>,
) -> (r: (int, int))
    requires
        h.defs == defs_view(previous),
        reloaded(h, c, elevated).running.contains(name),
        forall|k: int|
            0 <= k < reload_start(h, c, elevated).starts.len() ==> (#[trigger] reload_start(
                h,
                c,
                elevated,
            ).starts[k]).name != name,
    ensures
        h.running.contains(name),
        c.modules_enabled,
        0 <= r.0 < c.modules@.len(),
        c.modules@[r.0].name@ == name,
        forall|k: int| 0 <= k < r.0 ==> (#[trigger] c.modules@[k]).name@ != name,
        0 <= r.1 < previous.len(),
        previous[r.1].name@ == name,
        forall|k: int| 0 <= k < r.1 ==> (#[trigger] previous[k]).name@ != name,
        def_view(c.modules@[r.0]) == def_view(previous[r.1]),
{
    let w = wanted_defs(c);
    let running = still_running(h.running, w, h.defs);
    let status = only_defined(h.status, w);
    let allowed = c.custom_command_privileges_allowed;
    if !running.contains(name) {
        lemma_runs_or_is_started(w, running, status, allowed, elevated, name);
    }
    lemma_still_running(h.running, w, h.defs, name);
    if !c.modules_enabled {
        assert(w =~= Seq::<DefView>::empty());
    }
    (lemma_def_index(c.modules@, name), lemma_def_index(previous, name))
}

/// A module that runs after a reload and was not started by it ran before, and its
/// definition is in everything what it was. The places of the two definitions are
/// returned.
pub proof fn law_kept_modules_are_unchanged(
    h: HostView,
    previous: Seq<ModuleDef>,
    c: Config,
    elevated: bool,
    name: Seq<char>,
) -> (r: (int, int))
    requires
        h.defs == defs_view(previous),
        reloaded(h, c, elevated).running.contains(name),
        forall|k: int|
            0 <= k < reload_start(h, c, elevated).starts.len() ==> (#[trigger] reload_start(
                h,
                c,
                elevated,
            ).starts[k]).name != name,
    ensures
        h.running.contains(name),
        c.modules_enabled,
        0 <= r.0 < c.modules@.len(),
        c.modules@[r.0].name@ == name,
        forall|k: int| 0 <= k < r.0 ==> (#[trigger] c.modules@[k]).name@ != name,
        0 <= r.1 < previous.len(),
        previous[r.1].name@ == name,
        forall|k: int| 0 <= k < r.1 ==> (#[trigger] previous[k]).name@ != name,
        c.modules@[r.0].command@ == previous[r.1].command@,
        c.modules@[r.0].args@.len() == previous[r.1].args@.len(),
        forall|q: int|
            0 <= q < c.modules@[r.0].args@.len() ==> (#[trigger] c.modules@[r.0].args@[q])@
                == previous[r.1].args@[q]@,
        c.modules@[r.0].working_dir is Some == previous[r.1].working_dir is Some,
        c.modules@[r.0].working_dir is Some ==> c.modules@[r.0].working_dir->0@
            == previous[r.1].working_dir->0@,
        c.modules@[r.0].restart == previous[r.1].restart,
        c.modules@[r.0].admin == previous[r.1].admin,
{
    let r = lemma_kept_definition(h, previous, c, elevated, name);
    lemma_same_fields(c.modules@[r.0], previous[r.1]);
    r
}

/// With modules turned off a reload stops every module, starts none, and forgets their
/// states and definitions.
pub proof fn law_modules_turned_off_all_stop(h: HostView, c: Config, elevated: bool)
    requires
        !c.modules_enabled,
    ensures
        forall|name: Seq<char>|
            #[trigger] h.running.contains(name) ==> stopped(
                h.running,
                wanted_defs(c),
                h.defs,
            ).contains(name),
        reload_start(h, c, elevated).starts.len() == 0,
        reloaded(h, c, elevated).running.len() == 0,
        reloaded(h, c, elevated).status.len() == 0,
        reloaded(h, c, elevated).defs.len() == 0,
{
    let w = wanted_defs(c);
    assert forall|name: Seq<char>| #[trigger] h.running.contains(name) implies stopped(
        h.running,
        w,
        h.defs,
    ).contains(name) by {
        lemma_still_running(h.running, w, h.defs, name);
    }
    let running = reloaded(h, c, elevated).running;
    if running.len() > 0 {
        assert(running.contains(running[0]));
        law_only_wanted_modules_run(h, c, elevated, running[0]);
    }
    let status = reloaded(h, c, elevated).status;
    law_states_of_removed_modules_are_gone(h, c, elevated);
    if status.len() > 0 {
        assert(defines(w, status[0].0));
    }
}

/// What a reload acted on is remembered definition by definition, so that the next one
/// compares with it.
pub proof fn law_definitions_are_remembered(h: HostView, c: Config, elevated: bool, i: int)
    requires
        c.modules_enabled,
        0 <= i < c.modules@.len(),
    ensures
        reloaded(h, c, elevated).defs.len() == c.modules@.len(),
        ({
            &&& reloaded(h, c, elevated).defs[i].name == c.modules@[i].name@
            &&& reloaded(h, c, elevated).defs[i].command == c.modules@[i].command@
            &&& reloaded(h, c, elevated).defs[i].args.len() == c.modules@[i].args@.len()
            &&& forall|q: int| 0 <= q < c.modules@[i].args@.len() ==> (#[trigger] reloaded(h, c, elevated).defs[i].args[q]) == c.modules@[i].args@[q]@
            &&& reloaded(h, c, elevated).defs[i].working_dir is Some == c.modules@[i].working_dir is Some
            &&& c.modules@[i].working_dir is Some ==> reloaded(h, c, elevated).defs[i].working_dir->0 == c.modules@[i].working_dir->0@
            &&& reloaded(h, c, elevated).defs[i].restart == c.modules@[i].restart
            &&& reloaded(h, c, elevated).defs[i].admin == c.modules@[i].admin
        }),
{
}

proof fn lemma_without(status: StatusView, name: Seq<char>, n: Seq<char>, st: ModuleState)
    ensures
        without(status, name).contains((n, st)) <==> n != name && status.contains((n, st)),
    decreases status.len(),
{
    if status.len() > 0 {
        let r = status.drop_last();
        lemma_without(r, name, n, st);
        assert(status =~= r.push(status.last()));
        lemma_push_contains(r, status.last(), (n, st));
        lemma_push_contains(without(r, name), status.last(), (n, st));
    }
}

/// A module has the state that was set last and no other, and the states of the other
/// modules stay.
pub proof fn law_a_module_has_one_state(
    status: StatusView,
    name: Seq<char>,
    state: ModuleState,
    other: Seq<char>,
    st: ModuleState,
)
    ensures
        with_state(status, name, state).contains((name, st)) <==> st == state,
        other != name ==> (with_state(status, name, state).contains((other, st))
            <==> status.contains((other, st))),
        state_of(with_state(status, name, state), name) == Some(state),
        other != name ==> state_of(with_state(status, name, state), other) == state_of(
            status,
            other,
        ),
        state_of(status, other) matches Some(found) ==> status.contains((other, found)),
        state_of(status, other) is None ==> !status.contains((other, st)),
{
    lemma_without(status, name, name, st);
    lemma_without(status, name, other, st);
    lemma_push_contains(without(status, name), (name, state), (name, st));
    lemma_push_contains(without(status, name), (name, state), (other, st));
    let set = with_state(status, name, state);
    assert(set.last() == (name, state));
    assert(set.drop_last() =~= without(status, name));
    if other != name {
        lemma_state_without(status, name, other);
    }
    lemma_state_of(status, other, st);
}

proof fn lemma_state_without(status: StatusView, name: Seq<char>, other: Seq<char>)
    requires
        other != name,
    ensures
        state_of(without(status, name), other) == state_of(status, other),
    decreases status.len(),
{
    if status.len() > 0 {
        let r = status.drop_last();
        lemma_state_without(r, name, other);
        assert(without(r, name).push(status.last()).drop_last() =~= without(r, name));
    }
}

proof fn lemma_state_of(status: StatusView, name: Seq<char>, st: ModuleState)
    ensures
        state_of(status, name) matches Some(found) ==> status.contains((name, found)),
        state_of(status, name) is None ==> !status.contains((name, st)),
    decreases status.len(),
{
    if status.len() > 0 {
        let r = status.drop_last();
        lemma_state_of(r, name, st);
        assert(status =~= r.push(status.last()));
        match state_of(status, name) {
            Some(found) => {
                lemma_push_contains(r, status.last(), (name, found));
                assert(status.last() == (status.last().0, status.last().1));
            },
            None => {
                lemma_push_contains(r, status.last(), (name, st));
            },
        }
    }
}

proof fn lemma_only_defined_keeps(
    status: StatusView,
    defs: Seq<DefView>,
    name: Seq<char>,
    st: ModuleState,
)
    ensures
        only_defined(status, defs).contains((name, st)) <==> defines(defs, name)
            && status.contains((name, st)),
    decreases status.len(),
{
    if status.len() > 0 {
        let r = status.drop_last();
        lemma_only_defined_keeps(r, defs, name, st);
        assert(status =~= r.push(status.last()));
        lemma_push_contains(r, status.last(), (name, st));
        lemma_push_contains(only_defined(r, defs), status.last(), (name, st));
    }
}

proof fn lemma_started_state(
    wanted: Seq<DefView>,
    running: Seq<Seq<char>>,
    status: StatusView,
    allowed: bool,
    elevated: bool,
    name: Seq<char>,
    st: ModuleState,
)
    ensures
        ({
            let s = started(wanted, running, status, allowed, elevated);
            let named = exists|i: int| 0 <= i < wanted.len() && (#[trigger] wanted[i]).name == name;
            if running.contains(name) || !named {
                s.status.contains((name, st)) <==> status.contains((name, st))
            } else if s.running.contains(name) {
                s.status.contains((name, st)) <==> st == ModuleState::Running
            } else {
                s.status.contains((name, st)) <==> st == ModuleState::Blocked
            }
        }),
    decreases wanted.len(),
{
    if wanted.len() > 0 {
        let w = wanted.drop_last();
        let d = wanted.last();
        let s = started(w, running, status, allowed, elevated);
        lemma_started_state(w, running, status, allowed, elevated, name, st);
        assert(wanted[wanted.len() - 1] == d);
        if exists|i: int| 0 <= i < w.len() && (#[trigger] w[i]).name == name {
            let i = choose|i: int| 0 <= i < w.len() && (#[trigger] w[i]).name == name;
            assert(wanted[i].name == name);
        } else {
            assert forall|i: int|
                0 <= i < wanted.len() && (#[trigger] wanted[i]).name == name implies d.name
                == name by {
                if i < w.len() {
                    assert(w[i].name == name);
                }
            }
        }
        law_a_module_has_one_state(s.status, d.name, ModuleState::Blocked, name, st);
        law_a_module_has_one_state(s.status, d.name, ModuleState::Running, name, st);
        lemma_push_contains(s.running, d.name, name);
        if running.contains(name) {
            lemma_started_keeps(w, running, status, allowed, elevated, name);
        }
        if s.running.contains(name) && !running.contains(name) {
            lemma_started_running_defined(w, running, status, allowed, elevated, name);
        }
    }
}

/// After a reload a module that was started has the state `Running` and no other; one
/// that is asked for and does not run has the state `Blocked` and no other; and one that
/// kept running has the state that it had.
pub proof fn law_reload_sets_the_states(
    h: HostView,
    c: Config,
    elevated: bool,
    i: int,
    st: ModuleState,
)
    requires
        c.modules_enabled,
        0 <= i < c.modules@.len(),
    ensures
        ({
            let name = c.modules@[i].name@;
            let after = reloaded(h, c, elevated);
            let by_reload = exists|k: int|
                0 <= k < reload_start(h, c, elevated).starts.len() && (#[trigger] reload_start(
                    h,
                    c,
                    elevated,
                ).starts[k]).name == name;
            &&& by_reload ==> (after.status.contains((name, st)) <==> st == ModuleState::Running)
            &&& !after.running.contains(name) ==> (after.status.contains((name, st)) <==> st
                == ModuleState::Blocked)
            &&& after.running.contains(name) && !by_reload ==> (after.status.contains((name, st))
                <==> h.status.contains((name, st)))
        }),
{
    let name = c.modules@[i].name@;
    let w = wanted_defs(c);
    let running = still_running(h.running, w, h.defs);
    let status = only_defined(h.status, w);
    let allowed = c.custom_command_privileges_allowed;
    let s = reload_start(h, c, elevated);
    assert(w[i].name == name);
    lemma_started_state(w, running, status, allowed, elevated, name, st);
    lemma_only_defined_keeps(h.status, w, name, st);
    lemma_find_def(w, name);
    if running.contains(name) {
        lemma_started_keeps(w, running, status, allowed, elevated, name);
    } else if s.running.contains(name) {
        lemma_runs_or_is_started(w, running, status, allowed, elevated, name);
    }
    if exists|k: int| 0 <= k < s.starts.len() && (#[trigger] s.starts[k]).name == name {
        let k = choose|k: int| 0 <= k < s.starts.len() && (#[trigger] s.starts[k]).name == name;
        lemma_starts_run(w, running, status, allowed, elevated, k);
    }
}

proof fn lemma_starts_run(
    wanted: Seq<DefView>,
    running: Seq<Seq<char>>,
    status: StatusView,
    allowed: bool,
    elevated: bool,
    k: int,
)
    requires
        0 <= k < started(wanted, running, status, allowed, elevated).starts.len(),
    ensures
        started(wanted, running, status, allowed, elevated).running.contains(
            started(wanted, running, status, allowed, elevated).starts[k].name,
        ),
        !running.contains(started(wanted, running, status, allowed, elevated).starts[k].name),
    decreases wanted.len(),
{
    if wanted.len() > 0 {
        let w = wanted.drop_last();
        let s = started(w, running, status, allowed, elevated);
        let d = wanted.last();
        if k < s.starts.len() {
            lemma_starts_run(w, running, status, allowed, elevated, k);
            lemma_push_contains(s.running, d.name, s.starts[k].name);
        } else {
            lemma_push_contains(s.running, d.name, d.name);
            if running.contains(d.name) {
                lemma_started_keeps(w, running, status, allowed, elevated, d.name);
            }
        }
    }
}

/// Every module that the configuration asks for runs after a reload, unless it needs
/// administrator rights that are not allowed or that the agent does not have.
pub proof fn law_wanted_modules_run(h: HostView, c: Config, elevated: bool, i: int)
    requires
        c.modules_enabled,
        0 <= i < c.modules@.len(),
        !c.modules@[i].admin || (c.custom_command_privileges_allowed && elevated),
    ensures
        reloaded(h, c, elevated).running.contains(c.modules@[i].name@),
{
    let w = wanted_defs(c);
    assert(w[i] == def_view(c.modules@[i]));
    lemma_started_covers(
        w,
        still_running(h.running, w, h.defs),
        only_defined(h.status, w),
        c.custom_command_privileges_allowed,
        elevated,
        i,
    );
}

/// What is published counts the modules that run, and names each module with its state.
pub proof fn law_published_states(status: StatusView, i: int)
    ensures
        count_running(status) == status.filter(
            |x: (Seq<char>, ModuleState)| x.1 == ModuleState::Running,
        ).len(),
        status_members(status).len() == status.len(),
        0 <= i < status.len() ==> status_members(status)[i].0 == status[i].0
            && status_members(status)[i].1 == json::json_quoted(
            match status[i].1 {
                ModuleState::Running => "running"@,
                ModuleState::Stopped => "stopped"@,
                ModuleState::Blocked => "blocked"@,
                ModuleState::Failed => "failed"@,
            },
        ),
{
    lemma_count_running(status);
}

proof fn lemma_count_running(status: StatusView)
    ensures
        count_running(status) == status.filter(
            |x: (Seq<char>, ModuleState)| x.1 == ModuleState::Running,
        ).len(),
    decreases status.len(),
{
    reveal(Seq::filter);
    if status.len() > 0 {
        lemma_count_running(status.drop_last());
    }
}

// ---------------------------------------------------------------------------
// Restarts
// ---------------------------------------------------------------------------

/// The shortest and the longest wait before a restart, in seconds.
pub const BACKOFF_MIN_SECS: u64 = 1;

pub const BACKOFF_MAX_SECS: u64 = 60;

/// A run of at least this many milliseconds counts as healthy, and the wait
/// begins anew.
pub const BACKOFF_RESET_AFTER_MS: u64 = 30000;

/// How a run ended.
#[derive(Debug, Clone, Copy, PartialEq, Eq, Structural)]
pub enum ChildOutcome {
    Cancelled,
    SpawnFailed,
    Exited { success: bool },
}

/// What follows: the state that is reported, and for how many seconds the
/// supervisor waits before the next run. Without a wait it is done.
#[derive(Debug, Clone, Copy, PartialEq, Eq, Structural)]
pub struct AfterRun {
    pub report: ModuleState,
    pub wait_secs: Option<u64>,
}

/// The module is run again.
pub open spec fn restarts(policy: RestartPolicy, outcome: ChildOutcome) -> bool {
    match outcome {
        ChildOutcome::Cancelled => false,
        ChildOutcome::SpawnFailed => policy != RestartPolicy::Never,
        ChildOutcome::Exited { success } => match policy {
            RestartPolicy::Always => true,
            RestartPolicy::OnFailure => !success,
            RestartPolicy::Never => false,
        },
    }
}

/// The state that is reported after a run. A module that exited and is to be run
/// again counts as running.
pub open spec fn report(policy: RestartPolicy, outcome: ChildOutcome) -> ModuleState {
    match outcome {
        ChildOutcome::Cancelled => ModuleState::Stopped,
        ChildOutcome::SpawnFailed => ModuleState::Failed,
        ChildOutcome::Exited { success } => if restarts(policy, outcome) {
            ModuleState::Running
        } else if success {
            ModuleState::Stopped
        } else {
            ModuleState::Failed
        },
    }
}

/// The wait before the next run.
pub open spec fn wait_before(backoff: u64, outcome: ChildOutcome, ran_for_ms: u64) -> u64 {
    if outcome is Exited && ran_for_ms >= BACKOFF_RESET_AFTER_MS {
        BACKOFF_MIN_SECS
    } else {
        backoff
    }
}

/// The wait after the next one: twice as long, up to the longest.
pub open spec fn doubled(backoff: u64) -> u64 {
    if 2 * backoff < BACKOFF_MAX_SECS {
        (2 * backoff) as u64
    } else {
        BACKOFF_MAX_SECS
    }
}

/// Runs one module by its restart policy. Holds the next wait in seconds, which is
/// between the shortest and the longest.
#[derive(Debug, Clone, Copy)]
pub struct ModuleRunner {
    policy: RestartPolicy,
    backoff: u64,
}

impl ModuleRunner {
    #[verifier::type_invariant]
    spec fn wf(self) -> bool {
        BACKOFF_MIN_SECS <= self.backoff <= BACKOFF_MAX_SECS
    }

    /// The restart policy.
    pub closed spec fn policy(self) -> RestartPolicy {
        self.policy
    }

    /// The next wait in seconds.
    pub closed spec fn backoff(self) -> u64 {
        self.backoff
    }

    /// Before the first run.
    pub fn new(policy: RestartPolicy) -> (r: Self)
        ensures
            r.policy() == policy,
            r.backoff() == BACKOFF_MIN_SECS,
    {
        ModuleRunner { policy, backoff: BACKOFF_MIN_SECS }
    }

    /// What follows a run. A cancelled wait ends the supervision with the state
    /// `Stopped`.
    pub fn after_run(&mut self, outcome: ChildOutcome, ran_for_ms: u64) -> (r: AfterRun)
        ensures
            r.report == report(old(self).policy(), outcome),
            r.wait_secs == (if restarts(old(self).policy(), outcome) {
                Some(wait_before(old(self).backoff(), outcome, ran_for_ms))
            } else {
                None
            }),
            final(self).policy() == old(self).policy(),
            final(self).backoff() == (if restarts(old(self).policy(), outcome) {
                doubled(wait_before(old(self).backoff(), outcome, ran_for_ms))
            } else {
                old(self).backoff()
            }),
            BACKOFF_MIN_SECS <= final(self).backoff() <= BACKOFF_MAX_SECS,
            r.wait_secs matches Some(w) ==> BACKOFF_MIN_SECS <= w <= BACKOFF_MAX_SECS,
    {
        proof {
            use_type_invariant(&*self);
        }
        let (restart, state): (bool, ModuleState) = match outcome {
            ChildOutcome::Cancelled => (false, ModuleState::Stopped),
            ChildOutcome::SpawnFailed => (self.policy != RestartPolicy::Never, ModuleState::Failed),
            ChildOutcome::Exited { success } => {
                let restart = match self.policy {
                    RestartPolicy::Always => true,
                    RestartPolicy::OnFailure => !success,
                    RestartPolicy::Never => false,
                };
                if restart {
                    (restart, ModuleState::Running)
                } else if success {
                    (restart, ModuleState::Stopped)
                } else {
                    (restart, ModuleState::Failed)
                }
            },
        };
        if !restart {
            return AfterRun { report: state, wait_secs: None };
        }
        let mut wait: u64 = self.backoff;
        match outcome {
            ChildOutcome::Exited { success: _ } => {
                if ran_for_ms >= BACKOFF_RESET_AFTER_MS {
                    wait = BACKOFF_MIN_SECS;
                }
            },
            _ => {},
        }
        self.backoff = if 2 * wait < BACKOFF_MAX_SECS {
            2 * wait
        } else {
            BACKOFF_MAX_SECS
        };
        AfterRun { report: state, wait_secs: Some(wait) }
    }
}

/// The wait after `n` failures in a row, each after a short run.
pub open spec fn nth_wait(n: nat) -> u64
    decreases n,
{
    if n == 0 {
        BACKOFF_MIN_SECS
    } else {
        doubled(nth_wait((n - 1) as nat))
    }
}

/// The waits double from one second up to a minute: 1, 2, 4, 8, 16, 32 and from
/// then on 60 seconds.
pub proof fn law_backoff_schedule(n: nat)
    ensures
        n < 6 ==> nth_wait(n) == vstd::arithmetic::power2::pow2(n),
        n >= 6 ==> nth_wait(n) == BACKOFF_MAX_SECS,
    decreases n,
{
    vstd::arithmetic::power2::lemma2_to64();
    if n > 0 {
        law_backoff_schedule((n - 1) as nat);
    }
}

/// After a run a module is run again exactly where its policy is `Always`, or
/// `OnFailure` and the run failed or could not begin, and nobody cancelled it. What is
/// reported is `Stopped` after a cancellation or a last success, `Failed` where the
/// module could not begin or failed for the last time, and else `Running`.
pub proof fn law_restarts_and_reports(policy: RestartPolicy)
    ensures
        !restarts(policy, ChildOutcome::Cancelled),
        restarts(policy, ChildOutcome::SpawnFailed) <==> policy == RestartPolicy::Always || policy
            == RestartPolicy::OnFailure,
        restarts(policy, ChildOutcome::Exited { success: false }) <==> policy
            == RestartPolicy::Always || policy == RestartPolicy::OnFailure,
        restarts(policy, ChildOutcome::Exited { success: true }) <==> policy
            == RestartPolicy::Always,
        report(policy, ChildOutcome::Cancelled) == ModuleState::Stopped,
        report(policy, ChildOutcome::SpawnFailed) == ModuleState::Failed,
        report(policy, ChildOutcome::Exited { success: false }) == (if policy
            == RestartPolicy::Never {
            ModuleState::Failed
        } else {
            ModuleState::Running
        }),
        report(policy, ChildOutcome::Exited { success: true }) == (if policy
            == RestartPolicy::Always {
            ModuleState::Running
        } else {
            ModuleState::Stopped
        }),
{
}

/// A run of half a minute or longer makes the next wait the shortest, one second; after
/// a shorter one, or where the module could not begin, the wait is the one that was due.
/// The wait after it is twice as long, and never over a minute.
pub proof fn law_waits_between_runs(backoff: u64, success: bool, ran_for_ms: u64)
    ensures
        wait_before(backoff, ChildOutcome::SpawnFailed, ran_for_ms) == backoff,
        ran_for_ms >= 30000 ==> wait_before(
            backoff,
            ChildOutcome::Exited { success },
            ran_for_ms,
        ) == 1,
        ran_for_ms < 30000 ==> wait_before(
            backoff,
            ChildOutcome::Exited { success },
            ran_for_ms,
        ) == backoff,
        backoff < 30 ==> doubled(backoff) == 2 * backoff,
        backoff >= 30 ==> doubled(backoff) == 60,
{
}

/// A module with the policy `Never` runs once, one with `OnFailure` is not run
/// again after a success, and cancelling ends the supervision in any case.
pub proof fn law_restart_policies(policy: RestartPolicy, outcome: ChildOutcome)
    ensures
        policy == RestartPolicy::Never ==> !restarts(policy, outcome),
        policy == RestartPolicy::OnFailure && outcome == (ChildOutcome::Exited { success: true })
            ==> !restarts(policy, outcome),
        policy == RestartPolicy::Always && !(outcome is Cancelled) ==> restarts(policy, outcome),
        outcome is Cancelled ==> !restarts(policy, outcome) && report(policy, outcome)
            == ModuleState::Stopped,
{
}

// ---------------------------------------------------------------------------
// Output
// ---------------------------------------------------------------------------

/// The longest line that is taken from a module, in bytes. A longer one is
/// dropped.
pub const MAX_LINE: usize = 2048;

/// How many lines wait for the log at most.
pub const OUTPUT_QUEUE: usize = 64;

/// A line that came to its end.
#[derive(Debug, Clone, PartialEq)]
pub enum OutputLine {
    /// Its text.
    Text(String),
    /// It was too long.
    Dropped,
}

/// A line as plain values.
pub enum OutputView {
    Text(Seq<char>),
    Dropped,
}

impl View for OutputLine {
    type V = OutputView;

    open spec fn view(&self) -> OutputView {
        match self {
            OutputLine::Text(s) => OutputView::Text(s@),
            OutputLine::Dropped => OutputView::Dropped,
        }
    }
}

/// The values of lines.
pub open spec fn lines_view(v: Seq<OutputLine>) -> Seq<OutputView> {
    v.map_values(|l: OutputLine| l@)
}

/// The line without a carriage return at its end.
pub open spec fn without_cr(line: Seq<u8>) -> Seq<u8> {
    if line.len() > 0 && line.last() == 13 {
        line.drop_last()
    } else {
        line
    }
}

/// The text of a line: without a carriage return at its end, and marked where it
/// went to the error output.
pub open spec fn line_text(line: Seq<u8>, is_err: bool) -> Seq<char> {
    if is_err {
        "stderr: "@ + text::lossy_text(without_cr(line))
    } else {
        text::lossy_text(without_cr(line))
    }
}

/// What becomes of a line.
pub open spec fn output_line(line: Seq<u8>, is_err: bool) -> OutputView {
    if line.len() > MAX_LINE {
        OutputView::Dropped
    } else {
        OutputView::Text(line_text(line, is_err))
    }
}

/// What follows the last line feed.
pub open spec fn unfinished(bytes: Seq<u8>) -> Seq<u8>
    decreases bytes.len(),
{
    if bytes.len() == 0 || bytes.last() == 10 {
        seq![]
    } else {
        unfinished(bytes.drop_last()).push(bytes.last())
    }
}

/// What becomes of the lines that end in a line feed.
pub open spec fn finished(bytes: Seq<u8>, is_err: bool) -> Seq<OutputView>
    decreases bytes.len(),
{
    if bytes.len() == 0 {
        seq![]
    } else if bytes.last() == 10 {
        finished(bytes.drop_last(), is_err).push(
            output_line(unfinished(bytes.drop_last()), is_err),
        )
    } else {
        finished(bytes.drop_last(), is_err)
    }
}

/// What becomes of the lines that end in a chunk, after what was seen before.
pub open spec fn new_lines(seen: Seq<u8>, chunk: Seq<u8>, is_err: bool) -> Seq<OutputView> {
    finished(seen + chunk, is_err).skip(finished(seen, is_err).len() as int)
}

/// The text of a line.
pub fn emit(line: &[u8], is_err: bool) -> (r: String)
    ensures
        r@ == line_text(line@, is_err),
{
    let n: usize = line.len();
    let mut bytes: Vec<u8> = Vec::new();
    let end: usize = if n > 0 && line[n - 1] == 13 {
        n - 1
    } else {
        n
    };
    let mut i: usize = 0;
    while i < end
        invariant
            i <= end <= line@.len(),
            bytes@ == line@.take(i as int),
        decreases end - i,
    {
        bytes.push(line[i]);
        proof {
            assert(line@.take(i + 1) =~= line@.take(i as int).push(line@[i as int]));
        }
        i += 1;
    }
    proof {
        assert(bytes@ =~= without_cr(line@));
    }
    let t = from_utf8_lossy(&bytes);
    if is_err {
        let mut s = "stderr: ".to_string();
        s.append(&t);
        s
    } else {
        t
    }
}

/// Cuts the output of a module into lines. It holds at most `MAX_LINE` bytes,
/// whatever the module writes.
pub struct Pump {
    line: Vec<u8>,
    overlong: bool,
    is_err: bool,
    seen: Ghost<Seq<u8>>,
}

impl Pump {
    #[verifier::type_invariant]
    spec fn wf(self) -> bool {
        &&& self.overlong == (unfinished(self.seen@).len() > MAX_LINE)
        &&& self.overlong ==> self.line@.len() == 0
        &&& !self.overlong ==> self.line@ == unfinished(self.seen@)
    }

    /// The bytes taken so far.
    pub closed spec fn seen(self) -> Seq<u8> {
        self.seen@
    }

    /// Whether this is the error output.
    pub closed spec fn is_err(self) -> bool {
        self.is_err
    }

    /// How many bytes it holds.
    pub closed spec fn held(self) -> nat {
        self.line@.len()
    }

    /// Before the first byte.
    pub fn new(is_err: bool) -> (r: Self)
        ensures
            r.seen() == Seq::<u8>::empty(),
            r.is_err() == is_err,
    {
        let r = Pump { line: Vec::new(), overlong: false, is_err, seen: Ghost(Seq::<u8>::empty()) };
        proof {
            assert(r.seen() =~= Seq::<u8>::empty());
        }
        r
    }

    fn take_byte(self, b: u8) -> (r: (Self, Option<OutputLine>))
        ensures
            r.0.seen() == self.seen().push(b),
            r.0.is_err() == self.is_err(),
            match r.1 {
                Some(l) => b == 10 && l@ == output_line(unfinished(self.seen()), self.is_err()),
                None => b != 10,
            },
    {
        proof {
            use_type_invariant(&self);
        }
        let Pump { line, overlong, is_err, seen } = self;
        let ghost all = seen@.push(b);
        proof {
            assert(all.drop_last() =~= seen@);
        }
        if b == 10 {
            let out = if overlong {
                OutputLine::Dropped
            } else {
                OutputLine::Text(emit(&line, is_err))
            };
            return (
                Pump { line: Vec::new(), overlong: false, is_err, seen: Ghost(all) },
                Some(out),
            );
        }
        if overlong {
            return (Pump { line, overlong, is_err, seen: Ghost(all) }, None);
        }
        if line.len() == MAX_LINE {
            return (Pump { line: Vec::new(), overlong: true, is_err, seen: Ghost(all) }, None);
        }
        let mut line = line;
        line.push(b);
        (Pump { line, overlong, is_err, seen: Ghost(all) }, None)
    }

    /// Takes a chunk. Returns what becomes of the lines that end in it. How the
    /// output is cut into chunks makes no difference.
    pub fn feed(self, chunk: &[u8]) -> (r: (Self, Vec<OutputLine>))
        ensures
            r.0.seen() == self.seen() + chunk@,
            r.0.is_err() == self.is_err(),
            lines_view(r.1@) == new_lines(self.seen(), chunk@, self.is_err()),
            r.0.held() <= MAX_LINE,
    {
        let ghost before = self.seen();
        let ghost is_err = self.is_err();
        let mut pump = self;
        let mut out: Vec<OutputLine> = Vec::new();
        let mut i: usize = 0;
        proof {
            assert(before + chunk@.take(0) =~= before);
            assert(lines_view(out@) =~= Seq::<OutputView>::empty());
            assert(finished(before, is_err) + lines_view(out@) =~= finished(before, is_err));
        }
        while i < chunk.len()
            invariant
                i <= chunk@.len(),
                pump.seen() == before + chunk@.take(i as int),
                pump.is_err() == is_err,
                finished(before, is_err) + lines_view(out@) == finished(
                    before + chunk@.take(i as int),
                    is_err,
                ),
            decreases chunk@.len() - i,
        {
            let ghost seen = pump.seen();
            let ghost lines = out@;
            let (next, line) = pump.take_byte(chunk[i]);
            pump = next;
            proof {
                assert(before + chunk@.take(i + 1) =~= seen.push(chunk@[i as int]));
                assert(seen.push(chunk@[i as int]).drop_last() =~= seen);
            }
            match line {
                Some(l) => {
                    out.push(l);
                    proof {
                        assert(lines_view(out@) =~= lines_view(lines).push(l@));
                        assert(finished(before, is_err) + lines_view(out@) =~= (finished(
                            before,
                            is_err,
                        ) + lines_view(lines)).push(l@));
                    }
                },
                None => {},
            }
            i += 1;
        }
        proof {
            assert(chunk@.take(chunk@.len() as int) =~= chunk@);
            assert(lines_view(out@) =~= new_lines(before, chunk@, is_err));
            use_type_invariant(&pump);
        }
        (pump, out)
    }

    /// The end of the output: a last line without a line feed still counts, unless
    /// it is empty or too long.
    pub fn finish(self) -> (r: Option<String>)
        ensures
            text::opt(r) == (if 0 < unfinished(self.seen()).len() <= MAX_LINE {
                Some(line_text(unfinished(self.seen()), self.is_err()))
            } else {
                None
            }),
    {
        proof {
            use_type_invariant(&self);
        }
        if self.overlong || self.line.len() == 0 {
            None
        } else {
            Some(emit(&self.line, self.is_err))
        }
    }
}

/// What was finished stays so, whatever follows.
proof fn lemma_finished_stays(a: Seq<u8>, b: Seq<u8>, is_err: bool)
    ensures
        finished(a, is_err).len() <= finished(a + b, is_err).len(),
        finished(a + b, is_err).take(finished(a, is_err).len() as int) == finished(a, is_err),
    decreases b.len(),
{
    if b.len() > 0 {
        let c = b.drop_last();
        lemma_finished_stays(a, c, is_err);
        assert((a + b).drop_last() =~= a + c);
        assert((a + b).last() == b.last());
        let f = finished(a, is_err);
        let n = f.len() as int;
        if b.last() == 10 {
            let l = output_line(unfinished(a + c), is_err);
            assert(finished(a + c, is_err).push(l).take(n) =~= finished(a + c, is_err).take(n));
        }
    } else {
        assert(a + b =~= a);
        assert(finished(a, is_err).take(finished(a, is_err).len() as int) =~= finished(a, is_err));
    }
}

/// The chunks put together.
pub open spec fn joined(chunks: Seq<Seq<u8>>) -> Seq<u8>
    decreases chunks.len(),
{
    if chunks.len() == 0 {
        seq![]
    } else {
        joined(chunks.drop_last()) + chunks.last()
    }
}

/// What comes out of a pump that is fed the chunks one after the other.
pub open spec fn pumped(chunks: Seq<Seq<u8>>, is_err: bool) -> Seq<OutputView>
    decreases chunks.len(),
{
    if chunks.len() == 0 {
        seq![]
    } else {
        pumped(chunks.drop_last(), is_err) + new_lines(
            joined(chunks.drop_last()),
            chunks.last(),
            is_err,
        )
    }
}

/// However the output is cut into chunks, the same lines come out: those of the whole
/// output.
pub proof fn law_chunks_make_no_difference(chunks: Seq<Seq<u8>>, is_err: bool)
    ensures
        pumped(chunks, is_err) == finished(joined(chunks), is_err),
    decreases chunks.len(),
{
    if chunks.len() > 0 {
        let before = chunks.drop_last();
        law_chunks_make_no_difference(before, is_err);
        lemma_finished_stays(joined(before), chunks.last(), is_err);
        let all = finished(joined(chunks), is_err);
        let n = finished(joined(before), is_err).len() as int;
        assert(all.take(n) + all.skip(n) =~= all);
    }
}

proof fn lemma_unfinished_line(before: Seq<u8>, line: Seq<u8>)
    requires
        before.len() == 0 || before.last() == 10,
        forall|k: int| 0 <= k < line.len() ==> line[k] != 10,
    ensures
        unfinished(before + line) == line,
    decreases line.len(),
{
    let all = before + line;
    if line.len() == 0 {
        assert(all =~= before);
        assert(line =~= Seq::<u8>::empty());
    } else {
        let l = line.drop_last();
        lemma_unfinished_line(before, l);
        assert(all.drop_last() =~= before + l);
        assert(all.last() == line[line.len() - 1]);
        assert(l.push(line.last()) =~= line);
    }
}

proof fn lemma_finished_line(before: Seq<u8>, line: Seq<u8>, is_err: bool)
    requires
        forall|k: int| 0 <= k < line.len() ==> line[k] != 10,
    ensures
        finished(before + line, is_err) == finished(before, is_err),
    decreases line.len(),
{
    let all = before + line;
    if line.len() == 0 {
        assert(all =~= before);
    } else {
        lemma_finished_line(before, line.drop_last(), is_err);
        assert(all.drop_last() =~= before + line.drop_last());
        assert(all.last() == line[line.len() - 1]);
    }
}

/// A line of at most 2048 bytes comes out as its text once its line feed is there: all of
/// it but a carriage return at its end, and behind `stderr: ` where it went to the error
/// output. Of a longer one comes out that it was dropped. It makes no difference what was
/// written before.
pub proof fn law_each_line_comes_out(before: Seq<u8>, line: Seq<u8>, is_err: bool)
    requires
        before.len() == 0 || before.last() == 10,
        forall|k: int| 0 <= k < line.len() ==> line[k] != 10,
    ensures
        ({
            let text = if line.len() > 0 && line[line.len() - 1] == 13 {
                text::lossy_text(line.take(line.len() - 1))
            } else {
                text::lossy_text(line)
            };
            let out = finished(before + line + seq![10u8], is_err);
            &&& out.len() == finished(before, is_err).len() + 1
            &&& out.take(finished(before, is_err).len() as int) == finished(before, is_err)
            &&& line.len() > 2048 ==> out.last() == OutputView::Dropped
            &&& line.len() <= 2048 && !is_err ==> out.last() == OutputView::Text(text)
            &&& line.len() <= 2048 && is_err ==> out.last() == OutputView::Text(
                "stderr: "@ + text,
            )
        }),
{
    let all = before + line + seq![10u8];
    lemma_unfinished_line(before, line);
    lemma_finished_line(before, line, is_err);
    assert(all.drop_last() =~= before + line);
    assert(all.last() == 10);
    let f = finished(before, is_err);
    assert(finished(all, is_err).take(f.len() as int) =~= f);
    if line.len() > 0 {
        assert(line.drop_last() =~= line.take(line.len() - 1));
    }
}

} // verus!
