//! The agent itself: its arguments, what it says at startup, the states that it
//! seeds, and which processes are older instances of it.

use crate::config::{Config, FeatureConfig};
use crate::power::display;
use crate::text;
use crate::text::{chars_of, from_utf16_lossy, read_unsigned, split_char, string_of, trim_chars};
use vstd::prelude::*;
use vstd::string::*;

verus! {

// ---------------------------------------------------------------------------
// Arguments
// ---------------------------------------------------------------------------

/// What the command line and the environment ask for.
#[derive(Debug, Clone, Copy, PartialEq, Eq, Structural)]
pub struct Arguments {
    pub ui: bool,
    pub setup: bool,
    pub reset_password: bool,
    pub dry_run: bool,
}

fn has_argument(args: &Vec<String>, name: &str) -> (r: bool)
    ensures
        r == text::views(args@).contains(name@),
{
    let mut i: usize = 0;
    while i < args.len()
        invariant
            i <= args.len(),
            forall|k: int| 0 <= k < i ==> text::views(args@)[k] != name@,
        decreases args.len() - i,
    {
        if args[i].as_str().eq(name) {
            proof {
                assert(text::views(args@)[i as int] == name@);
            }
            return true;
        }
        i += 1;
    }
    false
}

/// Reads the arguments. `dry_run_variable` is the value of the environment variable
/// that asks for a dry run.
pub fn read_arguments(args: &Vec<String>, dry_run_variable: Option<&str>) -> (r: Arguments)
    ensures
        r.ui == text::views(args@).contains("--ui"@),
        r.setup == text::views(args@).contains("--setup"@),
        r.reset_password == text::views(args@).contains("--reset-password"@),
        r.dry_run == (text::views(args@).contains("--dry-run"@) || (dry_run_variable matches Some(v)
            && (v@ == "1"@ || v@ == "true"@))),
{
    let by_variable = match dry_run_variable {
        Some(v) => v.eq("1") || v.eq("true"),
        None => false,
    };
    Arguments {
        ui: has_argument(args, "--ui"),
        setup: has_argument(args, "--setup"),
        reset_password: has_argument(args, "--reset-password"),
        dry_run: has_argument(args, "--dry-run") || by_variable,
    }
}

// ---------------------------------------------------------------------------
// Features
// ---------------------------------------------------------------------------

/// How many of the switches are on.
pub open spec fn count_on(switches: Seq<bool>) -> nat
    decreases switches.len(),
{
    if switches.len() == 0 {
        0
    } else if switches.last() {
        count_on(switches.drop_last()) + 1
    } else {
        count_on(switches.drop_last())
    }
}

/// The switches of games, idle time, power and commands.
pub open spec fn command_switches(f: FeatureConfig) -> Seq<bool> {
    seq![
        f.running_game,
        f.game_catalog,
        f.steam_library,
        f.launch_game,
        f.close_game,
        f.idle_tracking,
        f.sleep_wake,
        f.display_state,
        f.cmd_shutdown,
        f.cmd_restart,
        f.cmd_sleep,
        f.cmd_lock,
        f.cmd_logoff,
        f.cmd_monitor,
        f.notifications,
    ]
}

/// The switches of sensors.
pub open spec fn sensor_switches(f: FeatureConfig) -> Seq<bool> {
    seq![
        f.cpu_sensor,
        f.memory_sensor,
        f.active_window,
        f.session_state,
        f.audio_device,
        f.mic,
        f.webcam,
        f.now_playing,
        f.volume,
        f.media_controls,
        f.steam_updates,
        f.discord,
        f.gpu_sensor,
        f.network_sensor,
        f.disk_sensor,
        f.uptime_sensor,
        f.hwinfo_sensor,
    ]
}

/// How many features are on, custom sensors and custom commands among them.
pub open spec fn counted_features(c: Config) -> nat {
    count_on(command_switches(c.features)) + count_on(sensor_switches(c.features)) + count_on(
        seq![c.custom_sensors_enabled, c.custom_commands_enabled],
    )
}

fn count(switches: &Vec<bool>) -> (r: u64)
    requires
        switches@.len() <= 100,
    ensures
        r as nat == count_on(switches@),
        r <= 100,
{
    let mut n: u64 = 0;
    let mut i: usize = 0;
    proof {
        assert(switches@.take(0) =~= Seq::<bool>::empty());
    }
    while i < switches.len()
        invariant
            i <= switches.len() <= 100,
            n <= i,
            n as nat == count_on(switches@.take(i as int)),
        decreases switches.len() - i,
    {
        proof {
            assert(switches@.take(i + 1).drop_last() =~= switches@.take(i as int));
            assert(switches@.take(i + 1).last() == switches@[i as int]);
        }
        if switches[i] {
            n += 1;
        }
        i += 1;
    }
    proof {
        assert(switches@.take(switches@.len() as int) =~= switches@);
    }
    n
}

fn count_commands(f: &FeatureConfig) -> (r: u64)
    ensures
        r as nat == count_on(command_switches(*f)),
        r <= 100,
{
    let switches: Vec<bool> = vec![
        f.running_game,
        f.game_catalog,
        f.steam_library,
        f.launch_game,
        f.close_game,
        f.idle_tracking,
        f.sleep_wake,
        f.display_state,
        f.cmd_shutdown,
        f.cmd_restart,
        f.cmd_sleep,
        f.cmd_lock,
        f.cmd_logoff,
        f.cmd_monitor,
        f.notifications,
    ];
    proof {
        assert(switches@ =~= command_switches(*f));
    }
    count(&switches)
}

fn count_sensors(f: &FeatureConfig) -> (r: u64)
    ensures
        r as nat == count_on(sensor_switches(*f)),
        r <= 100,
{
    let switches: Vec<bool> = vec![
        f.cpu_sensor,
        f.memory_sensor,
        f.active_window,
        f.session_state,
        f.audio_device,
        f.mic,
        f.webcam,
        f.now_playing,
        f.volume,
        f.media_controls,
        f.steam_updates,
        f.discord,
        f.gpu_sensor,
        f.network_sensor,
        f.disk_sensor,
        f.uptime_sensor,
        f.hwinfo_sensor,
    ];
    proof {
        assert(switches@ =~= sensor_switches(*f));
    }
    count(&switches)
}

/// What the log says of the features that are on.
pub fn log_enabled_features(c: &Config) -> (r: String)
    ensures
        r@ == (if counted_features(*c) == 0 {
            "No features enabled - running in minimal mode"@
        } else {
            "Features enabled: "@ + text::decimal(counted_features(*c))
        }),
{
    let custom: Vec<bool> = vec![c.custom_sensors_enabled, c.custom_commands_enabled];
    proof {
        assert(custom@ =~= seq![c.custom_sensors_enabled, c.custom_commands_enabled]);
    }
    let n: u64 = count_commands(&c.features) + count_sensors(&c.features) + count(&custom);
    if n == 0 {
        return "No features enabled - running in minimal mode".to_string();
    }
    let mut s = "Features enabled: ".to_string();
    text::push_decimal(&mut s, n);
    s
}

// ---------------------------------------------------------------------------
// Seeds
// ---------------------------------------------------------------------------

/// The states that are published before the sensors have said anything.
pub open spec fn seeds(f: FeatureConfig) -> Seq<(Seq<char>, Seq<char>)> {
    (if f.sleep_wake {
        seq![("sleep_state"@, "awake"@)]
    } else {
        seq![]
    }) + (if f.display_state {
        seq![("display"@, "on"@)]
    } else {
        seq![]
    }) + (if f.session_state {
        seq![("session"@, "unlocked"@)]
    } else {
        seq![]
    })
}

/// The states that are published, retained, before the sensors have said anything:
/// each under the feature of its sensor.
pub fn seed_states(f: &FeatureConfig) -> (r: Vec<(&'static str, &'static str)>)
    ensures
        r@.map_values(|x: (&'static str, &'static str)| (x.0@, x.1@)) == seeds(*f),
{
    let mut out: Vec<(&'static str, &'static str)> = Vec::new();
    if f.sleep_wake {
        out.push(("sleep_state", "awake"));
    }
    if f.display_state {
        out.push(("display", "on"));
    }
    if f.session_state {
        out.push(("session", "unlocked"));
    }
    proof {
        assert(out@.map_values(|x: (&'static str, &'static str)| (x.0@, x.1@)) =~= seeds(*f));
    }
    out
}

// ---------------------------------------------------------------------------
// Startup
// ---------------------------------------------------------------------------

/// What the agent does before it loads its configuration.
#[derive(Debug, Clone, Copy, PartialEq, Eq, Structural)]
pub enum Preparation {
    /// Ask for a new password and exit.
    ResetPassword,
    /// Let the user set the agent up.
    Setup,
    /// Load the configuration.
    Load,
    /// Exit: the setup was not finished.
    Exit,
}

/// What the agent does before it loads its configuration. `set_up` says whether the
/// user has been through the setup, `first_run` whether there is still no
/// configuration.
pub fn prepare(args: &Arguments, set_up: bool, first_run: bool) -> (r: Preparation)
    ensures
        r == (if args.reset_password {
            Preparation::ResetPassword
        } else if !set_up && (args.setup || first_run) {
            Preparation::Setup
        } else if set_up && first_run {
            Preparation::Exit
        } else {
            Preparation::Load
        }),
{
    if args.reset_password {
        Preparation::ResetPassword
    } else if !set_up && (args.setup || first_run) {
        Preparation::Setup
    } else if set_up && first_run {
        Preparation::Exit
    } else {
        Preparation::Load
    }
}

/// What the agent starts and publishes once it is connected.
#[derive(Debug, Clone, Copy, PartialEq, Eq, Structural)]
pub enum StartupStep {
    /// Watch processes, and look at them every so many seconds where that fails.
    WatchProcesses(u64),
    /// Take commands.
    RunCommands,
    /// Announce the entities again whenever the connection comes back.
    AnnounceOnReconnect,
    /// Read the snapshots of HWiNFO.
    RunHwInfoSensor,
    /// Announce the custom sensors.
    RegisterCustomSensors,
    /// Start and stop the sensors as their features change.
    RunSupervisor,
    /// Announce the custom commands.
    RegisterCustomCommands,
    /// Watch the configuration file.
    WatchConfig,
    /// Say that the agent is online.
    PublishOnline,
    /// Say that HWiNFO has not been seen yet.
    PublishHwInfoOffline,
    /// Publish the seeds.
    PublishSeeds,
}

/// A step that is taken only on a condition.
pub open spec fn step_if(on: bool, step: StartupStep) -> Seq<StartupStep> {
    if on {
        seq![step]
    } else {
        seq![]
    }
}

/// How often processes are looked at, at least every five seconds apart.
pub open spec fn process_poll_secs(c: Config) -> u64 {
    if c.intervals.game_sensor < 5 {
        5
    } else {
        c.intervals.game_sensor
    }
}

/// The steps of a startup, in order. Processes and HWiNFO are watched on Windows
/// only.
pub open spec fn startup(c: Config, windows: bool) -> Seq<StartupStep> {
    step_if(
        windows && (c.features.running_game || c.features.idle_tracking),
        StartupStep::WatchProcesses(process_poll_secs(c)),
    ) + seq![StartupStep::RunCommands] + seq![StartupStep::AnnounceOnReconnect] + step_if(
        windows && c.features.hwinfo_sensor,
        StartupStep::RunHwInfoSensor,
    ) + step_if(
        c.custom_sensors_enabled && c.custom_sensors@.len() > 0,
        StartupStep::RegisterCustomSensors,
    ) + seq![StartupStep::RunSupervisor] + step_if(
        c.custom_commands_enabled && c.custom_commands@.len() > 0,
        StartupStep::RegisterCustomCommands,
    ) + seq![StartupStep::WatchConfig] + seq![StartupStep::PublishOnline] + step_if(
        windows && c.features.hwinfo_sensor,
        StartupStep::PublishHwInfoOffline,
    ) + seq![StartupStep::PublishSeeds]
}

fn push_if(steps: &mut Vec<StartupStep>, on: bool, step: StartupStep)
    ensures
        final(steps)@ == old(steps)@ + step_if(on, step),
{
    if on {
        steps.push(step);
    }
    proof {
        assert(steps@ =~= old(steps)@ + step_if(on, step));
    }
}

/// The steps of a startup, in order.
pub fn startup_steps(c: &Config, windows: bool) -> (r: Vec<StartupStep>)
    ensures
        r@ == startup(*c, windows),
{
    let secs: u64 = if c.intervals.game_sensor < 5 {
        5
    } else {
        c.intervals.game_sensor
    };
    let games = windows && (c.features.running_game || c.features.idle_tracking);
    let hwinfo = windows && c.features.hwinfo_sensor;
    let sensors = c.custom_sensors_enabled && c.custom_sensors.len() > 0;
    let commands = c.custom_commands_enabled && c.custom_commands.len() > 0;
    let mut out: Vec<StartupStep> = Vec::new();
    push_if(&mut out, games, StartupStep::WatchProcesses(secs));
    proof {
        assert(out@ =~= step_if(games, StartupStep::WatchProcesses(secs)));
    }
    push_if(&mut out, true, StartupStep::RunCommands);
    push_if(&mut out, true, StartupStep::AnnounceOnReconnect);
    push_if(&mut out, hwinfo, StartupStep::RunHwInfoSensor);
    push_if(&mut out, sensors, StartupStep::RegisterCustomSensors);
    push_if(&mut out, true, StartupStep::RunSupervisor);
    push_if(&mut out, commands, StartupStep::RegisterCustomCommands);
    push_if(&mut out, true, StartupStep::WatchConfig);
    push_if(&mut out, true, StartupStep::PublishOnline);
    push_if(&mut out, hwinfo, StartupStep::PublishHwInfoOffline);
    push_if(&mut out, true, StartupStep::PublishSeeds);
    out
}

// ---------------------------------------------------------------------------
// Older instances
// ---------------------------------------------------------------------------

/// A name that the program goes or went by on Windows, in lower case.
pub open spec fn program_name(name: Seq<char>) -> bool {
    name == "pc-bridge.exe"@ || name == "pc bridge.exe"@ || name == "pc-agent.exe"@
}

/// Whether a Windows process is another instance of the program. `exe_file` is the
/// UTF-16 name of the process, padded with NULs.
pub fn is_other_instance(exe_file: &[u16], pid: u32, my_pid: u32) -> (r: bool)
    ensures
        r == (program_name(
            text::lowercase(display::without_nuls(text::lossy_utf16(exe_file@))),
        ) && pid != my_pid),
{
    let name = display::strip_nuls(&chars_of(&from_utf16_lossy(exe_file)));
    let lower = string_of(&name).as_str().to_lowercase();
    let l = lower.as_str();
    (l.eq("pc-bridge.exe") || l.eq("pc bridge.exe") || l.eq("pc-agent.exe")) && pid != my_pid
}

/// The process ids that lines hold, other than one's own, in order. A line that
/// holds no id is passed over.
pub open spec fn other_ids(lines: Seq<Seq<char>>, my_pid: u32) -> Seq<u32>
    decreases lines.len(),
{
    if lines.len() == 0 {
        seq![]
    } else {
        let before = other_ids(lines.drop_last(), my_pid);
        match text::parse_unsigned(text::trim(lines.last()), u32::MAX as nat) {
            Some(pid) => if pid != my_pid {
                before.push(pid as u32)
            } else {
                before
            },
            None => before,
        }
    }
}

/// The processes that `pgrep` found, other than this one.
pub fn other_instances(stdout: &str, my_pid: u32) -> (r: Vec<u32>)
    ensures
        r@ == other_ids(text::split_on(stdout@, '\n'), my_pid),
{
    let lines = split_char(&chars_of(stdout), '\n');
    let ghost all = text::split_on(stdout@, '\n');
    let mut out: Vec<u32> = Vec::new();
    let mut i: usize = 0;
    proof {
        assert(all.take(0) =~= Seq::<Seq<char>>::empty());
    }
    while i < lines.len()
        invariant
            i <= lines.len(),
            lines@.len() == all.len(),
            forall|k: int| 0 <= k < lines@.len() ==> (#[trigger] lines@[k])@ == all[k],
            out@ == other_ids(all.take(i as int), my_pid),
        decreases lines.len() - i,
    {
        proof {
            assert(all.take(i + 1).drop_last() =~= all.take(i as int));
            assert(all.take(i + 1).last() == lines@[i as int]@);
        }
        match read_unsigned(&trim_chars(&lines[i]), 0xFFFF_FFFF) {
            Some(pid) => {
                if pid != my_pid as u64 {
                    out.push(pid as u32);
                }
            },
            None => {},
        }
        i += 1;
    }
    proof {
        assert(all.take(all.len() as int) =~= all);
    }
    out
}

// ---------------------------------------------------------------------------
// Passwords
// ---------------------------------------------------------------------------

/// The password that the user typed; an empty one changes nothing.
pub fn new_password(typed: &str) -> (r: Option<String>)
    ensures
        text::opt(r) == (if text::trim(typed@).len() == 0 {
            None
        } else {
            Some(text::trim(typed@))
        }),
{
    let t = trim_chars(&chars_of(typed));
    if t.len() == 0 {
        None
    } else {
        Some(string_of(&t))
    }
}

// ---------------------------------------------------------------------------
// Laws
// ---------------------------------------------------------------------------

proof fn lemma_count_on(s: Seq<bool>)
    ensures
        count_on(s) == s.filter(|b: bool| b).len(),
    decreases s.len(),
{
    reveal(Seq::filter);
    if s.len() > 0 {
        lemma_count_on(s.drop_last());
    }
}

/// How many features are on is how many switches are: those of the features, and those of
/// the custom sensors and the custom commands.
pub proof fn law_every_switch_counts_once(c: Config)
    ensures
        counted_features(c) == command_switches(c.features).filter(|b: bool| b).len()
            + sensor_switches(c.features).filter(|b: bool| b).len() + custom_switches(c),
        c.custom_sensors_enabled && c.custom_commands_enabled ==> custom_switches(c) == 2,
        c.custom_sensors_enabled != c.custom_commands_enabled ==> custom_switches(c) == 1,
        !c.custom_sensors_enabled && !c.custom_commands_enabled ==> custom_switches(c) == 0,
{
    lemma_count_on(command_switches(c.features));
    lemma_count_on(sensor_switches(c.features));
    lemma_two_switches(c.custom_sensors_enabled, c.custom_commands_enabled);
}

/// How many of the two custom switches are on.
pub open spec fn custom_switches(c: Config) -> nat {
    count_on(seq![c.custom_sensors_enabled, c.custom_commands_enabled])
}

proof fn lemma_two_switches(a: bool, b: bool)
    ensures
        count_on(seq![a, b]) == (if a {
            1nat
        } else {
            0nat
        }) + (if b {
            1nat
        } else {
            0nat
        }),
{
    let two = seq![a, b];
    let one = seq![a];
    let none = Seq::<bool>::empty();
    assert(two.drop_last() =~= one);
    assert(one.drop_last() =~= none);
    assert(count_on(none) == 0);
    assert(count_on(one) == (if a {
        1nat
    } else {
        0nat
    }));
}

/// The switches of games, idle time, power and commands, one by one.
pub proof fn law_command_switches(f: FeatureConfig)
    ensures
        command_switches(f).len() == 15,
        command_switches(f)[0] == f.running_game,
        command_switches(f)[1] == f.game_catalog,
        command_switches(f)[2] == f.steam_library,
        command_switches(f)[3] == f.launch_game,
        command_switches(f)[4] == f.close_game,
        command_switches(f)[5] == f.idle_tracking,
        command_switches(f)[6] == f.sleep_wake,
        command_switches(f)[7] == f.display_state,
        command_switches(f)[8] == f.cmd_shutdown,
        command_switches(f)[9] == f.cmd_restart,
        command_switches(f)[10] == f.cmd_sleep,
        command_switches(f)[11] == f.cmd_lock,
        command_switches(f)[12] == f.cmd_logoff,
        command_switches(f)[13] == f.cmd_monitor,
        command_switches(f)[14] == f.notifications,
{
}

/// The switches of sensors, one by one.
pub proof fn law_sensor_switches(f: FeatureConfig)
    ensures
        sensor_switches(f).len() == 17,
        sensor_switches(f)[0] == f.cpu_sensor,
        sensor_switches(f)[1] == f.memory_sensor,
        sensor_switches(f)[2] == f.active_window,
        sensor_switches(f)[3] == f.session_state,
        sensor_switches(f)[4] == f.audio_device,
        sensor_switches(f)[5] == f.mic,
        sensor_switches(f)[6] == f.webcam,
        sensor_switches(f)[7] == f.now_playing,
        sensor_switches(f)[8] == f.volume,
        sensor_switches(f)[9] == f.media_controls,
        sensor_switches(f)[10] == f.steam_updates,
        sensor_switches(f)[11] == f.discord,
        sensor_switches(f)[12] == f.gpu_sensor,
        sensor_switches(f)[13] == f.network_sensor,
        sensor_switches(f)[14] == f.disk_sensor,
        sensor_switches(f)[15] == f.uptime_sensor,
        sensor_switches(f)[16] == f.hwinfo_sensor,
{
}

proof fn lemma_plus_contains<A>(a: Seq<A>, b: Seq<A>, x: A)
    ensures
        (a + b).contains(x) <==> a.contains(x) || b.contains(x),
{
    if a.contains(x) {
        let i = choose|i: int| 0 <= i < a.len() && a[i] == x;
        assert((a + b)[i] == x);
    }
    if b.contains(x) {
        let i = choose|i: int| 0 <= i < b.len() && b[i] == x;
        assert((a + b)[a.len() + i] == x);
    }
    if (a + b).contains(x) {
        let i = choose|i: int| 0 <= i < (a + b).len() && (a + b)[i] == x;
        if i < a.len() {
            assert(a[i] == x);
        } else {
            assert(b[i - a.len()] == x);
        }
    }
}

proof fn lemma_one_contains<A>(a: A, x: A)
    ensures
        seq![a].contains(x) <==> a == x,
        !Seq::<A>::empty().contains(x),
{
    assert(seq![a][0] == a);
}

/// What is published before the sensors have said anything: that the machine is awake,
/// that the display is on and that the session is unlocked, each where its feature is on,
/// and nothing else.
pub proof fn law_seeds(f: FeatureConfig, seed: (Seq<char>, Seq<char>))
    ensures
        seeds(f).contains(seed) <==> (f.sleep_wake && seed == ("sleep_state"@, "awake"@)) || (
        f.display_state && seed == ("display"@, "on"@)) || (f.session_state && seed == (
            "session"@,
            "unlocked"@,
        )),
{
    let a = if f.sleep_wake {
        seq![("sleep_state"@, "awake"@)]
    } else {
        seq![]
    };
    let b = if f.display_state {
        seq![("display"@, "on"@)]
    } else {
        seq![]
    };
    let d = if f.session_state {
        seq![("session"@, "unlocked"@)]
    } else {
        seq![]
    };
    lemma_plus_contains(a + b, d, seed);
    lemma_plus_contains(a, b, seed);
    lemma_one_contains(("sleep_state"@, "awake"@), seed);
    lemma_one_contains(("display"@, "on"@), seed);
    lemma_one_contains(("session"@, "unlocked"@), seed);
}

proof fn lemma_step_if(on: bool, step: StartupStep, x: StartupStep)
    ensures
        step_if(on, step).contains(x) <==> on && x == step,
{
    lemma_one_contains(step, x);
}

/// Which steps a startup takes: the commands, the announcements, the supervisor of the
/// sensors, the configuration watch, the online message and the seeds always, and the
/// others where their feature is on and where there is something to announce. Processes
/// and HWiNFO are watched on Windows only, processes at most every five seconds.
pub proof fn law_startup_steps(c: Config, windows: bool, step: StartupStep)
    ensures
        startup(c, windows).contains(step) <==> match step {
            StartupStep::WatchProcesses(secs) => windows && (c.features.running_game
                || c.features.idle_tracking) && secs == (if c.intervals.game_sensor < 5 {
                5
            } else {
                c.intervals.game_sensor
            }),
            StartupStep::RunCommands => true,
            StartupStep::AnnounceOnReconnect => true,
            StartupStep::RunHwInfoSensor => windows && c.features.hwinfo_sensor,
            StartupStep::RegisterCustomSensors => c.custom_sensors_enabled
                && c.custom_sensors@.len() > 0,
            StartupStep::RunSupervisor => true,
            StartupStep::RegisterCustomCommands => c.custom_commands_enabled
                && c.custom_commands@.len() > 0,
            StartupStep::WatchConfig => true,
            StartupStep::PublishOnline => true,
            StartupStep::PublishHwInfoOffline => windows && c.features.hwinfo_sensor,
            StartupStep::PublishSeeds => true,
        },
{
    let games = windows && (c.features.running_game || c.features.idle_tracking);
    let hwinfo = windows && c.features.hwinfo_sensor;
    let sensors = c.custom_sensors_enabled && c.custom_sensors@.len() > 0;
    let commands = c.custom_commands_enabled && c.custom_commands@.len() > 0;
    let watch = StartupStep::WatchProcesses(process_poll_secs(c));
    let s1 = step_if(games, watch);
    let s2 = s1 + seq![StartupStep::RunCommands];
    let s3 = s2 + seq![StartupStep::AnnounceOnReconnect];
    let s4 = s3 + step_if(hwinfo, StartupStep::RunHwInfoSensor);
    let s5 = s4 + step_if(sensors, StartupStep::RegisterCustomSensors);
    let s6 = s5 + seq![StartupStep::RunSupervisor];
    let s7 = s6 + step_if(commands, StartupStep::RegisterCustomCommands);
    let s8 = s7 + seq![StartupStep::WatchConfig];
    let s9 = s8 + seq![StartupStep::PublishOnline];
    let s10 = s9 + step_if(hwinfo, StartupStep::PublishHwInfoOffline);
    lemma_step_if(games, watch, step);
    lemma_plus_contains(s1, seq![StartupStep::RunCommands], step);
    lemma_one_contains(StartupStep::RunCommands, step);
    lemma_plus_contains(s2, seq![StartupStep::AnnounceOnReconnect], step);
    lemma_one_contains(StartupStep::AnnounceOnReconnect, step);
    lemma_plus_contains(s3, step_if(hwinfo, StartupStep::RunHwInfoSensor), step);
    lemma_step_if(hwinfo, StartupStep::RunHwInfoSensor, step);
    lemma_plus_contains(s4, step_if(sensors, StartupStep::RegisterCustomSensors), step);
    lemma_step_if(sensors, StartupStep::RegisterCustomSensors, step);
    lemma_plus_contains(s5, seq![StartupStep::RunSupervisor], step);
    lemma_one_contains(StartupStep::RunSupervisor, step);
    lemma_plus_contains(s6, step_if(commands, StartupStep::RegisterCustomCommands), step);
    lemma_step_if(commands, StartupStep::RegisterCustomCommands, step);
    lemma_plus_contains(s7, seq![StartupStep::WatchConfig], step);
    lemma_one_contains(StartupStep::WatchConfig, step);
    lemma_plus_contains(s8, seq![StartupStep::PublishOnline], step);
    lemma_one_contains(StartupStep::PublishOnline, step);
    lemma_plus_contains(s9, step_if(hwinfo, StartupStep::PublishHwInfoOffline), step);
    lemma_step_if(hwinfo, StartupStep::PublishHwInfoOffline, step);
    lemma_plus_contains(s10, seq![StartupStep::PublishSeeds], step);
    lemma_one_contains(StartupStep::PublishSeeds, step);
}

/// The agent takes commands, announces itself and watches its configuration before it says
/// that it is online, and the states are seeded at the end.
pub proof fn law_online_comes_late(c: Config, windows: bool, i: int, j: int)
    requires
        0 <= i < startup(c, windows).len(),
        0 <= j < startup(c, windows).len(),
        startup(c, windows)[j] is PublishOnline,
        !(startup(c, windows)[i] is PublishOnline),
        !(startup(c, windows)[i] is PublishHwInfoOffline),
        !(startup(c, windows)[i] is PublishSeeds),
    ensures
        i < j,
        startup(c, windows).last() is PublishSeeds,
{
    let hwinfo = windows && c.features.hwinfo_sensor;
    let offline = step_if(hwinfo, StartupStep::PublishHwInfoOffline);
    let all = startup(c, windows);
    let n = all.len() - 1 - offline.len();
    assert(all[all.len() - 1] is PublishSeeds);
    assert(all[n - 1] is PublishOnline);
    if offline.len() > 0 {
        assert(all[n] is PublishHwInfoOffline);
    }
    assert(i < n - 1);
    assert(all[n - 2] is WatchConfig);
    lemma_online_index(c, windows, j);
}

proof fn lemma_online_index(c: Config, windows: bool, j: int)
    requires
        0 <= j < startup(c, windows).len(),
        startup(c, windows)[j] is PublishOnline,
    ensures
        j == startup(c, windows).len() - 2 - step_if(
            windows && c.features.hwinfo_sensor,
            StartupStep::PublishHwInfoOffline,
        ).len(),
{
}

/// A process runs the program where its name is one of the three that the program goes or
/// went by.
pub proof fn law_names_of_the_program(name: Seq<char>)
    ensures
        program_name(name) <==> name == "pc-bridge.exe"@ || name == "pc bridge.exe"@ || name
            == "pc-agent.exe"@,
{
}

/// A line that holds a process id adds it, unless it is one's own; white space around it
/// does not count. Any other line adds nothing.
pub proof fn law_other_process_ids(
    lines: Seq<Seq<char>>,
    front: Seq<char>,
    pid: u32,
    back: Seq<char>,
    my_pid: u32,
    line: Seq<char>,
)
    requires
        forall|i: int| 0 <= i < front.len() ==> text::white_space(#[trigger] front[i]),
        forall|i: int| 0 <= i < back.len() ==> text::white_space(#[trigger] back[i]),
    ensures
        ({
            let with = other_ids(lines.push(front + text::decimal(pid as nat) + back), my_pid);
            &&& pid != my_pid ==> with == other_ids(lines, my_pid).push(pid)
            &&& pid == my_pid ==> with == other_ids(lines, my_pid)
        }),
        text::parse_unsigned(text::trim(line), u32::MAX as nat) is None ==> other_ids(
            lines.push(line),
            my_pid,
        ) == other_ids(lines, my_pid),
        other_ids(Seq::<Seq<char>>::empty(), my_pid).len() == 0,
{
    let number = text::decimal(pid as nat);
    text::law_decimal_reads_back(pid as nat, u32::MAX as nat);
    text::law_white_space(number[0]);
    text::law_white_space(number.last());
    assert(number.last() == number[number.len() - 1]);
    text::law_trim(front, number, back);
    assert(lines.push(front + number + back).drop_last() =~= lines);
    assert(lines.push(line).drop_last() =~= lines);
}

} // verus!
