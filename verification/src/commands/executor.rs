//! What a command does: the routing from a command's name and payload to an
//! action, and the steps that carry it out on Windows.

use crate::audio::MediaKey;
use crate::commands;
use crate::commands::command_feature_enabled;
use crate::commands::custom;
use crate::commands::custom::{execute_custom_command, Invocation, InvocationView, Platform};
use crate::commands::dry_run;
use crate::commands::dry_run::{leave_channel_keybind, requested_mute, resolve_action};
use crate::commands::launcher;
use crate::commands::launcher::expand_launcher_shortcut;
use crate::commands::variables;
use crate::commands::variables::expand_env_vars;
use crate::config::Config;
use crate::power::sync_mqtt;
use crate::power::sync_mqtt::SyncMqttConfig;
use crate::text;
use crate::text::{chars_of, eq_ignore_case, starts_with, string_of, trim_chars};
use vstd::prelude::*;
use vstd::string::*;

verus! {

/// How many commands may run at a time. One that arrives while as many are
/// running is dropped.
pub const MAX_CONCURRENT_COMMANDS: usize = 5;

// ---------------------------------------------------------------------------
// Payloads
// ---------------------------------------------------------------------------

/// A payload without surrounding white space; `PRESS`, which a button sends, is
/// no payload.
pub open spec fn normalized(payload: Seq<char>) -> Seq<char> {
    if text::same_ignoring_case(text::trim(payload), "PRESS"@) {
        seq![]
    } else {
        text::trim(payload)
    }
}

/// Normalizes a payload.
pub fn normalize_payload(payload: &str) -> (r: String)
    ensures
        r@ == normalized(payload@),
{
    let p = trim_chars(&chars_of(payload));
    if eq_ignore_case(&p, "PRESS") {
        String::new()
    } else {
        string_of(&p)
    }
}

// ---------------------------------------------------------------------------
// Shell commands
// ---------------------------------------------------------------------------

/// The shell command that stands behind a name on Windows.
pub open spec fn predefined(name: Seq<char>) -> Option<Seq<char>> {
    if name == "Screensaver"@ {
        Some("%windir%\\System32\\scrnsave.scr /s"@)
    } else if name == "Shutdown"@ {
        Some("shutdown -s -t 0"@)
    } else if name == "Sleep"@ {
        Some("Rundll32.exe powrprof.dll,SetSuspendState 0,1,0"@)
    } else {
        None
    }
}

/// The shell command that stands behind a name on Windows, if there is one.
pub fn get_predefined_command(name: &str) -> (r: Option<&'static str>)
    ensures
        match r {
            Some(cmd) => predefined(name@) == Some(cmd@),
            None => predefined(name@) is None,
        },
{
    if name.eq("Screensaver") {
        Some("%windir%\\System32\\scrnsave.scr /s")
    } else if name.eq("Shutdown") {
        Some("shutdown -s -t 0")
    } else if name.eq("Sleep") {
        Some("Rundll32.exe powrprof.dll,SetSuspendState 0,1,0")
    } else {
        None
    }
}

/// What a name and a payload resolve to in the shell.
#[derive(Debug, Clone, PartialEq)]
pub enum ShellResolution {
    /// The command that stands behind the name.
    Predefined(String),
    /// The command that a launcher shortcut stands for.
    LauncherShortcut(String),
    /// The payload itself.
    RawCommand(String),
    /// The payload, were it allowed.
    Blocked,
    /// Nothing.
    NotFound,
}

/// A resolution as plain values.
pub enum ShellView {
    Predefined(Seq<char>),
    LauncherShortcut(Seq<char>),
    RawCommand(Seq<char>),
    Blocked,
    NotFound,
}

impl View for ShellResolution {
    type V = ShellView;

    open spec fn view(&self) -> ShellView {
        match self {
            ShellResolution::Predefined(c) => ShellView::Predefined(c@),
            ShellResolution::LauncherShortcut(c) => ShellView::LauncherShortcut(c@),
            ShellResolution::RawCommand(c) => ShellView::RawCommand(c@),
            ShellResolution::Blocked => ShellView::Blocked,
            ShellResolution::NotFound => ShellView::NotFound,
        }
    }
}

/// The order of resolution: what stands behind the name, then the shortcut in the
/// payload, then the payload itself where that is allowed. `behind_name` and
/// `behind_payload` are what the first two give.
pub open spec fn resolution(
    behind_name: Option<Seq<char>>,
    behind_payload: Option<Seq<char>>,
    payload: Seq<char>,
    allow_raw: bool,
) -> ShellView {
    match behind_name {
        Some(cmd) => ShellView::Predefined(cmd),
        None => if payload.len() == 0 {
            ShellView::NotFound
        } else {
            match behind_payload {
                Some(cmd) => ShellView::LauncherShortcut(cmd),
                None => if allow_raw {
                    ShellView::RawCommand(payload)
                } else {
                    ShellView::Blocked
                },
            }
        },
    }
}

/// What a name and a normalized payload resolve to on Windows.
pub open spec fn shell_resolution(
    name: Seq<char>,
    payload: Seq<char>,
    allow_raw: bool,
) -> ShellView {
    resolution(predefined(name), launcher::expanded(payload), payload, allow_raw)
}

/// Resolves a name and a normalized payload to a shell command.
pub fn resolve_shell_command(name: &str, payload: &str, allow_raw_commands: bool) -> (r:
    ShellResolution)
    ensures
        r@ == shell_resolution(name@, payload@, allow_raw_commands),
{
    match get_predefined_command(name) {
        Some(cmd) => {
            return ShellResolution::Predefined(cmd.to_string());
        },
        None => {},
    }
    if chars_of(payload).len() == 0 {
        return ShellResolution::NotFound;
    }
    match expand_launcher_shortcut(payload) {
        Some(cmd) => ShellResolution::LauncherShortcut(cmd),
        None => {
            if allow_raw_commands {
                ShellResolution::RawCommand(payload.to_string())
            } else {
                ShellResolution::Blocked
            }
        },
    }
}

/// What stands behind a name, and what a launcher shortcut stands for, does not
/// depend on whether raw commands are allowed.
pub proof fn law_only_raw_commands_need_permission(name: Seq<char>, payload: Seq<char>)
    ensures
        predefined(name) is Some || launcher::expanded(payload) is Some || payload.len() == 0
            ==> shell_resolution(name, payload, false) == shell_resolution(name, payload, true),
{
}

/// Without permission no raw payload is ever run.
pub proof fn law_raw_commands_are_blocked(name: Seq<char>, payload: Seq<char>)
    ensures
        !(shell_resolution(name, payload, false) is RawCommand),
        shell_resolution(name, payload, false) is Blocked <==> shell_resolution(
            name,
            payload,
            true,
        ) is RawCommand,
{
}

// ---------------------------------------------------------------------------
// PowerShell
// ---------------------------------------------------------------------------

/// The command begins with a cmdlet, which PowerShell runs as it is.
pub open spec fn begins_with_cmdlet(cmd: Seq<char>) -> bool {
    ||| text::has_prefix(cmd, "Start-Process"@)
    ||| text::has_prefix(cmd, "Add-Type"@)
    ||| text::has_prefix(cmd, "Get-Process"@)
    ||| text::has_prefix(cmd, "Stop-Process"@)
    ||| text::has_prefix(cmd, "Set-"@)
    ||| text::has_prefix(cmd, "Get-"@)
    ||| text::has_prefix(cmd, "New-"@)
    ||| text::has_prefix(cmd, "Remove-"@)
    ||| text::has_prefix(cmd, "Invoke-"@)
}

/// Whether PowerShell needs the call operator in front of a command.
pub fn needs_ampersand(cmd: &str) -> (r: bool)
    ensures
        r == !begins_with_cmdlet(cmd@),
{
    let c = chars_of(cmd);
    !(starts_with(&c, "Start-Process") || starts_with(&c, "Add-Type") || starts_with(
        &c,
        "Get-Process",
    ) || starts_with(&c, "Stop-Process") || starts_with(&c, "Set-") || starts_with(&c, "Get-")
        || starts_with(&c, "New-") || starts_with(&c, "Remove-") || starts_with(&c, "Invoke-"))
}

/// The line that PowerShell is given for a command whose references to variables
/// have these values.
pub open spec fn powershell_line_of(cmd: Seq<char>, values: Seq<Option<String>>) -> Seq<char> {
    let expanded = variables::substituted(cmd, values);
    if begins_with_cmdlet(expanded) {
        expanded
    } else {
        "& "@ + expanded
    }
}

/// The line that PowerShell is given: the command with its variables replaced,
/// behind the call operator unless it begins with a cmdlet. `values` holds the
/// values of `variables::referenced_variables(cmd)`.
pub fn powershell_line(cmd: &str, values: &Vec<Option<String>>) -> (r: String)
    ensures
        r@ == powershell_line_of(cmd@, values@),
{
    let expanded = expand_env_vars(cmd, values);
    if needs_ampersand(&expanded) {
        let mut line = "& ".to_string();
        line.append(&expanded);
        line
    } else {
        expanded
    }
}

// ---------------------------------------------------------------------------
// Routing
// ---------------------------------------------------------------------------

/// What a command does, as far as its name and payload tell.
#[derive(Debug, Clone, PartialEq)]
pub enum CommandAction {
    /// Something that the agent does itself.
    Native(&'static str),
    /// A notification with this text.
    Notification(String),
    /// The volume, as the bits of a single-precision number.
    VolumeSet(u32),
    /// Mute or unmute, or toggle where there is no value.
    VolumeMute(Option<bool>),
    /// A shell command.
    Shell(ShellResolution),
    /// Nothing, and why.
    NoOp(&'static str),
}

/// An action as plain values.
pub enum ActionView {
    Native(Seq<char>),
    Notification(Seq<char>),
    VolumeSet(u32),
    VolumeMute(Option<bool>),
    Shell(ShellView),
    NoOp(Seq<char>),
}

impl View for CommandAction {
    type V = ActionView;

    open spec fn view(&self) -> ActionView {
        match self {
            CommandAction::Native(n) => ActionView::Native(n@),
            CommandAction::Notification(t) => ActionView::Notification(t@),
            CommandAction::VolumeSet(v) => ActionView::VolumeSet(*v),
            CommandAction::VolumeMute(m) => ActionView::VolumeMute(*m),
            CommandAction::Shell(s) => ActionView::Shell(s@),
            CommandAction::NoOp(r) => ActionView::NoOp(r@),
        }
    }
}

/// The agent does it itself, whatever the payload.
pub open spec fn is_native_action(name: Seq<char>) -> bool {
    ||| name == "DiscordLeaveChannel"@
    ||| name == "Wake"@
    ||| name == "Lock"@
    ||| name == "Hibernate"@
    ||| name == "Restart"@
    ||| name == "MediaPlayPause"@
    ||| name == "MediaNext"@
    ||| name == "MediaPrevious"@
    ||| name == "MediaStop"@
}

/// The routing of a command. `level` is the number that the normalized payload
/// spells, if it spells one.
pub open spec fn command_action(
    name: Seq<char>,
    payload: Seq<char>,
    allow_raw: bool,
    level: Option<u32>,
) -> ActionView {
    let p = normalized(payload);
    if is_native_action(name) {
        ActionView::Native(name)
    } else if name == "notification"@ {
        if p.len() == 0 {
            ActionView::NoOp("notification_empty"@)
        } else {
            ActionView::Notification(p)
        }
    } else if name == "VolumeSet"@ {
        match level {
            Some(v) => ActionView::VolumeSet(v),
            None => ActionView::NoOp("volume_set_invalid"@),
        }
    } else if name == "VolumeMute"@ {
        ActionView::VolumeMute(dry_run::mute_request(p))
    } else {
        match shell_resolution(name, p, allow_raw) {
            ShellView::Blocked => ActionView::NoOp("blocked"@),
            ShellView::NotFound => ActionView::NoOp("not_found"@),
            s => ActionView::Shell(s),
        }
    }
}

fn native_action(name: &str) -> (r: Option<&'static str>)
    ensures
        match r {
            Some(n) => n@ == name@ && is_native_action(name@),
            None => !is_native_action(name@),
        },
{
    if name.eq("DiscordLeaveChannel") {
        Some("DiscordLeaveChannel")
    } else if name.eq("Wake") {
        Some("Wake")
    } else if name.eq("Lock") {
        Some("Lock")
    } else if name.eq("Hibernate") {
        Some("Hibernate")
    } else if name.eq("Restart") {
        Some("Restart")
    } else if name.eq("MediaPlayPause") {
        Some("MediaPlayPause")
    } else if name.eq("MediaNext") {
        Some("MediaNext")
    } else if name.eq("MediaPrevious") {
        Some("MediaPrevious")
    } else if name.eq("MediaStop") {
        Some("MediaStop")
    } else {
        None
    }
}

/// The routing of a command on Windows, custom commands left aside. `level` holds
/// the bits of the single-precision number that the normalized payload spells, or
/// nothing where it spells none.
pub fn resolve_command_action(
    name: &str,
    payload: &str,
    allow_raw_commands: bool,
    level: Option<u32>,
) -> (r: CommandAction)
    ensures
        r@ == command_action(name@, payload@, allow_raw_commands, level),
{
    let p = normalize_payload(payload);
    match native_action(name) {
        Some(n) => {
            return CommandAction::Native(n);
        },
        None => {},
    }
    if name.eq("notification") {
        if p.as_str().is_empty() {
            return CommandAction::NoOp("notification_empty");
        }
        return CommandAction::Notification(p);
    }
    if name.eq("VolumeSet") {
        return match level {
            Some(v) => CommandAction::VolumeSet(v),
            None => CommandAction::NoOp("volume_set_invalid"),
        };
    }
    if name.eq("VolumeMute") {
        return CommandAction::VolumeMute(requested_mute(&p));
    }
    let resolution = resolve_shell_command(name, &p, allow_raw_commands);
    match &resolution {
        ShellResolution::Blocked => CommandAction::NoOp("blocked"),
        ShellResolution::NotFound => CommandAction::NoOp("not_found"),
        _ => CommandAction::Shell(resolution),
    }
}

// ---------------------------------------------------------------------------
// Steps
// ---------------------------------------------------------------------------

/// Why a command does nothing.
#[derive(Debug, Clone, Copy, PartialEq, Eq, Structural)]
pub enum DropReason {
    /// Its feature is off.
    FeatureDisabled,
    /// A notification without a text.
    EmptyNotification,
    /// A volume that is no number.
    InvalidVolume,
    /// A raw payload that is not allowed.
    RawCommandBlocked,
    /// No command stands behind the name and the payload.
    NotConfigured,
}

/// The step that carries out a command.
#[derive(Debug, Clone)]
pub enum Step {
    /// Publish what a dry run found.
    Report(String),
    /// Do nothing.
    Drop(DropReason),
    /// Play a keybind.
    Keybind(String),
    /// Wake the display.
    WakeDisplay,
    /// Turn the display off.
    MonitorOff,
    /// Show a notification.
    Notify(String),
    /// Lock the session.
    Lock,
    /// Hibernate.
    Hibernate,
    /// Restart the machine.
    Restart,
    /// Publish the sleep state over its own connection and over the main one,
    /// then run the command that suspends the machine.
    Suspend { connection: SyncMqttConfig, command: &'static str },
    /// Close the running games.
    CloseGames,
    /// Set the volume, as the bits of a single-precision number.
    SetVolume(u32),
    /// Toggle mute.
    ToggleMute,
    /// Mute or unmute.
    SetMute(bool),
    /// Press a media key.
    Media(MediaKey),
    /// Look for new games.
    RefreshGames,
    /// Start the process of a custom command.
    Custom(Invocation),
    /// Run a shell command.
    Shell(String),
}

/// A step as plain values.
pub enum StepView {
    Report(Seq<char>),
    Drop(DropReason),
    Keybind(Seq<char>),
    WakeDisplay,
    MonitorOff,
    Notify(Seq<char>),
    Lock,
    Hibernate,
    Restart,
    Suspend { config: Config, command: Seq<char> },
    CloseGames,
    SetVolume(u32),
    ToggleMute,
    SetMute(bool),
    Media(MediaKey),
    RefreshGames,
    Custom(InvocationView),
    Shell(Seq<char>),
}

/// The step is what the view says.
pub open spec fn is_step(s: Step, v: StepView) -> bool {
    match (s, v) {
        (Step::Report(a), StepView::Report(b)) => a@ == b,
        (Step::Drop(a), StepView::Drop(b)) => a == b,
        (Step::Keybind(a), StepView::Keybind(b)) => a@ == b,
        (Step::WakeDisplay, StepView::WakeDisplay) => true,
        (Step::MonitorOff, StepView::MonitorOff) => true,
        (Step::Notify(a), StepView::Notify(b)) => a@ == b,
        (Step::Lock, StepView::Lock) => true,
        (Step::Hibernate, StepView::Hibernate) => true,
        (Step::Restart, StepView::Restart) => true,
        (
            Step::Suspend { connection, command },
            StepView::Suspend { config, command: c },
        ) => sync_mqtt::publishes_sleep_of(connection, config) && command@ == c,
        (Step::CloseGames, StepView::CloseGames) => true,
        (Step::SetVolume(a), StepView::SetVolume(b)) => a == b,
        (Step::ToggleMute, StepView::ToggleMute) => true,
        (Step::SetMute(a), StepView::SetMute(b)) => a == b,
        (Step::Media(a), StepView::Media(b)) => a == b,
        (Step::RefreshGames, StepView::RefreshGames) => true,
        (Step::Custom(a), StepView::Custom(b)) => a@ == b,
        (Step::Shell(a), StepView::Shell(b)) => a@ == b,
        _ => false,
    }
}

/// The outcome is what the view says.
pub open spec fn is_outcome(r: Result<Step, String>, v: Result<StepView, Seq<char>>) -> bool {
    match (r, v) {
        (Ok(s), Ok(t)) => is_step(s, t),
        (Err(m), Err(n)) => m@ == n,
        _ => false,
    }
}

/// The media key behind a name.
pub open spec fn media_key(name: Seq<char>) -> Option<MediaKey> {
    if name == "MediaPlayPause"@ {
        Some(MediaKey::PlayPause)
    } else if name == "MediaNext"@ {
        Some(MediaKey::Next)
    } else if name == "MediaPrevious"@ {
        Some(MediaKey::Previous)
    } else if name == "MediaStop"@ {
        Some(MediaKey::Stop)
    } else {
        None
    }
}

/// The media key behind a name.
pub fn read_media_key(name: &str) -> (r: Option<MediaKey>)
    ensures
        r == media_key(name@),
{
    if name.eq("MediaPlayPause") {
        Some(MediaKey::PlayPause)
    } else if name.eq("MediaNext") {
        Some(MediaKey::Next)
    } else if name.eq("MediaPrevious") {
        Some(MediaKey::Previous)
    } else if name.eq("MediaStop") {
        Some(MediaKey::Stop)
    } else {
        None
    }
}

/// What every platform does alike for a normalized payload: `None` where the
/// platform decides.
pub open spec fn common_step(
    c: Config,
    name: Seq<char>,
    payload: Seq<char>,
    level: Option<u32>,
) -> Option<StepView> {
    if name == "DiscordLeaveChannel"@ {
        Some(StepView::Keybind(dry_run::leave_keybind(c)))
    } else if name == "Wake"@ {
        Some(StepView::WakeDisplay)
    } else if name == "notification"@ {
        if payload.len() == 0 {
            Some(StepView::Drop(DropReason::EmptyNotification))
        } else {
            Some(StepView::Notify(payload))
        }
    } else if name == "VolumeSet"@ {
        match level {
            Some(v) => Some(StepView::SetVolume(v)),
            None => Some(StepView::Drop(DropReason::InvalidVolume)),
        }
    } else if name == "VolumeMute"@ {
        match dry_run::mute_request(payload) {
            Some(mute) => Some(StepView::SetMute(mute)),
            None => Some(StepView::ToggleMute),
        }
    } else if media_key(name) is Some {
        Some(StepView::Media(media_key(name)->0))
    } else if name == "RefreshSteamGames"@ {
        Some(StepView::RefreshGames)
    } else {
        None
    }
}

/// What every platform does alike.
pub fn read_common_step(config: &Config, name: &str, payload: &str, level: Option<u32>) -> (r:
    Option<Step>)
    ensures
        match (r, common_step(*config, name@, payload@, level)) {
            (Some(s), Some(t)) => is_step(s, t),
            (None, None) => true,
            _ => false,
        },
{
    if name.eq("DiscordLeaveChannel") {
        return Some(Step::Keybind(leave_channel_keybind(config)));
    }
    if name.eq("Wake") {
        return Some(Step::WakeDisplay);
    }
    if name.eq("notification") {
        if chars_of(payload).len() == 0 {
            return Some(Step::Drop(DropReason::EmptyNotification));
        }
        return Some(Step::Notify(payload.to_string()));
    }
    if name.eq("VolumeSet") {
        return match level {
            Some(v) => Some(Step::SetVolume(v)),
            None => Some(Step::Drop(DropReason::InvalidVolume)),
        };
    }
    if name.eq("VolumeMute") {
        return match requested_mute(payload) {
            Some(mute) => Some(Step::SetMute(mute)),
            None => Some(Step::ToggleMute),
        };
    }
    match read_media_key(name) {
        Some(key) => {
            return Some(Step::Media(key));
        },
        None => {},
    }
    if name.eq("RefreshSteamGames") {
        return Some(Step::RefreshGames);
    }
    None
}

/// The step of a command that is none of the agent's own: that of the custom
/// command with the name, else the shell command that it resolves to.
pub open spec fn outside_step(
    custom: Result<Option<InvocationView>, Seq<char>>,
    resolved: ShellView,
) -> Result<StepView, Seq<char>> {
    match custom {
        Err(m) => Err(m),
        Ok(Some(i)) => Ok(StepView::Custom(i)),
        Ok(None) => Ok(
            match resolved {
                ShellView::Predefined(cmd) => StepView::Shell(cmd),
                ShellView::LauncherShortcut(cmd) => StepView::Shell(cmd),
                ShellView::RawCommand(cmd) => StepView::Shell(cmd),
                ShellView::Blocked => StepView::Drop(DropReason::RawCommandBlocked),
                ShellView::NotFound => StepView::Drop(DropReason::NotConfigured),
            },
        ),
    }
}

/// The step that a resolution leads to.
pub fn shell_step(resolved: ShellResolution) -> (r: Step)
    ensures
        is_outcome(Ok(r), outside_step(Ok(None), resolved@)),
{
    match resolved {
        ShellResolution::Predefined(cmd) => Step::Shell(cmd),
        ShellResolution::LauncherShortcut(cmd) => Step::Shell(cmd),
        ShellResolution::RawCommand(cmd) => Step::Shell(cmd),
        ShellResolution::Blocked => Step::Drop(DropReason::RawCommandBlocked),
        ShellResolution::NotFound => Step::Drop(DropReason::NotConfigured),
    }
}

/// What happens before a command is carried out: a dry run reports what it would
/// do, and a command whose feature is off is dropped.
pub open spec fn gate(
    c: Config,
    dry: bool,
    name: Seq<char>,
    payload: Seq<char>,
) -> Option<StepView> {
    if dry {
        Some(StepView::Report(dry_run::action(c, name, payload)))
    } else if !commands::feature_enabled(name, c.features) {
        Some(StepView::Drop(DropReason::FeatureDisabled))
    } else {
        None
    }
}

/// What happens before a command is carried out.
pub fn read_gate(config: &Config, dry: bool, name: &str, payload: &str) -> (r: Option<Step>)
    ensures
        match (r, gate(*config, dry, name@, payload@)) {
            (Some(s), Some(t)) => is_step(s, t),
            (None, None) => true,
            _ => false,
        },
{
    if dry {
        return Some(Step::Report(resolve_action(config, name, payload)));
    }
    if !command_feature_enabled(name, &config.features) {
        return Some(Step::Drop(DropReason::FeatureDisabled));
    }
    None
}

/// What a command leads to on Windows.
pub open spec fn windows_step(
    c: Config,
    dry: bool,
    name: Seq<char>,
    payload: Seq<char>,
    level: Option<u32>,
) -> Result<StepView, Seq<char>> {
    let p = normalized(payload);
    if gate(c, dry, name, p) is Some {
        Ok(gate(c, dry, name, p)->0)
    } else if common_step(c, name, p, level) is Some {
        Ok(common_step(c, name, p, level)->0)
    } else if name == "Lock"@ {
        Ok(StepView::Lock)
    } else if name == "Hibernate"@ {
        Ok(StepView::Hibernate)
    } else if name == "Restart"@ {
        Ok(StepView::Restart)
    } else {
        outside_step(
            custom::custom_outcome(c, name, Platform::Windows),
            shell_resolution(name, p, c.allow_raw_commands),
        )
    }
}

/// The step that carries out a command on Windows, or why its custom command
/// cannot be run. `level` holds the bits of the single-precision number that the
/// normalized payload spells, or nothing where it spells none.
pub fn execute_command(
    config: &Config,
    dry: bool,
    name: &str,
    payload: &str,
    level: Option<u32>,
) -> (r: Result<Step, String>)
    ensures
        is_outcome(r, windows_step(*config, dry, name@, payload@, level)),
{
    let p = normalize_payload(payload);
    match read_gate(config, dry, name, &p) {
        Some(s) => {
            return Ok(s);
        },
        None => {},
    }
    match read_common_step(config, name, &p, level) {
        Some(s) => {
            return Ok(s);
        },
        None => {},
    }
    if name.eq("Lock") {
        return Ok(Step::Lock);
    }
    if name.eq("Hibernate") {
        return Ok(Step::Hibernate);
    }
    if name.eq("Restart") {
        return Ok(Step::Restart);
    }
    match execute_custom_command(config, name, Platform::Windows) {
        Err(m) => Err(m),
        Ok(Some(i)) => Ok(Step::Custom(i)),
        Ok(None) => Ok(shell_step(resolve_shell_command(name, &p, config.allow_raw_commands))),
    }
}

/// The routing and the steps agree: where the feature is on, no dry run is made
/// and no custom command has the name, a command is dropped exactly where the
/// routing gives no action, and runs the shell command, shows the notification or
/// sets the volume that the routing gives.
pub proof fn law_steps_follow_the_routing(
    c: Config,
    name: Seq<char>,
    payload: Seq<char>,
    level: Option<u32>,
)
    requires
        commands::feature_enabled(name, c.features),
        custom::custom_outcome(c, name, Platform::Windows) == Ok::<
            Option<InvocationView>,
            Seq<char>,
        >(None),
        name != "RefreshSteamGames"@,
    ensures
        windows_step(c, false, name, payload, level) is Ok,
        command_action(name, payload, c.allow_raw_commands, level) is NoOp <==> (windows_step(
            c,
            false,
            name,
            payload,
            level,
        )->Ok_0) is Drop,
        command_action(name, payload, c.allow_raw_commands, level) is Shell <==> (windows_step(
            c,
            false,
            name,
            payload,
            level,
        )->Ok_0) is Shell,
        match command_action(name, payload, c.allow_raw_commands, level) {
            ActionView::Shell(s) => windows_step(c, false, name, payload, level) == outside_step(
                Ok(None),
                s,
            ),
            ActionView::Notification(p) => windows_step(c, false, name, payload, level) == Ok::<
                StepView,
                Seq<char>,
            >(StepView::Notify(p)),
            ActionView::VolumeSet(v) => windows_step(c, false, name, payload, level) == Ok::<
                StepView,
                Seq<char>,
            >(StepView::SetVolume(v)),
            ActionView::VolumeMute(Some(m)) => windows_step(c, false, name, payload, level)
                == Ok::<StepView, Seq<char>>(StepView::SetMute(m)),
            ActionView::VolumeMute(None) => windows_step(c, false, name, payload, level) == Ok::<
                StepView,
                Seq<char>,
            >(StepView::ToggleMute),
            _ => true,
        },
{
    lemma_special_names_differ();
}

/// A dry run has no effect: it only reports.
pub proof fn law_dry_run_only_reports(
    c: Config,
    name: Seq<char>,
    payload: Seq<char>,
    level: Option<u32>,
)
    ensures
        windows_step(c, true, name, payload, level) == Ok::<StepView, Seq<char>>(
            StepView::Report(dry_run::action(c, name, normalized(payload))),
        ),
{
}

/// A command whose feature is off does nothing.
pub proof fn law_disabled_features_do_nothing(
    c: Config,
    name: Seq<char>,
    payload: Seq<char>,
    level: Option<u32>,
)
    requires
        !commands::feature_enabled(name, c.features),
    ensures
        windows_step(c, false, name, payload, level) == Ok::<StepView, Seq<char>>(
            StepView::Drop(DropReason::FeatureDisabled),
        ),
{
}

proof fn lemma_special_names_differ()
    ensures
        "notification"@ != "VolumeSet"@,
        "notification"@ != "VolumeMute"@,
        "VolumeSet"@ != "VolumeMute"@,
        !is_native_action("notification"@),
        !is_native_action("VolumeSet"@),
        !is_native_action("VolumeMute"@),
{
    reveal_strlit("notification");
    reveal_strlit("VolumeSet");
    reveal_strlit("VolumeMute");
    reveal_strlit("DiscordLeaveChannel");
    reveal_strlit("Wake");
    reveal_strlit("Lock");
    reveal_strlit("Hibernate");
    reveal_strlit("Restart");
    reveal_strlit("MediaPlayPause");
    reveal_strlit("MediaNext");
    reveal_strlit("MediaPrevious");
    reveal_strlit("MediaStop");
    assert("notification"@[0] == 'n' && "VolumeSet"@[0] == 'V' && "VolumeMute"@[0] == 'V');
    assert("VolumeSet"@.len() == 9 && "VolumeMute"@.len() == 10);
    assert("DiscordLeaveChannel"@[0] == 'D' && "Wake"@[0] == 'W' && "Lock"@[0] == 'L');
    assert("Hibernate"@[0] == 'H' && "Restart"@[0] == 'R' && "MediaPlayPause"@[0] == 'M');
    assert("MediaNext"@[0] == 'M' && "MediaPrevious"@[0] == 'M' && "MediaStop"@[0] == 'M');
}

/// What each command that the agent carries out itself does on Windows when its feature is
/// on.
pub proof fn law_own_commands(c: Config, payload: Seq<char>, level: Option<u32>)
    ensures
        ({
            let f = c.features;
            let p = normalized(payload);
            let does = |name: Seq<char>, step: StepView|
                windows_step(c, false, name, payload, level) == Ok::<StepView, Seq<char>>(step);
            &&& f.idle_tracking ==> does("Wake"@, StepView::WakeDisplay)
            &&& f.discord ==> does(
                "DiscordLeaveChannel"@,
                StepView::Keybind(
                    match c.discord_keybind {
                        Some(k) => k@,
                        None => "ctrl+f6"@,
                    },
                ),
            )
            &&& f.steam_library ==> does("RefreshSteamGames"@, StepView::RefreshGames)
            &&& f.media_controls ==> does("MediaPlayPause"@, StepView::Media(MediaKey::PlayPause))
            &&& f.media_controls ==> does("MediaNext"@, StepView::Media(MediaKey::Next))
            &&& f.media_controls ==> does("MediaPrevious"@, StepView::Media(MediaKey::Previous))
            &&& f.media_controls ==> does("MediaStop"@, StepView::Media(MediaKey::Stop))
            &&& p.len() > 0 ==> does("notification"@, StepView::Notify(p))
            &&& p.len() == 0 ==> does(
                "notification"@,
                StepView::Drop(DropReason::EmptyNotification),
            )
            &&& level matches Some(v) ==> does("VolumeSet"@, StepView::SetVolume(v))
            &&& level is None ==> does("VolumeSet"@, StepView::Drop(DropReason::InvalidVolume))
            &&& f.media_controls && (p.len() == 0 || text::same_ignoring_case(p, "press"@)) ==> does(
                "VolumeMute"@,
                StepView::ToggleMute,
            )
            &&& f.media_controls && p.len() > 0 && !text::same_ignoring_case(p, "press"@) ==> does(
                "VolumeMute"@,
                StepView::SetMute(text::same_ignoring_case(p, "true"@) || p == "1"@),
            )
            &&& f.cmd_lock ==> does("Lock"@, StepView::Lock)
            &&& f.cmd_sleep ==> does("Hibernate"@, StepView::Hibernate)
            &&& f.cmd_restart ==> does("Restart"@, StepView::Restart)
        }),
{
    commands::lemma_command_names();
}

/// The shell commands that stand behind names, where no custom command takes the name.
pub proof fn law_commands_behind_names(c: Config, payload: Seq<char>, level: Option<u32>)
    ensures
        ({
            let f = c.features;
            let runs = |name: Seq<char>, line: Seq<char>|
                custom::custom_outcome(c, name, Platform::Windows) == Ok::<
                    Option<InvocationView>,
                    Seq<char>,
                >(None) ==> windows_step(c, false, name, payload, level) == Ok::<StepView, Seq<char>>(
                    StepView::Shell(line),
                );
            &&& f.cmd_shutdown ==> runs("Shutdown"@, "shutdown -s -t 0"@)
            &&& f.cmd_sleep ==> runs(
                "Sleep"@,
                "Rundll32.exe powrprof.dll,SetSuspendState 0,1,0"@,
            )
            &&& f.idle_tracking ==> runs("Screensaver"@, "%windir%\\System32\\scrnsave.scr /s"@)
        }),
{
    commands::lemma_command_names();
}

/// A command that the agent does not carry out itself is the custom command with its
/// name; without one, and with no shell command behind the name, it is the launcher
/// shortcut in the payload, and else the payload itself where raw commands are allowed.
pub proof fn law_other_commands(
    c: Config,
    name: Seq<char>,
    payload: Seq<char>,
    level: Option<u32>,
)
    requires
        commands::feature_enabled(name, c.features),
        name != "DiscordLeaveChannel"@ && name != "Wake"@ && name != "notification"@ && name != "VolumeSet"@ && name != "VolumeMute"@ && name != "RefreshSteamGames"@ && name != "MediaPlayPause"@ && name != "MediaNext"@ && name != "MediaPrevious"@ && name != "MediaStop"@ && name != "Lock"@ && name != "Hibernate"@ && name != "Restart"@,
    ensures
        ({
            let p = normalized(payload);
            let done = windows_step(c, false, name, payload, level);
            match custom::custom_outcome(c, name, Platform::Windows) {
                Err(m) => done == Err::<StepView, Seq<char>>(m),
                Ok(Some(i)) => done == Ok::<StepView, Seq<char>>(StepView::Custom(i)),
                Ok(None) => name != "Shutdown"@ && name != "Sleep"@ && name != "Screensaver"@ ==> {
                    &&& p.len() == 0 ==> done == Ok::<StepView, Seq<char>>(
                        StepView::Drop(DropReason::NotConfigured),
                    )
                    &&& p.len() > 0 ==> match launcher::expanded(p) {
                        Some(line) => done == Ok::<StepView, Seq<char>>(StepView::Shell(line)),
                        None => if c.allow_raw_commands {
                            done == Ok::<StepView, Seq<char>>(StepView::Shell(p))
                        } else {
                            done == Ok::<StepView, Seq<char>>(
                                StepView::Drop(DropReason::RawCommandBlocked),
                            )
                        },
                    }
                },
            }
        }),
{
}

/// A payload counts without the white space around it, and what a button sends, `PRESS` in
/// any letter case, counts as none.
pub proof fn law_normalized_payloads(front: Seq<char>, payload: Seq<char>, back: Seq<char>)
    requires
        forall|i: int| 0 <= i < front.len() ==> text::white_space(#[trigger] front[i]),
        forall|i: int| 0 <= i < back.len() ==> text::white_space(#[trigger] back[i]),
        payload.len() > 0 ==> !text::white_space(payload[0]) && !text::white_space(payload.last()),
    ensures
        text::same_ignoring_case(payload, "PRESS"@) ==> normalized(front + payload + back).len()
            == 0,
        !text::same_ignoring_case(payload, "PRESS"@) ==> normalized(front + payload + back)
            == payload,
{
    text::law_trim(front, payload, back);
}

/// PowerShell is given a command that begins with a cmdlet as it is, and any other behind
/// the call operator.
pub proof fn law_powershell_lines(cmd: Seq<char>, values: Seq<Option<String>>)
    ensures
        ({
            let line = variables::substituted(cmd, values);
            let cmdlet = text::has_prefix(line, "Start-Process"@) || text::has_prefix(
                line,
                "Add-Type"@,
            ) || text::has_prefix(line, "Stop-Process"@) || text::has_prefix(line, "Set-"@)
                || text::has_prefix(line, "Get-"@) || text::has_prefix(line, "New-"@)
                || text::has_prefix(line, "Remove-"@) || text::has_prefix(line, "Invoke-"@);
            &&& cmdlet ==> powershell_line_of(cmd, values) == line
            &&& !cmdlet ==> powershell_line_of(cmd, values) == "& "@ + line
        }),
{
    let line = variables::substituted(cmd, values);
    reveal_strlit("Get-Process");
    reveal_strlit("Get-");
    if text::has_prefix(line, "Get-Process"@) {
        assert forall|i: int| 0 <= i < 4 implies line[i] == "Get-"@[i] by {
            assert(line.take(11)[i] == line[i]);
        }
        assert(line.take(4) =~= "Get-"@);
    }
}

/// A step says one thing: what it is seen as fixes what is done.
pub proof fn law_steps_are_what_they_say(
    s: Step,
    a: Seq<char>,
    d: DropReason,
    v: u32,
    m: bool,
    k: MediaKey,
    i: InvocationView,
    c: Config,
)
    ensures
        is_step(s, StepView::Report(a)) <==> (s matches Step::Report(b) && b@ == a),
        is_step(s, StepView::Drop(d)) <==> (s matches Step::Drop(b) && b == d),
        is_step(s, StepView::Keybind(a)) <==> (s matches Step::Keybind(b) && b@ == a),
        is_step(s, StepView::WakeDisplay) <==> s is WakeDisplay,
        is_step(s, StepView::MonitorOff) <==> s is MonitorOff,
        is_step(s, StepView::Notify(a)) <==> (s matches Step::Notify(b) && b@ == a),
        is_step(s, StepView::Lock) <==> s is Lock,
        is_step(s, StepView::Hibernate) <==> s is Hibernate,
        is_step(s, StepView::Restart) <==> s is Restart,
        is_step(s, StepView::Suspend { config: c, command: a }) <==> (s matches Step::Suspend {
            connection,
            command,
        } && command@ == a && sync_mqtt::publishes_sleep_of(connection, c)),
        is_step(s, StepView::CloseGames) <==> s is CloseGames,
        is_step(s, StepView::SetVolume(v)) <==> (s matches Step::SetVolume(b) && b == v),
        is_step(s, StepView::ToggleMute) <==> s is ToggleMute,
        is_step(s, StepView::SetMute(m)) <==> (s matches Step::SetMute(b) && b == m),
        is_step(s, StepView::Media(k)) <==> (s matches Step::Media(b) && b == k),
        is_step(s, StepView::RefreshGames) <==> s is RefreshGames,
        is_step(s, StepView::Custom(i)) <==> (s matches Step::Custom(b) && b@ == i),
        is_step(s, StepView::Shell(a)) <==> (s matches Step::Shell(b) && b@ == a),
{
}

/// What is returned is the step or the message that is stated.
pub proof fn law_outcomes_are_what_they_say(
    r: Result<Step, String>,
    v: StepView,
    m: Seq<char>,
)
    ensures
        is_outcome(r, Ok(v)) <==> (r matches Ok(s) && is_step(s, v)),
        is_outcome(r, Err(m)) <==> (r matches Err(e) && e@ == m),
{
}

} // verus!
