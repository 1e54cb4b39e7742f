//! The user configuration: its types and defaults, the rules that a valid one
//! meets, the migration of older files and the merge of discovered games.

use crate::json;
use crate::json::{
    find_member, indent_text, read_object, read_unsigned, set_member, write_object, write_unsigned,
    Member,
};
use crate::text;
use crate::text::{
    ascii_alnum, capitalize, chars_of, contains_whitespace, is_number, join_strings, replace_char,
    split_whitespace, starts_with, string_of,
};
use vstd::prelude::*;
use vstd::string::*;

verus! {

// ---------------------------------------------------------------------------
// Types
// ---------------------------------------------------------------------------

/// User configuration (userConfig.json).
#[derive(Debug, Clone)]
pub struct Config {
    pub device_name: String,
    pub mqtt: MqttConfig,
    pub intervals: IntervalConfig,
    pub features: FeatureConfig,
    /// Games by process pattern; no pattern occurs twice.
    pub games: Vec<(String, GameConfig)>,
    pub show_tray_icon: bool,
    pub custom_sensors_enabled: bool,
    pub custom_commands_enabled: bool,
    pub custom_command_privileges_allowed: bool,
    pub allow_raw_commands: bool,
    pub allow_global_launch: bool,
    pub allow_global_close: bool,
    pub discord_keybind: Option<String>,
    pub custom_sensors: Vec<CustomSensor>,
    pub custom_commands: Vec<CustomCommand>,
    pub modules_enabled: bool,
    pub modules: Vec<ModuleDef>,
    pub update_channel: String,
    pub disk_sensor_paths: Vec<String>,
}

/// A game: its id alone, or its id with what is known from Steam.
#[derive(Debug, Clone)]
pub enum GameConfig {
    Simple(String),
    Full {
        game_id: String,
        app_id: Option<u32>,
        name: Option<String>,
        /// Whether the game was discovered from Steam.
        auto_discovered: bool,
    },
}

/// Feature switches.
#[derive(Debug, Clone, Copy, PartialEq, Eq, Structural)]
pub struct FeatureConfig {
    pub running_game: bool,
    pub game_catalog: bool,
    pub steam_library: bool,
    pub launch_game: bool,
    pub close_game: bool,
    pub idle_tracking: bool,
    pub sleep_wake: bool,
    pub display_state: bool,
    pub cmd_shutdown: bool,
    pub cmd_restart: bool,
    pub cmd_sleep: bool,
    pub cmd_lock: bool,
    pub cmd_logoff: bool,
    pub cmd_monitor: bool,
    pub notifications: bool,
    pub cpu_sensor: bool,
    pub memory_sensor: bool,
    pub active_window: bool,
    pub session_state: bool,
    pub audio_device: bool,
    pub mic: bool,
    pub webcam: bool,
    pub now_playing: bool,
    pub volume: bool,
    pub media_controls: bool,
    pub steam_updates: bool,
    pub discord: bool,
    pub gpu_sensor: bool,
    pub network_sensor: bool,
    pub disk_sensor: bool,
    pub uptime_sensor: bool,
    pub hwinfo_sensor: bool,
    /// HWiNFO is kept running.
    pub manage_hwinfo: bool,
}

/// Custom sensor definition.
#[derive(Debug, Clone)]
pub struct CustomSensor {
    pub name: String,
    pub sensor_type: CustomSensorType,
    pub interval_seconds: u64,
    pub unit: Option<String>,
    pub icon: Option<String>,
    pub script: Option<String>,
    pub process: Option<String>,
    pub file_path: Option<String>,
    pub registry_key: Option<String>,
    pub registry_value: Option<String>,
}

/// Custom sensor types.
#[derive(Debug, Clone, Copy, PartialEq, Eq, Structural)]
pub enum CustomSensorType {
    Powershell,
    ProcessExists,
    FileContents,
    Registry,
}

/// Custom command definition.
#[derive(Debug, Clone)]
pub struct CustomCommand {
    pub name: String,
    pub command_type: CustomCommandType,
    pub icon: Option<String>,
    pub admin: bool,
    pub script: Option<String>,
    pub path: Option<String>,
    pub args: Option<Vec<String>>,
    pub command: Option<String>,
}

/// Custom command types.
#[derive(Debug, Clone, Copy, PartialEq, Eq, Structural)]
pub enum CustomCommandType {
    Powershell,
    Executable,
    Shell,
}

/// Broker connection.
#[derive(Debug, Clone)]
pub struct MqttConfig {
    pub broker: String,
    pub user: String,
    pub pass: String,
    pub client_id: Option<String>,
}

/// Polling intervals in seconds.
#[derive(Debug, Clone, Copy, PartialEq, Eq, Structural)]
pub struct IntervalConfig {
    pub game_sensor: u64,
    pub last_active: u64,
    pub availability: u64,
}

/// When a module that ended is started again.
#[derive(Debug, Clone, Copy, PartialEq, Eq, Structural)]
pub enum RestartPolicy {
    Always,
    OnFailure,
    Never,
}

/// A supervised child process.
#[derive(Debug, Clone)]
pub struct ModuleDef {
    pub name: String,
    pub command: String,
    pub args: Vec<String>,
    pub working_dir: Option<String>,
    pub restart: RestartPolicy,
    pub admin: bool,
}

/// A game found in a Steam library: the lower-case name of its executable
/// without extension, its display name and its application id.
#[derive(Debug, Clone)]
pub struct SteamGame {
    pub exe_key: String,
    pub name: String,
    pub app_id: u32,
}

// ---------------------------------------------------------------------------
// Defaults
// ---------------------------------------------------------------------------

/// The polling interval of a custom sensor that names none.
pub fn default_sensor_interval() -> (r: u64)
    ensures
        r == 30,
{
    30
}

/// The default of a switch that is on unless it is turned off.
pub fn default_true() -> (r: bool)
    ensures
        r,
{
    true
}

/// The default polling interval of the game sensor.
pub fn default_game_sensor() -> (r: u64)
    ensures
        r == 5,
{
    5
}

/// The default polling interval of the idle sensor.
pub fn default_last_active() -> (r: u64)
    ensures
        r == 10,
{
    10
}

/// The default interval of the availability message.
pub fn default_availability() -> (r: u64)
    ensures
        r == 30,
{
    30
}

impl Default for IntervalConfig {
    fn default() -> (r: Self)
        ensures
            r.game_sensor == 5,
            r.last_active == 10,
            r.availability == 30,
    {
        IntervalConfig {
            game_sensor: default_game_sensor(),
            last_active: default_last_active(),
            availability: default_availability(),
        }
    }
}

/// The switches of a fresh installation: sleep, display and power commands are
/// on, everything else is off.
pub open spec fn default_features() -> FeatureConfig {
    FeatureConfig {
        running_game: false,
        game_catalog: false,
        steam_library: false,
        launch_game: false,
        close_game: false,
        idle_tracking: false,
        sleep_wake: true,
        display_state: true,
        cmd_shutdown: true,
        cmd_restart: true,
        cmd_sleep: true,
        cmd_lock: true,
        cmd_logoff: true,
        cmd_monitor: true,
        notifications: false,
        cpu_sensor: false,
        memory_sensor: false,
        active_window: false,
        session_state: false,
        audio_device: false,
        mic: false,
        webcam: false,
        now_playing: false,
        volume: false,
        media_controls: false,
        steam_updates: false,
        discord: false,
        gpu_sensor: false,
        network_sensor: false,
        disk_sensor: false,
        uptime_sensor: false,
        hwinfo_sensor: false,
        manage_hwinfo: false,
    }
}

impl Default for FeatureConfig {
    fn default() -> (r: Self)
        ensures
            r == default_features(),
    {
        FeatureConfig {
            running_game: false,
            game_catalog: false,
            steam_library: false,
            launch_game: false,
            close_game: false,
            idle_tracking: false,
            sleep_wake: true,
            display_state: true,
            cmd_shutdown: true,
            cmd_restart: true,
            cmd_sleep: true,
            cmd_lock: true,
            cmd_logoff: true,
            cmd_monitor: true,
            notifications: false,
            cpu_sensor: false,
            memory_sensor: false,
            active_window: false,
            session_state: false,
            audio_device: false,
            mic: false,
            webcam: false,
            now_playing: false,
            volume: false,
            media_controls: false,
            steam_updates: false,
            discord: false,
            gpu_sensor: false,
            network_sensor: false,
            disk_sensor: false,
            uptime_sensor: false,
            hwinfo_sensor: false,
            manage_hwinfo: false,
        }
    }
}

/// The release channel that updates are taken from.
pub fn default_update_channel() -> (r: String)
    ensures
        r@ == "stable"@,
{
    "stable".to_string()
}

impl Default for Config {
    /// The configuration of the template: the placeholder device name, no games,
    /// nothing custom, and of the permissions only the global launch.
    fn default() -> (r: Self)
        ensures
            r.device_name@ == "my-pc"@,
            r.mqtt.broker@ == "tcp://homeassistant.local:1883"@,
            r.mqtt.user@ == ""@,
            r.mqtt.pass@ == ""@,
            r.mqtt.client_id is None,
            r.intervals == (IntervalConfig { game_sensor: 5, last_active: 10, availability: 30 }),
            r.features == default_features(),
            r.games@.len() == 0,
            r.show_tray_icon,
            !r.custom_sensors_enabled,
            !r.custom_commands_enabled,
            !r.custom_command_privileges_allowed,
            !r.allow_raw_commands,
            r.allow_global_launch,
            !r.allow_global_close,
            r.discord_keybind is None,
            r.custom_sensors@.len() == 0,
            r.custom_commands@.len() == 0,
            !r.modules_enabled,
            r.modules@.len() == 0,
            r.update_channel@ == "stable"@,
            r.disk_sensor_paths@.len() == 0,
    {
        Config {
            device_name: "my-pc".to_string(),
            mqtt: MqttConfig {
                broker: "tcp://homeassistant.local:1883".to_string(),
                user: "".to_string(),
                pass: "".to_string(),
                client_id: None,
            },
            intervals: IntervalConfig::default(),
            features: FeatureConfig::default(),
            games: Vec::new(),
            show_tray_icon: default_true(),
            custom_sensors_enabled: false,
            custom_commands_enabled: false,
            custom_command_privileges_allowed: false,
            allow_raw_commands: false,
            allow_global_launch: true,
            allow_global_close: false,
            discord_keybind: None,
            custom_sensors: Vec::new(),
            custom_commands: Vec::new(),
            modules_enabled: false,
            modules: Vec::new(),
            update_channel: default_update_channel(),
            disk_sensor_paths: Vec::new(),
        }
    }
}

// ---------------------------------------------------------------------------
// Games
// ---------------------------------------------------------------------------

/// A game as plain values.
pub enum GameView {
    Simple(Seq<char>),
    Full {
        game_id: Seq<char>,
        app_id: Option<u32>,
        name: Option<Seq<char>>,
        auto_discovered: bool,
    },
}

impl View for GameConfig {
    type V = GameView;

    open spec fn view(&self) -> GameView {
        match self {
            GameConfig::Simple(id) => GameView::Simple(id@),
            GameConfig::Full { game_id, app_id, name, auto_discovered } => GameView::Full {
                game_id: game_id@,
                app_id: *app_id,
                name: text::opt(*name),
                auto_discovered: *auto_discovered,
            },
        }
    }
}

/// One word of a title: kept when it begins with a number, and else with its
/// first character in upper case.
pub open spec fn title_word(w: Seq<char>) -> Seq<char> {
    if w.len() == 0 || text::numeric(w[0]) {
        w
    } else {
        text::capitalized(w)
    }
}

/// The title made of a game id: underscores separate the words, as white space
/// does, and single spaces join them again.
pub open spec fn title(game_id: Seq<char>) -> Seq<char> {
    text::join(
        text::words(text::replace_char_spec(game_id, '_', ' ')).map_values(
            |w: Seq<char>| title_word(w),
        ),
        " "@,
    )
}

impl GameView {
    /// The id of a game.
    pub open spec fn game_id(self) -> Seq<char> {
        match self {
            GameView::Simple(id) => id,
            GameView::Full { game_id, .. } => game_id,
        }
    }

    /// The Steam application id of a game, if it is known.
    pub open spec fn app_id(self) -> Option<u32> {
        match self {
            GameView::Simple(_) => None,
            GameView::Full { app_id, .. } => app_id,
        }
    }

    /// The name shown for a game: the one it has, or a title made of its id.
    pub open spec fn display_name(self) -> Seq<char> {
        match self {
            GameView::Simple(id) => title(id),
            GameView::Full { game_id, name, .. } => match name {
                Some(n) => n,
                None => title(game_id),
            },
        }
    }
}

impl GameConfig {
    /// The game id, whatever the variant.
    pub fn game_id(&self) -> (r: &str)
        ensures
            r@ == self@.game_id(),
    {
        match self {
            GameConfig::Simple(id) => id.as_str(),
            GameConfig::Full { game_id, .. } => game_id.as_str(),
        }
    }

    /// The display name; without one, a title made of the game id.
    pub fn display_name(&self) -> (r: String)
        ensures
            r@ == self@.display_name(),
    {
        match self {
            GameConfig::Simple(id) => Self::smart_title(id),
            GameConfig::Full { name, game_id, .. } => match name {
                Some(n) => n.clone(),
                None => Self::smart_title(game_id),
            },
        }
    }

    /// Turns a game id into a title: words that begin with a number are kept, the
    /// others begin with a capital.
    pub fn smart_title(game_id: &str) -> (r: String)
        ensures
            r@ == title(game_id@),
    {
        let spaced = replace_char(&chars_of(game_id), '_', ' ');
        let found = split_whitespace(&spaced);
        let ghost all = text::words(spaced@);
        let mut titled: Vec<String> = Vec::new();
        let mut i: usize = 0;
        while i < found.len()
            invariant
                i <= found.len(),
                found@.len() == all.len(),
                forall|k: int|
                    0 <= k < found@.len() ==> (#[trigger] found@[k])@ == all[k] && found@[k]@.len()
                        > 0,
                titled@.len() == i,
                forall|k: int| 0 <= k < i ==> (#[trigger] titled@[k])@ == title_word(all[k]),
            decreases found.len() - i,
        {
            let w = &found[i];
            if is_number(w[0]) {
                titled.push(string_of(w));
            } else {
                titled.push(capitalize(w));
            }
            i += 1;
        }
        proof {
            assert(text::views(titled@) =~= all.map_values(|w: Seq<char>| title_word(w)));
        }
        join_strings(&titled, " ")
    }

    /// The Steam application id, if it is known.
    pub fn app_id(&self) -> (r: Option<u32>)
        ensures
            r == self@.app_id(),
    {
        match self {
            GameConfig::Simple(_) => None,
            GameConfig::Full { app_id, .. } => *app_id,
        }
    }

    /// A game discovered from Steam.
    pub fn from_steam(game_id: String, app_id: u32, name: String) -> (r: Self)
        ensures
            r@ == (GameView::Full {
                game_id: game_id@,
                app_id: Some(app_id),
                name: Some(name@),
                auto_discovered: true,
            }),
    {
        GameConfig::Full { game_id, app_id: Some(app_id), name: Some(name), auto_discovered: true }
    }
}

/// A pattern and its game, as plain values.
pub type GameEntry = (Seq<char>, GameView);

/// The games as plain values.
pub open spec fn games_view(g: Seq<(String, GameConfig)>) -> Seq<GameEntry> {
    g.map_values(|x: (String, GameConfig)| (x.0@, x.1@))
}

/// A game is configured under the pattern `key`.
pub open spec fn has_game(g: Seq<GameEntry>, key: Seq<char>) -> bool {
    exists|i: int| 0 <= i < g.len() && (#[trigger] g[i]).0 == key
}

/// No pattern occurs twice.
pub open spec fn distinct_patterns(g: Seq<GameEntry>) -> bool {
    forall|i: int, j: int|
        0 <= i < j < g.len() ==> (#[trigger] g[i]).0 != (#[trigger] g[j]).0
}

/// The character that stands in a game id for a character of the lower-case
/// name, if any does.
pub open spec fn id_char(c: char) -> Option<char> {
    if text::is_ascii_alnum(c) {
        Some(c)
    } else if c == ' ' || c == '-' {
        Some('_')
    } else {
        None
    }
}

/// The characters of `s` that stand in a game id.
pub open spec fn id_chars(s: Seq<char>) -> Seq<char>
    decreases s.len(),
{
    if s.len() == 0 {
        seq![]
    } else {
        match id_char(s.last()) {
            Some(c) => id_chars(s.drop_last()).push(c),
            None => id_chars(s.drop_last()),
        }
    }
}

/// The game id made of a Steam name.
pub open spec fn steam_game_id(name: Seq<char>) -> Seq<char> {
    id_chars(text::lowercase(name))
}

/// The game configured for a Steam discovery.
pub open spec fn steam_view(s: SteamGame) -> GameView {
    GameView::Full {
        game_id: steam_game_id(s.name@),
        app_id: Some(s.app_id),
        name: Some(s.name@),
        auto_discovered: true,
    }
}

/// The games after the discovered ones have been merged in one by one: each is
/// added at the end unless its pattern is already there.
pub open spec fn merged(g: Seq<GameEntry>, steam: Seq<SteamGame>) -> Seq<GameEntry>
    decreases steam.len(),
{
    if steam.len() == 0 {
        g
    } else {
        let before = merged(g, steam.drop_last());
        if has_game(before, steam.last().exe_key@) {
            before
        } else {
            before.push((steam.last().exe_key@, steam_view(steam.last())))
        }
    }
}

/// A merge only ever appends.
pub proof fn lemma_merged_prefix(g: Seq<GameEntry>, steam: Seq<SteamGame>)
    ensures
        merged(g, steam).len() >= g.len(),
        merged(g, steam).len() <= g.len() + steam.len(),
        merged(g, steam).take(g.len() as int) == g,
    decreases steam.len(),
{
    if steam.len() > 0 {
        lemma_merged_prefix(g, steam.drop_last());
        let before = merged(g, steam.drop_last());
        assert(merged(g, steam).take(g.len() as int) =~= before.take(g.len() as int));
    } else {
        assert(g.take(g.len() as int) =~= g);
    }
}

/// A configured game is never replaced or removed by a merge: it stays at its
/// place, whatever was discovered.
pub proof fn law_merge_keeps_configured_games(g: Seq<GameEntry>, steam: Seq<SteamGame>, i: int)
    requires
        0 <= i < g.len(),
    ensures
        i < merged(g, steam).len(),
        merged(g, steam)[i] == g[i],
{
    lemma_merged_prefix(g, steam);
    assert(merged(g, steam).take(g.len() as int)[i] == merged(g, steam)[i]);
}

/// After a merge every discovered game is configured.
pub proof fn law_merge_adds_every_game(g: Seq<GameEntry>, steam: Seq<SteamGame>, k: int)
    requires
        0 <= k < steam.len(),
    ensures
        has_game(merged(g, steam), steam[k].exe_key@),
    decreases steam.len(),
{
    let before = merged(g, steam.drop_last());
    let after = merged(g, steam);
    let key = steam[k].exe_key@;
    if k == steam.len() - 1 {
        if !has_game(before, key) {
            assert(after[before.len() as int].0 == key);
        }
    } else {
        law_merge_adds_every_game(g, steam.drop_last(), k);
        let i = choose|i: int| 0 <= i < before.len() && (#[trigger] before[i]).0 == key;
        assert(after[i] == before[i]);
    }
}

/// A merge keeps the patterns distinct.
pub proof fn law_merge_keeps_patterns_distinct(g: Seq<GameEntry>, steam: Seq<SteamGame>)
    requires
        distinct_patterns(g),
    ensures
        distinct_patterns(merged(g, steam)),
    decreases steam.len(),
{
    if steam.len() > 0 {
        law_merge_keeps_patterns_distinct(g, steam.drop_last());
        let before = merged(g, steam.drop_last());
        let after = merged(g, steam);
        if !has_game(before, steam.last().exe_key@) {
            assert forall|i: int, j: int| 0 <= i < j < after.len() implies (#[trigger] after[i]).0
                != (#[trigger] after[j]).0 by {
                assert(after[i] == before[i]);
                if j < before.len() {
                    assert(after[j] == before[j]);
                }
            }
        }
    }
}

/// Where every discovered game is configured already, a merge changes nothing.
pub proof fn lemma_merge_nothing_new(g: Seq<GameEntry>, steam: Seq<SteamGame>)
    requires
        forall|k: int| 0 <= k < steam.len() ==> has_game(g, (#[trigger] steam[k]).exe_key@),
    ensures
        merged(g, steam) == g,
    decreases steam.len(),
{
    if steam.len() > 0 {
        assert forall|k: int| 0 <= k < steam.drop_last().len() implies has_game(
            g,
            (#[trigger] steam.drop_last()[k]).exe_key@,
        ) by {
            assert(steam.drop_last()[k] == steam[k]);
        }
        lemma_merge_nothing_new(g, steam.drop_last());
        assert(has_game(g, steam[steam.len() - 1].exe_key@));
    }
}

/// A second merge of the same discovery adds nothing.
pub proof fn law_merge_is_idempotent(g: Seq<GameEntry>, steam: Seq<SteamGame>)
    ensures
        merged(merged(g, steam), steam) == merged(g, steam),
{
    assert forall|k: int| 0 <= k < steam.len() implies has_game(
        merged(g, steam),
        (#[trigger] steam[k]).exe_key@,
    ) by {
        law_merge_adds_every_game(g, steam, k);
    }
    lemma_merge_nothing_new(merged(g, steam), steam);
}

/// The game id made of a Steam name: in lower case, letters and digits kept,
/// spaces and dashes as underscores, everything else left out.
pub fn game_id_of(name: &str) -> (r: String)
    ensures
        r@ == steam_game_id(name@),
{
    let lower = chars_of(&name.to_lowercase());
    let mut id = String::new();
    let mut i: usize = 0;
    while i < lower.len()
        invariant
            i <= lower.len(),
            id@ == id_chars(lower@.take(i as int)),
        decreases lower.len() - i,
    {
        let c = lower[i];
        proof {
            assert(lower@.take(i + 1).drop_last() =~= lower@.take(i as int));
            assert(lower@.take(i + 1).last() == c);
        }
        if ascii_alnum(c) {
            id.push(c);
        } else if c == ' ' || c == '-' {
            id.push('_');
        }
        i += 1;
    }
    proof {
        assert(lower@.take(lower@.len() as int) =~= lower@);
    }
    id
}

fn knows_game(g: &Vec<(String, GameConfig)>, key: &str) -> (r: bool)
    ensures
        r == has_game(games_view(g@), key@),
{
    let mut i: usize = 0;
    while i < g.len()
        invariant
            i <= g.len(),
            forall|j: int| 0 <= j < i ==> (#[trigger] games_view(g@)[j]).0 != key@,
        decreases g.len() - i,
    {
        if g[i].0.as_str().eq(key) {
            proof {
                assert(games_view(g@)[i as int].0 == key@);
            }
            return true;
        }
        i += 1;
    }
    false
}

// ---------------------------------------------------------------------------
// Validation
// ---------------------------------------------------------------------------

/// An optional field is there and not empty.
pub open spec fn given(field: Option<String>) -> bool {
    match field {
        Some(s) => s@.len() > 0,
        None => false,
    }
}

fn is_given(field: &Option<String>) -> (r: bool)
    ensures
        r == given(*field),
{
    match field {
        Some(s) => !s.as_str().is_empty(),
        None => false,
    }
}

/// What is wrong with a sensor, if anything is.
pub open spec fn sensor_error(s: CustomSensor) -> Option<Seq<char>> {
    let head = "Custom sensor '"@ + s.name@;
    if s.name@.len() == 0 {
        Some("Custom sensor name cannot be empty"@)
    } else if text::has_white_space(s.name@) {
        Some("Custom sensor name '"@ + s.name@ + "' cannot contain whitespace"@)
    } else {
        match s.sensor_type {
            CustomSensorType::Powershell => if !given(s.script) {
                Some(head + "' (powershell) requires 'script' field"@)
            } else {
                None
            },
            CustomSensorType::ProcessExists => if !given(s.process) {
                Some(head + "' (process_exists) requires 'process' field"@)
            } else {
                None
            },
            CustomSensorType::FileContents => if !given(s.file_path) {
                Some(head + "' (file_contents) requires 'file_path' field"@)
            } else {
                None
            },
            CustomSensorType::Registry => if !given(s.registry_key) {
                Some(head + "' (registry) requires 'registry_key' field"@)
            } else if !given(s.registry_value) {
                Some(head + "' (registry) requires 'registry_value' field"@)
            } else {
                None
            },
        }
    }
}

/// What is wrong with a command, if anything is.
pub open spec fn command_error(c: CustomCommand, privileges_allowed: bool) -> Option<Seq<char>> {
    let head = "Custom command '"@ + c.name@;
    if c.name@.len() == 0 {
        Some("Custom command name cannot be empty"@)
    } else if text::has_white_space(c.name@) {
        Some("Custom command name '"@ + c.name@ + "' cannot contain whitespace"@)
    } else if c.admin && !privileges_allowed {
        Some(
            head
                + "' has admin=true but custom_command_privileges_allowed=false. Set custom_command_privileges_allowed=true if you understand the security implications."@,
        )
    } else {
        match c.command_type {
            CustomCommandType::Powershell => if !given(c.script) {
                Some(head + "' (powershell) requires 'script' field"@)
            } else {
                None
            },
            CustomCommandType::Executable => if !given(c.path) {
                Some(head + "' (executable) requires 'path' field"@)
            } else {
                None
            },
            CustomCommandType::Shell => if !given(c.command) {
                Some(head + "' (shell) requires 'command' field"@)
            } else {
                None
            },
        }
    }
}

/// The first sensor error, if any sensor has one.
pub open spec fn first_sensor_error(s: Seq<CustomSensor>) -> Option<Seq<char>>
    decreases s.len(),
{
    if s.len() == 0 {
        None
    } else if sensor_error(s[0]) is Some {
        sensor_error(s[0])
    } else {
        first_sensor_error(s.skip(1))
    }
}

/// The first command error, if any command has one.
pub open spec fn first_command_error(
    s: Seq<CustomCommand>,
    privileges_allowed: bool,
) -> Option<Seq<char>>
    decreases s.len(),
{
    if s.len() == 0 {
        None
    } else if command_error(s[0], privileges_allowed) is Some {
        command_error(s[0], privileges_allowed)
    } else {
        first_command_error(s.skip(1), privileges_allowed)
    }
}

/// A broker URL begins with one of the four schemes.
pub open spec fn known_scheme(broker: Seq<char>) -> bool {
    ||| text::has_prefix(broker, "tcp://"@)
    ||| text::has_prefix(broker, "ssl://"@)
    ||| text::has_prefix(broker, "ws://"@)
    ||| text::has_prefix(broker, "wss://"@)
}

/// What is wrong with a configuration: the first rule that it breaks.
pub open spec fn config_error(c: Config) -> Option<Seq<char>> {
    if c.device_name@.len() == 0 {
        Some("device_name is required"@)
    } else if c.device_name@ == "my-pc"@ {
        Some("device_name is still the default 'my-pc' - please change it"@)
    } else if text::has_white_space(c.device_name@) {
        Some("device_name cannot contain whitespace"@)
    } else if c.mqtt.broker@.len() == 0 {
        Some("mqtt.broker is required"@)
    } else if !known_scheme(c.mqtt.broker@) {
        Some("mqtt.broker must start with tcp://, ssl://, ws://, or wss://"@)
    } else if first_sensor_error(c.custom_sensors@) is Some {
        first_sensor_error(c.custom_sensors@)
    } else {
        first_command_error(c.custom_commands@, c.custom_command_privileges_allowed)
    }
}

/// The three parts in one string.
fn concat3(a: &str, b: &str, c: &str) -> (r: String)
    ensures
        r@ == a@ + b@ + c@,
{
    let mut s = a.to_string();
    s.append(b);
    s.append(c);
    s
}

/// A configuration that validates has no administrator command unless these are
/// allowed, and no sensor or command name that is empty or holds white space.
pub proof fn law_valid_config_names_and_privileges(c: Config)
    requires
        config_error(c) is None,
    ensures
        forall|i: int|
            0 <= i < c.custom_commands@.len() ==> {
                let cmd = #[trigger] c.custom_commands@[i];
                &&& cmd.name@.len() > 0
                &&& !text::has_white_space(cmd.name@)
                &&& cmd.admin ==> c.custom_command_privileges_allowed
            },
        forall|i: int|
            0 <= i < c.custom_sensors@.len() ==> {
                let sensor = #[trigger] c.custom_sensors@[i];
                &&& sensor.name@.len() > 0
                &&& !text::has_white_space(sensor.name@)
            },
{
    lemma_no_command_error(c.custom_commands@, c.custom_command_privileges_allowed);
    lemma_no_sensor_error(c.custom_sensors@);
    assert forall|i: int| 0 <= i < c.custom_commands@.len() implies {
        let cmd = #[trigger] c.custom_commands@[i];
        &&& cmd.name@.len() > 0
        &&& !text::has_white_space(cmd.name@)
        &&& cmd.admin ==> c.custom_command_privileges_allowed
    } by {
        assert(command_error(c.custom_commands@[i], c.custom_command_privileges_allowed) is None);
    }
    assert forall|i: int| 0 <= i < c.custom_sensors@.len() implies {
        let sensor = #[trigger] c.custom_sensors@[i];
        &&& sensor.name@.len() > 0
        &&& !text::has_white_space(sensor.name@)
    } by {
        assert(sensor_error(c.custom_sensors@[i]) is None);
    }
}

proof fn lemma_no_command_error(s: Seq<CustomCommand>, allowed: bool)
    requires
        first_command_error(s, allowed) is None,
    ensures
        forall|i: int| 0 <= i < s.len() ==> command_error(#[trigger] s[i], allowed) is None,
    decreases s.len(),
{
    if s.len() > 0 {
        lemma_no_command_error(s.skip(1), allowed);
        assert forall|i: int| 0 <= i < s.len() implies command_error(
            #[trigger] s[i],
            allowed,
        ) is None by {
            if i > 0 {
                assert(s.skip(1)[i - 1] == s[i]);
            }
        }
    }
}

proof fn lemma_no_sensor_error(s: Seq<CustomSensor>)
    requires
        first_sensor_error(s) is None,
    ensures
        forall|i: int| 0 <= i < s.len() ==> sensor_error(#[trigger] s[i]) is None,
    decreases s.len(),
{
    if s.len() > 0 {
        lemma_no_sensor_error(s.skip(1));
        assert forall|i: int| 0 <= i < s.len() implies sensor_error(#[trigger] s[i]) is None by {
            if i > 0 {
                assert(s.skip(1)[i - 1] == s[i]);
            }
        }
    }
}

impl Config {
    /// Whether this is a first run: no configuration file exists yet.
    pub fn is_first_run(config_exists: bool) -> (r: bool)
        ensures
            r == !config_exists,
    {
        !config_exists
    }

    /// Merges the games found in a Steam library and returns how many were added.
    /// A game whose pattern is configured already is left as it is. The caller
    /// saves the configuration when the result is not zero.
    pub fn merge_steam_games(&mut self, steam_games: &Vec<SteamGame>) -> (added: usize)
        ensures
            games_view(final(self).games@) == merged(games_view(old(self).games@), steam_games@),
            added == final(self).games@.len() - old(self).games@.len(),
            *final(self) == (Config { games: final(self).games, ..*old(self) }),
    {
        let ghost start = games_view(self.games@);
        let mut added: usize = 0;
        let mut i: usize = 0;
        while i < steam_games.len()
            invariant
                i <= steam_games.len(),
                added <= i,
                games_view(self.games@) == merged(start, steam_games@.take(i as int)),
                start == games_view(old(self).games@),
                added == self.games@.len() - old(self).games@.len(),
                *self == (Config { games: self.games, ..*old(self) }),
            decreases steam_games.len() - i,
        {
            let game = &steam_games[i];
            proof {
                assert(steam_games@.take(i + 1).drop_last() =~= steam_games@.take(i as int));
                assert(steam_games@.take(i + 1).last() == *game);
            }
            if !knows_game(&self.games, &game.exe_key) {
                let ghost before = self.games@;
                let id = game_id_of(&game.name);
                self.games.push(
                    (
                        game.exe_key.clone(),
                        GameConfig::from_steam(id, game.app_id, game.name.clone()),
                    ),
                );
                added += 1;
                proof {
                    assert(games_view(self.games@) =~= games_view(before).push(
                        (game.exe_key@, steam_view(*game)),
                    ));
                }
            }
            i += 1;
        }
        proof {
            assert(steam_games@.take(steam_games@.len() as int) =~= steam_games@);
        }
        added
    }

    /// Checks the configuration. The error names the first rule that it breaks.
    pub fn validate(&self) -> (r: Result<(), String>)
        ensures
            match r {
                Ok(_) => config_error(*self) is None,
                Err(m) => config_error(*self) == Some(m@),
            },
    {
        if self.device_name.as_str().is_empty() {
            return Err("device_name is required".to_string());
        }
        if self.device_name.as_str().eq("my-pc") {
            return Err("device_name is still the default 'my-pc' - please change it".to_string());
        }
        if contains_whitespace(&chars_of(&self.device_name)) {
            return Err("device_name cannot contain whitespace".to_string());
        }
        if self.mqtt.broker.as_str().is_empty() {
            return Err("mqtt.broker is required".to_string());
        }
        let broker = chars_of(&self.mqtt.broker);
        if !starts_with(&broker, "tcp://") && !starts_with(&broker, "ssl://") && !starts_with(
            &broker,
            "ws://",
        ) && !starts_with(&broker, "wss://") {
            return Err(
                "mqtt.broker must start with tcp://, ssl://, ws://, or wss://".to_string(),
            );
        }
        proof {
            assert(self.custom_sensors@.skip(0) =~= self.custom_sensors@);
            assert(self.custom_commands@.skip(0) =~= self.custom_commands@);
        }
        let mut i: usize = 0;
        while i < self.custom_sensors.len()
            invariant
                i <= self.custom_sensors.len(),
                first_sensor_error(self.custom_sensors@) == first_sensor_error(
                    self.custom_sensors@.skip(i as int),
                ),
                self.device_name@.len() > 0,
                self.device_name@ != "my-pc"@,
                !text::has_white_space(self.device_name@),
                self.mqtt.broker@.len() > 0,
                known_scheme(self.mqtt.broker@),
            decreases self.custom_sensors.len() - i,
        {
            proof {
                let rest = self.custom_sensors@.skip(i as int);
                assert(rest[0] == self.custom_sensors@[i as int]);
                assert(rest.skip(1) =~= self.custom_sensors@.skip(i + 1));
            }
            Self::validate_custom_sensor(&self.custom_sensors[i])?;
            i += 1;
        }
        let mut k: usize = 0;
        while k < self.custom_commands.len()
            invariant
                k <= self.custom_commands.len(),
                first_sensor_error(self.custom_sensors@) is None,
                first_command_error(
                    self.custom_commands@,
                    self.custom_command_privileges_allowed,
                ) == first_command_error(
                    self.custom_commands@.skip(k as int),
                    self.custom_command_privileges_allowed,
                ),
                self.device_name@.len() > 0,
                self.device_name@ != "my-pc"@,
                !text::has_white_space(self.device_name@),
                self.mqtt.broker@.len() > 0,
                known_scheme(self.mqtt.broker@),
            decreases self.custom_commands.len() - k,
        {
            proof {
                let rest = self.custom_commands@.skip(k as int);
                assert(rest[0] == self.custom_commands@[k as int]);
                assert(rest.skip(1) =~= self.custom_commands@.skip(k + 1));
            }
            Self::validate_custom_command(
                &self.custom_commands[k],
                self.custom_command_privileges_allowed,
            )?;
            k += 1;
        }
        Ok(())
    }

    /// Checks a custom sensor: its name, and the fields that its type needs.
    pub fn validate_custom_sensor(sensor: &CustomSensor) -> (r: Result<(), String>)
        ensures
            match r {
                Ok(_) => sensor_error(*sensor) is None,
                Err(m) => sensor_error(*sensor) == Some(m@),
            },
    {
        if sensor.name.as_str().is_empty() {
            return Err("Custom sensor name cannot be empty".to_string());
        }
        if contains_whitespace(&chars_of(&sensor.name)) {
            return Err(
                concat3("Custom sensor name '", &sensor.name, "' cannot contain whitespace"),
            );
        }
        let missing = match sensor.sensor_type {
            CustomSensorType::Powershell => if !is_given(&sensor.script) {
                Some("' (powershell) requires 'script' field")
            } else {
                None
            },
            CustomSensorType::ProcessExists => if !is_given(&sensor.process) {
                Some("' (process_exists) requires 'process' field")
            } else {
                None
            },
            CustomSensorType::FileContents => if !is_given(&sensor.file_path) {
                Some("' (file_contents) requires 'file_path' field")
            } else {
                None
            },
            CustomSensorType::Registry => if !is_given(&sensor.registry_key) {
                Some("' (registry) requires 'registry_key' field")
            } else if !is_given(&sensor.registry_value) {
                Some("' (registry) requires 'registry_value' field")
            } else {
                None
            },
        };
        match missing {
            Some(tail) => Err(concat3("Custom sensor '", &sensor.name, tail)),
            None => Ok(()),
        }
    }

    /// Checks a custom command: its name, its privileges, and the field that its
    /// type needs.
    pub fn validate_custom_command(cmd: &CustomCommand, privileges_allowed: bool) -> (r: Result<
        (),
        String,
    >)
        ensures
            match r {
                Ok(_) => command_error(*cmd, privileges_allowed) is None,
                Err(m) => command_error(*cmd, privileges_allowed) == Some(m@),
            },
    {
        if cmd.name.as_str().is_empty() {
            return Err("Custom command name cannot be empty".to_string());
        }
        if contains_whitespace(&chars_of(&cmd.name)) {
            return Err(concat3("Custom command name '", &cmd.name, "' cannot contain whitespace"));
        }
        if cmd.admin && !privileges_allowed {
            return Err(
                concat3(
                    "Custom command '",
                    &cmd.name,
                    "' has admin=true but custom_command_privileges_allowed=false. Set custom_command_privileges_allowed=true if you understand the security implications.",
                ),
            );
        }
        let missing = match cmd.command_type {
            CustomCommandType::Powershell => if !is_given(&cmd.script) {
                Some("' (powershell) requires 'script' field")
            } else {
                None
            },
            CustomCommandType::Executable => if !is_given(&cmd.path) {
                Some("' (executable) requires 'path' field")
            } else {
                None
            },
            CustomCommandType::Shell => if !is_given(&cmd.command) {
                Some("' (shell) requires 'command' field")
            } else {
                None
            },
        };
        match missing {
            Some(tail) => Err(concat3("Custom command '", &cmd.name, tail)),
            None => Ok(()),
        }
    }

    /// The device id: the device name with dashes replaced by underscores.
    pub fn device_id(&self) -> (r: String)
        ensures
            r@ == text::replace_char_spec(self.device_name@, '-', '_'),
    {
        string_of(&replace_char(&chars_of(&self.device_name), '-', '_'))
    }

    /// The MQTT client id: the configured one, or one made of the device name.
    pub fn client_id(&self) -> (r: String)
        ensures
            r@ == client_id_of(*self),
    {
        match &self.mqtt.client_id {
            Some(id) => id.clone(),
            None => {
                let mut s = "pc-agent-".to_string();
                s.append(&self.device_name);
                s
            },
        }
    }
}

/// The MQTT client id of a configuration.
pub open spec fn client_id_of(c: Config) -> Seq<char> {
    match c.mqtt.client_id {
        Some(id) => id@,
        None => "pc-agent-"@ + c.device_name@,
    }
}

// ---------------------------------------------------------------------------
// Migration
// ---------------------------------------------------------------------------

/// Why a configuration text could not be migrated.
#[derive(Debug, Clone, Copy, PartialEq, Eq, Structural)]
pub enum MigrateError {
    /// The text is no JSON.
    InvalidJson,
    /// The text is JSON, but no object.
    NotAnObject,
    /// The migrated members could not be written as JSON.
    Unwritable,
}

/// The members with `key` added where it is missing.
pub open spec fn add_missing(
    m: Seq<json::MemberView>,
    key: Seq<char>,
    value: Seq<char>,
) -> Seq<json::MemberView> {
    if json::has_member(m, key) {
        m
    } else {
        m.push((key, value))
    }
}

/// The interval under `key` is there and is zero.
pub open spec fn interval_is_zero(m: Seq<json::MemberView>, key: Seq<char>) -> bool {
    json::unsigned_at(m, key) == Some(0u64)
}

/// The interval under `key`, set to `value` where it is zero.
pub open spec fn fix_interval(
    m: Seq<json::MemberView>,
    key: Seq<char>,
    value: nat,
) -> Seq<json::MemberView> {
    if interval_is_zero(m, key) {
        json::with_member(m, key, text::decimal(value))
    } else {
        m
    }
}

/// The intervals with every zero replaced by the default.
pub open spec fn fixed_intervals(m: Seq<json::MemberView>) -> Seq<json::MemberView> {
    fix_interval(
        fix_interval(fix_interval(m, "game_sensor"@, 5), "last_active"@, 10),
        "availability"@,
        30,
    )
}

/// Some interval is zero.
pub open spec fn has_zero_interval(m: Seq<json::MemberView>) -> bool {
    let a = fix_interval(m, "game_sensor"@, 5);
    let b = fix_interval(a, "last_active"@, 10);
    interval_is_zero(m, "game_sensor"@) || interval_is_zero(a, "last_active"@) || interval_is_zero(
        b,
        "availability"@,
    )
}

/// The members of the section `intervals`, where it is an object.
pub open spec fn interval_section(m: Seq<json::MemberView>) -> Option<Seq<json::MemberView>> {
    match json::member(m, "intervals"@) {
        Some(t) => match json::json_object(t) {
            Some(section) => section,
            None => None,
        },
        None => None,
    }
}

/// The section `intervals` holds a zero.
pub open spec fn section_has_zero(m: Seq<json::MemberView>) -> bool {
    match interval_section(m) {
        Some(section) => has_zero_interval(section),
        None => false,
    }
}

/// The members with the zeros of the section `intervals` replaced; nothing where
/// the new section cannot be written.
pub open spec fn fixed_section(m: Seq<json::MemberView>) -> Option<Seq<json::MemberView>> {
    if section_has_zero(m) {
        match json::json_text(fixed_intervals(interval_section(m)->0)) {
            Some(t) => Some(json::with_member(m, "intervals"@, t)),
            None => None,
        }
    } else {
        Some(m)
    }
}

/// The features section of a configuration that had none: everything off.
pub open spec fn features_off() -> Seq<char> {
    "{\"game_detection\":false,\"idle_tracking\":false,\"notifications\":false,\"power_events\":false}"@
}

/// The members with the sections that came after the intervals added where they
/// are missing.
pub open spec fn with_later_sections(m: Seq<json::MemberView>) -> Seq<json::MemberView> {
    let a = add_missing(m, "features"@, features_off());
    let b = add_missing(a, "custom_sensors_enabled"@, "false"@);
    let c = add_missing(b, "custom_commands_enabled"@, "false"@);
    let d = add_missing(c, "custom_command_privileges_allowed"@, "false"@);
    let e = add_missing(d, "custom_sensors"@, "[]"@);
    add_missing(e, "custom_commands"@, "[]"@)
}

/// The migrated members; nothing where the intervals cannot be written.
pub open spec fn migrated_members(m: Seq<json::MemberView>) -> Option<Seq<json::MemberView>> {
    match fixed_section(add_missing(m, "show_tray_icon"@, "true"@)) {
        Some(a) => Some(with_later_sections(a)),
        None => None,
    }
}

/// A section that the migration knows of is missing, or an interval is zero.
pub open spec fn needs_migration(m: Seq<json::MemberView>) -> bool {
    ||| !json::has_member(m, "show_tray_icon"@)
    ||| section_has_zero(m)
    ||| !json::has_member(m, "features"@)
    ||| !json::has_member(m, "custom_sensors_enabled"@)
    ||| !json::has_member(m, "custom_commands_enabled"@)
    ||| !json::has_member(m, "custom_command_privileges_allowed"@)
    ||| !json::has_member(m, "custom_sensors"@)
    ||| !json::has_member(m, "custom_commands"@)
}

/// The keys that the migration knows of differ from each other.
proof fn lemma_keys_differ()
    ensures
        "intervals"@ != "show_tray_icon"@,
        "features"@ != "show_tray_icon"@,
        "features"@ != "intervals"@,
        "custom_sensors_enabled"@ != "show_tray_icon"@,
        "custom_sensors_enabled"@ != "intervals"@,
        "custom_sensors_enabled"@ != "features"@,
        "custom_commands_enabled"@ != "show_tray_icon"@,
        "custom_commands_enabled"@ != "intervals"@,
        "custom_commands_enabled"@ != "features"@,
        "custom_commands_enabled"@ != "custom_sensors_enabled"@,
        "custom_command_privileges_allowed"@ != "show_tray_icon"@,
        "custom_command_privileges_allowed"@ != "intervals"@,
        "custom_command_privileges_allowed"@ != "features"@,
        "custom_command_privileges_allowed"@ != "custom_sensors_enabled"@,
        "custom_command_privileges_allowed"@ != "custom_commands_enabled"@,
        "custom_sensors"@ != "show_tray_icon"@,
        "custom_sensors"@ != "intervals"@,
        "custom_sensors"@ != "features"@,
        "custom_sensors"@ != "custom_sensors_enabled"@,
        "custom_sensors"@ != "custom_commands_enabled"@,
        "custom_sensors"@ != "custom_command_privileges_allowed"@,
        "custom_commands"@ != "show_tray_icon"@,
        "custom_commands"@ != "intervals"@,
        "custom_commands"@ != "features"@,
        "custom_commands"@ != "custom_sensors_enabled"@,
        "custom_commands"@ != "custom_commands_enabled"@,
        "custom_commands"@ != "custom_command_privileges_allowed"@,
        "custom_commands"@ != "custom_sensors"@,
{
    reveal_strlit("show_tray_icon");
    reveal_strlit("intervals");
    reveal_strlit("features");
    reveal_strlit("custom_sensors_enabled");
    reveal_strlit("custom_commands_enabled");
    reveal_strlit("custom_command_privileges_allowed");
    reveal_strlit("custom_sensors");
    reveal_strlit("custom_commands");
    assert("show_tray_icon"@.len() == 14 && "intervals"@.len() == 9 && "features"@.len() == 8);
    assert("custom_sensors_enabled"@.len() == 22 && "custom_commands_enabled"@.len() == 23);
    assert("custom_command_privileges_allowed"@.len() == 33);
    assert("custom_sensors"@.len() == 14 && "custom_commands"@.len() == 15);
    assert("custom_sensors"@[0] != "show_tray_icon"@[0]);
}

/// The migration of a configuration text: the text to use, and whether it is a
/// new one that has to be written back.
pub open spec fn migration(content: Seq<char>) -> Result<(Seq<char>, bool), MigrateError> {
    match json::json_object(content) {
        None => Err(MigrateError::InvalidJson),
        Some(None) => Err(MigrateError::NotAnObject),
        Some(Some(m)) => match migrated_members(m) {
            None => Err(MigrateError::Unwritable),
            Some(n) => if !needs_migration(m) {
                Ok((content, false))
            } else {
                match json::json_text(n) {
                    None => Err(MigrateError::Unwritable),
                    Some(compact) => match json::json_indented(compact) {
                        None => Err(MigrateError::Unwritable),
                        Some(t) => Ok((t, true)),
                    },
                }
            },
        },
    }
}

/// Adds `key` where it is missing and says whether it was.
fn ensure_member(m: &mut Vec<Member>, key: &str, value: &str) -> (added: bool)
    ensures
        json::members_view(final(m)@) == add_missing(json::members_view(old(m)@), key@, value@),
        added == !json::has_member(json::members_view(old(m)@), key@),
        json::distinct_keys(json::members_view(old(m)@)) ==> json::distinct_keys(
            json::members_view(final(m)@),
        ),
{
    let i: usize = find_member(m, key);
    if i < m.len() {
        false
    } else {
        m.push((key.to_string(), value.to_string()));
        proof {
            let start = json::members_view(old(m)@);
            assert(json::members_view(m@) =~= start.push((key@, value@)));
            if json::distinct_keys(start) {
                json::lemma_set_keeps_keys(start, key@, value@);
            }
        }
        true
    }
}

/// Replaces the interval under `key` where it is zero and says whether it was.
fn repair_interval(m: &mut Vec<Member>, key: &str, value: u64) -> (fixed: bool)
    requires
        value > 0,
        json::distinct_keys(json::members_view(old(m)@)),
    ensures
        json::members_view(final(m)@) == fix_interval(
            json::members_view(old(m)@),
            key@,
            value as nat,
        ),
        fixed == interval_is_zero(json::members_view(old(m)@), key@),
        json::distinct_keys(json::members_view(final(m)@)),
        !interval_is_zero(json::members_view(final(m)@), key@),
        forall|other: Seq<char>|
            other != key@ ==> #[trigger] interval_is_zero(json::members_view(final(m)@), other)
                == interval_is_zero(json::members_view(old(m)@), other),
{
    let ghost start = json::members_view(m@);
    let i: usize = find_member(m, key);
    if i < m.len() {
        let zero = match read_unsigned(&m[i].1) {
            Some(n) => n == 0,
            None => false,
        };
        if zero {
            let written = write_unsigned(value);
            set_member(m, key, &written);
            proof {
                json::lemma_set_keeps_keys(start, key@, written@);
                json::lemma_with_member(start, key@, written@, key@);
                assert forall|other: Seq<char>| other != key@ implies #[trigger] interval_is_zero(
                    json::members_view(m@),
                    other,
                ) == interval_is_zero(start, other) by {
                    json::lemma_with_member(start, key@, written@, other);
                }
            }
            return true;
        }
    }
    false
}

/// A key is among the members after an addition exactly if it was before or is
/// the added one.
proof fn lemma_has_after_add(
    m: Seq<json::MemberView>,
    key: Seq<char>,
    value: Seq<char>,
    other: Seq<char>,
)
    ensures
        json::has_member(add_missing(m, key, value), other) == (json::has_member(m, other) || other
            == key),
        other != key ==> json::member(add_missing(m, key, value), other) == json::member(m, other),
{
    json::lemma_with_member(m, key, value, other);
    json::lemma_member_index(m, key);
    json::lemma_member_index(m, other);
    json::lemma_member_index(add_missing(m, key, value), other);
}

/// Replacing the value of a member keeps the keys.
proof fn lemma_has_after_fix(m: Seq<json::MemberView>, other: Seq<char>)
    requires
        fixed_section(m) is Some,
    ensures
        json::has_member(fixed_section(m)->0, other) == json::has_member(m, other),
{
    if section_has_zero(m) {
        let t = json::json_text(fixed_intervals(interval_section(m)->0))->0;
        json::lemma_with_member(m, "intervals"@, t, other);
        json::lemma_member_index(m, other);
        json::lemma_member_index(fixed_section(m)->0, other);
    }
}

/// What each step of the migration finds missing is what was missing at the
/// start.
proof fn lemma_migration_flags(m: Seq<json::MemberView>)
    ensures
        ({
            let shown = add_missing(m, "show_tray_icon"@, "true"@);
            section_has_zero(shown) == section_has_zero(m) && (fixed_section(shown) is Some ==> {
                let m0 = fixed_section(shown)->0;
                let a = add_missing(m0, "features"@, features_off());
                let b = add_missing(a, "custom_sensors_enabled"@, "false"@);
                let c = add_missing(b, "custom_commands_enabled"@, "false"@);
                let d = add_missing(c, "custom_command_privileges_allowed"@, "false"@);
                let e = add_missing(d, "custom_sensors"@, "[]"@);
                &&& json::has_member(m0, "features"@) == json::has_member(m, "features"@)
                &&& json::has_member(a, "custom_sensors_enabled"@) == json::has_member(
                    m,
                    "custom_sensors_enabled"@,
                )
                &&& json::has_member(b, "custom_commands_enabled"@) == json::has_member(
                    m,
                    "custom_commands_enabled"@,
                )
                &&& json::has_member(c, "custom_command_privileges_allowed"@) == json::has_member(
                    m,
                    "custom_command_privileges_allowed"@,
                )
                &&& json::has_member(d, "custom_sensors"@) == json::has_member(
                    m,
                    "custom_sensors"@,
                )
                &&& json::has_member(e, "custom_commands"@) == json::has_member(
                    m,
                    "custom_commands"@,
                )
            })
        }),
{
    lemma_keys_differ();
    let shown = add_missing(m, "show_tray_icon"@, "true"@);
    lemma_has_after_add(m, "show_tray_icon"@, "true"@, "intervals"@);
    if fixed_section(shown) is Some {
        let m0 = fixed_section(shown)->0;
        let a = add_missing(m0, "features"@, features_off());
        let b = add_missing(a, "custom_sensors_enabled"@, "false"@);
        let c = add_missing(b, "custom_commands_enabled"@, "false"@);
        let d = add_missing(c, "custom_command_privileges_allowed"@, "false"@);
        let e = add_missing(d, "custom_sensors"@, "[]"@);
        lemma_has_before(m, "features"@);
        lemma_has_before(m, "custom_sensors_enabled"@);
        lemma_has_before(m, "custom_commands_enabled"@);
        lemma_has_before(m, "custom_command_privileges_allowed"@);
        lemma_has_before(m, "custom_sensors"@);
        lemma_has_before(m, "custom_commands"@);
        lemma_has_after_add(m0, "features"@, features_off(), "custom_sensors_enabled"@);
        lemma_has_after_add(m0, "features"@, features_off(), "custom_commands_enabled"@);
        lemma_has_after_add(m0, "features"@, features_off(), "custom_command_privileges_allowed"@);
        lemma_has_after_add(m0, "features"@, features_off(), "custom_sensors"@);
        lemma_has_after_add(m0, "features"@, features_off(), "custom_commands"@);
        lemma_has_after_add(a, "custom_sensors_enabled"@, "false"@, "custom_commands_enabled"@);
        lemma_has_after_add(
            a,
            "custom_sensors_enabled"@,
            "false"@,
            "custom_command_privileges_allowed"@,
        );
        lemma_has_after_add(a, "custom_sensors_enabled"@, "false"@, "custom_sensors"@);
        lemma_has_after_add(a, "custom_sensors_enabled"@, "false"@, "custom_commands"@);
        lemma_has_after_add(
            b,
            "custom_commands_enabled"@,
            "false"@,
            "custom_command_privileges_allowed"@,
        );
        lemma_has_after_add(b, "custom_commands_enabled"@, "false"@, "custom_sensors"@);
        lemma_has_after_add(b, "custom_commands_enabled"@, "false"@, "custom_commands"@);
        lemma_has_after_add(c, "custom_command_privileges_allowed"@, "false"@, "custom_sensors"@);
        lemma_has_after_add(c, "custom_command_privileges_allowed"@, "false"@, "custom_commands"@);
        lemma_has_after_add(d, "custom_sensors"@, "[]"@, "custom_commands"@);
    }
}

proof fn lemma_has_before(m: Seq<json::MemberView>, other: Seq<char>)
    requires
        other != "show_tray_icon"@,
        fixed_section(add_missing(m, "show_tray_icon"@, "true"@)) is Some,
    ensures
        json::has_member(
            fixed_section(add_missing(m, "show_tray_icon"@, "true"@))->0,
            other,
        ) == json::has_member(m, other),
{
    lemma_has_after_add(m, "show_tray_icon"@, "true"@, other);
    lemma_has_after_fix(add_missing(m, "show_tray_icon"@, "true"@), other);
}

/// A configuration that needs no migration is left as it is.
pub proof fn law_current_config_is_left_alone(m: Seq<json::MemberView>)
    requires
        !needs_migration(m),
    ensures
        migrated_members(m) == Some(m),
{
}

/// The names of the intervals differ from each other.
proof fn lemma_interval_names_differ()
    ensures
        "game_sensor"@ != "last_active"@,
        "game_sensor"@ != "availability"@,
        "last_active"@ != "availability"@,
{
    reveal_strlit("game_sensor");
    reveal_strlit("last_active");
    reveal_strlit("availability");
    assert("game_sensor"@[0] != "last_active"@[0]);
    assert("game_sensor"@.len() == 11 && "last_active"@.len() == 11 && "availability"@.len() == 12);
}

/// Adding later sections leaves the intervals alone.
proof fn lemma_later_intervals(m: Seq<json::MemberView>)
    ensures
        section_has_zero(with_later_sections(m)) == section_has_zero(m),
{
    lemma_keys_differ();
    let a = add_missing(m, "features"@, features_off());
    let b = add_missing(a, "custom_sensors_enabled"@, "false"@);
    let c = add_missing(b, "custom_commands_enabled"@, "false"@);
    let d = add_missing(c, "custom_command_privileges_allowed"@, "false"@);
    let e = add_missing(d, "custom_sensors"@, "[]"@);
    lemma_has_after_add(m, "features"@, features_off(), "intervals"@);
    lemma_has_after_add(a, "custom_sensors_enabled"@, "false"@, "intervals"@);
    lemma_has_after_add(b, "custom_commands_enabled"@, "false"@, "intervals"@);
    lemma_has_after_add(c, "custom_command_privileges_allowed"@, "false"@, "intervals"@);
    lemma_has_after_add(d, "custom_sensors"@, "[]"@, "intervals"@);
    lemma_has_after_add(e, "custom_commands"@, "[]"@, "intervals"@);
}

proof fn lemma_same_zero(
    a: Seq<json::MemberView>,
    b: Seq<json::MemberView>,
    key: Seq<char>,
)
    requires
        json::same_members(a, b),
    ensures
        interval_is_zero(a, key) == interval_is_zero(b, key),
{
    assert(json::has_member(a, key) == json::has_member(b, key));
}

/// Intervals without a zero are still without one where they are the same.
proof fn lemma_same_intervals(a: Seq<json::MemberView>, b: Seq<json::MemberView>)
    requires
        json::same_members(a, b),
        !interval_is_zero(a, "game_sensor"@),
        !interval_is_zero(a, "last_active"@),
        !interval_is_zero(a, "availability"@),
    ensures
        !has_zero_interval(b),
{
    lemma_same_zero(a, b, "game_sensor"@);
    lemma_same_zero(a, b, "last_active"@);
    lemma_same_zero(a, b, "availability"@);
}

/// Members that are the same need migration alike.
proof fn lemma_same_needs(a: Seq<json::MemberView>, b: Seq<json::MemberView>)
    requires
        json::same_members(a, b),
    ensures
        needs_migration(a) == needs_migration(b),
{
    assert(json::has_member(a, "show_tray_icon"@) == json::has_member(b, "show_tray_icon"@));
    assert(json::has_member(a, "intervals"@) == json::has_member(b, "intervals"@));
    assert(json::has_member(a, "features"@) == json::has_member(b, "features"@));
    assert(json::has_member(a, "custom_sensors_enabled"@) == json::has_member(
        b,
        "custom_sensors_enabled"@,
    ));
    assert(json::has_member(a, "custom_commands_enabled"@) == json::has_member(
        b,
        "custom_commands_enabled"@,
    ));
    assert(json::has_member(a, "custom_command_privileges_allowed"@) == json::has_member(
        b,
        "custom_command_privileges_allowed"@,
    ));
    assert(json::has_member(a, "custom_sensors"@) == json::has_member(b, "custom_sensors"@));
    assert(json::has_member(a, "custom_commands"@) == json::has_member(b, "custom_commands"@));
}

/// Repairs the section `intervals` and says whether it held a zero.
fn repair_section(members: &mut Vec<Member>) -> (r: Result<bool, MigrateError>)
    ensures
        match r {
            Ok(fixed) => {
                &&& fixed_section(json::members_view(old(members)@)) == Some(
                    json::members_view(final(members)@),
                )
                &&& fixed == section_has_zero(json::members_view(old(members)@))
                &&& !section_has_zero(json::members_view(final(members)@))
                &&& json::distinct_keys(json::members_view(old(members)@)) ==> json::distinct_keys(
                    json::members_view(final(members)@),
                )
            },
            Err(e) => {
                &&& e == MigrateError::Unwritable
                &&& fixed_section(json::members_view(old(members)@)) is None
            },
        },
{
    let ghost start = json::members_view(members@);
    proof {
        json::lemma_member_index(start, "intervals"@);
        lemma_interval_names_differ();
    }
    let at: usize = find_member(members, "intervals");
    if at < members.len() {
        if let Some(Some(mut section)) = read_object(&members[at].1) {
            let a = repair_interval(&mut section, "game_sensor", 5);
            let b = repair_interval(&mut section, "last_active", 10);
            let c = repair_interval(&mut section, "availability", 30);
            if a || b || c {
                match write_object(&section) {
                    Some(t) => {
                        set_member(members, "intervals", &t);
                        proof {
                            json::lemma_with_member(start, "intervals"@, t@, "intervals"@);
                            let v = json::members_view(section@);
                            assert(!interval_is_zero(v, "game_sensor"@));
                            assert(!interval_is_zero(v, "last_active"@));
                            assert(!interval_is_zero(v, "availability"@));
                            if json::json_object(t@) is Some {
                                let again = json::json_object(t@)->0->0;
                                lemma_same_intervals(v, again);
                            }
                            if json::distinct_keys(start) {
                                json::lemma_set_keeps_keys(start, "intervals"@, t@);
                            }
                        }
                        return Ok(true);
                    },
                    None => {
                        return Err(MigrateError::Unwritable);
                    },
                }
            }
        }
    }
    Ok(false)
}

/// Migrates the members of a configuration: adds what is missing and replaces
/// intervals that are zero. Says whether anything changed. What comes out needs no
/// further migration.
pub fn migrate_members(members: &mut Vec<Member>) -> (r: Result<bool, MigrateError>)
    ensures
        match r {
            Ok(changed) => {
                &&& migrated_members(json::members_view(old(members)@)) == Some(
                    json::members_view(final(members)@),
                )
                &&& changed == needs_migration(json::members_view(old(members)@))
                &&& !needs_migration(json::members_view(final(members)@))
                &&& json::distinct_keys(json::members_view(old(members)@)) ==> json::distinct_keys(
                    json::members_view(final(members)@),
                )
            },
            Err(e) => {
                &&& e == MigrateError::Unwritable
                &&& migrated_members(json::members_view(old(members)@)) is None
            },
        },
{
    let ghost start = json::members_view(members@);
    let mut changed = ensure_member(members, "show_tray_icon", "true");
    let ghost shown = json::members_view(members@);
    match repair_section(members) {
        Ok(fixed) => {
            changed = changed || fixed;
        },
        Err(e) => {
            return Err(e);
        },
    }
    let ghost m0 = json::members_view(members@);
    let d = ensure_member(members, "features", "{\"game_detection\":false,\"idle_tracking\":false,\"notifications\":false,\"power_events\":false}");
    let e = ensure_member(members, "custom_sensors_enabled", "false");
    let f = ensure_member(members, "custom_commands_enabled", "false");
    let g = ensure_member(members, "custom_command_privileges_allowed", "false");
    let h = ensure_member(members, "custom_sensors", "[]");
    let i = ensure_member(members, "custom_commands", "[]");
    proof {
        lemma_migration_flags(start);
        lemma_later_intervals(m0);
        law_migration_completes(start, "show_tray_icon"@);
    }
    Ok(changed || d || e || f || g || h || i)
}

/// Migrates a configuration text. Returns the text to use and whether it differs
/// from the old one, in which case the caller writes it back. A text that came out of a
/// migration is given back as it is by a second one, and is not written again.
pub fn migrate_config(content: &str) -> (r: Result<(String, bool), MigrateError>)
    ensures
        r matches Ok((t, _)) ==> migration(t@) == Ok::<(Seq<char>, bool), MigrateError>((t@, false)),
        match r {
            Ok((t, changed)) => migration(content@) == Ok::<(Seq<char>, bool), MigrateError>(
                (t@, changed),
            ),
            Err(e) => migration(content@) == Err::<(Seq<char>, bool), MigrateError>(e),
        },
{
    match read_object(content) {
        None => Err(MigrateError::InvalidJson),
        Some(None) => Err(MigrateError::NotAnObject),
        Some(Some(mut members)) => {
            match migrate_members(&mut members) {
                Err(e) => Err(e),
                Ok(false) => Ok((content.to_string(), false)),
                Ok(true) => match write_object(&members) {
                    None => Err(MigrateError::Unwritable),
                    Some(compact) => match indent_text(&compact) {
                        None => Err(MigrateError::Unwritable),
                        Some(t) => {
                            proof {
                                let n = json::members_view(members@);
                                let again = json::json_object(compact@)->0->0;
                                lemma_same_needs(n, again);
                                law_current_config_is_left_alone(again);
                            }
                            Ok((t, true))
                        },
                    },
                },
            }
        },
    }
}

/// Adding a missing member gives it its value and leaves the others alone.
pub proof fn lemma_add_missing(
    m: Seq<json::MemberView>,
    key: Seq<char>,
    value: Seq<char>,
    other: Seq<char>,
)
    ensures
        json::has_member(add_missing(m, key, value), key),
        json::has_member(m, other) ==> json::member(add_missing(m, key, value), other)
            == json::member(m, other) && json::has_member(add_missing(m, key, value), other),
{
    json::lemma_with_member(m, key, value, other);
    json::lemma_with_member(m, key, value, key);
    json::lemma_member_index(m, key);
    json::lemma_member_index(add_missing(m, key, value), other);
    json::lemma_member_index(add_missing(m, key, value), key);
    json::lemma_member_index(m, other);
    if !json::has_member(m, key) {
        assert(add_missing(m, key, value) == json::with_member(m, key, value));
    }
}

/// A migrated configuration has every section that the migration knows of, and
/// keeps the value of every member that was there, the intervals apart.
pub proof fn law_migration_completes(m: Seq<json::MemberView>, other: Seq<char>)
    requires
        migrated_members(m) is Some,
    ensures
        ({
            let n = migrated_members(m)->0;
            &&& json::has_member(n, "show_tray_icon"@)
            &&& json::has_member(n, "features"@)
            &&& json::has_member(n, "custom_sensors_enabled"@)
            &&& json::has_member(n, "custom_commands_enabled"@)
            &&& json::has_member(n, "custom_command_privileges_allowed"@)
            &&& json::has_member(n, "custom_sensors"@)
            &&& json::has_member(n, "custom_commands"@)
            &&& json::has_member(m, other) && other != "intervals"@ ==> json::member(n, other)
                == json::member(m, other)
        }),
{
    let shown = add_missing(m, "show_tray_icon"@, "true"@);
    let fixed = fixed_section(shown)->0;
    lemma_add_missing(m, "show_tray_icon"@, "true"@, other);
    if json::has_member(m, other) {
        lemma_fixed_section(shown, other);
    }
    lemma_fixed_section(shown, "show_tray_icon"@);
    let a = add_missing(fixed, "features"@, features_off());
    let b = add_missing(a, "custom_sensors_enabled"@, "false"@);
    let c = add_missing(b, "custom_commands_enabled"@, "false"@);
    let d = add_missing(c, "custom_command_privileges_allowed"@, "false"@);
    let e = add_missing(d, "custom_sensors"@, "[]"@);
    lemma_later_sections(fixed, other);
    lemma_later_sections(fixed, "show_tray_icon"@);
    lemma_add_missing(fixed, "features"@, features_off(), other);
    lemma_add_missing(a, "custom_sensors_enabled"@, "false"@, "features"@);
    lemma_add_missing(b, "custom_commands_enabled"@, "false"@, "features"@);
    lemma_add_missing(b, "custom_commands_enabled"@, "false"@, "custom_sensors_enabled"@);
    lemma_add_missing(c, "custom_command_privileges_allowed"@, "false"@, "features"@);
    lemma_add_missing(c, "custom_command_privileges_allowed"@, "false"@, "custom_sensors_enabled"@);
    lemma_add_missing(c, "custom_command_privileges_allowed"@, "false"@, "custom_commands_enabled"@);
    lemma_add_missing(d, "custom_sensors"@, "[]"@, "features"@);
    lemma_add_missing(d, "custom_sensors"@, "[]"@, "custom_sensors_enabled"@);
    lemma_add_missing(d, "custom_sensors"@, "[]"@, "custom_commands_enabled"@);
    lemma_add_missing(d, "custom_sensors"@, "[]"@, "custom_command_privileges_allowed"@);
    lemma_add_missing(e, "custom_commands"@, "[]"@, "features"@);
    lemma_add_missing(e, "custom_commands"@, "[]"@, "custom_sensors_enabled"@);
    lemma_add_missing(e, "custom_commands"@, "[]"@, "custom_commands_enabled"@);
    lemma_add_missing(e, "custom_commands"@, "[]"@, "custom_command_privileges_allowed"@);
    lemma_add_missing(e, "custom_commands"@, "[]"@, "custom_sensors"@);
}

proof fn lemma_fixed_section(m: Seq<json::MemberView>, other: Seq<char>)
    requires
        fixed_section(m) is Some,
        json::has_member(m, other),
    ensures
        json::has_member(fixed_section(m)->0, other),
        other != "intervals"@ ==> json::member(fixed_section(m)->0, other) == json::member(m, other),
{
    if section_has_zero(m) {
        let t = json::json_text(fixed_intervals(interval_section(m)->0))->0;
        json::lemma_with_member(m, "intervals"@, t, other);
        json::lemma_member_index(m, other);
        json::lemma_member_index(fixed_section(m)->0, other);
    }
}

proof fn lemma_later_sections(m: Seq<json::MemberView>, other: Seq<char>)
    ensures
        json::has_member(m, other) ==> json::has_member(with_later_sections(m), other)
            && json::member(with_later_sections(m), other) == json::member(m, other),
{
    let a = add_missing(m, "features"@, features_off());
    let b = add_missing(a, "custom_sensors_enabled"@, "false"@);
    let c = add_missing(b, "custom_commands_enabled"@, "false"@);
    let d = add_missing(c, "custom_command_privileges_allowed"@, "false"@);
    let e = add_missing(d, "custom_sensors"@, "[]"@);
    lemma_add_missing(m, "features"@, features_off(), other);
    lemma_add_missing(a, "custom_sensors_enabled"@, "false"@, other);
    lemma_add_missing(b, "custom_commands_enabled"@, "false"@, other);
    lemma_add_missing(c, "custom_command_privileges_allowed"@, "false"@, other);
    lemma_add_missing(d, "custom_sensors"@, "[]"@, other);
    lemma_add_missing(e, "custom_commands"@, "[]"@, other);
}

// ---------------------------------------------------------------------------
// Reload
// ---------------------------------------------------------------------------

/// What happened to a watched file.
#[derive(Debug, Clone, Copy, PartialEq, Eq, Structural)]
pub enum FileEvent {
    Created,
    Modified,
    Other,
}

/// Whether an event in the watched directory asks for a reload: the file named
/// `filename` is among the touched ones and was created or modified.
pub fn is_reload_event(touched: &Vec<String>, filename: &str, event: FileEvent) -> (r: bool)
    ensures
        r == (event != FileEvent::Other && text::views(touched@).contains(filename@)),
{
    let mut i: usize = 0;
    while i < touched.len()
        invariant
            i <= touched.len(),
            forall|j: int| 0 <= j < i ==> text::views(touched@)[j] != filename@,
        decreases touched.len() - i,
    {
        if touched[i].as_str().eq(filename) {
            proof {
                assert(text::views(touched@)[i as int] == filename@);
            }
            return event != FileEvent::Other;
        }
        i += 1;
    }
    false
}

/// What a reload changed, for the log.
#[derive(Debug, Clone, Copy, PartialEq, Eq, Structural)]
pub struct ReloadReport {
    pub old_games: usize,
    pub new_games: usize,
    /// The new value of the switch, where it changed.
    pub custom_sensors_enabled: Option<bool>,
    /// The new value of the switch, where it changed.
    pub custom_commands_enabled: Option<bool>,
    pub privileges_allowed: bool,
}

/// The new value where it differs from the old one.
pub open spec fn change_of(old_value: bool, new_value: bool) -> Option<bool> {
    if old_value != new_value {
        Some(new_value)
    } else {
        None
    }
}

/// Takes the games and everything custom over from a configuration that was read
/// again. All other settings stay as they are until the next start.
pub fn reload_games(config: &mut Config, new_config: Config) -> (r: ReloadReport)
    ensures
        *final(config) == (Config {
            games: new_config.games,
            custom_sensors_enabled: new_config.custom_sensors_enabled,
            custom_commands_enabled: new_config.custom_commands_enabled,
            custom_command_privileges_allowed: new_config.custom_command_privileges_allowed,
            custom_sensors: new_config.custom_sensors,
            custom_commands: new_config.custom_commands,
            ..*old(config)
        }),
        r == (ReloadReport {
            old_games: old(config).games@.len() as usize,
            new_games: new_config.games@.len() as usize,
            custom_sensors_enabled: change_of(
                old(config).custom_sensors_enabled,
                new_config.custom_sensors_enabled,
            ),
            custom_commands_enabled: change_of(
                old(config).custom_commands_enabled,
                new_config.custom_commands_enabled,
            ),
            privileges_allowed: new_config.custom_command_privileges_allowed,
        }),
{
    let report = ReloadReport {
        old_games: config.games.len(),
        new_games: new_config.games.len(),
        custom_sensors_enabled: if config.custom_sensors_enabled
            != new_config.custom_sensors_enabled {
            Some(new_config.custom_sensors_enabled)
        } else {
            None
        },
        custom_commands_enabled: if config.custom_commands_enabled
            != new_config.custom_commands_enabled {
            Some(new_config.custom_commands_enabled)
        } else {
            None
        },
        privileges_allowed: new_config.custom_command_privileges_allowed,
    };
    config.games = new_config.games;
    config.custom_sensors_enabled = new_config.custom_sensors_enabled;
    config.custom_commands_enabled = new_config.custom_commands_enabled;
    config.custom_command_privileges_allowed = new_config.custom_command_privileges_allowed;
    config.custom_sensors = new_config.custom_sensors;
    config.custom_commands = new_config.custom_commands;
    report
}

// ---------------------------------------------------------------------------
// What a configuration means
// ---------------------------------------------------------------------------

/// Of a fresh installation the sleep state, the display state and the power commands are
/// on, and nothing else is.
pub proof fn law_default_features()
    ensures
        !default_features().running_game,
        !default_features().game_catalog,
        !default_features().steam_library,
        !default_features().launch_game,
        !default_features().close_game,
        !default_features().idle_tracking,
        default_features().sleep_wake,
        default_features().display_state,
        default_features().cmd_shutdown,
        default_features().cmd_restart,
        default_features().cmd_sleep,
        default_features().cmd_lock,
        default_features().cmd_logoff,
        default_features().cmd_monitor,
        !default_features().notifications,
        !default_features().cpu_sensor,
        !default_features().memory_sensor,
        !default_features().active_window,
        !default_features().session_state,
        !default_features().audio_device,
        !default_features().mic,
        !default_features().webcam,
        !default_features().now_playing,
        !default_features().volume,
        !default_features().media_controls,
        !default_features().steam_updates,
        !default_features().discord,
        !default_features().gpu_sensor,
        !default_features().network_sensor,
        !default_features().disk_sensor,
        !default_features().uptime_sensor,
        !default_features().hwinfo_sensor,
        !default_features().manage_hwinfo,
{
}

/// A sensor is accepted exactly where it has a name without white space and the fields
/// that its type needs, none of them empty.
pub proof fn law_accepted_sensors(s: CustomSensor)
    ensures
        sensor_error(s) is None <==> {
            &&& s.name@.len() > 0
            &&& forall|i: int| 0 <= i < s.name@.len() ==> !text::white_space(#[trigger] s.name@[i])
            &&& s.sensor_type == CustomSensorType::Powershell ==> s.script is Some
                && s.script->0@.len() > 0
            &&& s.sensor_type == CustomSensorType::ProcessExists ==> s.process is Some
                && s.process->0@.len() > 0
            &&& s.sensor_type == CustomSensorType::FileContents ==> s.file_path is Some
                && s.file_path->0@.len() > 0
            &&& s.sensor_type == CustomSensorType::Registry ==> s.registry_key is Some
                && s.registry_key->0@.len() > 0 && s.registry_value is Some
                && s.registry_value->0@.len() > 0
        },
{
}

/// A command is accepted exactly where it has a name without white space, the permission
/// for administrator rights where it asks for them, and the field that its type needs.
pub proof fn law_accepted_commands(c: CustomCommand, allowed: bool)
    ensures
        command_error(c, allowed) is None <==> {
            &&& c.name@.len() > 0
            &&& forall|i: int| 0 <= i < c.name@.len() ==> !text::white_space(#[trigger] c.name@[i])
            &&& c.admin ==> allowed
            &&& c.command_type == CustomCommandType::Powershell ==> c.script is Some
                && c.script->0@.len() > 0
            &&& c.command_type == CustomCommandType::Executable ==> c.path is Some
                && c.path->0@.len() > 0
            &&& c.command_type == CustomCommandType::Shell ==> c.command is Some
                && c.command->0@.len() > 0
        },
{
}

/// What is said of a sensor that is not accepted.
pub proof fn law_messages_of_sensors(s: CustomSensor)
    ensures
        s.name@.len() == 0 ==> sensor_error(s) == Some("Custom sensor name cannot be empty"@),
        s.name@.len() > 0 && text::has_white_space(s.name@) ==> sensor_error(s) == Some(
            "Custom sensor name '"@ + s.name@ + "' cannot contain whitespace"@,
        ),
        s.name@.len() > 0 && !text::has_white_space(s.name@) ==> {
            let head = "Custom sensor '"@ + s.name@;
            let lacks = |field: Option<String>| field is None || field->0@.len() == 0;
            &&& s.sensor_type == CustomSensorType::Powershell && lacks(s.script) ==> sensor_error(s)
                == Some(head + "' (powershell) requires 'script' field"@)
            &&& s.sensor_type == CustomSensorType::ProcessExists && lacks(s.process)
                ==> sensor_error(s) == Some(head + "' (process_exists) requires 'process' field"@)
            &&& s.sensor_type == CustomSensorType::FileContents && lacks(s.file_path)
                ==> sensor_error(s) == Some(head + "' (file_contents) requires 'file_path' field"@)
            &&& s.sensor_type == CustomSensorType::Registry && lacks(s.registry_key)
                ==> sensor_error(s) == Some(head + "' (registry) requires 'registry_key' field"@)
            &&& s.sensor_type == CustomSensorType::Registry && !lacks(s.registry_key) && lacks(
                s.registry_value,
            ) ==> sensor_error(s) == Some(head + "' (registry) requires 'registry_value' field"@)
        },
{
}

/// What is said of a command that is not accepted.
pub proof fn law_messages_of_commands(c: CustomCommand, allowed: bool)
    ensures
        c.name@.len() == 0 ==> command_error(c, allowed) == Some(
            "Custom command name cannot be empty"@,
        ),
        c.name@.len() > 0 && text::has_white_space(c.name@) ==> command_error(c, allowed) == Some(
            "Custom command name '"@ + c.name@ + "' cannot contain whitespace"@,
        ),
        c.name@.len() > 0 && !text::has_white_space(c.name@) ==> {
            let head = "Custom command '"@ + c.name@;
            let lacks = |field: Option<String>| field is None || field->0@.len() == 0;
            let may = !c.admin || allowed;
            &&& !may ==> command_error(c, allowed) == Some(
                head
                    + "' has admin=true but custom_command_privileges_allowed=false. Set custom_command_privileges_allowed=true if you understand the security implications."@,
            )
            &&& may && c.command_type == CustomCommandType::Powershell && lacks(c.script)
                ==> command_error(c, allowed) == Some(
                head + "' (powershell) requires 'script' field"@,
            )
            &&& may && c.command_type == CustomCommandType::Executable && lacks(c.path)
                ==> command_error(c, allowed) == Some(
                head + "' (executable) requires 'path' field"@,
            )
            &&& may && c.command_type == CustomCommandType::Shell && lacks(c.command)
                ==> command_error(c, allowed) == Some(
                head + "' (shell) requires 'command' field"@,
            )
        },
{
}

proof fn lemma_all_sensors_fine(s: Seq<CustomSensor>, k: int)
    requires
        0 <= k <= s.len(),
        forall|i: int| 0 <= i < k ==> sensor_error(#[trigger] s[i]) is None,
        k < s.len() ==> sensor_error(s[k]) is Some,
    ensures
        first_sensor_error(s) == (if k < s.len() {
            sensor_error(s[k])
        } else {
            None
        }),
    decreases k,
{
    if k > 0 {
        let rest = s.skip(1);
        assert(sensor_error(s[0]) is None);
        assert forall|i: int| 0 <= i < k - 1 implies sensor_error(#[trigger] rest[i]) is None by {
            assert(rest[i] == s[i + 1]);
        }
        if k < s.len() {
            assert(rest[k - 1] == s[k]);
        }
        lemma_all_sensors_fine(rest, k - 1);
    }
}

proof fn lemma_all_commands_fine(s: Seq<CustomCommand>, allowed: bool, k: int)
    requires
        0 <= k <= s.len(),
        forall|i: int| 0 <= i < k ==> command_error(#[trigger] s[i], allowed) is None,
        k < s.len() ==> command_error(s[k], allowed) is Some,
    ensures
        first_command_error(s, allowed) == (if k < s.len() {
            command_error(s[k], allowed)
        } else {
            None
        }),
    decreases k,
{
    if k > 0 {
        let rest = s.skip(1);
        assert(command_error(s[0], allowed) is None);
        assert forall|i: int| 0 <= i < k - 1 implies command_error(
            #[trigger] rest[i],
            allowed,
        ) is None by {
            assert(rest[i] == s[i + 1]);
        }
        if k < s.len() {
            assert(rest[k - 1] == s[k]);
        }
        lemma_all_commands_fine(rest, allowed, k - 1);
    }
}

/// A configuration is accepted exactly where its device has a name of its own without
/// white space, the broker has one of the four schemes, and every custom sensor and every
/// custom command is accepted.
pub proof fn law_accepted_configurations(c: Config)
    ensures
        config_error(c) is None <==> {
            &&& c.device_name@.len() > 0
            &&& c.device_name@ != "my-pc"@
            &&& forall|i: int|
                0 <= i < c.device_name@.len() ==> !text::white_space(#[trigger] c.device_name@[i])
            &&& text::has_prefix(c.mqtt.broker@, "tcp://"@) || text::has_prefix(
                c.mqtt.broker@,
                "ssl://"@,
            ) || text::has_prefix(c.mqtt.broker@, "ws://"@) || text::has_prefix(
                c.mqtt.broker@,
                "wss://"@,
            )
            &&& forall|i: int|
                0 <= i < c.custom_sensors@.len() ==> sensor_error(
                    #[trigger] c.custom_sensors@[i],
                ) is None
            &&& forall|i: int|
                0 <= i < c.custom_commands@.len() ==> command_error(
                    #[trigger] c.custom_commands@[i],
                    c.custom_command_privileges_allowed,
                ) is None
        },
{
    reveal_strlit("tcp://");
    reveal_strlit("ssl://");
    reveal_strlit("ws://");
    reveal_strlit("wss://");
    let allowed = c.custom_command_privileges_allowed;
    if config_error(c) is None {
        lemma_no_sensor_error(c.custom_sensors@);
        lemma_no_command_error(c.custom_commands@, allowed);
    }
    if forall|i: int|
        0 <= i < c.custom_sensors@.len() ==> sensor_error(#[trigger] c.custom_sensors@[i]) is None {
        lemma_all_sensors_fine(c.custom_sensors@, c.custom_sensors@.len() as int);
    }
    if forall|i: int|
        0 <= i < c.custom_commands@.len() ==> command_error(
            #[trigger] c.custom_commands@[i],
            allowed,
        ) is None {
        lemma_all_commands_fine(c.custom_commands@, allowed, c.custom_commands@.len() as int);
    }
}

/// The first rule that a configuration breaks is what is said: the device, then the
/// broker, then the custom sensors and then the custom commands, each list in its order.
pub proof fn law_the_first_broken_rule_is_said(c: Config, k: int)
    ensures
        c.device_name@.len() == 0 ==> config_error(c) == Some("device_name is required"@),
        c.device_name@ == "my-pc"@ ==> config_error(c) == Some(
            "device_name is still the default 'my-pc' - please change it"@,
        ),
        c.device_name@.len() > 0 && c.device_name@ != "my-pc"@ ==> {
            let spaced = text::has_white_space(c.device_name@);
            let scheme = text::has_prefix(c.mqtt.broker@, "tcp://"@) || text::has_prefix(
                c.mqtt.broker@,
                "ssl://"@,
            ) || text::has_prefix(c.mqtt.broker@, "ws://"@) || text::has_prefix(
                c.mqtt.broker@,
                "wss://"@,
            );
            let sensors = c.custom_sensors@;
            let commands = c.custom_commands@;
            let allowed = c.custom_command_privileges_allowed;
            &&& spaced ==> config_error(c) == Some("device_name cannot contain whitespace"@)
            &&& !spaced && c.mqtt.broker@.len() == 0 ==> config_error(c) == Some(
                "mqtt.broker is required"@,
            )
            &&& !spaced && c.mqtt.broker@.len() > 0 && !scheme ==> config_error(c) == Some(
                "mqtt.broker must start with tcp://, ssl://, ws://, or wss://"@,
            )
            &&& !spaced && scheme && 0 <= k < sensors.len() && (forall|i: int|
                0 <= i < k ==> sensor_error(#[trigger] c.custom_sensors@[i]) is None)
                && sensor_error(sensors[k]) is Some ==> config_error(c) == sensor_error(sensors[k])
            &&& !spaced && scheme && (forall|i: int|
                0 <= i < sensors.len() ==> sensor_error(#[trigger] c.custom_sensors@[i]) is None)
                && 0 <= k < commands.len() && (forall|i: int|
                0 <= i < k ==> command_error(#[trigger] c.custom_commands@[i], allowed) is None)
                && command_error(commands[k], allowed) is Some ==> config_error(c) == command_error(
                commands[k],
                allowed,
            )
        },
{
    reveal_strlit("my-pc");
    reveal_strlit("tcp://");
    reveal_strlit("ssl://");
    reveal_strlit("ws://");
    reveal_strlit("wss://");
    let sensors = c.custom_sensors@;
    let commands = c.custom_commands@;
    let allowed = c.custom_command_privileges_allowed;
    if 0 <= k < sensors.len() && (forall|i: int|
        0 <= i < k ==> sensor_error(#[trigger] c.custom_sensors@[i]) is None) && sensor_error(
        sensors[k],
    ) is Some {
        lemma_all_sensors_fine(sensors, k);
    }
    if forall|i: int|
        0 <= i < sensors.len() ==> sensor_error(#[trigger] c.custom_sensors@[i]) is None {
        lemma_all_sensors_fine(sensors, sensors.len() as int);
    }
    if 0 <= k < commands.len() && (forall|i: int|
        0 <= i < k ==> command_error(#[trigger] c.custom_commands@[i], allowed) is None)
        && command_error(commands[k], allowed) is Some {
        lemma_all_commands_fine(commands, allowed, k);
    }
}

/// Each game that a merge added was discovered: it stands under the name of its program,
/// with its Steam id and its name, and is marked as discovered. Its place among the
/// discovered ones is returned; the first one with a name counts.
pub proof fn law_merge_adds_what_was_found(g: Seq<GameEntry>, steam: Seq<SteamGame>, i: int) -> (k:
    int)
    requires
        g.len() <= i < merged(g, steam).len(),
    ensures
        0 <= k < steam.len(),
        merged(g, steam)[i].0 == steam[k].exe_key@,
        forall|j: int| 0 <= j < g.len() ==> (#[trigger] g[j]).0 != steam[k].exe_key@,
        forall|j: int| 0 <= j < k ==> (#[trigger] steam[j]).exe_key@ != steam[k].exe_key@,
        merged(g, steam)[i].1 matches GameView::Full { game_id, app_id, name, auto_discovered }
            && game_id == steam_game_id(steam[k].name@) && app_id == Some(steam[k].app_id) && name
            == Some(steam[k].name@) && auto_discovered,
    decreases steam.len(),
{
    lemma_merged_prefix(g, steam);
    if steam.len() == 0 {
        0
    } else {
        let rest = steam.drop_last();
        let before = merged(g, rest);
        lemma_merged_prefix(g, rest);
        if i < before.len() {
            let k = law_merge_adds_what_was_found(g, rest, i);
            assert forall|j: int| 0 <= j < k implies (#[trigger] steam[j]).exe_key@
                != steam[k].exe_key@ by {
                assert(rest[j] == steam[j]);
            }
            k
        } else {
            let k = steam.len() - 1;
            let key = steam[k].exe_key@;
            assert forall|j: int| 0 <= j < g.len() implies (#[trigger] g[j]).0 != key by {
                assert(before.take(g.len() as int)[j] == before[j]);
            }
            assert forall|j: int| 0 <= j < k implies (#[trigger] steam[j]).exe_key@ != key by {
                law_merge_adds_every_game(g, rest, j);
                assert(rest[j] == steam[j]);
            }
            k
        }
    }
}

/// The id made of a name keeps its ASCII letters and digits, in lower case, writes an
/// underscore for each space and dash, and leaves everything else out.
pub proof fn law_game_ids(before: Seq<char>, c: char, after: Seq<char>)
    ensures
        ({
            let all = id_chars(before + seq![c] + after);
            let put = |t: Seq<char>| all == id_chars(before) + t + id_chars(after);
            let kept = ('0' <= c && c <= '9') || ('a' <= c && c <= 'z') || ('A' <= c && c <= 'Z');
            &&& kept ==> put(seq![c])
            &&& c == ' ' || c == '-' ==> put(seq!['_'])
            &&& !kept && c != ' ' && c != '-' ==> put(Seq::<char>::empty())
        }),
        id_chars(Seq::<char>::empty()).len() == 0,
        steam_game_id(before) == id_chars(text::lowercase(before)),
{
    lemma_id_parts(before + seq![c], after);
    let one = before + seq![c];
    assert(one.drop_last() =~= before);
    assert(one.last() == c);
    let put = match id_char(c) {
        Some(d) => seq![d],
        None => Seq::<char>::empty(),
    };
    assert(id_chars(one) =~= id_chars(before) + put);
}

proof fn lemma_id_parts(a: Seq<char>, b: Seq<char>)
    ensures
        id_chars(a + b) == id_chars(a) + id_chars(b),
    decreases b.len(),
{
    if b.len() == 0 {
        assert(a + b =~= a);
        assert(id_chars(a) + id_chars(b) =~= id_chars(a));
    } else {
        lemma_id_parts(a, b.drop_last());
        assert((a + b).drop_last() =~= a + b.drop_last());
        assert((a + b).last() == b.last());
        assert(id_chars(a + b) =~= id_chars(a) + id_chars(b));
    }
}

/// A title is made word by word: an underscore or white space separates the words, one
/// space joins them, and a word begins with a capital unless it begins with a digit.
pub proof fn law_titles(word: Seq<char>, sep: char, rest: Seq<char>)
    requires
        word.len() > 0,
        forall|i: int|
            0 <= i < word.len() ==> !text::white_space(#[trigger] word[i]) && word[i] != '_',
        sep == '_' || text::white_space(sep),
    ensures
        ({
            let shown = if '0' <= word[0] && word[0] <= '9' {
                word
            } else if 'a' <= word[0] && word[0] <= 'z' {
                seq![(word[0] as u32 - 32) as char] + word.skip(1)
            } else {
                word
            };
            let ascii = (word[0] as u32) < 128;
            let more = text::words(text::replace_char_spec(rest, '_', ' ')).len() > 0;
            &&& ascii ==> title(word) == shown
            &&& ascii && more ==> title(word + seq![sep] + rest) == shown + " "@ + title(rest)
            &&& ascii && !more ==> title(word + seq![sep] + rest) == shown
            &&& title(seq![sep] + rest) == title(rest)
        }),
{
    let f = |w: Seq<char>| title_word(w);
    let r = |s: Seq<char>| text::replace_char_spec(s, '_', ' ');
    let all = word + seq![sep] + rest;
    let space = if sep == '_' {
        ' '
    } else {
        sep
    };
    text::law_white_space(' ');
    assert(r(word) =~= word);
    assert(r(all) =~= word + seq![space] + r(rest));
    assert(r(seq![sep] + rest) =~= seq![space] + r(rest));
    text::law_words(word, space, r(rest));
    let one = seq![title_word(word)];
    let tail = text::words(r(rest)).map_values(f);
    assert(seq![word].map_values(f) =~= one);
    assert((seq![word] + text::words(r(rest))).map_values(f) =~= one + tail);
    if tail.len() > 0 {
        text::lemma_join_front(title_word(word), tail, " "@);
    } else {
        assert(one + tail =~= one);
    }
    assert(text::capitalized(word) =~= text::uppercase(word[0]) + word.skip(1));
    assert(word =~= seq![word[0]] + word.skip(1));
}

/// The name that is shown for a game is the one that it has, and without one the title
/// made of its id; its ids are those that were given.
pub proof fn law_what_is_shown_of_a_game(
    id: Seq<char>,
    app_id: Option<u32>,
    name: Option<Seq<char>>,
    found: bool,
)
    ensures
        ({
            let full = GameView::Full { game_id: id, app_id, name, auto_discovered: found };
            &&& full.game_id() == id
            &&& full.app_id() == app_id
            &&& name matches Some(n) ==> full.display_name() == n
            &&& name is None ==> full.display_name() == title(id)
        }),
        GameView::Simple(id).game_id() == id,
        GameView::Simple(id).app_id() is None,
        GameView::Simple(id).display_name() == title(id),
{
}

/// The client is named as configured, and else after the device.
pub proof fn law_client_ids(c: Config)
    ensures
        c.mqtt.client_id matches Some(id) ==> client_id_of(c) == id@,
        c.mqtt.client_id is None ==> client_id_of(c) == "pc-agent-"@ + c.device_name@,
{
}

/// Only a switch that changed is reported, with its new value.
pub proof fn law_only_changes_are_reported(a: bool, b: bool)
    ensures
        a == b ==> change_of(a, b) is None,
        a != b ==> change_of(a, b) == Some(b),
{
}

proof fn lemma_added(m: Seq<json::MemberView>, key: Seq<char>, value: Seq<char>, other: Seq<char>)
    ensures
        json::member(add_missing(m, key, value), other) == (if other == key && json::member(m, key)
            is None {
            Some(value)
        } else {
            json::member(m, other)
        }),
{
    json::lemma_with_member(m, key, value, other);
    json::lemma_member_index(m, key);
    json::lemma_member_index(m, other);
}

/// Of a migrated configuration every member that was there keeps its value, the intervals
/// apart, and each missing section is there with its first value. Nothing else is added.
pub proof fn law_migration_values(m: Seq<json::MemberView>, key: Seq<char>)
    requires
        migrated_members(m) is Some,
        key != "intervals"@,
    ensures
        ({
            let found = json::member(m, key);
            let now = json::member(migrated_members(m)->0, key);
            &&& found is Some ==> now == found
            &&& found is None && key == "show_tray_icon"@ ==> now == Some("true"@)
            &&& found is None && key == "features"@ ==> now == Some(
                "{\"game_detection\":false,\"idle_tracking\":false,\"notifications\":false,\"power_events\":false}"@,
            )
            &&& found is None && (key == "custom_sensors_enabled"@ || key
                == "custom_commands_enabled"@ || key == "custom_command_privileges_allowed"@)
                ==> now == Some("false"@)
            &&& found is None && (key == "custom_sensors"@ || key == "custom_commands"@) ==> now
                == Some("[]"@)
            &&& found is None && key != "show_tray_icon"@ && key != "features"@ && key
                != "custom_sensors_enabled"@ && key != "custom_commands_enabled"@ && key
                != "custom_command_privileges_allowed"@ && key != "custom_sensors"@ && key
                != "custom_commands"@ ==> now is None
        }),
{
    lemma_keys_differ();
    let shown = add_missing(m, "show_tray_icon"@, "true"@);
    lemma_added(m, "show_tray_icon"@, "true"@, key);
    let fixed = fixed_section(shown)->0;
    if section_has_zero(shown) {
        let t = json::json_text(fixed_intervals(interval_section(shown)->0))->0;
        json::lemma_with_member(shown, "intervals"@, t, key);
    }
    assert(json::member(fixed, key) == json::member(shown, key));
    let a = add_missing(fixed, "features"@, features_off());
    let b = add_missing(a, "custom_sensors_enabled"@, "false"@);
    let c = add_missing(b, "custom_commands_enabled"@, "false"@);
    let d = add_missing(c, "custom_command_privileges_allowed"@, "false"@);
    let e = add_missing(d, "custom_sensors"@, "[]"@);
    lemma_added(fixed, "features"@, features_off(), key);
    lemma_added(a, "custom_sensors_enabled"@, "false"@, key);
    lemma_added(b, "custom_commands_enabled"@, "false"@, key);
    lemma_added(c, "custom_command_privileges_allowed"@, "false"@, key);
    lemma_added(d, "custom_sensors"@, "[]"@, key);
    lemma_added(e, "custom_commands"@, "[]"@, key);
}

/// An interval of zero becomes the default, five seconds for the games, ten for the last
/// activity and thirty for the availability; every other interval stays.
pub proof fn law_zero_intervals_are_repaired(m: Seq<json::MemberView>, key: Seq<char>)
    ensures
        ({
            let was = json::member(m, key);
            let now = json::member(fixed_intervals(m), key);
            let zero = was is Some && json::json_unsigned(was->0) == Some(0u64);
            &&& zero && key == "game_sensor"@ ==> now == Some("5"@)
            &&& zero && key == "last_active"@ ==> now == Some("10"@)
            &&& zero && key == "availability"@ ==> now == Some("30"@)
            &&& !zero || (key != "game_sensor"@ && key != "last_active"@ && key != "availability"@)
                ==> now == was
        }),
{
    lemma_interval_names_differ();
    lemma_small_numbers();
    let a = fix_interval(m, "game_sensor"@, 5);
    let b = fix_interval(a, "last_active"@, 10);
    json::lemma_with_member(m, "game_sensor"@, text::decimal(5), key);
    json::lemma_with_member(m, "game_sensor"@, text::decimal(5), "last_active"@);
    json::lemma_with_member(m, "game_sensor"@, text::decimal(5), "availability"@);
    json::lemma_with_member(a, "last_active"@, text::decimal(10), key);
    json::lemma_with_member(a, "last_active"@, text::decimal(10), "availability"@);
    json::lemma_with_member(b, "availability"@, text::decimal(30), key);
}

proof fn lemma_small_numbers()
    ensures
        text::decimal(5) == "5"@,
        text::decimal(10) == "10"@,
        text::decimal(30) == "30"@,
{
    reveal_strlit("5");
    reveal_strlit("10");
    reveal_strlit("30");
    reveal_with_fuel(text::decimal, 2);
    assert(text::decimal(5) =~= "5"@);
    assert(text::decimal(10) =~= "10"@);
    assert(text::decimal(30) =~= "30"@);
}

/// The section of intervals is rewritten exactly where one of the three is zero, and then
/// holds the repaired intervals.
pub proof fn law_interval_section(m: Seq<json::MemberView>)
    requires
        migrated_members(m) is Some,
    ensures
        ({
            let was = json::member(m, "intervals"@);
            let now = json::member(migrated_members(m)->0, "intervals"@);
            let section = if was is Some && json::json_object(was->0) is Some {
                json::json_object(was->0)->0
            } else {
                None
            };
            let zero = |key: Seq<char>|
                json::member(section->0, key) is Some && json::json_unsigned(
                    json::member(section->0, key)->0,
                ) == Some(0u64);
            let repair = section is Some && (zero("game_sensor"@) || zero("last_active"@) || zero(
                "availability"@,
            ));
            &&& repair ==> now == json::json_text(fixed_intervals(section->0))
            &&& !repair ==> now == was
        }),
{
    lemma_keys_differ();
    lemma_interval_names_differ();
    let shown = add_missing(m, "show_tray_icon"@, "true"@);
    lemma_added(m, "show_tray_icon"@, "true"@, "intervals"@);
    let fixed = fixed_section(shown)->0;
    let key = "intervals"@;
    if interval_section(shown) is Some {
        let section = interval_section(shown)->0;
        let a = fix_interval(section, "game_sensor"@, 5);
        json::lemma_with_member(section, "game_sensor"@, text::decimal(5), "last_active"@);
        json::lemma_with_member(section, "game_sensor"@, text::decimal(5), "availability"@);
        json::lemma_with_member(a, "last_active"@, text::decimal(10), "availability"@);
    }
    if section_has_zero(shown) {
        let t = json::json_text(fixed_intervals(interval_section(shown)->0))->0;
        json::lemma_with_member(shown, key, t, key);
    }
    let a = add_missing(fixed, "features"@, features_off());
    let b = add_missing(a, "custom_sensors_enabled"@, "false"@);
    let c = add_missing(b, "custom_commands_enabled"@, "false"@);
    let d = add_missing(c, "custom_command_privileges_allowed"@, "false"@);
    let e = add_missing(d, "custom_sensors"@, "[]"@);
    lemma_added(fixed, "features"@, features_off(), key);
    lemma_added(a, "custom_sensors_enabled"@, "false"@, key);
    lemma_added(b, "custom_commands_enabled"@, "false"@, key);
    lemma_added(c, "custom_command_privileges_allowed"@, "false"@, key);
    lemma_added(d, "custom_sensors"@, "[]"@, key);
    lemma_added(e, "custom_commands"@, "[]"@, key);
}

/// In any script, a word that begins with a number is kept in a title, and any other begins
/// with the upper case of its first character.
pub proof fn law_titles_in_any_script(word: Seq<char>)
    requires
        word.len() > 0,
        forall|i: int|
            0 <= i < word.len() ==> !text::white_space(#[trigger] word[i]) && word[i] != '_',
    ensures
        text::numeric(word[0]) ==> title(word) == word,
        !text::numeric(word[0]) ==> title(word) == text::uppercase(word[0]) + word.skip(1),
{
    let f = |w: Seq<char>| title_word(w);
    assert(text::replace_char_spec(word, '_', ' ') =~= word);
    text::law_white_space(' ');
    text::law_words(word, ' ', Seq::<char>::empty());
    assert(seq![word].map_values(f) =~= seq![title_word(word)]);
    assert(text::capitalized(word) =~= text::uppercase(word[0]) + word.skip(1));
}

} // verus!
