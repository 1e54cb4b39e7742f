//! Which entities are announced to Home Assistant, and with which payloads.

use crate::commands;
use crate::commands::command_feature_enabled;
use crate::config::{CustomCommand, CustomSensor, FeatureConfig};
use crate::mqtt::payload;
use crate::mqtt::payload::{
    derive_state_class, AvailabilityEntry, HADiscoveryPayload, NotifyPayload,
};
use crate::mqtt::session::AT_LEAST_ONCE;
use crate::mqtt::topics;
use crate::mqtt::topics::{notify_config_topic_of, notify_topic_of};
use crate::mqtt::MqttClient;
use crate::text;
use crate::text::own_opt;
use vstd::prelude::*;
use vstd::string::*;

verus! {

// ---------------------------------------------------------------------------
// Entities
// ---------------------------------------------------------------------------

/// Which signals say whether the value of a sensor is current.
#[derive(Debug, Clone, Copy, PartialEq, Eq, Structural)]
pub enum SensorSource {
    /// The agent is online.
    Agent,
    /// None: the last value stands while the agent is off.
    Always,
    /// The agent is online and HWiNFO is running.
    HwInfo,
}

/// An entity that can be announced.
#[derive(Debug, Clone, Copy)]
pub enum Entity {
    Sensor {
        name: &'static str,
        display_name: &'static str,
        icon: &'static str,
        device_class: Option<&'static str>,
        unit: Option<&'static str>,
        attributes: bool,
        source: SensorSource,
    },
    Button { name: &'static str, icon: &'static str },
    Notify,
}

/// An entity as plain values.
pub enum EntityView {
    Sensor {
        name: Seq<char>,
        display_name: Seq<char>,
        icon: Seq<char>,
        device_class: Option<Seq<char>>,
        unit: Option<Seq<char>>,
        attributes: bool,
        source: SensorSource,
    },
    Button { name: Seq<char>, icon: Seq<char> },
    Notify,
}

impl View for Entity {
    type V = EntityView;

    open spec fn view(&self) -> EntityView {
        match self {
            Entity::Sensor {
                name,
                display_name,
                icon,
                device_class,
                unit,
                attributes,
                source,
            } => EntityView::Sensor {
                name: name@,
                display_name: display_name@,
                icon: icon@,
                device_class: payload::opt_str(*device_class),
                unit: payload::opt_str(*unit),
                attributes: *attributes,
                source: *source,
            },
            Entity::Button { name, icon } => EntityView::Button { name: name@, icon: icon@ },
            Entity::Notify => EntityView::Notify,
        }
    }
}

/// The entities as plain values.
pub open spec fn entities_view(v: Seq<Entity>) -> Seq<EntityView> {
    v.map_values(|e: Entity| e@)
}

/// A sensor.
pub open spec fn sensor(
    name: Seq<char>,
    display_name: Seq<char>,
    icon: Seq<char>,
    device_class: Option<Seq<char>>,
    unit: Option<Seq<char>>,
    attributes: bool,
    source: SensorSource,
) -> EntityView {
    EntityView::Sensor { name, display_name, icon, device_class, unit, attributes, source }
}

/// The one entity, or none.
pub open spec fn when(on: bool, e: EntityView) -> Seq<EntityView> {
    if on {
        seq![e]
    } else {
        seq![]
    }
}

/// Some sensor of the system group is on. The battery and the health of the
/// bridge go with the group.
pub open spec fn system_sensors(f: FeatureConfig) -> bool {
    f.cpu_sensor || f.memory_sensor || f.active_window
}

/// The sensors that a platform without HWiNFO has too.
pub open spec fn common_sensors(f: FeatureConfig) -> Seq<EntityView> {
    when(f.running_game, sensor("runninggames"@, "Running Game"@, "mdi:gamepad-variant"@, None, None, true, SensorSource::Agent))
        + when(f.game_catalog, sensor("game_catalog"@, "Game Catalog"@, "mdi:gamepad-variant-outline"@, None, None, true, SensorSource::Agent))
        + when(f.idle_tracking, sensor("lastactive"@, "Last Active"@, "mdi:clock-outline"@, Some("timestamp"@), None, false, SensorSource::Agent))
        + when(f.idle_tracking, sensor("screensaver"@, "Screensaver"@, "mdi:monitor-shimmer"@, None, None, false, SensorSource::Agent))
        + when(f.sleep_wake, sensor("sleep_state"@, "Sleep State"@, "mdi:power-sleep"@, None, None, false, SensorSource::Always))
        + when(f.display_state, sensor("display"@, "Display"@, "mdi:monitor"@, None, None, false, SensorSource::Agent))
        + when(f.cpu_sensor, sensor("cpu_usage"@, "CPU Usage"@, "mdi:cpu-64-bit"@, None, Some("%"@), false, SensorSource::Agent))
        + when(f.memory_sensor, sensor("memory_usage"@, "Memory Usage"@, "mdi:memory"@, None, Some("%"@), false, SensorSource::Agent))
        + when(system_sensors(f), sensor("battery_level"@, "Battery Level"@, "mdi:battery"@, Some("battery"@), Some("%"@), false, SensorSource::Agent))
        + when(system_sensors(f), sensor("battery_charging"@, "Battery Charging"@, "mdi:battery-charging"@, None, None, false, SensorSource::Agent))
        + when(f.active_window, sensor("active_window"@, "Active Window"@, "mdi:application"@, None, None, false, SensorSource::Agent))
        + when(system_sensors(f), sensor("bridge_health"@, "Bridge Health"@, "mdi:heart-pulse"@, Some("duration"@), Some("s"@), true, SensorSource::Agent))
        + when(f.steam_updates, sensor("steam_updating"@, "Steam Updating"@, "mdi:steam"@, None, None, true, SensorSource::Always))
        + when(f.gpu_sensor, sensor("gpu_usage"@, "GPU Usage"@, "mdi:expansion-card"@, None, Some("%"@), false, SensorSource::Agent))
        + when(f.network_sensor, sensor("network_throughput"@, "Network Throughput"@, "mdi:network"@, None, None, true, SensorSource::Agent))
        + when(f.disk_sensor, sensor("disk_usage"@, "Disk Usage"@, "mdi:harddisk"@, None, Some("%"@), true, SensorSource::Agent))
        + when(f.uptime_sensor, sensor("system_uptime"@, "System Uptime"@, "mdi:clock-check"@, Some("duration"@), Some("s"@), false, SensorSource::Agent))
}

/// The sensors that HWiNFO feeds.
pub open spec fn hwinfo_sensors() -> Seq<EntityView> {
    seq![
        sensor("cpu_package_temp"@, "CPU Package Temperature"@, "mdi:thermometer"@, Some("temperature"@), Some("°C"@), true, SensorSource::HwInfo),
        sensor("gpu_temp"@, "GPU Temperature"@, "mdi:thermometer"@, Some("temperature"@), Some("°C"@), true, SensorSource::HwInfo),
        sensor("gpu_hotspot_temp"@, "GPU Hot Spot Temperature"@, "mdi:thermometer-alert"@, Some("temperature"@), Some("°C"@), true, SensorSource::HwInfo),
        sensor("gpu_memory_temp"@, "GPU Memory Temperature"@, "mdi:thermometer-lines"@, Some("temperature"@), Some("°C"@), true, SensorSource::HwInfo),
        sensor("cpu_package_power"@, "CPU Package Power"@, "mdi:flash"@, Some("power"@), Some("W"@), true, SensorSource::HwInfo),
        sensor("cpu_soc_power"@, "CPU SoC Power"@, "mdi:flash-outline"@, Some("power"@), Some("W"@), true, SensorSource::HwInfo),
        sensor("gpu_power"@, "GPU Power"@, "mdi:flash"@, Some("power"@), Some("W"@), true, SensorSource::HwInfo),
        sensor("cpu_effective_clock"@, "CPU Effective Clock"@, "mdi:speedometer"@, Some("frequency"@), Some("MHz"@), true, SensorSource::HwInfo),
        sensor("gpu_core_clock"@, "GPU Core Clock"@, "mdi:speedometer"@, Some("frequency"@), Some("MHz"@), true, SensorSource::HwInfo),
        sensor("gpu_memory_clock"@, "GPU Memory Clock"@, "mdi:speedometer-medium"@, Some("frequency"@), Some("MHz"@), true, SensorSource::HwInfo),
        sensor("cpu_total_usage"@, "CPU Total Usage"@, "mdi:cpu-64-bit"@, None, Some("%"@), true, SensorSource::HwInfo),
        sensor("gpu_core_load"@, "GPU Core Load"@, "mdi:expansion-card"@, None, Some("%"@), true, SensorSource::HwInfo),
        sensor("gpu_vram_usage_pct"@, "GPU VRAM Usage"@, "mdi:memory"@, None, Some("%"@), true, SensorSource::HwInfo),
        sensor("gpu_fan_rpm"@, "GPU Fan"@, "mdi:fan"@, None, Some("RPM"@), true, SensorSource::HwInfo),
        sensor("framerate"@, "Framerate"@, "mdi:speedometer"@, None, Some("fps"@), true, SensorSource::HwInfo),
        sensor("case_fan_cpu"@, "CPU Fan"@, "mdi:fan"@, None, Some("RPM"@), true, SensorSource::HwInfo),
        sensor("case_fan_cpu_opt"@, "CPU OPT Fan"@, "mdi:fan"@, None, Some("RPM"@), true, SensorSource::HwInfo),
        sensor("case_fan_system_1"@, "System Fan 1"@, "mdi:fan"@, None, Some("RPM"@), true, SensorSource::HwInfo),
        sensor("case_fan_system_2"@, "System Fan 2"@, "mdi:fan"@, None, Some("RPM"@), true, SensorSource::HwInfo),
        sensor("vrm_temp"@, "VRM Temperature"@, "mdi:thermometer"@, Some("temperature"@), Some("°C"@), true, SensorSource::HwInfo),
        sensor("hwinfo_diagnostic"@, "HWiNFO Diagnostic"@, "mdi:bug-outline"@, None, None, true, SensorSource::HwInfo),
    ]
}

/// The built-in commands that have a button, with their icons.
pub open spec fn button_table() -> Seq<(Seq<char>, Seq<char>)> {
    seq![
        ("Launch"@, "mdi:rocket-launch"@),
        ("RefreshSteamGames"@, "mdi:steam"@),
        ("Screensaver"@, "mdi:monitor"@),
        ("Wake"@, "mdi:monitor-eye"@),
        ("Shutdown"@, "mdi:power"@),
        ("Sleep"@, "mdi:power-sleep"@),
        ("Lock"@, "mdi:lock"@),
        ("Hibernate"@, "mdi:power-sleep"@),
        ("Restart"@, "mdi:restart"@),
        ("DiscordJoin"@, "mdi:discord"@),
        ("DiscordLeaveChannel"@, "mdi:phone-hangup"@),
        ("MediaPlayPause"@, "mdi:play-pause"@),
        ("MediaNext"@, "mdi:skip-next"@),
        ("MediaPrevious"@, "mdi:skip-previous"@),
        ("MediaStop"@, "mdi:stop"@),
        ("VolumeMute"@, "mdi:volume-mute"@),
    ]
}

/// The buttons of a table whose feature is on.
pub open spec fn enabled_buttons(
    table: Seq<(Seq<char>, Seq<char>)>,
    f: FeatureConfig,
) -> Seq<EntityView>
    decreases table.len(),
{
    if table.len() == 0 {
        seq![]
    } else {
        enabled_buttons(table.drop_last(), f) + when(
            commands::feature_enabled(table.last().0, f),
            EntityView::Button { name: table.last().0, icon: table.last().1 },
        )
    }
}

/// The buttons of the built-in commands whose feature is on.
pub open spec fn buttons(f: FeatureConfig) -> Seq<EntityView> {
    enabled_buttons(button_table(), f)
}

/// The entities that are announced, in order. The HWiNFO sensors need a platform
/// that has HWiNFO; the sensor that carries the birth message is always there.
pub open spec fn announced(f: FeatureConfig, hwinfo_supported: bool) -> Seq<EntityView> {
    common_sensors(f) + (if hwinfo_supported && f.hwinfo_sensor {
        hwinfo_sensors()
    } else {
        seq![]
    }) + seq![
        sensor(
            "bridge_info"@,
            "Bridge Info"@,
            "mdi:information-outline"@,
            None,
            None,
            true,
            SensorSource::Agent,
        ),
    ] + buttons(f) + when(
        f.volume,
        sensor(
            "volume_level"@,
            "Volume Level"@,
            "mdi:volume-high"@,
            None,
            Some("%"@),
            false,
            SensorSource::Agent,
        ),
    ) + when(f.notifications, EntityView::Notify)
}

pub(crate) fn new_sensor(
    name: &'static str,
    display_name: &'static str,
    icon: &'static str,
    device_class: Option<&'static str>,
    unit: Option<&'static str>,
    attributes: bool,
    source: SensorSource,
) -> (r: Entity)
    ensures
        r@ == sensor(
            name@,
            display_name@,
            icon@,
            payload::opt_str(device_class),
            payload::opt_str(unit),
            attributes,
            source,
        ),
{
    Entity::Sensor { name, display_name, icon, device_class, unit, attributes, source }
}

fn push_if(out: &mut Vec<Entity>, on: bool, e: Entity)
    ensures
        entities_view(final(out)@) == entities_view(old(out)@) + when(on, e@),
{
    if on {
        out.push(e);
    }
    proof {
        assert(entities_view(out@) =~= entities_view(old(out)@) + when(on, e@));
    }
}

fn push_button(out: &mut Vec<Entity>, f: &FeatureConfig, name: &'static str, icon: &'static str)
    ensures
        entities_view(final(out)@) == entities_view(old(out)@) + when(
            commands::feature_enabled(name@, *f),
            EntityView::Button { name: name@, icon: icon@ },
        ),
{
    push_if(out, command_feature_enabled(name, f), Entity::Button { name, icon });
}

pub(crate) fn append_entities(out: &mut Vec<Entity>, more: &Vec<Entity>)
    ensures
        entities_view(final(out)@) == entities_view(old(out)@) + entities_view(more@),
{
    let mut i: usize = 0;
    while i < more.len()
        invariant
            i <= more.len(),
            out@ == old(out)@ + more@.take(i as int),
        decreases more.len() - i,
    {
        out.push(more[i]);
        i += 1;
        proof {
            assert(out@ =~= old(out)@ + more@.take(i as int));
        }
    }
    proof {
        assert(more@.take(more@.len() as int) =~= more@);
        assert(entities_view(out@) =~= entities_view(old(out)@) + entities_view(more@));
    }
}

fn common_sensor_list(f: &FeatureConfig) -> (r: Vec<Entity>)
    ensures
        entities_view(r@) == common_sensors(*f),
{
    let system = f.cpu_sensor || f.memory_sensor || f.active_window;
    let mut out: Vec<Entity> = Vec::new();
    proof {
        assert(entities_view(out@) =~= Seq::<EntityView>::empty());
        let f = *f;
        let first = when(f.running_game, sensor("runninggames"@, "Running Game"@, "mdi:gamepad-variant"@, None, None, true, SensorSource::Agent));
        assert(Seq::<EntityView>::empty() + first =~= first);
    }
    push_if(&mut out, f.running_game, new_sensor("runninggames", "Running Game", "mdi:gamepad-variant", None, None, true, SensorSource::Agent));
    push_if(&mut out, f.game_catalog, new_sensor("game_catalog", "Game Catalog", "mdi:gamepad-variant-outline", None, None, true, SensorSource::Agent));
    push_if(&mut out, f.idle_tracking, new_sensor("lastactive", "Last Active", "mdi:clock-outline", Some("timestamp"), None, false, SensorSource::Agent));
    push_if(&mut out, f.idle_tracking, new_sensor("screensaver", "Screensaver", "mdi:monitor-shimmer", None, None, false, SensorSource::Agent));
    push_if(&mut out, f.sleep_wake, new_sensor("sleep_state", "Sleep State", "mdi:power-sleep", None, None, false, SensorSource::Always));
    push_if(&mut out, f.display_state, new_sensor("display", "Display", "mdi:monitor", None, None, false, SensorSource::Agent));
    push_if(&mut out, f.cpu_sensor, new_sensor("cpu_usage", "CPU Usage", "mdi:cpu-64-bit", None, Some("%"), false, SensorSource::Agent));
    push_if(&mut out, f.memory_sensor, new_sensor("memory_usage", "Memory Usage", "mdi:memory", None, Some("%"), false, SensorSource::Agent));
    push_if(&mut out, system, new_sensor("battery_level", "Battery Level", "mdi:battery", Some("battery"), Some("%"), false, SensorSource::Agent));
    push_if(&mut out, system, new_sensor("battery_charging", "Battery Charging", "mdi:battery-charging", None, None, false, SensorSource::Agent));
    push_if(&mut out, f.active_window, new_sensor("active_window", "Active Window", "mdi:application", None, None, false, SensorSource::Agent));
    push_if(&mut out, system, new_sensor("bridge_health", "Bridge Health", "mdi:heart-pulse", Some("duration"), Some("s"), true, SensorSource::Agent));
    push_if(&mut out, f.steam_updates, new_sensor("steam_updating", "Steam Updating", "mdi:steam", None, None, true, SensorSource::Always));
    push_if(&mut out, f.gpu_sensor, new_sensor("gpu_usage", "GPU Usage", "mdi:expansion-card", None, Some("%"), false, SensorSource::Agent));
    push_if(&mut out, f.network_sensor, new_sensor("network_throughput", "Network Throughput", "mdi:network", None, None, true, SensorSource::Agent));
    push_if(&mut out, f.disk_sensor, new_sensor("disk_usage", "Disk Usage", "mdi:harddisk", None, Some("%"), true, SensorSource::Agent));
    push_if(&mut out, f.uptime_sensor, new_sensor("system_uptime", "System Uptime", "mdi:clock-check", Some("duration"), Some("s"), false, SensorSource::Agent));
    out
}

fn hwinfo_sensor_list() -> (r: Vec<Entity>)
    ensures
        entities_view(r@) == hwinfo_sensors(),
{
    let mut out: Vec<Entity> = Vec::new();
    out.push(new_sensor("cpu_package_temp", "CPU Package Temperature", "mdi:thermometer", Some("temperature"), Some("°C"), true, SensorSource::HwInfo));
    out.push(new_sensor("gpu_temp", "GPU Temperature", "mdi:thermometer", Some("temperature"), Some("°C"), true, SensorSource::HwInfo));
    out.push(new_sensor("gpu_hotspot_temp", "GPU Hot Spot Temperature", "mdi:thermometer-alert", Some("temperature"), Some("°C"), true, SensorSource::HwInfo));
    out.push(new_sensor("gpu_memory_temp", "GPU Memory Temperature", "mdi:thermometer-lines", Some("temperature"), Some("°C"), true, SensorSource::HwInfo));
    out.push(new_sensor("cpu_package_power", "CPU Package Power", "mdi:flash", Some("power"), Some("W"), true, SensorSource::HwInfo));
    out.push(new_sensor("cpu_soc_power", "CPU SoC Power", "mdi:flash-outline", Some("power"), Some("W"), true, SensorSource::HwInfo));
    out.push(new_sensor("gpu_power", "GPU Power", "mdi:flash", Some("power"), Some("W"), true, SensorSource::HwInfo));
    out.push(new_sensor("cpu_effective_clock", "CPU Effective Clock", "mdi:speedometer", Some("frequency"), Some("MHz"), true, SensorSource::HwInfo));
    out.push(new_sensor("gpu_core_clock", "GPU Core Clock", "mdi:speedometer", Some("frequency"), Some("MHz"), true, SensorSource::HwInfo));
    out.push(new_sensor("gpu_memory_clock", "GPU Memory Clock", "mdi:speedometer-medium", Some("frequency"), Some("MHz"), true, SensorSource::HwInfo));
    out.push(new_sensor("cpu_total_usage", "CPU Total Usage", "mdi:cpu-64-bit", None, Some("%"), true, SensorSource::HwInfo));
    out.push(new_sensor("gpu_core_load", "GPU Core Load", "mdi:expansion-card", None, Some("%"), true, SensorSource::HwInfo));
    out.push(new_sensor("gpu_vram_usage_pct", "GPU VRAM Usage", "mdi:memory", None, Some("%"), true, SensorSource::HwInfo));
    out.push(new_sensor("gpu_fan_rpm", "GPU Fan", "mdi:fan", None, Some("RPM"), true, SensorSource::HwInfo));
    out.push(new_sensor("framerate", "Framerate", "mdi:speedometer", None, Some("fps"), true, SensorSource::HwInfo));
    out.push(new_sensor("case_fan_cpu", "CPU Fan", "mdi:fan", None, Some("RPM"), true, SensorSource::HwInfo));
    out.push(new_sensor("case_fan_cpu_opt", "CPU OPT Fan", "mdi:fan", None, Some("RPM"), true, SensorSource::HwInfo));
    out.push(new_sensor("case_fan_system_1", "System Fan 1", "mdi:fan", None, Some("RPM"), true, SensorSource::HwInfo));
    out.push(new_sensor("case_fan_system_2", "System Fan 2", "mdi:fan", None, Some("RPM"), true, SensorSource::HwInfo));
    out.push(new_sensor("vrm_temp", "VRM Temperature", "mdi:thermometer", Some("temperature"), Some("°C"), true, SensorSource::HwInfo));
    out.push(new_sensor("hwinfo_diagnostic", "HWiNFO Diagnostic", "mdi:bug-outline", None, None, true, SensorSource::HwInfo));
    proof {
        assert(entities_view(out@) =~= hwinfo_sensors());
    }
    out
}

fn button_list(f: &FeatureConfig) -> (r: Vec<Entity>)
    ensures
        entities_view(r@) == buttons(*f),
{
    let table: [(&'static str, &'static str); 16] = [
        ("Launch", "mdi:rocket-launch"),
        ("RefreshSteamGames", "mdi:steam"),
        ("Screensaver", "mdi:monitor"),
        ("Wake", "mdi:monitor-eye"),
        ("Shutdown", "mdi:power"),
        ("Sleep", "mdi:power-sleep"),
        ("Lock", "mdi:lock"),
        ("Hibernate", "mdi:power-sleep"),
        ("Restart", "mdi:restart"),
        ("DiscordJoin", "mdi:discord"),
        ("DiscordLeaveChannel", "mdi:phone-hangup"),
        ("MediaPlayPause", "mdi:play-pause"),
        ("MediaNext", "mdi:skip-next"),
        ("MediaPrevious", "mdi:skip-previous"),
        ("MediaStop", "mdi:stop"),
        ("VolumeMute", "mdi:volume-mute"),
    ];
    let ghost all = button_table();
    proof {
        assert(table@.map_values(|x: (&'static str, &'static str)| (x.0@, x.1@)) =~= all);
    }
    let mut out: Vec<Entity> = Vec::new();
    proof {
        assert(entities_view(out@) =~= enabled_buttons(all.take(0), *f));
    }
    let mut i: usize = 0;
    while i < 16
        invariant
            i <= 16,
            all == button_table(),
            all.len() == 16,
            table@.len() == 16,
            forall|k: int|
                0 <= k < 16 ==> (#[trigger] table@[k]).0@ == all[k].0 && table@[k].1@ == all[k].1,
            entities_view(out@) == enabled_buttons(all.take(i as int), *f),
        decreases 16 - i,
    {
        proof {
            assert(all.take(i + 1).drop_last() =~= all.take(i as int));
            assert(all.take(i + 1).last() == all[i as int]);
        }
        push_button(&mut out, f, table[i].0, table[i].1);
        i += 1;
    }
    proof {
        assert(all.take(16) =~= all);
    }
    out
}

/// The entities to announce for a set of features.
pub fn announced_entities(f: &FeatureConfig, hwinfo_supported: bool) -> (r: Vec<Entity>)
    ensures
        entities_view(r@) == announced(*f, hwinfo_supported),
{
    let mut out = common_sensor_list(f);
    let ghost common = entities_view(out@);
    if hwinfo_supported && f.hwinfo_sensor {
        let hwinfo = hwinfo_sensor_list();
        append_entities(&mut out, &hwinfo);
    } else {
        proof {
            assert(entities_view(out@) =~= common + Seq::<EntityView>::empty());
        }
    }
    let ghost before = entities_view(out@);
    let info = new_sensor(
        "bridge_info",
        "Bridge Info",
        "mdi:information-outline",
        None,
        None,
        true,
        SensorSource::Agent,
    );
    push_if(&mut out, true, info);
    proof {
        assert(when(true, info@) =~= seq![info@]);
    }
    let pressed = button_list(f);
    append_entities(&mut out, &pressed);
    push_if(
        &mut out,
        f.volume,
        new_sensor(
            "volume_level",
            "Volume Level",
            "mdi:volume-high",
            None,
            Some("%"),
            false,
            SensorSource::Agent,
        ),
    );
    push_if(&mut out, f.notifications, Entity::Notify);
    out
}

// ---------------------------------------------------------------------------
// Registrations
// ---------------------------------------------------------------------------

/// What is published under a discovery topic.
#[derive(Debug, Clone)]
pub enum RegistrationBody {
    Entity(HADiscoveryPayload),
    Notify(NotifyPayload),
}

/// A discovery message.
#[derive(Debug, Clone)]
pub struct Registration {
    pub topic: String,
    pub body: RegistrationBody,
    pub retained: bool,
    pub qos: u8,
}

/// The body of a discovery message as plain values.
pub enum BodyView {
    Entity(payload::PayloadView),
    Notify(payload::NotifyView),
}

/// A discovery message as plain values.
pub struct RegistrationView {
    pub topic: Seq<char>,
    pub body: BodyView,
    pub retained: bool,
    pub qos: u8,
}

impl View for Registration {
    type V = RegistrationView;

    open spec fn view(&self) -> RegistrationView {
        RegistrationView {
            topic: self.topic@,
            body: match self.body {
                RegistrationBody::Entity(p) => BodyView::Entity(p@),
                RegistrationBody::Notify(p) => BodyView::Notify(p@),
            },
            retained: self.retained,
            qos: self.qos,
        }
    }
}

/// The discovery messages as plain values.
pub open spec fn registrations_view(v: Seq<Registration>) -> Seq<RegistrationView> {
    v.map_values(|r: Registration| r@)
}

/// The bridge whose entities are announced.
pub struct BridgeView {
    pub device_name: Seq<char>,
    pub device_id: Seq<char>,
    pub device: payload::DeviceView,
}

/// A payload with only the fields that every entity has.
pub open spec fn bare_payload(
    b: BridgeView,
    name: Seq<char>,
    unique_id: Seq<char>,
    icon: Seq<char>,
) -> payload::PayloadView {
    payload::PayloadView {
        name,
        unique_id,
        state_topic: None,
        command_topic: None,
        availability_topic: None,
        availability: None,
        availability_mode: None,
        json_attributes_topic: None,
        device: b.device,
        icon: Some(icon),
        device_class: None,
        unit_of_measurement: None,
        state_class: None,
    }
}

/// The message that announces a sensor.
pub open spec fn sensor_registration(
    b: BridgeView,
    name: Seq<char>,
    display_name: Seq<char>,
    icon: Seq<char>,
    device_class: Option<Seq<char>>,
    unit: Option<Seq<char>>,
    attributes: bool,
    source: SensorSource,
) -> RegistrationView {
    RegistrationView {
        topic: topics::config("sensor"@, b.device_name, name),
        body: BodyView::Entity(
            payload::PayloadView {
                state_topic: Some(topics::sensor_state(b.device_name, name)),
                availability_topic: match source {
                    SensorSource::Agent => Some(topics::availability(b.device_name)),
                    _ => None,
                },
                availability: match source {
                    SensorSource::HwInfo => Some(
                        seq![
                            topics::availability(b.device_name),
                            topics::hwinfo_availability(b.device_name),
                        ],
                    ),
                    _ => None,
                },
                availability_mode: match source {
                    SensorSource::HwInfo => Some("all"@),
                    _ => None,
                },
                json_attributes_topic: if attributes {
                    Some(topics::sensor_attributes(b.device_name, name))
                } else {
                    None
                },
                device_class,
                unit_of_measurement: unit,
                state_class: payload::state_class_of(device_class, unit),
                ..bare_payload(b, display_name, b.device_id + "_"@ + name, icon)
            },
        ),
        retained: true,
        qos: AT_LEAST_ONCE,
    }
}

/// The message that announces a button.
pub open spec fn button_registration(
    b: BridgeView,
    name: Seq<char>,
    display_name: Seq<char>,
    unique_id: Seq<char>,
    icon: Seq<char>,
) -> RegistrationView {
    RegistrationView {
        topic: topics::config("button"@, b.device_name, name),
        body: BodyView::Entity(
            payload::PayloadView {
                command_topic: Some(topics::command(b.device_name, name)),
                availability_topic: Some(topics::availability(b.device_name)),
                ..bare_payload(b, display_name, unique_id, icon)
            },
        ),
        retained: true,
        qos: AT_LEAST_ONCE,
    }
}

/// The message that announces the notify service.
pub open spec fn notify_registration(b: BridgeView) -> RegistrationView {
    RegistrationView {
        topic: topics::notify_config(b.device_name),
        body: BodyView::Notify(
            payload::NotifyView {
                name: "Notification"@,
                unique_id: b.device_id + "_notify"@,
                command_topic: topics::notifications(b.device_name),
                availability_topic: topics::availability(b.device_name),
                device: b.device,
                icon: "mdi:message-badge"@,
                qos: 1,
            },
        ),
        retained: true,
        qos: AT_LEAST_ONCE,
    }
}

/// The message that announces an entity.
pub open spec fn registration(b: BridgeView, e: EntityView) -> RegistrationView {
    match e {
        EntityView::Sensor {
            name,
            display_name,
            icon,
            device_class,
            unit,
            attributes,
            source,
        } => sensor_registration(
            b,
            name,
            display_name,
            icon,
            device_class,
            unit,
            attributes,
            source,
        ),
        EntityView::Button { name, icon } => button_registration(
            b,
            name,
            name,
            b.device_id + "_"@ + name,
            icon,
        ),
        EntityView::Notify => notify_registration(b),
    }
}

/// The message that announces a custom sensor.
pub open spec fn custom_sensor_registration(b: BridgeView, s: CustomSensor) -> RegistrationView {
    sensor_registration(
        b,
        "custom_"@ + s.name@,
        "Custom: "@ + s.name@,
        match s.icon {
            Some(i) => i@,
            None => "mdi:gauge"@,
        },
        None,
        text::opt(s.unit),
        false,
        SensorSource::Agent,
    )
}

/// The message that announces a custom command.
pub open spec fn custom_command_registration(b: BridgeView, c: CustomCommand) -> RegistrationView {
    button_registration(
        b,
        c.name@,
        "Custom: "@ + c.name@,
        b.device_id + "_custom_"@ + c.name@,
        match c.icon {
            Some(i) => i@,
            None => "mdi:console"@,
        },
    )
}

fn prefixed(a: &str, b: &str) -> (r: String)
    ensures
        r@ == a@ + b@,
{
    let mut s = a.to_string();
    s.append(b);
    s
}

fn three(a: &str, b: &str, c: &str) -> (r: String)
    ensures
        r@ == a@ + b@ + c@,
{
    let mut s = a.to_string();
    s.append(b);
    s.append(c);
    s
}

fn icon_or(icon: &Option<String>, default: &str) -> (r: String)
    ensures
        r@ == (match *icon {
            Some(i) => i@,
            None => default@,
        }),
{
    match icon {
        Some(i) => i.clone(),
        None => default.to_string(),
    }
}

impl MqttClient {
    /// The discovery messages for the features that are on, in the order in
    /// which they are published.
    pub fn register_discovery(&self, f: &FeatureConfig, hwinfo_supported: bool) -> (r: Vec<
        Registration,
    >)
        ensures
            registrations_view(r@) == announced(*f, hwinfo_supported).map_values(
                |e: EntityView| registration(self.bridge(), e),
            ),
    {
        let entities = announced_entities(f, hwinfo_supported);
        self.register_all(&entities)
    }

    /// The discovery messages of entities, in order.
    pub(crate) fn register_all(&self, entities: &Vec<Entity>) -> (r: Vec<Registration>)
        ensures
            registrations_view(r@) == entities_view(entities@).map_values(
                |e: EntityView| registration(self.bridge(), e),
            ),
    {
        let ghost all = entities_view(entities@);
        let mut out: Vec<Registration> = Vec::new();
        let mut i: usize = 0;
        while i < entities.len()
            invariant
                i <= entities.len(),
                entities_view(entities@) == all,
                out@.len() == i,
                forall|k: int|
                    0 <= k < i ==> (#[trigger] out@[k])@ == registration(self.bridge(), all[k]),
            decreases entities.len() - i,
        {
            proof {
                assert(all[i as int] == entities@[i as int]@);
            }
            out.push(self.register_entity(entities[i]));
            i += 1;
        }
        proof {
            assert(registrations_view(out@) =~= all.map_values(
                |e: EntityView| registration(self.bridge(), e),
            ));
        }
        out
    }

    /// The discovery message of an entity.
    pub fn register_entity(&self, e: Entity) -> (r: Registration)
        ensures
            r@ == registration(self.bridge(), e@),
    {
        match e {
            Entity::Sensor {
                name,
                display_name,
                icon,
                device_class,
                unit,
                attributes,
                source,
            } => match source {
                SensorSource::HwInfo => self.register_hwinfo_sensor(
                    name,
                    display_name,
                    icon,
                    device_class,
                    unit,
                    attributes,
                ),
                SensorSource::Agent => self.register_sensor_internal(
                    name,
                    display_name,
                    icon,
                    device_class,
                    unit,
                    attributes,
                    true,
                ),
                SensorSource::Always => self.register_sensor_internal(
                    name,
                    display_name,
                    icon,
                    device_class,
                    unit,
                    attributes,
                    false,
                ),
            },
            Entity::Button { name, icon } => self.register_button(name, icon),
            Entity::Notify => self.register_notify_service(),
        }
    }

    /// The discovery message of a sensor. `with_availability` ties it to the
    /// online state of the agent.
    pub fn register_sensor_internal(
        &self,
        name: &str,
        display_name: &str,
        icon: &str,
        device_class: Option<&str>,
        unit: Option<&str>,
        with_attributes: bool,
        with_availability: bool,
    ) -> (r: Registration)
        ensures
            r@ == sensor_registration(
                self.bridge(),
                name@,
                display_name@,
                icon@,
                payload::opt_str(device_class),
                payload::opt_str(unit),
                with_attributes,
                if with_availability {
                    SensorSource::Agent
                } else {
                    SensorSource::Always
                },
            ),
    {
        Registration {
            topic: self.config_topic("sensor", name),
            body: RegistrationBody::Entity(
                HADiscoveryPayload {
                    name: display_name.to_string(),
                    unique_id: three(self.device_id(), "_", name),
                    state_topic: Some(self.sensor_topic(name)),
                    command_topic: None,
                    availability_topic: if with_availability {
                        Some(self.availability_topic())
                    } else {
                        None
                    },
                    availability: None,
                    availability_mode: None,
                    json_attributes_topic: if with_attributes {
                        Some(self.sensor_attributes_topic(name))
                    } else {
                        None
                    },
                    device: self.device(),
                    icon: Some(icon.to_string()),
                    device_class: own_opt(device_class),
                    unit_of_measurement: own_opt(unit),
                    state_class: derive_state_class(device_class, unit),
                },
            ),
            retained: true,
            qos: AT_LEAST_ONCE,
        }
    }

    /// The discovery message of a sensor that HWiNFO feeds: it is available only
    /// while the agent is online and HWiNFO is running.
    pub fn register_hwinfo_sensor(
        &self,
        name: &str,
        display_name: &str,
        icon: &str,
        device_class: Option<&str>,
        unit: Option<&str>,
        with_attributes: bool,
    ) -> (r: Registration)
        ensures
            r@ == sensor_registration(
                self.bridge(),
                name@,
                display_name@,
                icon@,
                payload::opt_str(device_class),
                payload::opt_str(unit),
                with_attributes,
                SensorSource::HwInfo,
            ),
    {
        let both: Vec<AvailabilityEntry> = vec![
            AvailabilityEntry { topic: self.availability_topic() },
            AvailabilityEntry { topic: self.hwinfo_availability_topic() },
        ];
        proof {
            assert(both@.map_values(|e: AvailabilityEntry| e.topic@) =~= seq![
                topics::availability(self.bridge().device_name),
                topics::hwinfo_availability(self.bridge().device_name),
            ]);
        }
        Registration {
            topic: self.config_topic("sensor", name),
            body: RegistrationBody::Entity(
                HADiscoveryPayload {
                    name: display_name.to_string(),
                    unique_id: three(self.device_id(), "_", name),
                    state_topic: Some(self.sensor_topic(name)),
                    command_topic: None,
                    availability_topic: None,
                    availability: Some(both),
                    availability_mode: Some("all".to_string()),
                    json_attributes_topic: if with_attributes {
                        Some(self.sensor_attributes_topic(name))
                    } else {
                        None
                    },
                    device: self.device(),
                    icon: Some(icon.to_string()),
                    device_class: own_opt(device_class),
                    unit_of_measurement: own_opt(unit),
                    state_class: derive_state_class(device_class, unit),
                },
            ),
            retained: true,
            qos: AT_LEAST_ONCE,
        }
    }

    /// The discovery message of a button.
    pub fn register_button(&self, name: &str, icon: &str) -> (r: Registration)
        ensures
            r@ == button_registration(
                self.bridge(),
                name@,
                name@,
                self.bridge().device_id + "_"@ + name@,
                icon@,
            ),
    {
        self.button(name, name.to_string(), three(self.device_id(), "_", name), icon.to_string())
    }

    fn button(
        &self,
        name: &str,
        display_name: String,
        unique_id: String,
        icon: String,
    ) -> (r: Registration)
        ensures
            r@ == button_registration(
                self.bridge(),
                name@,
                display_name@,
                unique_id@,
                icon@,
            ),
    {
        Registration {
            topic: self.config_topic("button", name),
            body: RegistrationBody::Entity(
                HADiscoveryPayload {
                    name: display_name,
                    unique_id,
                    state_topic: None,
                    command_topic: Some(self.command_topic(name)),
                    availability_topic: Some(self.availability_topic()),
                    availability: None,
                    availability_mode: None,
                    json_attributes_topic: None,
                    device: self.device(),
                    icon: Some(icon),
                    device_class: None,
                    unit_of_measurement: None,
                    state_class: None,
                },
            ),
            retained: true,
            qos: AT_LEAST_ONCE,
        }
    }

    /// The discovery message of the notify service.
    pub fn register_notify_service(&self) -> (r: Registration)
        ensures
            r@ == notify_registration(self.bridge()),
    {
        Registration {
            topic: notify_config_topic_of(self.device_name()),
            body: RegistrationBody::Notify(
                NotifyPayload {
                    name: "Notification".to_string(),
                    unique_id: prefixed(self.device_id(), "_notify"),
                    command_topic: notify_topic_of(self.device_name()),
                    availability_topic: self.availability_topic(),
                    device: self.device(),
                    icon: "mdi:message-badge".to_string(),
                    qos: 1,
                },
            ),
            retained: true,
            qos: AT_LEAST_ONCE,
        }
    }

    /// The discovery messages of the custom sensors.
    pub fn register_custom_sensors(&self, sensors: &Vec<CustomSensor>) -> (r: Vec<Registration>)
        ensures
            registrations_view(r@) == sensors@.map_values(
                |s: CustomSensor| custom_sensor_registration(self.bridge(), s),
            ),
    {
        let mut out: Vec<Registration> = Vec::new();
        let mut i: usize = 0;
        while i < sensors.len()
            invariant
                i <= sensors.len(),
                out@.len() == i,
                forall|k: int|
                    0 <= k < i ==> (#[trigger] out@[k])@ == custom_sensor_registration(
                        self.bridge(),
                        sensors@[k],
                    ),
            decreases sensors.len() - i,
        {
            let s = &sensors[i];
            let unit = match &s.unit {
                Some(u) => Some(u.as_str()),
                None => None,
            };
            let topic_name = prefixed("custom_", &s.name);
            let display_name = prefixed("Custom: ", &s.name);
            let icon = icon_or(&s.icon, "mdi:gauge");
            out.push(
                self.register_sensor_internal(
                    &topic_name,
                    &display_name,
                    &icon,
                    None,
                    unit,
                    false,
                    true,
                ),
            );
            i += 1;
        }
        proof {
            assert(registrations_view(out@) =~= sensors@.map_values(
                |s: CustomSensor| custom_sensor_registration(self.bridge(), s),
            ));
        }
        out
    }

    /// The discovery messages of the custom commands, each with the topic that is
    /// subscribed for it.
    pub fn register_custom_commands(&self, commands: &Vec<CustomCommand>) -> (r: Vec<
        (Registration, String),
    >)
        ensures
            r@.map_values(|x: (Registration, String)| (x.0@, x.1@)) == commands@.map_values(
                |c: CustomCommand|
                    (
                        custom_command_registration(self.bridge(), c),
                        topics::command(self.bridge().device_name, c.name@),
                    ),
            ),
    {
        let mut out: Vec<(Registration, String)> = Vec::new();
        let mut i: usize = 0;
        while i < commands.len()
            invariant
                i <= commands.len(),
                out@.len() == i,
                forall|k: int|
                    0 <= k < i ==> (#[trigger] out@[k]).0@ == custom_command_registration(
                        self.bridge(),
                        commands@[k],
                    ) && out@[k].1@ == topics::command(
                        self.bridge().device_name,
                        commands@[k].name@,
                    ),
            decreases commands.len() - i,
        {
            let c = &commands[i];
            let registered = self.button(
                &c.name,
                prefixed("Custom: ", &c.name),
                three(self.device_id(), "_custom_", &c.name),
                icon_or(&c.icon, "mdi:console"),
            );
            out.push((registered, self.command_topic(&c.name)));
            i += 1;
        }
        proof {
            assert(out@.map_values(|x: (Registration, String)| (x.0@, x.1@))
                =~= commands@.map_values(
                |c: CustomCommand|
                    (
                        custom_command_registration(self.bridge(), c),
                        topics::command(self.bridge().device_name, c.name@),
                    ),
            ));
        }
        out
    }
}

// ---------------------------------------------------------------------------
// Laws
// ---------------------------------------------------------------------------

/// `e` is the button of an allowed command.
pub open spec fn is_enabled_button(e: EntityView, f: FeatureConfig) -> bool {
    e matches EntityView::Button { name, .. } && commands::feature_enabled(name, f)
}

proof fn lemma_enabled_buttons(table: Seq<(Seq<char>, Seq<char>)>, f: FeatureConfig)
    ensures
        forall|i: int|
            0 <= i < enabled_buttons(table, f).len() ==> is_enabled_button(
                #[trigger] enabled_buttons(table, f)[i],
                f,
            ),
        forall|i: int|
            0 <= i < table.len() && commands::feature_enabled(table[i].0, f)
                ==> enabled_buttons(table, f).contains(
                EntityView::Button { name: (#[trigger] table[i]).0, icon: table[i].1 },
            ),
    decreases table.len(),
{
    if table.len() > 0 {
        let rest = table.drop_last();
        let last = EntityView::Button { name: table.last().0, icon: table.last().1 };
        let added = when(commands::feature_enabled(table.last().0, f), last);
        lemma_enabled_buttons(rest, f);
        let all = enabled_buttons(rest, f) + added;
        assert forall|i: int| 0 <= i < all.len() implies is_enabled_button(
            #[trigger] all[i],
            f,
        ) by {
            if i < enabled_buttons(rest, f).len() {
                assert(all[i] == enabled_buttons(rest, f)[i]);
            }
        }
        assert forall|i: int|
            0 <= i < table.len() && commands::feature_enabled(
                table[i].0,
                f,
            ) implies all.contains(
            EntityView::Button { name: (#[trigger] table[i]).0, icon: table[i].1 },
        ) by {
            let e = EntityView::Button { name: table[i].0, icon: table[i].1 };
            if i < rest.len() {
                assert(rest[i] == table[i]);
                assert(enabled_buttons(rest, f).contains(e));
                let k = choose|k: int|
                    0 <= k < enabled_buttons(rest, f).len() && enabled_buttons(rest, f)[k] == e;
                assert(all[k] == e);
            } else {
                assert(all[all.len() - 1] == e);
            }
        }
    }
}

/// A button is announced exactly for the commands of the table whose feature is
/// on.
pub proof fn law_buttons_follow_the_gate(f: FeatureConfig)
    ensures
        forall|i: int|
            0 <= i < buttons(f).len() ==> is_enabled_button(#[trigger] buttons(f)[i], f),
        forall|i: int|
            0 <= i < button_table().len() && commands::feature_enabled(button_table()[i].0, f)
                ==> buttons(f).contains(
                EntityView::Button {
                    name: (#[trigger] button_table()[i]).0,
                    icon: button_table()[i].1,
                },
            ),
{
    lemma_enabled_buttons(button_table(), f);
}

/// Every discovery message stays with the broker and is delivered at least once, so
/// that Home Assistant finds the entities whenever it starts.
pub proof fn law_announcements_stay_with_the_broker(b: BridgeView, e: EntityView)
    ensures
        registration(b, e).retained,
        registration(b, e).qos == AT_LEAST_ONCE,
{
}

/// Every announced button stands in the table.
pub proof fn lemma_button_names(table: Seq<(Seq<char>, Seq<char>)>, f: FeatureConfig, i: int)
    requires
        0 <= i < enabled_buttons(table, f).len(),
    ensures
        exists|k: int|
            0 <= k < table.len() && enabled_buttons(table, f)[i] == (EntityView::Button {
                name: (#[trigger] table[k]).0,
                icon: table[k].1,
            }),
    decreases table.len(),
{
    let rest = table.drop_last();
    if i < enabled_buttons(rest, f).len() {
        lemma_button_names(rest, f, i);
        let k = choose|k: int|
            0 <= k < rest.len() && enabled_buttons(rest, f)[i] == (EntityView::Button {
                name: (#[trigger] rest[k]).0,
                icon: rest[k].1,
            });
        assert(table[k] == rest[k]);
    } else {
        assert(table[table.len() - 1] == table.last());
    }
}

// ---------------------------------------------------------------------------
// What is announced
// ---------------------------------------------------------------------------

proof fn lemma_in_either(a: Seq<EntityView>, b: Seq<EntityView>, x: EntityView)
    ensures
        (a + b).contains(x) <==> a.contains(x) || b.contains(x),
{
    if a.contains(x) {
        let i = choose|i: int| 0 <= i < a.len() && a[i] == x;
        assert((a + b)[i] == x);
    }
    if b.contains(x) {
        let i = choose|i: int| 0 <= i < b.len() && b[i] == x;
        assert((a + b)[a.len() + i] == x);
    }
    if (a + b).contains(x) {
        let i = choose|i: int| 0 <= i < (a + b).len() && (a + b)[i] == x;
        if i < a.len() {
            assert(a[i] == x);
        } else {
            assert(b[i - a.len()] == x);
        }
    }
}

proof fn lemma_when(on: bool, e: EntityView, x: EntityView)
    ensures
        (when(on, e)).contains(x) <==> on && x == e,
{
    if on {
        assert(when(on, e)[0] == e);
    }
}

proof fn lemma_two_more(
    s: Seq<EntityView>,
    c1: bool,
    e1: EntityView,
    c2: bool,
    e2: EntityView,
    x: EntityView,
)
    ensures
        (s + when(c1, e1) + when(c2, e2)).contains(x) <==> s.contains(x) || (c1 && x == e1) || (c2
            && x == e2),
{
    lemma_in_either(s, when(c1, e1), x);
    lemma_in_either(s + when(c1, e1), when(c2, e2), x);
    lemma_when(c1, e1, x);
    lemma_when(c2, e2, x);
}

/// Whether an entity is among some: `contains`, not unfolded.
#[verifier::opaque]
spec fn among(s: Seq<EntityView>, x: EntityView) -> bool {
    s.contains(x)
}

proof fn lemma_among(s: Seq<EntityView>, x: EntityView)
    ensures
        among(s, x) <==> s.contains(x),
{
    reveal(among);
}

proof fn lemma_four_more(
    s: Seq<EntityView>,
    c1: bool,
    e1: EntityView,
    c2: bool,
    e2: EntityView,
    c3: bool,
    e3: EntityView,
    c4: bool,
    e4: EntityView,
    x: EntityView,
)
    ensures
        among(s + when(c1, e1) + when(c2, e2) + when(c3, e3) + when(c4, e4), x) <==> {
            ||| among(s, x)
            ||| c1 && x == e1
            ||| c2 && x == e2
            ||| c3 && x == e3
            ||| c4 && x == e4
        },
{
    reveal(among);
    lemma_two_more(s, c1, e1, c2, e2, x);
    lemma_two_more(s + when(c1, e1) + when(c2, e2), c3, e3, c4, e4, x);
}

/// Which sensors are announced on every platform: each under the switch of its feature,
/// with its name, its icon, its class and its unit, and no others.
#[verifier::spinoff_prover]
#[verifier::rlimit(60)]
pub proof fn law_common_sensors(f: FeatureConfig, e: EntityView)
    ensures
        common_sensors(f).contains(e) <==> {
            ||| (f.running_game) && e == (EntityView::Sensor { name: "runninggames"@, display_name: "Running Game"@, icon: "mdi:gamepad-variant"@, device_class: None, unit: None, attributes: true, source: SensorSource::Agent })
            ||| (f.game_catalog) && e == (EntityView::Sensor { name: "game_catalog"@, display_name: "Game Catalog"@, icon: "mdi:gamepad-variant-outline"@, device_class: None, unit: None, attributes: true, source: SensorSource::Agent })
            ||| (f.idle_tracking) && e == (EntityView::Sensor { name: "lastactive"@, display_name: "Last Active"@, icon: "mdi:clock-outline"@, device_class: Some("timestamp"@), unit: None, attributes: false, source: SensorSource::Agent })
            ||| (f.idle_tracking) && e == (EntityView::Sensor { name: "screensaver"@, display_name: "Screensaver"@, icon: "mdi:monitor-shimmer"@, device_class: None, unit: None, attributes: false, source: SensorSource::Agent })
            ||| (f.sleep_wake) && e == (EntityView::Sensor { name: "sleep_state"@, display_name: "Sleep State"@, icon: "mdi:power-sleep"@, device_class: None, unit: None, attributes: false, source: SensorSource::Always })
            ||| (f.display_state) && e == (EntityView::Sensor { name: "display"@, display_name: "Display"@, icon: "mdi:monitor"@, device_class: None, unit: None, attributes: false, source: SensorSource::Agent })
            ||| (f.cpu_sensor) && e == (EntityView::Sensor { name: "cpu_usage"@, display_name: "CPU Usage"@, icon: "mdi:cpu-64-bit"@, device_class: None, unit: Some("%"@), attributes: false, source: SensorSource::Agent })
            ||| (f.memory_sensor) && e == (EntityView::Sensor { name: "memory_usage"@, display_name: "Memory Usage"@, icon: "mdi:memory"@, device_class: None, unit: Some("%"@), attributes: false, source: SensorSource::Agent })
            ||| (f.cpu_sensor || f.memory_sensor || f.active_window) && e == (EntityView::Sensor { name: "battery_level"@, display_name: "Battery Level"@, icon: "mdi:battery"@, device_class: Some("battery"@), unit: Some("%"@), attributes: false, source: SensorSource::Agent })
            ||| (f.cpu_sensor || f.memory_sensor || f.active_window) && e == (EntityView::Sensor { name: "battery_charging"@, display_name: "Battery Charging"@, icon: "mdi:battery-charging"@, device_class: None, unit: None, attributes: false, source: SensorSource::Agent })
            ||| (f.active_window) && e == (EntityView::Sensor { name: "active_window"@, display_name: "Active Window"@, icon: "mdi:application"@, device_class: None, unit: None, attributes: false, source: SensorSource::Agent })
            ||| (f.cpu_sensor || f.memory_sensor || f.active_window) && e == (EntityView::Sensor { name: "bridge_health"@, display_name: "Bridge Health"@, icon: "mdi:heart-pulse"@, device_class: Some("duration"@), unit: Some("s"@), attributes: true, source: SensorSource::Agent })
            ||| (f.steam_updates) && e == (EntityView::Sensor { name: "steam_updating"@, display_name: "Steam Updating"@, icon: "mdi:steam"@, device_class: None, unit: None, attributes: true, source: SensorSource::Always })
            ||| (f.gpu_sensor) && e == (EntityView::Sensor { name: "gpu_usage"@, display_name: "GPU Usage"@, icon: "mdi:expansion-card"@, device_class: None, unit: Some("%"@), attributes: false, source: SensorSource::Agent })
            ||| (f.network_sensor) && e == (EntityView::Sensor { name: "network_throughput"@, display_name: "Network Throughput"@, icon: "mdi:network"@, device_class: None, unit: None, attributes: true, source: SensorSource::Agent })
            ||| (f.disk_sensor) && e == (EntityView::Sensor { name: "disk_usage"@, display_name: "Disk Usage"@, icon: "mdi:harddisk"@, device_class: None, unit: Some("%"@), attributes: true, source: SensorSource::Agent })
            ||| (f.uptime_sensor) && e == (EntityView::Sensor { name: "system_uptime"@, display_name: "System Uptime"@, icon: "mdi:clock-check"@, device_class: Some("duration"@), unit: Some("s"@), attributes: false, source: SensorSource::Agent })
        },
{
    let s0 = when(f.running_game, sensor("runninggames"@, "Running Game"@, "mdi:gamepad-variant"@, None, None, true, SensorSource::Agent));
    assert(among(s0, e) <==> f.running_game && e == sensor("runninggames"@, "Running Game"@, "mdi:gamepad-variant"@, None, None, true, SensorSource::Agent)) by {
        reveal(among);
        lemma_when(f.running_game, sensor("runninggames"@, "Running Game"@, "mdi:gamepad-variant"@, None, None, true, SensorSource::Agent), e);
    }
    lemma_four_more(
        s0,
        f.game_catalog,
        sensor("game_catalog"@, "Game Catalog"@, "mdi:gamepad-variant-outline"@, None, None, true, SensorSource::Agent),
        f.idle_tracking,
        sensor("lastactive"@, "Last Active"@, "mdi:clock-outline"@, Some("timestamp"@), None, false, SensorSource::Agent),
        f.idle_tracking,
        sensor("screensaver"@, "Screensaver"@, "mdi:monitor-shimmer"@, None, None, false, SensorSource::Agent),
        f.sleep_wake,
        sensor("sleep_state"@, "Sleep State"@, "mdi:power-sleep"@, None, None, false, SensorSource::Always),
        e,
    );
    let s1 = s0 + when(f.game_catalog, sensor("game_catalog"@, "Game Catalog"@, "mdi:gamepad-variant-outline"@, None, None, true, SensorSource::Agent)) + when(f.idle_tracking, sensor("lastactive"@, "Last Active"@, "mdi:clock-outline"@, Some("timestamp"@), None, false, SensorSource::Agent)) + when(f.idle_tracking, sensor("screensaver"@, "Screensaver"@, "mdi:monitor-shimmer"@, None, None, false, SensorSource::Agent)) + when(f.sleep_wake, sensor("sleep_state"@, "Sleep State"@, "mdi:power-sleep"@, None, None, false, SensorSource::Always));
    lemma_four_more(
        s1,
        f.display_state,
        sensor("display"@, "Display"@, "mdi:monitor"@, None, None, false, SensorSource::Agent),
        f.cpu_sensor,
        sensor("cpu_usage"@, "CPU Usage"@, "mdi:cpu-64-bit"@, None, Some("%"@), false, SensorSource::Agent),
        f.memory_sensor,
        sensor("memory_usage"@, "Memory Usage"@, "mdi:memory"@, None, Some("%"@), false, SensorSource::Agent),
        system_sensors(f),
        sensor("battery_level"@, "Battery Level"@, "mdi:battery"@, Some("battery"@), Some("%"@), false, SensorSource::Agent),
        e,
    );
    let s2 = s1 + when(f.display_state, sensor("display"@, "Display"@, "mdi:monitor"@, None, None, false, SensorSource::Agent)) + when(f.cpu_sensor, sensor("cpu_usage"@, "CPU Usage"@, "mdi:cpu-64-bit"@, None, Some("%"@), false, SensorSource::Agent)) + when(f.memory_sensor, sensor("memory_usage"@, "Memory Usage"@, "mdi:memory"@, None, Some("%"@), false, SensorSource::Agent)) + when(system_sensors(f), sensor("battery_level"@, "Battery Level"@, "mdi:battery"@, Some("battery"@), Some("%"@), false, SensorSource::Agent));
    lemma_four_more(
        s2,
        system_sensors(f),
        sensor("battery_charging"@, "Battery Charging"@, "mdi:battery-charging"@, None, None, false, SensorSource::Agent),
        f.active_window,
        sensor("active_window"@, "Active Window"@, "mdi:application"@, None, None, false, SensorSource::Agent),
        system_sensors(f),
        sensor("bridge_health"@, "Bridge Health"@, "mdi:heart-pulse"@, Some("duration"@), Some("s"@), true, SensorSource::Agent),
        f.steam_updates,
        sensor("steam_updating"@, "Steam Updating"@, "mdi:steam"@, None, None, true, SensorSource::Always),
        e,
    );
    let s3 = s2 + when(system_sensors(f), sensor("battery_charging"@, "Battery Charging"@, "mdi:battery-charging"@, None, None, false, SensorSource::Agent)) + when(f.active_window, sensor("active_window"@, "Active Window"@, "mdi:application"@, None, None, false, SensorSource::Agent)) + when(system_sensors(f), sensor("bridge_health"@, "Bridge Health"@, "mdi:heart-pulse"@, Some("duration"@), Some("s"@), true, SensorSource::Agent)) + when(f.steam_updates, sensor("steam_updating"@, "Steam Updating"@, "mdi:steam"@, None, None, true, SensorSource::Always));
    lemma_four_more(
        s3,
        f.gpu_sensor,
        sensor("gpu_usage"@, "GPU Usage"@, "mdi:expansion-card"@, None, Some("%"@), false, SensorSource::Agent),
        f.network_sensor,
        sensor("network_throughput"@, "Network Throughput"@, "mdi:network"@, None, None, true, SensorSource::Agent),
        f.disk_sensor,
        sensor("disk_usage"@, "Disk Usage"@, "mdi:harddisk"@, None, Some("%"@), true, SensorSource::Agent),
        f.uptime_sensor,
        sensor("system_uptime"@, "System Uptime"@, "mdi:clock-check"@, Some("duration"@), Some("s"@), false, SensorSource::Agent),
        e,
    );
    let s4 = s3 + when(f.gpu_sensor, sensor("gpu_usage"@, "GPU Usage"@, "mdi:expansion-card"@, None, Some("%"@), false, SensorSource::Agent)) + when(f.network_sensor, sensor("network_throughput"@, "Network Throughput"@, "mdi:network"@, None, None, true, SensorSource::Agent)) + when(f.disk_sensor, sensor("disk_usage"@, "Disk Usage"@, "mdi:harddisk"@, None, Some("%"@), true, SensorSource::Agent)) + when(f.uptime_sensor, sensor("system_uptime"@, "System Uptime"@, "mdi:clock-check"@, Some("duration"@), Some("s"@), false, SensorSource::Agent));
    lemma_among(common_sensors(f), e);
}

/// Which sensors HWiNFO feeds.
pub proof fn law_hwinfo_sensors(e: EntityView)
    ensures
        hwinfo_sensors().contains(e) <==> {
            ||| e == (EntityView::Sensor { name: "cpu_package_temp"@, display_name: "CPU Package Temperature"@, icon: "mdi:thermometer"@, device_class: Some("temperature"@), unit: Some("°C"@), attributes: true, source: SensorSource::HwInfo })
            ||| e == (EntityView::Sensor { name: "gpu_temp"@, display_name: "GPU Temperature"@, icon: "mdi:thermometer"@, device_class: Some("temperature"@), unit: Some("°C"@), attributes: true, source: SensorSource::HwInfo })
            ||| e == (EntityView::Sensor { name: "gpu_hotspot_temp"@, display_name: "GPU Hot Spot Temperature"@, icon: "mdi:thermometer-alert"@, device_class: Some("temperature"@), unit: Some("°C"@), attributes: true, source: SensorSource::HwInfo })
            ||| e == (EntityView::Sensor { name: "gpu_memory_temp"@, display_name: "GPU Memory Temperature"@, icon: "mdi:thermometer-lines"@, device_class: Some("temperature"@), unit: Some("°C"@), attributes: true, source: SensorSource::HwInfo })
            ||| e == (EntityView::Sensor { name: "cpu_package_power"@, display_name: "CPU Package Power"@, icon: "mdi:flash"@, device_class: Some("power"@), unit: Some("W"@), attributes: true, source: SensorSource::HwInfo })
            ||| e == (EntityView::Sensor { name: "cpu_soc_power"@, display_name: "CPU SoC Power"@, icon: "mdi:flash-outline"@, device_class: Some("power"@), unit: Some("W"@), attributes: true, source: SensorSource::HwInfo })
            ||| e == (EntityView::Sensor { name: "gpu_power"@, display_name: "GPU Power"@, icon: "mdi:flash"@, device_class: Some("power"@), unit: Some("W"@), attributes: true, source: SensorSource::HwInfo })
            ||| e == (EntityView::Sensor { name: "cpu_effective_clock"@, display_name: "CPU Effective Clock"@, icon: "mdi:speedometer"@, device_class: Some("frequency"@), unit: Some("MHz"@), attributes: true, source: SensorSource::HwInfo })
            ||| e == (EntityView::Sensor { name: "gpu_core_clock"@, display_name: "GPU Core Clock"@, icon: "mdi:speedometer"@, device_class: Some("frequency"@), unit: Some("MHz"@), attributes: true, source: SensorSource::HwInfo })
            ||| e == (EntityView::Sensor { name: "gpu_memory_clock"@, display_name: "GPU Memory Clock"@, icon: "mdi:speedometer-medium"@, device_class: Some("frequency"@), unit: Some("MHz"@), attributes: true, source: SensorSource::HwInfo })
            ||| e == (EntityView::Sensor { name: "cpu_total_usage"@, display_name: "CPU Total Usage"@, icon: "mdi:cpu-64-bit"@, device_class: None, unit: Some("%"@), attributes: true, source: SensorSource::HwInfo })
            ||| e == (EntityView::Sensor { name: "gpu_core_load"@, display_name: "GPU Core Load"@, icon: "mdi:expansion-card"@, device_class: None, unit: Some("%"@), attributes: true, source: SensorSource::HwInfo })
            ||| e == (EntityView::Sensor { name: "gpu_vram_usage_pct"@, display_name: "GPU VRAM Usage"@, icon: "mdi:memory"@, device_class: None, unit: Some("%"@), attributes: true, source: SensorSource::HwInfo })
            ||| e == (EntityView::Sensor { name: "gpu_fan_rpm"@, display_name: "GPU Fan"@, icon: "mdi:fan"@, device_class: None, unit: Some("RPM"@), attributes: true, source: SensorSource::HwInfo })
            ||| e == (EntityView::Sensor { name: "framerate"@, display_name: "Framerate"@, icon: "mdi:speedometer"@, device_class: None, unit: Some("fps"@), attributes: true, source: SensorSource::HwInfo })
            ||| e == (EntityView::Sensor { name: "case_fan_cpu"@, display_name: "CPU Fan"@, icon: "mdi:fan"@, device_class: None, unit: Some("RPM"@), attributes: true, source: SensorSource::HwInfo })
            ||| e == (EntityView::Sensor { name: "case_fan_cpu_opt"@, display_name: "CPU OPT Fan"@, icon: "mdi:fan"@, device_class: None, unit: Some("RPM"@), attributes: true, source: SensorSource::HwInfo })
            ||| e == (EntityView::Sensor { name: "case_fan_system_1"@, display_name: "System Fan 1"@, icon: "mdi:fan"@, device_class: None, unit: Some("RPM"@), attributes: true, source: SensorSource::HwInfo })
            ||| e == (EntityView::Sensor { name: "case_fan_system_2"@, display_name: "System Fan 2"@, icon: "mdi:fan"@, device_class: None, unit: Some("RPM"@), attributes: true, source: SensorSource::HwInfo })
            ||| e == (EntityView::Sensor { name: "vrm_temp"@, display_name: "VRM Temperature"@, icon: "mdi:thermometer"@, device_class: Some("temperature"@), unit: Some("°C"@), attributes: true, source: SensorSource::HwInfo })
            ||| e == (EntityView::Sensor { name: "hwinfo_diagnostic"@, display_name: "HWiNFO Diagnostic"@, icon: "mdi:bug-outline"@, device_class: None, unit: None, attributes: true, source: SensorSource::HwInfo })
        },
{
    let all = hwinfo_sensors();
    assert(all.len() == 21);
    assert(all[0] == sensor("cpu_package_temp"@, "CPU Package Temperature"@, "mdi:thermometer"@, Some("temperature"@), Some("°C"@), true, SensorSource::HwInfo));
    assert(all[1] == sensor("gpu_temp"@, "GPU Temperature"@, "mdi:thermometer"@, Some("temperature"@), Some("°C"@), true, SensorSource::HwInfo));
    assert(all[2] == sensor("gpu_hotspot_temp"@, "GPU Hot Spot Temperature"@, "mdi:thermometer-alert"@, Some("temperature"@), Some("°C"@), true, SensorSource::HwInfo));
    assert(all[3] == sensor("gpu_memory_temp"@, "GPU Memory Temperature"@, "mdi:thermometer-lines"@, Some("temperature"@), Some("°C"@), true, SensorSource::HwInfo));
    assert(all[4] == sensor("cpu_package_power"@, "CPU Package Power"@, "mdi:flash"@, Some("power"@), Some("W"@), true, SensorSource::HwInfo));
    assert(all[5] == sensor("cpu_soc_power"@, "CPU SoC Power"@, "mdi:flash-outline"@, Some("power"@), Some("W"@), true, SensorSource::HwInfo));
    assert(all[6] == sensor("gpu_power"@, "GPU Power"@, "mdi:flash"@, Some("power"@), Some("W"@), true, SensorSource::HwInfo));
    assert(all[7] == sensor("cpu_effective_clock"@, "CPU Effective Clock"@, "mdi:speedometer"@, Some("frequency"@), Some("MHz"@), true, SensorSource::HwInfo));
    assert(all[8] == sensor("gpu_core_clock"@, "GPU Core Clock"@, "mdi:speedometer"@, Some("frequency"@), Some("MHz"@), true, SensorSource::HwInfo));
    assert(all[9] == sensor("gpu_memory_clock"@, "GPU Memory Clock"@, "mdi:speedometer-medium"@, Some("frequency"@), Some("MHz"@), true, SensorSource::HwInfo));
    assert(all[10] == sensor("cpu_total_usage"@, "CPU Total Usage"@, "mdi:cpu-64-bit"@, None, Some("%"@), true, SensorSource::HwInfo));
    assert(all[11] == sensor("gpu_core_load"@, "GPU Core Load"@, "mdi:expansion-card"@, None, Some("%"@), true, SensorSource::HwInfo));
    assert(all[12] == sensor("gpu_vram_usage_pct"@, "GPU VRAM Usage"@, "mdi:memory"@, None, Some("%"@), true, SensorSource::HwInfo));
    assert(all[13] == sensor("gpu_fan_rpm"@, "GPU Fan"@, "mdi:fan"@, None, Some("RPM"@), true, SensorSource::HwInfo));
    assert(all[14] == sensor("framerate"@, "Framerate"@, "mdi:speedometer"@, None, Some("fps"@), true, SensorSource::HwInfo));
    assert(all[15] == sensor("case_fan_cpu"@, "CPU Fan"@, "mdi:fan"@, None, Some("RPM"@), true, SensorSource::HwInfo));
    assert(all[16] == sensor("case_fan_cpu_opt"@, "CPU OPT Fan"@, "mdi:fan"@, None, Some("RPM"@), true, SensorSource::HwInfo));
    assert(all[17] == sensor("case_fan_system_1"@, "System Fan 1"@, "mdi:fan"@, None, Some("RPM"@), true, SensorSource::HwInfo));
    assert(all[18] == sensor("case_fan_system_2"@, "System Fan 2"@, "mdi:fan"@, None, Some("RPM"@), true, SensorSource::HwInfo));
    assert(all[19] == sensor("vrm_temp"@, "VRM Temperature"@, "mdi:thermometer"@, Some("temperature"@), Some("°C"@), true, SensorSource::HwInfo));
    assert(all[20] == sensor("hwinfo_diagnostic"@, "HWiNFO Diagnostic"@, "mdi:bug-outline"@, None, None, true, SensorSource::HwInfo));
}

/// What is announced: the sensors of every platform, those of HWiNFO where there is HWiNFO
/// and its switch is on, always the information on the bridge, the buttons, and the volume
/// and the notify service where their switches are on.
pub proof fn law_announced(f: FeatureConfig, hwinfo_supported: bool, e: EntityView)
    ensures
        announced(f, hwinfo_supported).contains(e) <==> {
            ||| common_sensors(f).contains(e)
            ||| hwinfo_supported && f.hwinfo_sensor && hwinfo_sensors().contains(e)
            ||| e == (EntityView::Sensor {
                name: "bridge_info"@,
                display_name: "Bridge Info"@,
                icon: "mdi:information-outline"@,
                device_class: None,
                unit: None,
                attributes: true,
                source: SensorSource::Agent,
            })
            ||| buttons(f).contains(e)
            ||| f.volume && e == (EntityView::Sensor {
                name: "volume_level"@,
                display_name: "Volume Level"@,
                icon: "mdi:volume-high"@,
                device_class: None,
                unit: Some("%"@),
                attributes: false,
                source: SensorSource::Agent,
            })
            ||| f.notifications && e == EntityView::Notify
        },
{
    let a = common_sensors(f);
    let b = if hwinfo_supported && f.hwinfo_sensor {
        hwinfo_sensors()
    } else {
        seq![]
    };
    let info = sensor(
        "bridge_info"@,
        "Bridge Info"@,
        "mdi:information-outline"@,
        None,
        None,
        true,
        SensorSource::Agent,
    );
    let volume = sensor(
        "volume_level"@,
        "Volume Level"@,
        "mdi:volume-high"@,
        None,
        Some("%"@),
        false,
        SensorSource::Agent,
    );
    lemma_in_either(a, b, e);
    lemma_in_either(a + b, seq![info], e);
    assert(seq![info].contains(e) <==> e == info) by {
        assert(seq![info][0] == info);
    }
    lemma_in_either(a + b + seq![info], buttons(f), e);
    lemma_two_more(
        a + b + seq![info] + buttons(f),
        f.volume,
        volume,
        f.notifications,
        EntityView::Notify,
        e,
    );
}

proof fn lemma_button_is_announced(
    table: Seq<(Seq<char>, Seq<char>)>,
    f: FeatureConfig,
    e: EntityView,
)
    ensures
        enabled_buttons(table, f).contains(e) <==> (e matches EntityView::Button { name, icon }
            && table.contains((name, icon)) && commands::feature_enabled(name, f)),
    decreases table.len(),
{
    if table.len() > 0 {
        let rest = table.drop_last();
        let last = table.last();
        lemma_button_is_announced(rest, f, e);
        let on = commands::feature_enabled(last.0, f);
        let button = EntityView::Button { name: last.0, icon: last.1 };
        lemma_in_either(enabled_buttons(rest, f), when(on, button), e);
        lemma_when(on, button, e);
        if let EntityView::Button { name, icon } = e {
            let x = (name, icon);
            if table.contains(x) {
                let i = choose|i: int| 0 <= i < table.len() && table[i] == x;
                if i < rest.len() {
                    assert(rest[i] == x);
                }
            }
            if rest.contains(x) {
                let i = choose|i: int| 0 <= i < rest.len() && rest[i] == x;
                assert(table[i] == x);
            }
            if x == last {
                assert(table[table.len() - 1] == x);
            }
        }
    }
}

/// Which buttons are announced: each under the switch of its own feature, with its icon,
/// and no others.
pub proof fn law_buttons(f: FeatureConfig, name: Seq<char>, icon: Seq<char>)
    ensures
        buttons(f).contains(EntityView::Button { name, icon }) <==> {
            ||| f.launch_game && name == "Launch"@ && icon == "mdi:rocket-launch"@
            ||| f.steam_library && name == "RefreshSteamGames"@ && icon == "mdi:steam"@
            ||| f.idle_tracking && name == "Screensaver"@ && icon == "mdi:monitor"@
            ||| f.idle_tracking && name == "Wake"@ && icon == "mdi:monitor-eye"@
            ||| f.cmd_shutdown && name == "Shutdown"@ && icon == "mdi:power"@
            ||| f.cmd_sleep && name == "Sleep"@ && icon == "mdi:power-sleep"@
            ||| f.cmd_lock && name == "Lock"@ && icon == "mdi:lock"@
            ||| f.cmd_sleep && name == "Hibernate"@ && icon == "mdi:power-sleep"@
            ||| f.cmd_restart && name == "Restart"@ && icon == "mdi:restart"@
            ||| f.discord && name == "DiscordJoin"@ && icon == "mdi:discord"@
            ||| f.discord && name == "DiscordLeaveChannel"@ && icon == "mdi:phone-hangup"@
            ||| f.media_controls && name == "MediaPlayPause"@ && icon == "mdi:play-pause"@
            ||| f.media_controls && name == "MediaNext"@ && icon == "mdi:skip-next"@
            ||| f.media_controls && name == "MediaPrevious"@ && icon == "mdi:skip-previous"@
            ||| f.media_controls && name == "MediaStop"@ && icon == "mdi:stop"@
            ||| f.media_controls && name == "VolumeMute"@ && icon == "mdi:volume-mute"@
        },
{
    let all = button_table();
    let x = (name, icon);
    lemma_button_is_announced(all, f, EntityView::Button { name, icon });
    commands::law_each_command_has_its_feature(f);
    assert(all.len() == 16);
    assert(all[0] == ("Launch"@, "mdi:rocket-launch"@));
    assert(all[1] == ("RefreshSteamGames"@, "mdi:steam"@));
    assert(all[2] == ("Screensaver"@, "mdi:monitor"@));
    assert(all[3] == ("Wake"@, "mdi:monitor-eye"@));
    assert(all[4] == ("Shutdown"@, "mdi:power"@));
    assert(all[5] == ("Sleep"@, "mdi:power-sleep"@));
    assert(all[6] == ("Lock"@, "mdi:lock"@));
    assert(all[7] == ("Hibernate"@, "mdi:power-sleep"@));
    assert(all[8] == ("Restart"@, "mdi:restart"@));
    assert(all[9] == ("DiscordJoin"@, "mdi:discord"@));
    assert(all[10] == ("DiscordLeaveChannel"@, "mdi:phone-hangup"@));
    assert(all[11] == ("MediaPlayPause"@, "mdi:play-pause"@));
    assert(all[12] == ("MediaNext"@, "mdi:skip-next"@));
    assert(all[13] == ("MediaPrevious"@, "mdi:skip-previous"@));
    assert(all[14] == ("MediaStop"@, "mdi:stop"@));
    assert(all[15] == ("VolumeMute"@, "mdi:volume-mute"@));
    assert(all.contains(x) <==> {
        ||| x == ("Launch"@, "mdi:rocket-launch"@)
        ||| x == ("RefreshSteamGames"@, "mdi:steam"@)
        ||| x == ("Screensaver"@, "mdi:monitor"@)
        ||| x == ("Wake"@, "mdi:monitor-eye"@)
        ||| x == ("Shutdown"@, "mdi:power"@)
        ||| x == ("Sleep"@, "mdi:power-sleep"@)
        ||| x == ("Lock"@, "mdi:lock"@)
        ||| x == ("Hibernate"@, "mdi:power-sleep"@)
        ||| x == ("Restart"@, "mdi:restart"@)
        ||| x == ("DiscordJoin"@, "mdi:discord"@)
        ||| x == ("DiscordLeaveChannel"@, "mdi:phone-hangup"@)
        ||| x == ("MediaPlayPause"@, "mdi:play-pause"@)
        ||| x == ("MediaNext"@, "mdi:skip-next"@)
        ||| x == ("MediaPrevious"@, "mdi:skip-previous"@)
        ||| x == ("MediaStop"@, "mdi:stop"@)
        ||| x == ("VolumeMute"@, "mdi:volume-mute"@)
    });
}

/// What the announcement of a sensor says: where its state is found and, where it has any,
/// its attributes; its name, its id, its icon, its class and its unit; and when it counts
/// as available. A sensor of HWiNFO needs the agent and HWiNFO, one that outlives the agent
/// needs neither.
pub proof fn law_sensor_announcements(
    b: BridgeView,
    name: Seq<char>,
    display_name: Seq<char>,
    icon: Seq<char>,
    class: Option<Seq<char>>,
    unit: Option<Seq<char>>,
    attributes: bool,
    source: SensorSource,
)
    ensures
        ({
            let e = EntityView::Sensor {
                name,
                display_name,
                icon,
                device_class: class,
                unit,
                attributes,
                source,
            };
            let r = registration(b, e);
            let d = b.device_name;
            let online = "homeassistant/sensor/"@ + d + "/availability"@;
            let fed = "homeassistant/sensor/"@ + d + "/hwinfo_availability"@;
            &&& r.topic == "homeassistant/"@ + "sensor"@ + "/"@ + d + "/"@ + name + "/config"@
            &&& r.body matches BodyView::Entity(p) && {
                &&& p.name == display_name
                &&& p.unique_id == b.device_id + "_"@ + name
                &&& p.state_topic == Some(
                    "homeassistant/sensor/"@ + d + "/"@ + name + "/state"@,
                )
                &&& p.command_topic is None
                &&& p.device == b.device
                &&& p.icon == Some(icon)
                &&& p.device_class == class
                &&& p.unit_of_measurement == unit
                &&& attributes ==> p.json_attributes_topic == Some(
                    "homeassistant/sensor/"@ + d + "/"@ + name + "/attributes"@,
                )
                &&& !attributes ==> p.json_attributes_topic is None
                &&& source == SensorSource::Agent ==> p.availability_topic == Some(online)
                    && p.availability is None && p.availability_mode is None
                &&& source == SensorSource::Always ==> p.availability_topic is None
                    && p.availability is None && p.availability_mode is None
                &&& source == SensorSource::HwInfo ==> p.availability_topic is None
                    && p.availability == Some(seq![online, fed]) && p.availability_mode == Some(
                    "all"@,
                )
                &&& unit is None || class == Some("timestamp"@) || class == Some("enum"@)
                    ==> p.state_class is None
                &&& unit is Some && class != Some("timestamp"@) && class != Some("enum"@)
                    ==> p.state_class == Some("measurement"@)
            }
        }),
{
}

/// What the announcement of a button says: on which topic it is pressed, its name, its id
/// and its icon, and that it needs the agent.
pub proof fn law_button_announcements(b: BridgeView, name: Seq<char>, icon: Seq<char>)
    ensures
        ({
            let r = registration(b, EntityView::Button { name, icon });
            let d = b.device_name;
            &&& r.topic == "homeassistant/"@ + "button"@ + "/"@ + d + "/"@ + name + "/config"@
            &&& r.body matches BodyView::Entity(p) && {
                &&& p.name == name
                &&& p.unique_id == b.device_id + "_"@ + name
                &&& p.command_topic == Some(
                    "homeassistant/button/"@ + d + "/"@ + name + "/action"@,
                )
                &&& p.state_topic is None
                &&& p.availability_topic == Some("homeassistant/sensor/"@ + d + "/availability"@)
                &&& p.availability is None
                &&& p.availability_mode is None
                &&& p.json_attributes_topic is None
                &&& p.device == b.device
                &&& p.icon == Some(icon)
                &&& p.device_class is None
                &&& p.unit_of_measurement is None
                &&& p.state_class is None
            }
        }),
{
}

/// What the announcement of the notify service says.
pub proof fn law_notify_announcement(b: BridgeView)
    ensures
        ({
            let r = registration(b, EntityView::Notify);
            let d = b.device_name;
            &&& r.topic == "homeassistant/notify/"@ + d + "/config"@
            &&& r.body matches BodyView::Notify(p) && {
                &&& p.name == "Notification"@
                &&& p.unique_id == b.device_id + "_notify"@
                &&& p.command_topic == "pc-bridge/notifications/"@ + d
                &&& p.availability_topic == "homeassistant/sensor/"@ + d + "/availability"@
                &&& p.device == b.device
                &&& p.icon == "mdi:message-badge"@
                &&& p.qos == 1
            }
        }),
{
}

/// A custom sensor is announced as a sensor under a name of its own, with the unit and the
/// icon that the user gave it.
pub proof fn law_custom_sensor_announcements(b: BridgeView, s: CustomSensor)
    ensures
        custom_sensor_registration(b, s) == registration(
            b,
            EntityView::Sensor {
                name: "custom_"@ + s.name@,
                display_name: "Custom: "@ + s.name@,
                icon: if s.icon is Some {
                    s.icon->0@
                } else {
                    "mdi:gauge"@
                },
                device_class: None,
                unit: if s.unit is Some {
                    Some(s.unit->0@)
                } else {
                    None
                },
                attributes: false,
                source: SensorSource::Agent,
            },
        ),
{
}

/// A custom command is announced as a button that is pressed on the topic of its name, with
/// an id of its own and the icon that the user gave it.
pub proof fn law_custom_command_announcements(b: BridgeView, c: CustomCommand)
    ensures
        ({
            let r = custom_command_registration(b, c);
            let icon = if c.icon is Some {
                c.icon->0@
            } else {
                "mdi:console"@
            };
            let plain = registration(b, EntityView::Button { name: c.name@, icon });
            &&& r.topic == plain.topic
            &&& r.retained
            &&& r.qos == 1
            &&& r.body matches BodyView::Entity(p) && plain.body matches BodyView::Entity(q) && p
                == (payload::PayloadView {
                name: "Custom: "@ + c.name@,
                unique_id: b.device_id + "_custom_"@ + c.name@,
                ..q
            })
        }),
{
}

} // verus!
