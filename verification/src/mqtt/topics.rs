//! Topic strings.
//!
//! Home Assistant's MQTT discovery uses `<prefix>/<component>/<device>/<entity>/<role>`.
//! All of these strings are built here. The state and attribute topics of the
//! built-in sensors are computed once and kept.

use crate::text;
use vstd::prelude::*;
use vstd::string::*;

verus! {

/// The discovery prefix of Home Assistant.
pub const DISCOVERY_PREFIX: &'static str = "homeassistant";

/// The topic on which the agent says whether it is online.
pub open spec fn availability(device: Seq<char>) -> Seq<char> {
    "homeassistant/sensor/"@ + device + "/availability"@
}

/// The topic on which the agent says whether HWiNFO is running.
pub open spec fn hwinfo_availability(device: Seq<char>) -> Seq<char> {
    "homeassistant/sensor/"@ + device + "/hwinfo_availability"@
}

/// The state topic of a sensor.
pub open spec fn sensor_state(device: Seq<char>, name: Seq<char>) -> Seq<char> {
    "homeassistant/sensor/"@ + device + "/"@ + name + "/state"@
}

/// The attribute topic of a sensor.
pub open spec fn sensor_attributes(device: Seq<char>, name: Seq<char>) -> Seq<char> {
    "homeassistant/sensor/"@ + device + "/"@ + name + "/attributes"@
}

/// What the topic of every button press of a device begins with.
pub open spec fn button_prefix(device: Seq<char>) -> Seq<char> {
    "homeassistant/button/"@ + device + "/"@
}

/// The topic on which the presses of a button arrive.
pub open spec fn command(device: Seq<char>, name: Seq<char>) -> Seq<char> {
    button_prefix(device) + name + "/action"@
}

/// The topic on which notifications arrive.
pub open spec fn notifications(device: Seq<char>) -> Seq<char> {
    "pc-bridge/notifications/"@ + device
}

/// The discovery topic of an entity.
pub open spec fn config(component: Seq<char>, device: Seq<char>, name: Seq<char>) -> Seq<char> {
    "homeassistant/"@ + component + "/"@ + device + "/"@ + name + "/config"@
}

/// The discovery topic of the notify service, of which a device has one.
pub open spec fn notify_config(device: Seq<char>) -> Seq<char> {
    "homeassistant/notify/"@ + device + "/config"@
}

/// The topic on which dry runs are reported.
pub open spec fn test_action(device: Seq<char>) -> Seq<char> {
    "pc-bridge/test/executed/"@ + device
}

fn around(a: &str, b: &str, c: &str) -> (r: String)
    ensures
        r@ == a@ + b@ + c@,
{
    let mut s = a.to_string();
    s.append(b);
    s.append(c);
    s
}

/// The availability topic of a device.
pub fn availability_topic_of(device: &str) -> (r: String)
    ensures
        r@ == availability(device@),
{
    around("homeassistant/sensor/", device, "/availability")
}

/// The HWiNFO availability topic of a device.
pub fn hwinfo_availability_topic_of(device: &str) -> (r: String)
    ensures
        r@ == hwinfo_availability(device@),
{
    around("homeassistant/sensor/", device, "/hwinfo_availability")
}

/// The state topic of a sensor.
pub fn sensor_topic_of(device: &str, name: &str) -> (r: String)
    ensures
        r@ == sensor_state(device@, name@),
{
    let mut s = around("homeassistant/sensor/", device, "/");
    s.append(name);
    s.append("/state");
    s
}

/// The attribute topic of a sensor.
pub fn sensor_attributes_topic_of(device: &str, name: &str) -> (r: String)
    ensures
        r@ == sensor_attributes(device@, name@),
{
    let mut s = around("homeassistant/sensor/", device, "/");
    s.append(name);
    s.append("/attributes");
    s
}

/// What the topic of every button press of a device begins with.
pub fn button_prefix_of(device: &str) -> (r: String)
    ensures
        r@ == button_prefix(device@),
{
    around("homeassistant/button/", device, "/")
}

/// The topic on which the presses of a button arrive.
pub fn command_topic_of(device: &str, name: &str) -> (r: String)
    ensures
        r@ == command(device@, name@),
{
    let mut s = button_prefix_of(device);
    s.append(name);
    s.append("/action");
    s
}

/// The topic on which notifications arrive.
pub fn notify_topic_of(device: &str) -> (r: String)
    ensures
        r@ == notifications(device@),
{
    let mut s = "pc-bridge/notifications/".to_string();
    s.append(device);
    s
}

/// The discovery topic of an entity.
pub fn config_topic_of(component: &str, device: &str, name: &str) -> (r: String)
    ensures
        r@ == config(component@, device@, name@),
{
    let mut s = around("homeassistant/", component, "/");
    s.append(device);
    s.append("/");
    s.append(name);
    s.append("/config");
    s
}

/// The discovery topic of the notify service.
pub fn notify_config_topic_of(device: &str) -> (r: String)
    ensures
        r@ == notify_config(device@),
{
    around("homeassistant/notify/", device, "/config")
}

/// The topic on which dry runs are reported.
pub fn test_action_topic_of(device: &str) -> (r: String)
    ensures
        r@ == test_action(device@),
{
    let mut s = "pc-bridge/test/executed/".to_string();
    s.append(device);
    s
}

// ---------------------------------------------------------------------------
// The cache
// ---------------------------------------------------------------------------

/// Topics by sensor name.
#[derive(Debug, Clone)]
pub struct TopicTable {
    pub entries: Vec<(String, String)>,
}

impl TopicTable {
    /// The names that have an entry, in order.
    pub open spec fn names(&self) -> Seq<Seq<char>> {
        self.entries@.map_values(|e: (String, String)| e.0@)
    }

    /// The topic kept for `name`, if there is one.
    pub fn get(&self, name: &str) -> (r: Option<&String>)
        ensures
            match r {
                Some(t) => exists|i: int|
                    0 <= i < self.entries@.len() && (#[trigger] self.entries@[i]).0@ == name@
                        && self.entries@[i].1@ == t@,
                None => !self.names().contains(name@),
            },
    {
        let mut i: usize = 0;
        while i < self.entries.len()
            invariant
                i <= self.entries.len(),
                forall|j: int| 0 <= j < i ==> (#[trigger] self.names()[j]) != name@,
            decreases self.entries.len() - i,
        {
            if self.entries[i].0.as_str().eq(name) {
                return Some(&self.entries[i].1);
            }
            i += 1;
        }
        proof {
            assert forall|j: int| 0 <= j < self.names().len() implies self.names()[j] != name@ by {}
        }
        None
    }

    /// Whether a topic is kept for `name`.
    pub fn contains_key(&self, name: &str) -> (r: bool)
        ensures
            r == self.names().contains(name@),
    {
        match self.get(name) {
            Some(t) => {
                proof {
                    let i = choose|i: int|
                        0 <= i < self.entries@.len() && (#[trigger] self.entries@[i]).0@ == name@
                            && self.entries@[i].1@ == t@;
                    assert(self.names()[i] == name@);
                }
                true
            },
            None => false,
        }
    }
}

/// Topics of a device that are computed once.
#[derive(Debug, Clone)]
pub struct CachedTopics {
    pub availability: String,
    /// State topics by sensor name.
    pub sensor_state: TopicTable,
    /// Attribute topics by sensor name.
    pub sensor_attrs: TopicTable,
}

/// The sensors whose topics are computed once.
pub open spec fn builtin_sensors() -> Seq<Seq<char>> {
    seq![
        "runninggames"@,
        "lastactive"@,
        "screensaver"@,
        "display"@,
        "volume_level"@,
        "cpu_usage"@,
        "memory_usage"@,
        "gpu_temp"@,
        "steam_updating"@,
        "bridge_health"@,
        "game_catalog"@,
        "active_window"@,
        "sleep_state"@,
        "battery_level"@,
        "battery_charging"@,
        "gpu_usage"@,
        "network_throughput"@,
        "disk_usage"@,
        "system_uptime"@,
        "bridge_info"@,
        "hwinfo_diagnostic"@,
    ]
}

impl CachedTopics {
    /// The cache holds the topics of `device`, and nothing else.
    pub open spec fn holds(&self, device: Seq<char>) -> bool {
        &&& self.availability@ == availability(device)
        &&& forall|i: int|
            0 <= i < self.sensor_state.entries@.len() ==> (#[trigger] self.sensor_state.entries@[i]).1@
                == sensor_state(device, self.sensor_state.entries@[i].0@)
        &&& forall|i: int|
            0 <= i < self.sensor_attrs.entries@.len() ==> (#[trigger] self.sensor_attrs.entries@[i]).1@
                == sensor_attributes(device, self.sensor_attrs.entries@[i].0@)
    }

    /// The topics of a device, with entries for the built-in sensors.
    pub fn new(device_name: &str) -> (r: Self)
        ensures
            r.holds(device_name@),
            r.sensor_state.names() == builtin_sensors(),
            r.sensor_attrs.names() == builtin_sensors(),
    {
        let sensors: [&'static str; 21] = [
            "runninggames",
            "lastactive",
            "screensaver",
            "display",
            "volume_level",
            "cpu_usage",
            "memory_usage",
            "gpu_temp",
            "steam_updating",
            "bridge_health",
            "game_catalog",
            "active_window",
            "sleep_state",
            "battery_level",
            "battery_charging",
            "gpu_usage",
            "network_throughput",
            "disk_usage",
            "system_uptime",
            "bridge_info",
            "hwinfo_diagnostic",
        ];
        proof {
            assert(sensors@.map_values(|s: &'static str| s@) =~= builtin_sensors());
        }
        let mut state: Vec<(String, String)> = Vec::new();
        let mut attrs: Vec<(String, String)> = Vec::new();
        let mut i: usize = 0;
        while i < 21
            invariant
                i <= 21,
                sensors@.len() == 21,
                builtin_sensors().len() == 21,
                forall|k: int|
                    0 <= k < 21 ==> (#[trigger] sensors@[k])@ == builtin_sensors()[k],
                state@.len() == i,
                attrs@.len() == i,
                forall|k: int|
                    0 <= k < i ==> (#[trigger] state@[k]).0@ == builtin_sensors()[k] && state@[k].1@
                        == sensor_state(device_name@, builtin_sensors()[k]),
                forall|k: int|
                    0 <= k < i ==> (#[trigger] attrs@[k]).0@ == builtin_sensors()[k] && attrs@[k].1@
                        == sensor_attributes(device_name@, builtin_sensors()[k]),
            decreases 21 - i,
        {
            let name = sensors[i];
            state.push((name.to_string(), sensor_topic_of(device_name, name)));
            attrs.push((name.to_string(), sensor_attributes_topic_of(device_name, name)));
            i += 1;
        }
        let r = CachedTopics {
            availability: availability_topic_of(device_name),
            sensor_state: TopicTable { entries: state },
            sensor_attrs: TopicTable { entries: attrs },
        };
        proof {
            assert(r.sensor_state.names() =~= builtin_sensors());
            assert(r.sensor_attrs.names() =~= builtin_sensors());
        }
        r
    }
}

// ---------------------------------------------------------------------------
// Laws
// ---------------------------------------------------------------------------

/// Two buttons of a device that share a command topic have the same name.
pub proof fn law_command_topics_are_distinct(device: Seq<char>, a: Seq<char>, b: Seq<char>)
    requires
        command(device, a) == command(device, b),
    ensures
        a == b,
{
    let p = button_prefix(device);
    let ta = command(device, a);
    let tb = command(device, b);
    assert(ta.len() == p.len() + a.len() + "/action"@.len());
    assert(tb.len() == p.len() + b.len() + "/action"@.len());
    assert(ta.subrange(p.len() as int, (p.len() + a.len()) as int) =~= a);
    assert(tb.subrange(p.len() as int, (p.len() + b.len()) as int) =~= b);
}

/// The notification topic is no command topic, whatever the devices and names.
pub proof fn law_notifications_are_no_command(
    device: Seq<char>,
    other: Seq<char>,
    name: Seq<char>,
)
    ensures
        notifications(device) != command(other, name),
        !text::has_prefix(notifications(device), button_prefix(other)),
{
    reveal_strlit("pc-bridge/notifications/");
    reveal_strlit("homeassistant/button/");
    let n = notifications(device);
    let c = command(other, name);
    let p = button_prefix(other);
    assert(n[0] == 'p');
    assert(c[0] == 'h');
    if text::has_prefix(n, p) {
        assert(n.take(p.len() as int)[0] == n[0]);
        assert(p[0] == 'h');
    }
}

/// The topics of a device, in full.
pub proof fn law_topics(device: Seq<char>, component: Seq<char>, name: Seq<char>)
    ensures
        availability(device) == "homeassistant/sensor/"@ + device + "/availability"@,
        hwinfo_availability(device) == "homeassistant/sensor/"@ + device + "/hwinfo_availability"@,
        sensor_state(device, name) == "homeassistant/sensor/"@ + device + "/"@ + name + "/state"@,
        sensor_attributes(device, name) == "homeassistant/sensor/"@ + device + "/"@ + name
            + "/attributes"@,
        button_prefix(device) == "homeassistant/button/"@ + device + "/"@,
        command(device, name) == "homeassistant/button/"@ + device + "/"@ + name + "/action"@,
        notifications(device) == "pc-bridge/notifications/"@ + device,
        config(component, device, name) == "homeassistant/"@ + component + "/"@ + device + "/"@
            + name + "/config"@,
        notify_config(device) == "homeassistant/notify/"@ + device + "/config"@,
        test_action(device) == "pc-bridge/test/executed/"@ + device,
{
}

} // verus!
