//! The MQTT side of the bridge.
//!
//! `MqttClient` knows everything about the bridge that decides what is sent:
//! topics, payloads, subscriptions and what to do on each event of the
//! connection. The connection itself belongs to the program.

pub mod discovery;
pub mod groups;
pub mod payload;
pub mod routing;
pub mod session;
pub mod topics;

use crate::config;
use crate::config::Config;
use crate::mqtt::discovery::BridgeView;
use crate::mqtt::payload::HADevice;
use crate::mqtt::topics::{
    availability_topic_of, command_topic_of, config_topic_of, hwinfo_availability_topic_of,
    sensor_attributes_topic_of, sensor_topic_of, CachedTopics,
};
use crate::power::sync_mqtt;
use crate::power::sync_mqtt::parse_broker_url;
use crate::text;
use crate::text::{chars_of, replace_char, string_of};
use vstd::prelude::*;
use vstd::string::*;

verus! {

/// A command received from Home Assistant.
#[derive(Debug, Clone)]
pub struct Command {
    pub name: String,
    pub payload: String,
}

/// The bridge as its MQTT messages know it.
pub struct MqttClient {
    device_name: String,
    device_id: String,
    cached_topics: CachedTopics,
    device: HADevice,
}

impl MqttClient {
    /// The topics that are kept are those of the device.
    #[verifier::type_invariant]
    spec fn topics_match(&self) -> bool {
        self.cached_topics.holds(self.device_name@)
    }

    /// The bridge as plain values.
    pub closed spec fn bridge(&self) -> BridgeView {
        BridgeView {
            device_name: self.device_name@,
            device_id: self.device_id@,
            device: self.device@,
        }
    }

    /// The client of a device. The id is the name with dashes replaced by
    /// underscores.
    pub fn for_device(device_name: &str, version: &str) -> (r: Self)
        ensures
            r.bridge() == bridge_of(device_name@, version@),
    {
        let device_id = string_of(&replace_char(&chars_of(device_name), '-', '_'));
        let device = HADevice::bridge(&device_id, device_name, version);
        MqttClient {
            device_name: device_name.to_string(),
            device_id,
            cached_topics: CachedTopics::new(device_name),
            device,
        }
    }

    /// The client of a configuration.
    pub fn new(config: &Config, version: &str) -> (r: Self)
        ensures
            r.bridge() == bridge_of(config.device_name@, version@),
    {
        Self::for_device(&config.device_name, version)
    }

    /// The name of the device.
    pub fn device_name(&self) -> (r: &str)
        ensures
            r@ == self.bridge().device_name,
    {
        &self.device_name
    }

    /// The id of the device.
    pub fn device_id(&self) -> (r: &str)
        ensures
            r@ == self.bridge().device_id,
    {
        &self.device_id
    }

    /// The device block of the bridge.
    pub fn device(&self) -> (r: HADevice)
        ensures
            r@ == self.bridge().device,
    {
        self.device.duplicate()
    }

    /// The availability topic.
    pub fn availability_topic(&self) -> (r: String)
        ensures
            r@ == topics::availability(self.bridge().device_name),
    {
        proof {
            use_type_invariant(self);
        }
        self.cached_topics.availability.clone()
    }

    /// Host, port and TLS of a broker URL, as the publisher of the sleep state reads
    /// it.
    pub fn parse_broker_url(url: &str) -> (r: (String, u16, bool))
        ensures
            sync_mqtt::broker_url(url@) == (r.0@, r.1 as nat, r.2),
    {
        parse_broker_url(url)
    }

    /// The availability topic of a device.
    pub fn availability_topic_static(device_name: &str) -> (r: String)
        ensures
            r@ == topics::availability(device_name@),
    {
        availability_topic_of(device_name)
    }

    /// The topic on which the agent says whether HWiNFO is running.
    pub fn hwinfo_availability_topic(&self) -> (r: String)
        ensures
            r@ == topics::hwinfo_availability(self.bridge().device_name),
    {
        hwinfo_availability_topic_of(&self.device_name)
    }

    /// The state topic of a sensor, taken from the cache where it is there.
    pub fn sensor_topic(&self, name: &str) -> (r: String)
        ensures
            r@ == topics::sensor_state(self.bridge().device_name, name@),
    {
        proof {
            use_type_invariant(self);
        }
        match self.cached_topics.sensor_state.get(name) {
            Some(cached) => cached.clone(),
            None => sensor_topic_of(&self.device_name, name),
        }
    }

    /// The attribute topic of a sensor, taken from the cache where it is there.
    pub fn sensor_attributes_topic(&self, name: &str) -> (r: String)
        ensures
            r@ == topics::sensor_attributes(self.bridge().device_name, name@),
    {
        proof {
            use_type_invariant(self);
        }
        match self.cached_topics.sensor_attrs.get(name) {
            Some(cached) => cached.clone(),
            None => sensor_attributes_topic_of(&self.device_name, name),
        }
    }

    /// The topic on which the presses of a button arrive.
    pub fn command_topic(&self, name: &str) -> (r: String)
        ensures
            r@ == topics::command(self.bridge().device_name, name@),
    {
        command_topic_of(&self.device_name, name)
    }

    /// The discovery topic of an entity.
    pub fn config_topic(&self, component: &str, name: &str) -> (r: String)
        ensures
            r@ == topics::config(component@, self.bridge().device_name, name@),
    {
        config_topic_of(component, &self.device_name, name)
    }
}

/// The bridge of a device.
pub open spec fn bridge_of(device_name: Seq<char>, version: Seq<char>) -> BridgeView {
    let device_id = text::replace_char_spec(device_name, '-', '_');
    BridgeView {
        device_name,
        device_id,
        device: payload::bridge_device(device_id, device_name, version),
    }
}

/// The bridge of a device: it keeps the name, its id is the name with an underscore for each
/// dash and every other character as it is, and the device block names both and the version.
pub proof fn law_bridge_of_a_device(device_name: Seq<char>, version: Seq<char>)
    ensures
        ({
            let b = bridge_of(device_name, version);
            &&& b.device_name == device_name
            &&& b.device_id.len() == device_name.len()
            &&& forall|i: int|
                0 <= i < device_name.len() ==> (device_name[i] == '-' ==> (
                #[trigger] b.device_id[i]) == '_') && (device_name[i] != '-' ==> b.device_id[i]
                    == device_name[i])
            &&& b.device.identifiers == seq![b.device_id]
            &&& b.device.name == device_name
            &&& b.device.model == "PC Bridge v"@ + version
            &&& b.device.manufacturer == "dank0i"@
            &&& b.device.sw_version == version
        }),
{
}

} // verus!
