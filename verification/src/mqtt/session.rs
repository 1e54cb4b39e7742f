//! The connection to the broker: how it is opened, what is announced on it, and
//! what each of its events leads to.

use crate::config;
use crate::config::{Config, FeatureConfig};
use crate::json;
use crate::json::{quote, write_object, Member};
use crate::mqtt::routing;
use crate::mqtt::routing::parse_incoming_topic;
use crate::mqtt::topics;
use crate::mqtt::topics::{
    availability_topic_of, button_prefix_of, notify_topic_of, test_action_topic_of,
};
use crate::mqtt::{Command, MqttClient};
use crate::power::sync_mqtt;
use crate::power::sync_mqtt::parse_broker_url;
use crate::text;
use crate::text::from_utf8_lossy;
use vstd::prelude::*;
use vstd::string::*;

verus! {

// ---------------------------------------------------------------------------
// Messages
// ---------------------------------------------------------------------------

/// The quality of service of everything that is published: delivered at least once.
pub const AT_LEAST_ONCE: u8 = 1;

/// A message to publish.
#[derive(Debug, Clone)]
pub struct Message {
    pub topic: String,
    pub payload: String,
    pub retained: bool,
    pub qos: u8,
}

/// A message as plain values.
pub struct MessageView {
    pub topic: Seq<char>,
    pub payload: Seq<char>,
    pub retained: bool,
    pub qos: u8,
}

impl View for Message {
    type V = MessageView;

    open spec fn view(&self) -> MessageView {
        MessageView {
            topic: self.topic@,
            payload: self.payload@,
            retained: self.retained,
            qos: self.qos,
        }
    }
}

/// The payload of an availability message.
pub open spec fn availability_text(online: bool) -> Seq<char> {
    if online {
        "online"@
    } else {
        "offline"@
    }
}

/// The payload of an availability message.
pub fn availability_payload(online: bool) -> (r: String)
    ensures
        r@ == availability_text(online),
{
    if online {
        "online".to_string()
    } else {
        "offline".to_string()
    }
}

/// The record of a dry run: the command, its payload and what would have been
/// done.
pub open spec fn test_action_text(
    name: Seq<char>,
    payload: Seq<char>,
    action: Seq<char>,
) -> Option<Seq<char>> {
    json::json_text(
        seq![
            ("name"@, json::json_quoted(name)),
            ("payload"@, json::json_quoted(payload)),
            ("action"@, json::json_quoted(action)),
        ],
    )
}

impl MqttClient {
    /// The message that publishes a sensor value.
    pub fn publish_sensor(&self, name: &str, value: &str) -> (r: Message)
        ensures
            r@ == (MessageView {
                topic: topics::sensor_state(self.bridge().device_name, name@),
                payload: value@,
                retained: false,
                qos: AT_LEAST_ONCE,
            }),
    {
        Message {
            topic: self.sensor_topic(name),
            payload: value.to_string(),
            retained: false,
            qos: AT_LEAST_ONCE,
        }
    }

    /// The message that publishes a sensor value and leaves it with the broker.
    pub fn publish_sensor_retained(&self, name: &str, value: &str) -> (r: Message)
        ensures
            r@ == (MessageView {
                topic: topics::sensor_state(self.bridge().device_name, name@),
                payload: value@,
                retained: true,
                qos: AT_LEAST_ONCE,
            }),
    {
        Message {
            topic: self.sensor_topic(name),
            payload: value.to_string(),
            retained: true,
            qos: AT_LEAST_ONCE,
        }
    }

    /// The message that publishes the attributes of a sensor, given as JSON.
    pub fn publish_sensor_attributes(&self, name: &str, attributes: &str) -> (r: Message)
        ensures
            r@ == (MessageView {
                topic: topics::sensor_attributes(self.bridge().device_name, name@),
                payload: attributes@,
                retained: true,
                qos: AT_LEAST_ONCE,
            }),
    {
        Message {
            topic: self.sensor_attributes_topic(name),
            payload: attributes.to_string(),
            retained: true,
            qos: AT_LEAST_ONCE,
        }
    }

    /// The message that says whether the agent is online.
    pub fn publish_availability(&self, online: bool) -> (r: Message)
        ensures
            r@ == (MessageView {
                topic: topics::availability(self.bridge().device_name),
                payload: availability_text(online),
                retained: true,
                qos: AT_LEAST_ONCE,
            }),
    {
        Message {
            topic: self.availability_topic(),
            payload: availability_payload(online),
            retained: true,
            qos: AT_LEAST_ONCE,
        }
    }

    /// The message that says whether HWiNFO is running.
    pub fn publish_hwinfo_availability(&self, online: bool) -> (r: Message)
        ensures
            r@ == (MessageView {
                topic: topics::hwinfo_availability(self.bridge().device_name),
                payload: availability_text(online),
                retained: true,
                qos: AT_LEAST_ONCE,
            }),
    {
        Message {
            topic: self.hwinfo_availability_topic(),
            payload: availability_payload(online),
            retained: true,
            qos: AT_LEAST_ONCE,
        }
    }

    /// The message that reports a dry run.
    pub fn publish_test_action(&self, name: &str, payload: &str, action: &str) -> (r: Message)
        ensures
            test_action_text(name@, payload@, action@) == Some(r.payload@),
            r.topic@ == topics::test_action(self.bridge().device_name),
            !r.retained,
            r.qos == AT_LEAST_ONCE,
    {
        let members: Vec<Member> = vec![
            ("name".to_string(), quote(name)),
            ("payload".to_string(), quote(payload)),
            ("action".to_string(), quote(action)),
        ];
        proof {
            assert(json::members_view(members@) =~= seq![
                ("name"@, json::json_quoted(name@)),
                ("payload"@, json::json_quoted(payload@)),
                ("action"@, json::json_quoted(action@)),
            ]);
        }
        Message {
            topic: test_action_topic_of(self.device_name()),
            payload: write_object(&members).unwrap(),
            retained: false,
            qos: AT_LEAST_ONCE,
        }
    }
}

// ---------------------------------------------------------------------------
// Opening the connection
// ---------------------------------------------------------------------------

/// How the connection is opened.
#[derive(Debug, Clone)]
pub struct ConnectionPlan {
    pub client_id: String,
    pub host: String,
    pub port: u16,
    pub use_tls: bool,
    /// User and password, where a user is configured.
    pub credentials: Option<(String, String)>,
    pub keep_alive_secs: u64,
    pub clean_session: bool,
    pub max_packet_size: usize,
    pub inflight: u16,
    /// How many requests can wait before the connection drains them.
    pub request_capacity: usize,
    /// What the broker publishes when the connection is lost.
    pub last_will: Message,
}

/// The connection of a configuration.
pub fn connection_plan(config: &Config) -> (r: ConnectionPlan)
    ensures
        r.client_id@ == config::client_id_of(*config),
        sync_mqtt::broker_url(config.mqtt.broker@) == (r.host@, r.port as nat, r.use_tls),
        match r.credentials {
            Some((user, pass)) => config.mqtt.user@.len() > 0 && user@ == config.mqtt.user@
                && pass@ == config.mqtt.pass@,
            None => config.mqtt.user@.len() == 0,
        },
        r.keep_alive_secs == 30,
        !r.clean_session,
        r.max_packet_size == 262144,
        r.inflight == 5,
        r.request_capacity == 128,
        r.last_will@ == (MessageView {
            topic: topics::availability(config.device_name@),
            payload: "offline"@,
            retained: true,
            qos: AT_LEAST_ONCE,
        }),
{
    let (host, port, use_tls) = parse_broker_url(&config.mqtt.broker);
    ConnectionPlan {
        client_id: config.client_id(),
        host,
        port,
        use_tls,
        credentials: if config.mqtt.user.as_str().is_empty() {
            None
        } else {
            Some((config.mqtt.user.clone(), config.mqtt.pass.clone()))
        },
        keep_alive_secs: 30,
        clean_session: false,
        max_packet_size: 262144,
        inflight: 5,
        request_capacity: 128,
        last_will: Message {
            topic: availability_topic_of(&config.device_name),
            payload: availability_payload(false),
            retained: true,
            qos: AT_LEAST_ONCE,
        },
    }
}

// ---------------------------------------------------------------------------
// The announcement
// ---------------------------------------------------------------------------

/// A switch as JSON.
pub open spec fn flag_text(b: bool) -> Seq<char> {
    if b {
        "true"@
    } else {
        "false"@
    }
}

/// The game and power features as members.
pub open spec fn game_members(f: FeatureConfig) -> Seq<json::MemberView> {
    seq![
        ("running_game"@, flag_text(f.running_game)),
        ("game_catalog"@, flag_text(f.game_catalog)),
        ("steam_library"@, flag_text(f.steam_library)),
        ("launch_game"@, flag_text(f.launch_game)),
        ("close_game"@, flag_text(f.close_game)),
        ("idle_tracking"@, flag_text(f.idle_tracking)),
        ("sleep_wake"@, flag_text(f.sleep_wake)),
        ("display_state"@, flag_text(f.display_state)),
    ]
}

/// The command features as members.
pub open spec fn command_members(f: FeatureConfig) -> Seq<json::MemberView> {
    seq![
        ("cmd_shutdown"@, flag_text(f.cmd_shutdown)),
        ("cmd_restart"@, flag_text(f.cmd_restart)),
        ("cmd_sleep"@, flag_text(f.cmd_sleep)),
        ("cmd_lock"@, flag_text(f.cmd_lock)),
        ("cmd_logoff"@, flag_text(f.cmd_logoff)),
        ("cmd_monitor"@, flag_text(f.cmd_monitor)),
        ("notifications"@, flag_text(f.notifications)),
        ("cpu_sensor"@, flag_text(f.cpu_sensor)),
    ]
}

/// The desktop features as members.
pub open spec fn desktop_members(f: FeatureConfig) -> Seq<json::MemberView> {
    seq![
        ("memory_sensor"@, flag_text(f.memory_sensor)),
        ("active_window"@, flag_text(f.active_window)),
        ("session_state"@, flag_text(f.session_state)),
        ("audio_device"@, flag_text(f.audio_device)),
        ("mic"@, flag_text(f.mic)),
        ("webcam"@, flag_text(f.webcam)),
        ("now_playing"@, flag_text(f.now_playing)),
        ("volume"@, flag_text(f.volume)),
    ]
}

/// The media and system features as members.
pub open spec fn system_members(f: FeatureConfig) -> Seq<json::MemberView> {
    seq![
        ("media_controls"@, flag_text(f.media_controls)),
        ("steam_updates"@, flag_text(f.steam_updates)),
        ("discord"@, flag_text(f.discord)),
        ("gpu_sensor"@, flag_text(f.gpu_sensor)),
        ("network_sensor"@, flag_text(f.network_sensor)),
        ("disk_sensor"@, flag_text(f.disk_sensor)),
        ("uptime_sensor"@, flag_text(f.uptime_sensor)),
        ("hwinfo_sensor"@, flag_text(f.hwinfo_sensor)),
    ]
}

/// The features as members of a JSON object.
pub open spec fn feature_members(f: FeatureConfig) -> Seq<json::MemberView> {
    game_members(f) + command_members(f) + desktop_members(f) + system_members(f)
}

/// The attributes of the birth message: version, platform and features.
pub open spec fn birth_text(
    version: Seq<char>,
    os: Seq<char>,
    arch: Seq<char>,
    f: FeatureConfig,
) -> Option<Seq<char>> {
    match json::json_text(feature_members(f)) {
        Some(features) => json::json_text(
            seq![
                ("version"@, json::json_quoted(version)),
                ("os"@, json::json_quoted(os)),
                ("arch"@, json::json_quoted(arch)),
                ("features"@, features),
            ],
        ),
        None => None,
    }
}

fn flag(b: bool) -> (r: String)
    ensures
        r@ == flag_text(b),
{
    if b {
        "true".to_string()
    } else {
        "false".to_string()
    }
}

/// Switches as members.
pub open spec fn flags_view(flags: Seq<(&'static str, bool)>) -> Seq<json::MemberView> {
    flags.map_values(|x: (&'static str, bool)| (x.0@, flag_text(x.1)))
}

/// Adds switches to a list of scalars.
fn push_flags(out: &mut Vec<Member>, flags: &[(&'static str, bool)])
    requires
        json::all_scalars(json::members_view(old(out)@)),
    ensures
        json::members_view(final(out)@) == json::members_view(old(out)@) + flags_view(flags@),
        json::all_scalars(json::members_view(final(out)@)),
{
    let ghost start = json::members_view(out@);
    let ghost all = flags_view(flags@);
    let mut i: usize = 0;
    proof {
        assert(start + all.take(0) =~= start);
    }
    while i < flags.len()
        invariant
            i <= flags.len(),
            all == flags_view(flags@),
            json::members_view(out@) == start + all.take(i as int),
            json::all_scalars(json::members_view(out@)),
        decreases flags.len() - i,
    {
        let ghost before = json::members_view(out@);
        out.push((flags[i].0.to_string(), flag(flags[i].1)));
        proof {
            let m = json::members_view(out@);
            assert(m =~= before.push(all[i as int]));
            assert(m =~= start + all.take(i + 1));
            assert forall|k: int| 0 <= k < m.len() implies json::is_scalar((#[trigger] m[k]).1) by {
                if k < before.len() {
                    assert(m[k] == before[k]);
                }
            }
        }
        i += 1;
    }
    proof {
        assert(all.take(all.len() as int) =~= all);
    }
}

fn push_game_members(out: &mut Vec<Member>, f: &FeatureConfig)
    requires
        json::all_scalars(json::members_view(old(out)@)),
    ensures
        json::members_view(final(out)@) == json::members_view(old(out)@) + game_members(*f),
        json::all_scalars(json::members_view(final(out)@)),
{
    let flags: [(&'static str, bool); 8] = [
        ("running_game", f.running_game),
        ("game_catalog", f.game_catalog),
        ("steam_library", f.steam_library),
        ("launch_game", f.launch_game),
        ("close_game", f.close_game),
        ("idle_tracking", f.idle_tracking),
        ("sleep_wake", f.sleep_wake),
        ("display_state", f.display_state),
    ];
    proof {
        assert(flags_view(flags@) =~= game_members(*f));
    }
    push_flags(out, &flags);
}

fn push_command_members(out: &mut Vec<Member>, f: &FeatureConfig)
    requires
        json::all_scalars(json::members_view(old(out)@)),
    ensures
        json::members_view(final(out)@) == json::members_view(old(out)@) + command_members(*f),
        json::all_scalars(json::members_view(final(out)@)),
{
    let flags: [(&'static str, bool); 8] = [
        ("cmd_shutdown", f.cmd_shutdown),
        ("cmd_restart", f.cmd_restart),
        ("cmd_sleep", f.cmd_sleep),
        ("cmd_lock", f.cmd_lock),
        ("cmd_logoff", f.cmd_logoff),
        ("cmd_monitor", f.cmd_monitor),
        ("notifications", f.notifications),
        ("cpu_sensor", f.cpu_sensor),
    ];
    proof {
        assert(flags_view(flags@) =~= command_members(*f));
    }
    push_flags(out, &flags);
}

fn push_desktop_members(out: &mut Vec<Member>, f: &FeatureConfig)
    requires
        json::all_scalars(json::members_view(old(out)@)),
    ensures
        json::members_view(final(out)@) == json::members_view(old(out)@) + desktop_members(*f),
        json::all_scalars(json::members_view(final(out)@)),
{
    let flags: [(&'static str, bool); 8] = [
        ("memory_sensor", f.memory_sensor),
        ("active_window", f.active_window),
        ("session_state", f.session_state),
        ("audio_device", f.audio_device),
        ("mic", f.mic),
        ("webcam", f.webcam),
        ("now_playing", f.now_playing),
        ("volume", f.volume),
    ];
    proof {
        assert(flags_view(flags@) =~= desktop_members(*f));
    }
    push_flags(out, &flags);
}

fn push_system_members(out: &mut Vec<Member>, f: &FeatureConfig)
    requires
        json::all_scalars(json::members_view(old(out)@)),
    ensures
        json::members_view(final(out)@) == json::members_view(old(out)@) + system_members(*f),
        json::all_scalars(json::members_view(final(out)@)),
{
    let flags: [(&'static str, bool); 8] = [
        ("media_controls", f.media_controls),
        ("steam_updates", f.steam_updates),
        ("discord", f.discord),
        ("gpu_sensor", f.gpu_sensor),
        ("network_sensor", f.network_sensor),
        ("disk_sensor", f.disk_sensor),
        ("uptime_sensor", f.uptime_sensor),
        ("hwinfo_sensor", f.hwinfo_sensor),
    ];
    proof {
        assert(flags_view(flags@) =~= system_members(*f));
    }
    push_flags(out, &flags);
}

fn feature_member_list(f: &FeatureConfig) -> (r: Vec<Member>)
    ensures
        json::members_view(r@) == feature_members(*f),
        json::all_scalars(feature_members(*f)),
{
    let mut out: Vec<Member> = Vec::new();
    proof {
        assert(json::members_view(out@) + game_members(*f) =~= game_members(*f));
    }
    push_game_members(&mut out, f);
    push_command_members(&mut out, f);
    push_desktop_members(&mut out, f);
    push_system_members(&mut out, f);
    out
}

/// The attributes of the birth message as JSON.
pub fn birth_attributes(version: &str, os: &str, arch: &str, f: &FeatureConfig) -> (r: String)
    ensures
        birth_text(version@, os@, arch@, *f) == Some(r@),
{
    let list = feature_member_list(f);
    proof {
        assert forall|i: int| 0 <= i < list@.len() implies json::is_scalar(
            (#[trigger] list@[i]).1@,
        ) by {
            assert(json::members_view(list@)[i] == feature_members(*f)[i]);
        }
    }
    let features = write_object(&list).unwrap();
    let members: Vec<Member> = vec![
        ("version".to_string(), quote(version)),
        ("os".to_string(), quote(os)),
        ("arch".to_string(), quote(arch)),
        ("features".to_string(), features),
    ];
    proof {
        assert(json::members_view(members@) =~= seq![
            ("version"@, json::json_quoted(version@)),
            ("os"@, json::json_quoted(os@)),
            ("arch"@, json::json_quoted(arch@)),
            ("features"@, features@),
        ]);
        assert(json::is_string_literal(members@[0].1@));
        assert(json::is_string_literal(members@[1].1@));
        assert(json::is_string_literal(members@[2].1@));
        assert(json::json_text(feature_members(*f)) == Some(features@));
        assert(json::is_flat_object(members@[3].1@));
    }
    write_object(&members).unwrap()
}

/// One step of the announcement.
#[derive(Debug, Clone)]
pub enum AnnounceStep {
    Subscribe(String),
    Publish(Message),
}

/// A step as plain values.
pub enum StepView {
    Subscribe(Seq<char>),
    Publish(MessageView),
}

impl View for AnnounceStep {
    type V = StepView;

    open spec fn view(&self) -> StepView {
        match self {
            AnnounceStep::Subscribe(t) => StepView::Subscribe(t@),
            AnnounceStep::Publish(m) => StepView::Publish(m@),
        }
    }
}

/// The steps as plain values.
pub open spec fn steps_view(v: Seq<AnnounceStep>) -> Seq<StepView> {
    v.map_values(|s: AnnounceStep| s@)
}

/// What is published once the subscriptions are in place: that the agent is
/// online, its version, and the attributes of the birth message.
pub open spec fn birth_messages(
    device: Seq<char>,
    version: Seq<char>,
    attributes: Seq<char>,
) -> Seq<StepView> {
    seq![
        StepView::Publish(
            MessageView {
                topic: topics::availability(device),
                payload: "online"@,
                retained: true,
                qos: AT_LEAST_ONCE,
            },
        ),
        StepView::Publish(
            MessageView {
                topic: topics::sensor_state(device, "bridge_info"@),
                payload: version,
                retained: true,
                qos: AT_LEAST_ONCE,
            },
        ),
        StepView::Publish(
            MessageView {
                topic: topics::sensor_attributes(device, "bridge_info"@),
                payload: attributes,
                retained: true,
                qos: AT_LEAST_ONCE,
            },
        ),
    ]
}

/// What is done after each accepted connection: all subscriptions first, because
/// Home Assistant may send commands as soon as the agent appears online.
pub open spec fn announcement(
    device: Seq<char>,
    subscriptions: Seq<Seq<char>>,
    version: Seq<char>,
    attributes: Seq<char>,
) -> Seq<StepView> {
    subscriptions.map_values(|t: Seq<char>| StepView::Subscribe(t)) + birth_messages(
        device,
        version,
        attributes,
    )
}

impl MqttClient {
    /// The steps to take after each accepted connection.
    pub fn announce(&self, config: &Config, version: &str, os: &str, arch: &str) -> (r: Vec<
        AnnounceStep,
    >)
        ensures
            steps_view(r@) == announcement(
                self.bridge().device_name,
                routing::subscribe_topics(
                    self.bridge().device_name,
                    config.features,
                    config.custom_commands@,
                ),
                version@,
                birth_text(version@, os@, arch@, config.features)->0,
            ),
            birth_text(version@, os@, arch@, config.features) is Some,
    {
        let subscriptions = Self::build_subscribe_topics(self.device_name(), config);
        let attributes = birth_attributes(version, os, arch, &config.features);
        let ghost subs = text::views(subscriptions@).map_values(
            |t: Seq<char>| StepView::Subscribe(t),
        );
        let mut out: Vec<AnnounceStep> = Vec::new();
        let mut i: usize = 0;
        while i < subscriptions.len()
            invariant
                i <= subscriptions.len(),
                out@.len() == i,
                subs == text::views(subscriptions@).map_values(
                    |t: Seq<char>| StepView::Subscribe(t),
                ),
                forall|k: int| 0 <= k < i ==> (#[trigger] out@[k])@ == subs[k],
            decreases subscriptions.len() - i,
        {
            out.push(AnnounceStep::Subscribe(subscriptions[i].clone()));
            i += 1;
        }
        proof {
            assert(steps_view(out@) =~= subs);
        }
        let ghost before = out@;
        out.push(AnnounceStep::Publish(self.publish_availability(true)));
        out.push(AnnounceStep::Publish(self.publish_sensor_retained("bridge_info", version)));
        out.push(AnnounceStep::Publish(self.publish_sensor_attributes("bridge_info", &attributes)));
        proof {
            assert(steps_view(out@) =~= subs + birth_messages(
                self.bridge().device_name,
                version@,
                attributes@,
            ));
        }
        out
    }
}

/// In an announcement every subscription comes before every message: whatever is
/// published, and so also that the agent is online, all subscriptions are made
/// by then.
pub proof fn law_subscribed_before_online(
    device: Seq<char>,
    subscriptions: Seq<Seq<char>>,
    version: Seq<char>,
    attributes: Seq<char>,
    i: int,
    j: int,
)
    requires
        0 <= i < announcement(device, subscriptions, version, attributes).len(),
        0 <= j < announcement(device, subscriptions, version, attributes).len(),
        announcement(device, subscriptions, version, attributes)[i] is Subscribe,
        announcement(device, subscriptions, version, attributes)[j] is Publish,
    ensures
        i < j,
{
}

// ---------------------------------------------------------------------------
// Events of the connection
// ---------------------------------------------------------------------------

/// An event of the connection.
#[derive(Debug, Clone)]
pub enum Incoming {
    /// A message arrived.
    Publish { topic: String, payload: Vec<u8> },
    /// The broker accepted the connection.
    ConnAck,
    /// Anything else that needs no reaction.
    Other,
    /// The connection failed.
    Failed,
}

/// What an event leads to.
#[derive(Debug, Clone)]
pub enum Reaction {
    /// Hand the command to the executor.
    Deliver(Command),
    /// Take the steps of the announcement and tell the sensors to publish again.
    Announce,
    Nothing,
    /// Wait before the next attempt.
    WaitSeconds(u64),
}

/// The wait that follows a wait: twice as long, but at most half a minute.
pub open spec fn next_backoff(secs: int) -> int {
    if 2 * secs < 30 {
        2 * secs
    } else {
        30
    }
}

/// The wait after `n` failures in a row.
pub open spec fn backoff_after(n: nat) -> int
    decreases n,
{
    if n == 0 {
        1
    } else {
        next_backoff(backoff_after((n - 1) as nat))
    }
}

/// The reconnection state of the event loop.
pub struct EventLoop {
    backoff_secs: u64,
}

impl EventLoop {
    #[verifier::type_invariant]
    spec fn bounded(&self) -> bool {
        1 <= self.backoff_secs <= 30
    }

    /// How long the next failure makes the loop wait.
    pub closed spec fn backoff(&self) -> int {
        self.backoff_secs as int
    }

    /// A loop that has not failed yet.
    pub fn new() -> (r: Self)
        ensures
            r.backoff() == 1,
    {
        EventLoop { backoff_secs: 1 }
    }

    /// What an event of the connection leads to.
    pub fn on_event(&mut self, client: &MqttClient, event: &Incoming) -> (r: Reaction)
        ensures
            match *event {
                Incoming::Publish { topic, payload } => {
                    &&& final(self).backoff() == old(self).backoff()
                    &&& match routing::routed(
                        topic@,
                        topics::button_prefix(client.bridge().device_name),
                        topics::notifications(client.bridge().device_name),
                    ) {
                        Some(name) => r matches Reaction::Deliver(c) && c.name@ == name
                            && c.payload@ == text::lossy_text(payload@),
                        None => r is Nothing,
                    }
                },
                Incoming::ConnAck => r is Announce && final(self).backoff() == 1,
                Incoming::Other => r is Nothing && final(self).backoff() == old(self).backoff(),
                Incoming::Failed => r matches Reaction::WaitSeconds(n) && n == old(self).backoff()
                    && final(self).backoff() == next_backoff(old(self).backoff()),
            },
    {
        match event {
            Incoming::Publish { topic, payload } => {
                match parse_incoming_topic(
                    topic,
                    &button_prefix_of(client.device_name()),
                    &notify_topic_of(client.device_name()),
                ) {
                    Some(name) => Reaction::Deliver(
                        Command { name, payload: from_utf8_lossy(payload) },
                    ),
                    None => Reaction::Nothing,
                }
            },
            Incoming::ConnAck => {
                self.backoff_secs = 1;
                Reaction::Announce
            },
            Incoming::Other => Reaction::Nothing,
            Incoming::Failed => {
                proof {
                    use_type_invariant(&*self);
                }
                let wait: u64 = self.backoff_secs;
                self.backoff_secs = if wait * 2 < 30 {
                    wait * 2
                } else {
                    30
                };
                Reaction::WaitSeconds(wait)
            },
        }
    }
}

/// The waits double from one second up to half a minute and stay there.
pub proof fn law_backoff_schedule(n: nat)
    ensures
        1 <= backoff_after(n) <= 30,
        n < 5 ==> backoff_after(n) == vstd::arithmetic::power2::pow2(n),
        n >= 5 ==> backoff_after(n) == 30,
    decreases n,
{
    vstd::arithmetic::power2::lemma2_to64();
    if n > 0 {
        law_backoff_schedule((n - 1) as nat);
        if n == 5 {
            assert(backoff_after(4) == 16);
        }
    }
}

// ---------------------------------------------------------------------------
// Laws
// ---------------------------------------------------------------------------

/// The birth message tells of every feature, by its name, whether it is on.
pub proof fn law_birth_message_features(f: FeatureConfig)
    ensures
        flag_text(true) == "true"@,
        flag_text(false) == "false"@,
        feature_members(f).len() == 32,
        feature_members(f)[0] == ("running_game"@, flag_text(f.running_game)),
        feature_members(f)[1] == ("game_catalog"@, flag_text(f.game_catalog)),
        feature_members(f)[2] == ("steam_library"@, flag_text(f.steam_library)),
        feature_members(f)[3] == ("launch_game"@, flag_text(f.launch_game)),
        feature_members(f)[4] == ("close_game"@, flag_text(f.close_game)),
        feature_members(f)[5] == ("idle_tracking"@, flag_text(f.idle_tracking)),
        feature_members(f)[6] == ("sleep_wake"@, flag_text(f.sleep_wake)),
        feature_members(f)[7] == ("display_state"@, flag_text(f.display_state)),
        feature_members(f)[8] == ("cmd_shutdown"@, flag_text(f.cmd_shutdown)),
        feature_members(f)[9] == ("cmd_restart"@, flag_text(f.cmd_restart)),
        feature_members(f)[10] == ("cmd_sleep"@, flag_text(f.cmd_sleep)),
        feature_members(f)[11] == ("cmd_lock"@, flag_text(f.cmd_lock)),
        feature_members(f)[12] == ("cmd_logoff"@, flag_text(f.cmd_logoff)),
        feature_members(f)[13] == ("cmd_monitor"@, flag_text(f.cmd_monitor)),
        feature_members(f)[14] == ("notifications"@, flag_text(f.notifications)),
        feature_members(f)[15] == ("cpu_sensor"@, flag_text(f.cpu_sensor)),
        feature_members(f)[16] == ("memory_sensor"@, flag_text(f.memory_sensor)),
        feature_members(f)[17] == ("active_window"@, flag_text(f.active_window)),
        feature_members(f)[18] == ("session_state"@, flag_text(f.session_state)),
        feature_members(f)[19] == ("audio_device"@, flag_text(f.audio_device)),
        feature_members(f)[20] == ("mic"@, flag_text(f.mic)),
        feature_members(f)[21] == ("webcam"@, flag_text(f.webcam)),
        feature_members(f)[22] == ("now_playing"@, flag_text(f.now_playing)),
        feature_members(f)[23] == ("volume"@, flag_text(f.volume)),
        feature_members(f)[24] == ("media_controls"@, flag_text(f.media_controls)),
        feature_members(f)[25] == ("steam_updates"@, flag_text(f.steam_updates)),
        feature_members(f)[26] == ("discord"@, flag_text(f.discord)),
        feature_members(f)[27] == ("gpu_sensor"@, flag_text(f.gpu_sensor)),
        feature_members(f)[28] == ("network_sensor"@, flag_text(f.network_sensor)),
        feature_members(f)[29] == ("disk_sensor"@, flag_text(f.disk_sensor)),
        feature_members(f)[30] == ("uptime_sensor"@, flag_text(f.uptime_sensor)),
        feature_members(f)[31] == ("hwinfo_sensor"@, flag_text(f.hwinfo_sensor)),
{
}

/// What is published at each connection, after the subscriptions: that the agent is online,
/// its version and its attributes, each of them retained and delivered at least once.
pub proof fn law_birth_messages(
    device: Seq<char>,
    subscriptions: Seq<Seq<char>>,
    version: Seq<char>,
    attributes: Seq<char>,
    i: int,
)
    ensures
        ({
            let all = announcement(device, subscriptions, version, attributes);
            let n = subscriptions.len() as int;
            let says = |topic: Seq<char>, payload: Seq<char>|
                StepView::Publish(MessageView { topic, payload, retained: true, qos: 1 });
            &&& all.len() == n + 3
            &&& 0 <= i < n ==> all[i] == StepView::Subscribe(subscriptions[i])
            &&& all[n] == says("homeassistant/sensor/"@ + device + "/availability"@, "online"@)
            &&& all[n + 1] == says(
                "homeassistant/sensor/"@ + device + "/"@ + "bridge_info"@ + "/state"@,
                version,
            )
            &&& all[n + 2] == says(
                "homeassistant/sensor/"@ + device + "/"@ + "bridge_info"@ + "/attributes"@,
                attributes,
            )
        }),
        availability_text(true) == "online"@,
        availability_text(false) == "offline"@,
{
}

/// The birth attributes name the version, the platform and the features, and the record of
/// a dry run the command, its payload and what would have been done.
pub proof fn law_records(
    version: Seq<char>,
    os: Seq<char>,
    arch: Seq<char>,
    f: FeatureConfig,
    action: Seq<char>,
)
    ensures
        json::json_text(feature_members(f)) matches Some(features) ==> birth_text(
            version,
            os,
            arch,
            f,
        ) == json::json_text(
            seq![
                ("version"@, json::json_quoted(version)),
                ("os"@, json::json_quoted(os)),
                ("arch"@, json::json_quoted(arch)),
                ("features"@, features),
            ],
        ),
        test_action_text(version, os, action) == json::json_text(
            seq![
                ("name"@, json::json_quoted(version)),
                ("payload"@, json::json_quoted(os)),
                ("action"@, json::json_quoted(action)),
            ],
        ),
{
}

/// The waits between connections: the next is twice as long, and never over half a minute.
pub proof fn law_next_wait(secs: int)
    ensures
        secs < 15 ==> next_backoff(secs) == 2 * secs,
        secs >= 15 ==> next_backoff(secs) == 30,
{
}

} // verus!
