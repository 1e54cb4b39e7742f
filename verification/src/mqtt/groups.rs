//! Feature groups: the coarse switches, the topics they subscribe to, and the
//! entities that disappear when one of them is turned off.

use crate::commands::custom::Platform;
use crate::config::CustomCommand;
use crate::logging;
use crate::mqtt::discovery;
use crate::mqtt::discovery::{
    append_entities, new_sensor, Entity, EntityView, Registration, SensorSource,
};
use crate::mqtt::session;
use crate::mqtt::session::{Message, AT_LEAST_ONCE};
use crate::mqtt::topics;
use crate::mqtt::topics::{
    command_topic_of, config_topic_of, notify_config_topic_of, notify_topic_of,
};
use crate::mqtt::MqttClient;
use crate::text;
use vstd::prelude::*;
use vstd::string::*;

verus! {

/// The coarse switches.
#[derive(Debug, Clone, Copy, PartialEq, Eq, Structural)]
pub struct FeatureGroups {
    pub game_detection: bool,
    pub idle_tracking: bool,
    pub power_events: bool,
    pub notifications: bool,
    pub system_sensors: bool,
    pub audio_control: bool,
    pub steam_updates: bool,
    pub discord: bool,
    pub show_tray_icon: bool,
}

impl Default for FeatureGroups {
    /// Power events are on, everything else is off.
    fn default() -> (r: Self)
        ensures
            r == (FeatureGroups {
                game_detection: false,
                idle_tracking: false,
                power_events: true,
                notifications: false,
                system_sensors: false,
                audio_control: false,
                steam_updates: false,
                discord: false,
                show_tray_icon: false,
            }),
    {
        FeatureGroups {
            game_detection: false,
            idle_tracking: false,
            power_events: true,
            notifications: false,
            system_sensors: false,
            audio_control: false,
            steam_updates: false,
            discord: false,
            show_tray_icon: false,
        }
    }
}

// ---------------------------------------------------------------------------
// Subscriptions
// ---------------------------------------------------------------------------

/// The commands that are subscribed whatever the groups.
pub open spec fn core_commands() -> Seq<Seq<char>> {
    seq![
        "Launch"@,
        "Screensaver"@,
        "Wake"@,
        "Shutdown"@,
        "sleep"@,
        "Lock"@,
        "Hibernate"@,
        "Restart"@,
        "discord_join"@,
        "discord_leave_channel"@,
    ]
}

/// The commands of the audio group.
pub open spec fn audio_commands() -> Seq<Seq<char>> {
    seq![
        "media_play_pause"@,
        "media_next"@,
        "media_previous"@,
        "media_stop"@,
        "volume_set"@,
        "volume_mute"@,
    ]
}

/// The command topics of the given names.
pub open spec fn command_topics(device: Seq<char>, names: Seq<Seq<char>>) -> Seq<Seq<char>> {
    names.map_values(|n: Seq<char>| topics::command(device, n))
}

/// The topics to subscribe to.
pub open spec fn group_topics(
    device: Seq<char>,
    g: FeatureGroups,
    custom: Seq<CustomCommand>,
) -> Seq<Seq<char>> {
    command_topics(device, core_commands()) + (if g.audio_control {
        command_topics(device, audio_commands())
    } else {
        seq![]
    }) + (if g.notifications {
        seq![topics::notifications(device)]
    } else {
        seq![]
    }) + custom.map_values(|c: CustomCommand| topics::command(device, c.name@))
}

fn push_command(out: &mut Vec<String>, device: &str, name: &str)
    ensures
        text::views(final(out)@) == text::views(old(out)@).push(topics::command(device@, name@)),
{
    out.push(command_topic_of(device, name));
    proof {
        assert(text::views(out@) =~= text::views(old(out)@).push(
            topics::command(device@, name@),
        ));
    }
}

impl FeatureGroups {
    /// The topics to subscribe to: the core commands, those of the audio group
    /// and the notifications where they are on, and every custom command.
    pub fn build_subscribe_topics(
        &self,
        device_name: &str,
        custom_commands: &Vec<CustomCommand>,
    ) -> (r: Vec<String>)
        ensures
            text::views(r@) == group_topics(device_name@, *self, custom_commands@),
    {
        let mut out: Vec<String> = Vec::new();
        push_command(&mut out, device_name, "Launch");
        push_command(&mut out, device_name, "Screensaver");
        push_command(&mut out, device_name, "Wake");
        push_command(&mut out, device_name, "Shutdown");
        push_command(&mut out, device_name, "sleep");
        push_command(&mut out, device_name, "Lock");
        push_command(&mut out, device_name, "Hibernate");
        push_command(&mut out, device_name, "Restart");
        push_command(&mut out, device_name, "discord_join");
        push_command(&mut out, device_name, "discord_leave_channel");
        let ghost core = text::views(out@);
        proof {
            assert(core =~= command_topics(device_name@, core_commands()));
        }
        if self.audio_control {
            push_command(&mut out, device_name, "media_play_pause");
            push_command(&mut out, device_name, "media_next");
            push_command(&mut out, device_name, "media_previous");
            push_command(&mut out, device_name, "media_stop");
            push_command(&mut out, device_name, "volume_set");
            push_command(&mut out, device_name, "volume_mute");
            proof {
                assert(text::views(out@) =~= core + command_topics(device_name@, audio_commands()));
            }
        } else {
            proof {
                assert(text::views(out@) =~= core + Seq::<Seq<char>>::empty());
            }
        }
        let ghost audio = text::views(out@);
        if self.notifications {
            out.push(notify_topic_of(device_name));
            proof {
                assert(text::views(out@) =~= audio + seq![topics::notifications(device_name@)]);
            }
        } else {
            proof {
                assert(text::views(out@) =~= audio + Seq::<Seq<char>>::empty());
            }
        }
        let ghost built_in = text::views(out@);
        let ghost custom = custom_commands@.map_values(
            |c: CustomCommand| topics::command(device_name@, c.name@),
        );
        let mut k: usize = 0;
        while k < custom_commands.len()
            invariant
                k <= custom_commands.len(),
                custom == custom_commands@.map_values(
                    |c: CustomCommand| topics::command(device_name@, c.name@),
                ),
                text::views(out@) == built_in + custom.take(k as int),
            decreases custom_commands.len() - k,
        {
            push_command(&mut out, device_name, &custom_commands[k].name);
            proof {
                assert(custom.take(k + 1) =~= custom.take(k as int).push(custom[k as int]));
                assert(text::views(out@) =~= built_in + custom.take(k + 1));
            }
            k += 1;
        }
        proof {
            assert(custom.take(custom.len() as int) =~= custom);
        }
        out
    }
}

// ---------------------------------------------------------------------------
// Entities that are announced
// ---------------------------------------------------------------------------

/// The entities, or none.
pub open spec fn listed(on: bool, entities: Seq<EntityView>) -> Seq<EntityView> {
    if on {
        entities
    } else {
        seq![]
    }
}

/// The sensor of the game group.
pub open spec fn game_sensors() -> Seq<EntityView> {
    seq![
        discovery::sensor("runninggames"@, "Running Game"@, "mdi:gamepad-variant"@, None, None, true, SensorSource::Agent),
    ]
}

/// The sensors of the idle group.
pub open spec fn idle_sensors() -> Seq<EntityView> {
    seq![
        discovery::sensor("lastactive"@, "Last Active"@, "mdi:clock-outline"@, Some("timestamp"@), None, false, SensorSource::Agent),
        discovery::sensor("screensaver"@, "Screensaver"@, "mdi:monitor-shimmer"@, None, None, false, SensorSource::Agent),
    ]
}

/// The sensors of the power group.
pub open spec fn power_sensors() -> Seq<EntityView> {
    seq![
        discovery::sensor("sleep_state"@, "Sleep State"@, "mdi:power-sleep"@, None, None, false, SensorSource::Always),
        discovery::sensor("display"@, "Display"@, "mdi:monitor"@, None, None, false, SensorSource::Agent),
    ]
}

/// The sensors of the system group.
pub open spec fn system_sensors() -> Seq<EntityView> {
    seq![
        discovery::sensor("cpu_usage"@, "CPU Usage"@, "mdi:cpu-64-bit"@, None, Some("%"@), false, SensorSource::Agent),
        discovery::sensor("memory_usage"@, "Memory Usage"@, "mdi:memory"@, None, Some("%"@), false, SensorSource::Agent),
        discovery::sensor("battery_level"@, "Battery Level"@, "mdi:battery"@, Some("battery"@), Some("%"@), false, SensorSource::Agent),
        discovery::sensor("battery_charging"@, "Battery Charging"@, "mdi:battery-charging"@, None, None, false, SensorSource::Agent),
        discovery::sensor("active_window"@, "Active Window"@, "mdi:application"@, None, None, false, SensorSource::Agent),
    ]
}

/// The sensor of the update group.
pub open spec fn update_sensors() -> Seq<EntityView> {
    seq![
        discovery::sensor("steam_updating"@, "Steam Updating"@, "mdi:steam"@, None, None, true, SensorSource::Agent),
    ]
}

/// The button of the game group.
pub open spec fn game_buttons() -> Seq<EntityView> {
    seq![
        EntityView::Button { name: "Launch"@, icon: "mdi:rocket-launch"@ },
    ]
}

/// The buttons of the idle group.
pub open spec fn idle_buttons() -> Seq<EntityView> {
    seq![
        EntityView::Button { name: "Screensaver"@, icon: "mdi:monitor"@ },
        EntityView::Button { name: "Wake"@, icon: "mdi:monitor-eye"@ },
    ]
}

/// The buttons of the power group.
pub open spec fn power_buttons() -> Seq<EntityView> {
    seq![
        EntityView::Button { name: "Shutdown"@, icon: "mdi:power"@ },
        EntityView::Button { name: "sleep"@, icon: "mdi:power-sleep"@ },
        EntityView::Button { name: "Lock"@, icon: "mdi:lock"@ },
        EntityView::Button { name: "Hibernate"@, icon: "mdi:power-sleep"@ },
        EntityView::Button { name: "Restart"@, icon: "mdi:restart"@ },
    ]
}

/// The buttons of the discord group.
pub open spec fn discord_buttons() -> Seq<EntityView> {
    seq![
        EntityView::Button { name: "discord_join"@, icon: "mdi:discord"@ },
        EntityView::Button { name: "discord_leave_channel"@, icon: "mdi:phone-hangup"@ },
    ]
}

/// The buttons of the audio group.
pub open spec fn audio_buttons() -> Seq<EntityView> {
    seq![
        EntityView::Button { name: "media_play_pause"@, icon: "mdi:play-pause"@ },
        EntityView::Button { name: "media_next"@, icon: "mdi:skip-next"@ },
        EntityView::Button { name: "media_previous"@, icon: "mdi:skip-previous"@ },
        EntityView::Button { name: "media_stop"@, icon: "mdi:stop"@ },
        EntityView::Button { name: "volume_mute"@, icon: "mdi:volume-mute"@ },
    ]
}

/// The sensor of the audio group.
pub open spec fn audio_sensors() -> Seq<EntityView> {
    seq![
        discovery::sensor("volume_level"@, "Volume Level"@, "mdi:volume-high"@, None, Some("%"@), false, SensorSource::Agent),
    ]
}

/// The entities that the groups announce, in order: the sensors, the buttons, the
/// volume, and the notify service.
pub open spec fn group_announced(g: FeatureGroups) -> Seq<EntityView> {
    listed(g.game_detection, game_sensors())
        + listed(g.idle_tracking, idle_sensors())
        + listed(g.power_events, power_sensors())
        + listed(g.system_sensors, system_sensors())
        + listed(g.steam_updates, update_sensors())
        + listed(g.game_detection, game_buttons())
        + listed(g.idle_tracking, idle_buttons())
        + listed(g.power_events, power_buttons())
        + listed(g.discord, discord_buttons())
        + listed(g.audio_control, audio_buttons())
        + listed(g.audio_control, audio_sensors())
        + listed(g.notifications, seq![EntityView::Notify])
}

fn append_if(out: &mut Vec<Entity>, on: bool, more: &Vec<Entity>)
    ensures
        discovery::entities_view(final(out)@) == discovery::entities_view(old(out)@) + listed(
            on,
            discovery::entities_view(more@),
        ),
{
    if on {
        append_entities(out, more);
    } else {
        proof {
            assert(discovery::entities_view(out@) =~= discovery::entities_view(old(out)@) + listed(
                on,
                discovery::entities_view(more@),
            ));
        }
    }
}

fn game_sensors_list() -> (r: Vec<Entity>)
    ensures
        discovery::entities_view(r@) == game_sensors(),
{
    let r: Vec<Entity> = vec![
        new_sensor("runninggames", "Running Game", "mdi:gamepad-variant", None, None, true, SensorSource::Agent),
    ];
    proof {
        assert(discovery::entities_view(r@) =~= game_sensors());
    }
    r
}

fn idle_sensors_list() -> (r: Vec<Entity>)
    ensures
        discovery::entities_view(r@) == idle_sensors(),
{
    let r: Vec<Entity> = vec![
        new_sensor("lastactive", "Last Active", "mdi:clock-outline", Some("timestamp"), None, false, SensorSource::Agent),
        new_sensor("screensaver", "Screensaver", "mdi:monitor-shimmer", None, None, false, SensorSource::Agent),
    ];
    proof {
        assert(discovery::entities_view(r@) =~= idle_sensors());
    }
    r
}

fn power_sensors_list() -> (r: Vec<Entity>)
    ensures
        discovery::entities_view(r@) == power_sensors(),
{
    let r: Vec<Entity> = vec![
        new_sensor("sleep_state", "Sleep State", "mdi:power-sleep", None, None, false, SensorSource::Always),
        new_sensor("display", "Display", "mdi:monitor", None, None, false, SensorSource::Agent),
    ];
    proof {
        assert(discovery::entities_view(r@) =~= power_sensors());
    }
    r
}

fn system_sensors_list() -> (r: Vec<Entity>)
    ensures
        discovery::entities_view(r@) == system_sensors(),
{
    let r: Vec<Entity> = vec![
        new_sensor("cpu_usage", "CPU Usage", "mdi:cpu-64-bit", None, Some("%"), false, SensorSource::Agent),
        new_sensor("memory_usage", "Memory Usage", "mdi:memory", None, Some("%"), false, SensorSource::Agent),
        new_sensor("battery_level", "Battery Level", "mdi:battery", Some("battery"), Some("%"), false, SensorSource::Agent),
        new_sensor("battery_charging", "Battery Charging", "mdi:battery-charging", None, None, false, SensorSource::Agent),
        new_sensor("active_window", "Active Window", "mdi:application", None, None, false, SensorSource::Agent),
    ];
    proof {
        assert(discovery::entities_view(r@) =~= system_sensors());
    }
    r
}

fn update_sensors_list() -> (r: Vec<Entity>)
    ensures
        discovery::entities_view(r@) == update_sensors(),
{
    let r: Vec<Entity> = vec![
        new_sensor("steam_updating", "Steam Updating", "mdi:steam", None, None, true, SensorSource::Agent),
    ];
    proof {
        assert(discovery::entities_view(r@) =~= update_sensors());
    }
    r
}

fn game_buttons_list() -> (r: Vec<Entity>)
    ensures
        discovery::entities_view(r@) == game_buttons(),
{
    let r: Vec<Entity> = vec![
        Entity::Button { name: "Launch", icon: "mdi:rocket-launch" },
    ];
    proof {
        assert(discovery::entities_view(r@) =~= game_buttons());
    }
    r
}

fn idle_buttons_list() -> (r: Vec<Entity>)
    ensures
        discovery::entities_view(r@) == idle_buttons(),
{
    let r: Vec<Entity> = vec![
        Entity::Button { name: "Screensaver", icon: "mdi:monitor" },
        Entity::Button { name: "Wake", icon: "mdi:monitor-eye" },
    ];
    proof {
        assert(discovery::entities_view(r@) =~= idle_buttons());
    }
    r
}

fn power_buttons_list() -> (r: Vec<Entity>)
    ensures
        discovery::entities_view(r@) == power_buttons(),
{
    let r: Vec<Entity> = vec![
        Entity::Button { name: "Shutdown", icon: "mdi:power" },
        Entity::Button { name: "sleep", icon: "mdi:power-sleep" },
        Entity::Button { name: "Lock", icon: "mdi:lock" },
        Entity::Button { name: "Hibernate", icon: "mdi:power-sleep" },
        Entity::Button { name: "Restart", icon: "mdi:restart" },
    ];
    proof {
        assert(discovery::entities_view(r@) =~= power_buttons());
    }
    r
}

fn discord_buttons_list() -> (r: Vec<Entity>)
    ensures
        discovery::entities_view(r@) == discord_buttons(),
{
    let r: Vec<Entity> = vec![
        Entity::Button { name: "discord_join", icon: "mdi:discord" },
        Entity::Button { name: "discord_leave_channel", icon: "mdi:phone-hangup" },
    ];
    proof {
        assert(discovery::entities_view(r@) =~= discord_buttons());
    }
    r
}

fn audio_buttons_list() -> (r: Vec<Entity>)
    ensures
        discovery::entities_view(r@) == audio_buttons(),
{
    let r: Vec<Entity> = vec![
        Entity::Button { name: "media_play_pause", icon: "mdi:play-pause" },
        Entity::Button { name: "media_next", icon: "mdi:skip-next" },
        Entity::Button { name: "media_previous", icon: "mdi:skip-previous" },
        Entity::Button { name: "media_stop", icon: "mdi:stop" },
        Entity::Button { name: "volume_mute", icon: "mdi:volume-mute" },
    ];
    proof {
        assert(discovery::entities_view(r@) =~= audio_buttons());
    }
    r
}

fn audio_sensors_list() -> (r: Vec<Entity>)
    ensures
        discovery::entities_view(r@) == audio_sensors(),
{
    let r: Vec<Entity> = vec![
        new_sensor("volume_level", "Volume Level", "mdi:volume-high", None, Some("%"), false, SensorSource::Agent),
    ];
    proof {
        assert(discovery::entities_view(r@) =~= audio_sensors());
    }
    r
}

impl FeatureGroups {
    /// The entities that the groups announce.
    pub fn announced_entities(&self) -> (r: Vec<Entity>)
        ensures
            discovery::entities_view(r@) == group_announced(*self),
    {
        let mut out: Vec<Entity> = Vec::new();
        proof {
            let first = listed(self.game_detection, game_sensors());
            assert(discovery::entities_view(out@) + first =~= first);
        }
        append_if(&mut out, self.game_detection, &game_sensors_list());
        append_if(&mut out, self.idle_tracking, &idle_sensors_list());
        append_if(&mut out, self.power_events, &power_sensors_list());
        append_if(&mut out, self.system_sensors, &system_sensors_list());
        append_if(&mut out, self.steam_updates, &update_sensors_list());
        append_if(&mut out, self.game_detection, &game_buttons_list());
        append_if(&mut out, self.idle_tracking, &idle_buttons_list());
        append_if(&mut out, self.power_events, &power_buttons_list());
        append_if(&mut out, self.discord, &discord_buttons_list());
        append_if(&mut out, self.audio_control, &audio_buttons_list());
        append_if(&mut out, self.audio_control, &audio_sensors_list());
        let notify: Vec<Entity> = vec![Entity::Notify];
        proof {
            assert(discovery::entities_view(notify@) =~= seq![EntityView::Notify]);
        }
        append_if(&mut out, self.notifications, &notify);
        out
    }

    /// The discovery messages of the groups that are on, in the order in which they
    /// are published.
    pub fn register_discovery(&self, client: &MqttClient) -> (r: Vec<Registration>)
        ensures
            discovery::registrations_view(r@) == group_announced(*self).map_values(
                |e: EntityView| discovery::registration(client.bridge(), e),
            ),
    {
        client.register_all(&self.announced_entities())
    }
}

// ---------------------------------------------------------------------------
// Entities that disappear
// ---------------------------------------------------------------------------

/// A component and the name of an entity.
pub type EntityName = (Seq<char>, Seq<char>);

/// The entities, or none.
pub open spec fn removed_when(gone: bool, entities: Seq<EntityName>) -> Seq<EntityName> {
    if gone {
        entities
    } else {
        seq![]
    }
}

/// The entities of the game group.
pub open spec fn game_entities() -> Seq<EntityName> {
    seq![("sensor"@, "runninggames"@), ("button"@, "Launch"@)]
}

/// The entities of the idle group.
pub open spec fn idle_entities() -> Seq<EntityName> {
    seq![("sensor"@, "lastactive"@), ("sensor"@, "screensaver"@), ("button"@, "Screensaver"@), ("button"@, "Wake"@)]
}

/// The entities of the power group.
pub open spec fn power_entities() -> Seq<EntityName> {
    seq![("sensor"@, "sleep_state"@), ("sensor"@, "display"@), ("button"@, "Shutdown"@), ("button"@, "sleep"@), ("button"@, "Lock"@), ("button"@, "Hibernate"@), ("button"@, "Restart"@)]
}

/// The entities of the system group.
pub open spec fn system_entities() -> Seq<EntityName> {
    seq![("sensor"@, "cpu_usage"@), ("sensor"@, "memory_usage"@), ("sensor"@, "battery_level"@), ("sensor"@, "battery_charging"@), ("sensor"@, "active_window"@)]
}

/// The entities of the audio group.
pub open spec fn audio_entities() -> Seq<EntityName> {
    seq![("button"@, "media_play_pause"@), ("button"@, "media_next"@), ("button"@, "media_previous"@), ("button"@, "media_stop"@), ("button"@, "volume_mute"@), ("number"@, "volume_set"@)]
}

/// The entities of the discord group.
pub open spec fn discord_entities() -> Seq<EntityName> {
    seq![("button"@, "discord_join"@), ("button"@, "discord_leave_channel"@)]
}

/// The message that removes what was announced on a topic: an empty retained payload.
pub open spec fn removal_at(topic: Seq<char>) -> session::MessageView {
    session::MessageView { topic, payload: ""@, retained: true, qos: session::AT_LEAST_ONCE }
}

/// The message that removes an entity: an empty retained payload under its
/// discovery topic.
pub open spec fn removal(device: Seq<char>, e: EntityName) -> session::MessageView {
    removal_at(topics::config(e.0, device, e.1))
}

/// The messages that remove entities.
pub open spec fn removals(device: Seq<char>, s: Seq<EntityName>) -> Seq<session::MessageView> {
    s.map_values(|e: EntityName| removal(device, e))
}

/// The message that removes the notify service, or none. A device has one, under a
/// topic of its own.
pub open spec fn notify_removal(gone: bool, device: Seq<char>) -> Seq<session::MessageView> {
    if gone {
        seq![removal_at(topics::notify_config(device))]
    } else {
        seq![]
    }
}

/// The messages that remove the entities of the groups that were on before and are
/// off now.
pub open spec fn group_removals(
    previous: FeatureGroups,
    now: FeatureGroups,
    device: Seq<char>,
) -> Seq<session::MessageView> {
    removals(device, removed_when(previous.game_detection && !now.game_detection, game_entities()))
        + removals(device, removed_when(previous.idle_tracking && !now.idle_tracking, idle_entities()))
        + removals(device, removed_when(previous.power_events && !now.power_events, power_entities()))
        + removals(device, removed_when(previous.system_sensors && !now.system_sensors, system_entities()))
        + removals(device, removed_when(previous.audio_control && !now.audio_control, audio_entities()))
        + notify_removal(previous.notifications && !now.notifications, device)
        + removals(device, removed_when(previous.discord && !now.discord, discord_entities()))
}

/// The messages as plain values.
pub open spec fn messages_view(v: Seq<Message>) -> Seq<session::MessageView> {
    v.map_values(|m: Message| m@)
}

fn empty_message(topic: String) -> (r: Message)
    ensures
        r@ == removal_at(topic@),
{
    Message { topic, payload: "".to_string(), retained: true, qos: AT_LEAST_ONCE }
}

/// The message that removes an entity.
pub fn unregister_entity(device_name: &str, entity_type: &str, name: &str) -> (r: Message)
    ensures
        r@ == removal(device_name@, (entity_type@, name@)),
{
    empty_message(config_topic_of(entity_type, device_name, name))
}

/// The entity names as plain values.
pub open spec fn names_view(v: Seq<(&'static str, &'static str)>) -> Seq<EntityName> {
    v.map_values(|x: (&'static str, &'static str)| (x.0@, x.1@))
}

fn remove_group(
    out: &mut Vec<Message>,
    device: &str,
    gone: bool,
    entities: &[(&'static str, &'static str)],
)
    ensures
        messages_view(final(out)@) == messages_view(old(out)@) + removals(
            device@,
            removed_when(gone, names_view(entities@)),
        ),
{
    let ghost all = removals(device@, names_view(entities@));
    if gone {
        let mut i: usize = 0;
        while i < entities.len()
            invariant
                i <= entities.len(),
                all == removals(device@, names_view(entities@)),
                messages_view(out@) == messages_view(old(out)@) + all.take(i as int),
            decreases entities.len() - i,
        {
            let ghost before = out@;
            out.push(unregister_entity(device, entities[i].0, entities[i].1));
            proof {
                assert(all.take(i + 1) =~= all.take(i as int).push(all[i as int]));
                assert(messages_view(out@) =~= messages_view(before).push(all[i as int]));
                assert(messages_view(out@) =~= messages_view(old(out)@) + all.take(i + 1));
            }
            i += 1;
        }
        proof {
            assert(all.take(all.len() as int) =~= all);
        }
    } else {
        proof {
            assert(messages_view(out@) =~= messages_view(old(out)@) + removals(
                device@,
                removed_when(gone, names_view(entities@)),
            ));
        }
    }
}

/// The messages that remove the entities of the groups that were on in
/// `previous` and are off in `now`. The caller keeps `now` for the next
/// comparison.
pub fn unregister_changed_features(
    previous: &FeatureGroups,
    now: &FeatureGroups,
    device_name: &str,
) -> (r: Vec<Message>)
    ensures
        messages_view(r@) == group_removals(*previous, *now, device_name@),
{
    let mut out: Vec<Message> = Vec::new();
    proof {
        assert(messages_view(out@) =~= Seq::<session::MessageView>::empty());
    }
    let game: [(&'static str, &'static str); 2] = [
        ("sensor", "runninggames"),
        ("button", "Launch"),
    ];
    proof {
        assert(names_view(game@) =~= game_entities());
    }
    remove_group(
        &mut out,
        device_name,
        previous.game_detection && !now.game_detection,
        &game,
    );
    proof {
        let first = removals(
            device_name@,
            removed_when(previous.game_detection && !now.game_detection, game_entities()),
        );
        assert(Seq::<session::MessageView>::empty() + first =~= first);
    }
    let idle: [(&'static str, &'static str); 4] = [
        ("sensor", "lastactive"),
        ("sensor", "screensaver"),
        ("button", "Screensaver"),
        ("button", "Wake"),
    ];
    proof {
        assert(names_view(idle@) =~= idle_entities());
    }
    remove_group(
        &mut out,
        device_name,
        previous.idle_tracking && !now.idle_tracking,
        &idle,
    );
    let power: [(&'static str, &'static str); 7] = [
        ("sensor", "sleep_state"),
        ("sensor", "display"),
        ("button", "Shutdown"),
        ("button", "sleep"),
        ("button", "Lock"),
        ("button", "Hibernate"),
        ("button", "Restart"),
    ];
    proof {
        assert(names_view(power@) =~= power_entities());
    }
    remove_group(
        &mut out,
        device_name,
        previous.power_events && !now.power_events,
        &power,
    );
    let system: [(&'static str, &'static str); 5] = [
        ("sensor", "cpu_usage"),
        ("sensor", "memory_usage"),
        ("sensor", "battery_level"),
        ("sensor", "battery_charging"),
        ("sensor", "active_window"),
    ];
    proof {
        assert(names_view(system@) =~= system_entities());
    }
    remove_group(
        &mut out,
        device_name,
        previous.system_sensors && !now.system_sensors,
        &system,
    );
    let audio: [(&'static str, &'static str); 6] = [
        ("button", "media_play_pause"),
        ("button", "media_next"),
        ("button", "media_previous"),
        ("button", "media_stop"),
        ("button", "volume_mute"),
        ("number", "volume_set"),
    ];
    proof {
        assert(names_view(audio@) =~= audio_entities());
    }
    remove_group(
        &mut out,
        device_name,
        previous.audio_control && !now.audio_control,
        &audio,
    );
    let ghost after_audio = messages_view(out@);
    let notify_gone = previous.notifications && !now.notifications;
    if notify_gone {
        out.push(empty_message(notify_config_topic_of(device_name)));
    }
    proof {
        assert(messages_view(out@) =~= after_audio + notify_removal(notify_gone, device_name@));
    }
    let discord: [(&'static str, &'static str); 2] = [
        ("button", "discord_join"),
        ("button", "discord_leave_channel"),
    ];
    proof {
        assert(names_view(discord@) =~= discord_entities());
    }
    remove_group(
        &mut out,
        device_name,
        previous.discord && !now.discord,
        &discord,
    );
    out
}

/// Where no group was turned off, no entity is removed. So a second comparison
/// against the state that was kept removes nothing.
pub proof fn law_nothing_turned_off_removes_nothing(
    previous: FeatureGroups,
    now: FeatureGroups,
    device: Seq<char>,
)
    requires
        previous.game_detection ==> now.game_detection,
        previous.idle_tracking ==> now.idle_tracking,
        previous.power_events ==> now.power_events,
        previous.notifications ==> now.notifications,
        previous.system_sensors ==> now.system_sensors,
        previous.audio_control ==> now.audio_control,
        previous.discord ==> now.discord,
    ensures
        group_removals(previous, now, device) == Seq::<session::MessageView>::empty(),
{
    assert(group_removals(previous, now, device) =~= Seq::<session::MessageView>::empty());
}

/// The sensors that stay when their group is turned off.
pub open spec fn stays(e: EntityView) -> bool {
    update_sensors().contains(e) || audio_sensors().contains(e)
}

proof fn lemma_either<A>(a: Seq<A>, b: Seq<A>, x: A)
    ensures
        (a + b).contains(x) <==> a.contains(x) || b.contains(x),
{
    if a.contains(x) {
        let k = choose|k: int| 0 <= k < a.len() && a[k] == x;
        assert((a + b)[k] == x);
    }
    if b.contains(x) {
        let k = choose|k: int| 0 <= k < b.len() && b[k] == x;
        assert((a + b)[a.len() + k] == x);
    }
    if (a + b).contains(x) {
        let k = choose|k: int| 0 <= k < (a + b).len() && (a + b)[k] == x;
        if k < a.len() {
            assert(a[k] == x);
        } else {
            assert(b[k - a.len()] == x);
        }
    }
}

/// What an announcement is made of.
proof fn lemma_announced(g: FeatureGroups, e: EntityView)
    ensures
        group_announced(g).contains(e) <==> {
            ||| listed(g.game_detection, game_sensors()).contains(e)
            ||| listed(g.idle_tracking, idle_sensors()).contains(e)
            ||| listed(g.power_events, power_sensors()).contains(e)
            ||| listed(g.system_sensors, system_sensors()).contains(e)
            ||| listed(g.steam_updates, update_sensors()).contains(e)
            ||| listed(g.game_detection, game_buttons()).contains(e)
            ||| listed(g.idle_tracking, idle_buttons()).contains(e)
            ||| listed(g.power_events, power_buttons()).contains(e)
            ||| listed(g.discord, discord_buttons()).contains(e)
            ||| listed(g.audio_control, audio_buttons()).contains(e)
            ||| listed(g.audio_control, audio_sensors()).contains(e)
            ||| listed(g.notifications, seq![EntityView::Notify]).contains(e)
        },
{
    let s0 = listed(g.game_detection, game_sensors());
    let s1 = s0 + listed(g.idle_tracking, idle_sensors());
    lemma_either(s0, listed(g.idle_tracking, idle_sensors()), e);
    let s2 = s1 + listed(g.power_events, power_sensors());
    lemma_either(s1, listed(g.power_events, power_sensors()), e);
    let s3 = s2 + listed(g.system_sensors, system_sensors());
    lemma_either(s2, listed(g.system_sensors, system_sensors()), e);
    let s4 = s3 + listed(g.steam_updates, update_sensors());
    lemma_either(s3, listed(g.steam_updates, update_sensors()), e);
    let s5 = s4 + listed(g.game_detection, game_buttons());
    lemma_either(s4, listed(g.game_detection, game_buttons()), e);
    let s6 = s5 + listed(g.idle_tracking, idle_buttons());
    lemma_either(s5, listed(g.idle_tracking, idle_buttons()), e);
    let s7 = s6 + listed(g.power_events, power_buttons());
    lemma_either(s6, listed(g.power_events, power_buttons()), e);
    let s8 = s7 + listed(g.discord, discord_buttons());
    lemma_either(s7, listed(g.discord, discord_buttons()), e);
    let s9 = s8 + listed(g.audio_control, audio_buttons());
    lemma_either(s8, listed(g.audio_control, audio_buttons()), e);
    let s10 = s9 + listed(g.audio_control, audio_sensors());
    lemma_either(s9, listed(g.audio_control, audio_sensors()), e);
    let s11 = s10 + listed(g.notifications, seq![EntityView::Notify]);
    lemma_either(s10, listed(g.notifications, seq![EntityView::Notify]), e);
}

/// What the removals are made of.
proof fn lemma_removed(
    previous: FeatureGroups,
    now: FeatureGroups,
    d: Seq<char>,
    m: session::MessageView,
)
    ensures
        group_removals(previous, now, d).contains(m) <==> {
            ||| removals(d, removed_when(previous.game_detection && !now.game_detection, game_entities())).contains(m)
            ||| removals(d, removed_when(previous.idle_tracking && !now.idle_tracking, idle_entities())).contains(m)
            ||| removals(d, removed_when(previous.power_events && !now.power_events, power_entities())).contains(m)
            ||| removals(d, removed_when(previous.system_sensors && !now.system_sensors, system_entities())).contains(m)
            ||| removals(d, removed_when(previous.audio_control && !now.audio_control, audio_entities())).contains(m)
            ||| notify_removal(previous.notifications && !now.notifications, d).contains(m)
            ||| removals(d, removed_when(previous.discord && !now.discord, discord_entities())).contains(m)
        },
{
    let s0 = removals(d, removed_when(previous.game_detection && !now.game_detection, game_entities()));
    let s1 = s0 + removals(d, removed_when(previous.idle_tracking && !now.idle_tracking, idle_entities()));
    lemma_either(s0, removals(d, removed_when(previous.idle_tracking && !now.idle_tracking, idle_entities())), m);
    let s2 = s1 + removals(d, removed_when(previous.power_events && !now.power_events, power_entities()));
    lemma_either(s1, removals(d, removed_when(previous.power_events && !now.power_events, power_entities())), m);
    let s3 = s2 + removals(d, removed_when(previous.system_sensors && !now.system_sensors, system_entities()));
    lemma_either(s2, removals(d, removed_when(previous.system_sensors && !now.system_sensors, system_entities())), m);
    let s4 = s3 + removals(d, removed_when(previous.audio_control && !now.audio_control, audio_entities()));
    lemma_either(s3, removals(d, removed_when(previous.audio_control && !now.audio_control, audio_entities())), m);
    let s5 = s4 + notify_removal(previous.notifications && !now.notifications, d);
    lemma_either(s4, notify_removal(previous.notifications && !now.notifications, d), m);
    let s6 = s5 + removals(d, removed_when(previous.discord && !now.discord, discord_entities()));
    lemma_either(s5, removals(d, removed_when(previous.discord && !now.discord, discord_entities())), m);
}

/// The component and the name of an entity, of those that have a name.
pub open spec fn entity_name(e: EntityView) -> EntityName {
    match e {
        EntityView::Sensor { name, .. } => ("sensor"@, name),
        EntityView::Button { name, .. } => ("button"@, name),
        EntityView::Notify => ("notify"@, seq![]),
    }
}

proof fn lemma_named_is_removed(d: Seq<char>, gone: Seq<EntityName>, n: EntityName, k: int)
    requires
        0 <= k < gone.len(),
        gone[k] == n,
    ensures
        removals(d, gone).contains(removal(d, n)),
{
    assert(removals(d, gone)[k] == removal(d, n));
}

proof fn lemma_game_entities(d: Seq<char>, e: EntityView)
    requires
        game_sensors().contains(e) || game_buttons().contains(e),
    ensures
        removals(d, game_entities()).contains(removal(d, entity_name(e))),
{
    if game_sensors().contains(e) {
        let k = choose|k: int| 0 <= k < game_sensors().len() && game_sensors()[k] == e;
        lemma_named_is_removed(d, game_entities(), entity_name(e), k);
    }
    if game_buttons().contains(e) {
        let k = choose|k: int| 0 <= k < game_buttons().len() && game_buttons()[k] == e;
        lemma_named_is_removed(d, game_entities(), entity_name(e), k + 1);
    }
}

proof fn lemma_idle_entities(d: Seq<char>, e: EntityView)
    requires
        idle_sensors().contains(e) || idle_buttons().contains(e),
    ensures
        removals(d, idle_entities()).contains(removal(d, entity_name(e))),
{
    if idle_sensors().contains(e) {
        let k = choose|k: int| 0 <= k < idle_sensors().len() && idle_sensors()[k] == e;
        lemma_named_is_removed(d, idle_entities(), entity_name(e), k);
    }
    if idle_buttons().contains(e) {
        let k = choose|k: int| 0 <= k < idle_buttons().len() && idle_buttons()[k] == e;
        lemma_named_is_removed(d, idle_entities(), entity_name(e), k + 2);
    }
}

proof fn lemma_power_entities(d: Seq<char>, e: EntityView)
    requires
        power_sensors().contains(e) || power_buttons().contains(e),
    ensures
        removals(d, power_entities()).contains(removal(d, entity_name(e))),
{
    if power_sensors().contains(e) {
        let k = choose|k: int| 0 <= k < power_sensors().len() && power_sensors()[k] == e;
        lemma_named_is_removed(d, power_entities(), entity_name(e), k);
    }
    if power_buttons().contains(e) {
        let k = choose|k: int| 0 <= k < power_buttons().len() && power_buttons()[k] == e;
        lemma_named_is_removed(d, power_entities(), entity_name(e), k + 2);
    }
}

proof fn lemma_system_entities(d: Seq<char>, e: EntityView)
    requires
        system_sensors().contains(e),
    ensures
        removals(d, system_entities()).contains(removal(d, entity_name(e))),
{
    if system_sensors().contains(e) {
        let k = choose|k: int| 0 <= k < system_sensors().len() && system_sensors()[k] == e;
        lemma_named_is_removed(d, system_entities(), entity_name(e), k);
    }
}

proof fn lemma_audio_entities(d: Seq<char>, e: EntityView)
    requires
        audio_buttons().contains(e),
    ensures
        removals(d, audio_entities()).contains(removal(d, entity_name(e))),
{
    if audio_buttons().contains(e) {
        let k = choose|k: int| 0 <= k < audio_buttons().len() && audio_buttons()[k] == e;
        lemma_named_is_removed(d, audio_entities(), entity_name(e), k);
    }
}

proof fn lemma_discord_entities(d: Seq<char>, e: EntityView)
    requires
        discord_buttons().contains(e),
    ensures
        removals(d, discord_entities()).contains(removal(d, entity_name(e))),
{
    if discord_buttons().contains(e) {
        let k = choose|k: int| 0 <= k < discord_buttons().len() && discord_buttons()[k] == e;
        lemma_named_is_removed(d, discord_entities(), entity_name(e), k);
    }
}

/// What a group announced is removed, on the topic on which it was announced, when
/// the group is turned off. The sensors of the update group and the volume stay.
#[verifier::spinoff_prover]
#[verifier::rlimit(60)]
pub proof fn law_removed_where_announced(
    b: discovery::BridgeView,
    previous: FeatureGroups,
    now: FeatureGroups,
    e: EntityView,
)
    requires
        group_announced(previous).contains(e),
        !group_announced(now).contains(e),
        !stays(e),
    ensures
        group_removals(previous, now, b.device_name).contains(
            removal_at(discovery::registration(b, e).topic),
        ),
{
    let d = b.device_name;
    let m = removal_at(discovery::registration(b, e).topic);
    lemma_announced(previous, e);
    lemma_announced(now, e);
    lemma_removed(previous, now, d, m);
    if listed(previous.game_detection, game_sensors()).contains(e) || listed(
        previous.game_detection,
        game_buttons(),
    ).contains(e) {
        lemma_game_entities(d, e);
    } else if listed(previous.idle_tracking, idle_sensors()).contains(e) || listed(
        previous.idle_tracking,
        idle_buttons(),
    ).contains(e) {
        lemma_idle_entities(d, e);
    } else if listed(previous.power_events, power_sensors()).contains(e) || listed(
        previous.power_events,
        power_buttons(),
    ).contains(e) {
        lemma_power_entities(d, e);
    } else if listed(previous.system_sensors, system_sensors()).contains(e) {
        lemma_system_entities(d, e);
    } else if listed(previous.audio_control, audio_buttons()).contains(e) {
        lemma_audio_entities(d, e);
    } else if listed(previous.discord, discord_buttons()).contains(e) {
        lemma_discord_entities(d, e);
    } else {
        assert(e == EntityView::Notify);
        assert(notify_removal(previous.notifications && !now.notifications, d)[0] == m);
    }
}

/// The parts of the path of the file that holds the groups of the last start.
pub open spec fn state_path_parts(
    platform: Platform,
    local_app_data: Option<Seq<char>>,
    home: Option<Seq<char>>,
) -> Seq<Seq<char>> {
    match platform {
        Platform::Windows => match local_app_data {
            Some(d) => seq![d, "pc-bridge"@, "feature_state.json"@],
            None => seq!["feature_state.json"@],
        },
        Platform::Unix => match home {
            Some(d) => seq![d, ".cache"@, "pc-bridge"@, "feature_state.json"@],
            None => seq!["feature_state.json"@],
        },
    }
}

/// The parts of the path of the file that holds the groups of the last start: below
/// the user's data directory, or in the working directory where none is known.
pub fn feature_state_path(
    platform: Platform,
    local_app_data: Option<&str>,
    home: Option<&str>,
) -> (r: Vec<String>)
    ensures
        text::views(r@) == state_path_parts(
            platform,
            logging::opt_view(local_app_data),
            logging::opt_view(home),
        ),
{
    let base = match platform {
        Platform::Windows => local_app_data,
        Platform::Unix => home,
    };
    let mut out: Vec<String> = Vec::new();
    match base {
        Some(d) => {
            out.push(d.to_string());
            if platform == Platform::Unix {
                out.push(".cache".to_string());
            }
            out.push("pc-bridge".to_string());
        },
        None => {},
    }
    out.push("feature_state.json".to_string());
    proof {
        assert(text::views(out@) =~= state_path_parts(
            platform,
            logging::opt_view(local_app_data),
            logging::opt_view(home),
        ));
    }
    out
}

// ---------------------------------------------------------------------------
// What belongs to a group
// ---------------------------------------------------------------------------

proof fn lemma_game_sensors(on: bool, e: EntityView)
    ensures
        listed(on, game_sensors()).contains(e) <==> {
            ||| on && e == (EntityView::Sensor { name: "runninggames"@, display_name: "Running Game"@, icon: "mdi:gamepad-variant"@, device_class: None, unit: None, attributes: true, source: SensorSource::Agent })
        },
{
    let all = game_sensors();
    assert(all.len() == 1);
    assert(all[0] == (EntityView::Sensor { name: "runninggames"@, display_name: "Running Game"@, icon: "mdi:gamepad-variant"@, device_class: None, unit: None, attributes: true, source: SensorSource::Agent }));
}

proof fn lemma_idle_sensors(on: bool, e: EntityView)
    ensures
        listed(on, idle_sensors()).contains(e) <==> {
            ||| on && e == (EntityView::Sensor { name: "lastactive"@, display_name: "Last Active"@, icon: "mdi:clock-outline"@, device_class: Some("timestamp"@), unit: None, attributes: false, source: SensorSource::Agent })
            ||| on && e == (EntityView::Sensor { name: "screensaver"@, display_name: "Screensaver"@, icon: "mdi:monitor-shimmer"@, device_class: None, unit: None, attributes: false, source: SensorSource::Agent })
        },
{
    let all = idle_sensors();
    assert(all.len() == 2);
    assert(all[0] == (EntityView::Sensor { name: "lastactive"@, display_name: "Last Active"@, icon: "mdi:clock-outline"@, device_class: Some("timestamp"@), unit: None, attributes: false, source: SensorSource::Agent }));
    assert(all[1] == (EntityView::Sensor { name: "screensaver"@, display_name: "Screensaver"@, icon: "mdi:monitor-shimmer"@, device_class: None, unit: None, attributes: false, source: SensorSource::Agent }));
}

proof fn lemma_power_sensors(on: bool, e: EntityView)
    ensures
        listed(on, power_sensors()).contains(e) <==> {
            ||| on && e == (EntityView::Sensor { name: "sleep_state"@, display_name: "Sleep State"@, icon: "mdi:power-sleep"@, device_class: None, unit: None, attributes: false, source: SensorSource::Always })
            ||| on && e == (EntityView::Sensor { name: "display"@, display_name: "Display"@, icon: "mdi:monitor"@, device_class: None, unit: None, attributes: false, source: SensorSource::Agent })
        },
{
    let all = power_sensors();
    assert(all.len() == 2);
    assert(all[0] == (EntityView::Sensor { name: "sleep_state"@, display_name: "Sleep State"@, icon: "mdi:power-sleep"@, device_class: None, unit: None, attributes: false, source: SensorSource::Always }));
    assert(all[1] == (EntityView::Sensor { name: "display"@, display_name: "Display"@, icon: "mdi:monitor"@, device_class: None, unit: None, attributes: false, source: SensorSource::Agent }));
}

proof fn lemma_system_sensors(on: bool, e: EntityView)
    ensures
        listed(on, system_sensors()).contains(e) <==> {
            ||| on && e == (EntityView::Sensor { name: "cpu_usage"@, display_name: "CPU Usage"@, icon: "mdi:cpu-64-bit"@, device_class: None, unit: Some("%"@), attributes: false, source: SensorSource::Agent })
            ||| on && e == (EntityView::Sensor { name: "memory_usage"@, display_name: "Memory Usage"@, icon: "mdi:memory"@, device_class: None, unit: Some("%"@), attributes: false, source: SensorSource::Agent })
            ||| on && e == (EntityView::Sensor { name: "battery_level"@, display_name: "Battery Level"@, icon: "mdi:battery"@, device_class: Some("battery"@), unit: Some("%"@), attributes: false, source: SensorSource::Agent })
            ||| on && e == (EntityView::Sensor { name: "battery_charging"@, display_name: "Battery Charging"@, icon: "mdi:battery-charging"@, device_class: None, unit: None, attributes: false, source: SensorSource::Agent })
            ||| on && e == (EntityView::Sensor { name: "active_window"@, display_name: "Active Window"@, icon: "mdi:application"@, device_class: None, unit: None, attributes: false, source: SensorSource::Agent })
        },
{
    let all = system_sensors();
    assert(all.len() == 5);
    assert(all[0] == (EntityView::Sensor { name: "cpu_usage"@, display_name: "CPU Usage"@, icon: "mdi:cpu-64-bit"@, device_class: None, unit: Some("%"@), attributes: false, source: SensorSource::Agent }));
    assert(all[1] == (EntityView::Sensor { name: "memory_usage"@, display_name: "Memory Usage"@, icon: "mdi:memory"@, device_class: None, unit: Some("%"@), attributes: false, source: SensorSource::Agent }));
    assert(all[2] == (EntityView::Sensor { name: "battery_level"@, display_name: "Battery Level"@, icon: "mdi:battery"@, device_class: Some("battery"@), unit: Some("%"@), attributes: false, source: SensorSource::Agent }));
    assert(all[3] == (EntityView::Sensor { name: "battery_charging"@, display_name: "Battery Charging"@, icon: "mdi:battery-charging"@, device_class: None, unit: None, attributes: false, source: SensorSource::Agent }));
    assert(all[4] == (EntityView::Sensor { name: "active_window"@, display_name: "Active Window"@, icon: "mdi:application"@, device_class: None, unit: None, attributes: false, source: SensorSource::Agent }));
}

proof fn lemma_update_sensors(on: bool, e: EntityView)
    ensures
        listed(on, update_sensors()).contains(e) <==> {
            ||| on && e == (EntityView::Sensor { name: "steam_updating"@, display_name: "Steam Updating"@, icon: "mdi:steam"@, device_class: None, unit: None, attributes: true, source: SensorSource::Agent })
        },
{
    let all = update_sensors();
    assert(all.len() == 1);
    assert(all[0] == (EntityView::Sensor { name: "steam_updating"@, display_name: "Steam Updating"@, icon: "mdi:steam"@, device_class: None, unit: None, attributes: true, source: SensorSource::Agent }));
}

proof fn lemma_game_buttons(on: bool, e: EntityView)
    ensures
        listed(on, game_buttons()).contains(e) <==> {
            ||| on && e == (EntityView::Button { name: "Launch"@, icon: "mdi:rocket-launch"@ })
        },
{
    let all = game_buttons();
    assert(all.len() == 1);
    assert(all[0] == (EntityView::Button { name: "Launch"@, icon: "mdi:rocket-launch"@ }));
}

proof fn lemma_idle_buttons(on: bool, e: EntityView)
    ensures
        listed(on, idle_buttons()).contains(e) <==> {
            ||| on && e == (EntityView::Button { name: "Screensaver"@, icon: "mdi:monitor"@ })
            ||| on && e == (EntityView::Button { name: "Wake"@, icon: "mdi:monitor-eye"@ })
        },
{
    let all = idle_buttons();
    assert(all.len() == 2);
    assert(all[0] == (EntityView::Button { name: "Screensaver"@, icon: "mdi:monitor"@ }));
    assert(all[1] == (EntityView::Button { name: "Wake"@, icon: "mdi:monitor-eye"@ }));
}

proof fn lemma_power_buttons(on: bool, e: EntityView)
    ensures
        listed(on, power_buttons()).contains(e) <==> {
            ||| on && e == (EntityView::Button { name: "Shutdown"@, icon: "mdi:power"@ })
            ||| on && e == (EntityView::Button { name: "sleep"@, icon: "mdi:power-sleep"@ })
            ||| on && e == (EntityView::Button { name: "Lock"@, icon: "mdi:lock"@ })
            ||| on && e == (EntityView::Button { name: "Hibernate"@, icon: "mdi:power-sleep"@ })
            ||| on && e == (EntityView::Button { name: "Restart"@, icon: "mdi:restart"@ })
        },
{
    let all = power_buttons();
    assert(all.len() == 5);
    assert(all[0] == (EntityView::Button { name: "Shutdown"@, icon: "mdi:power"@ }));
    assert(all[1] == (EntityView::Button { name: "sleep"@, icon: "mdi:power-sleep"@ }));
    assert(all[2] == (EntityView::Button { name: "Lock"@, icon: "mdi:lock"@ }));
    assert(all[3] == (EntityView::Button { name: "Hibernate"@, icon: "mdi:power-sleep"@ }));
    assert(all[4] == (EntityView::Button { name: "Restart"@, icon: "mdi:restart"@ }));
}

proof fn lemma_discord_buttons(on: bool, e: EntityView)
    ensures
        listed(on, discord_buttons()).contains(e) <==> {
            ||| on && e == (EntityView::Button { name: "discord_join"@, icon: "mdi:discord"@ })
            ||| on && e == (EntityView::Button { name: "discord_leave_channel"@, icon: "mdi:phone-hangup"@ })
        },
{
    let all = discord_buttons();
    assert(all.len() == 2);
    assert(all[0] == (EntityView::Button { name: "discord_join"@, icon: "mdi:discord"@ }));
    assert(all[1] == (EntityView::Button { name: "discord_leave_channel"@, icon: "mdi:phone-hangup"@ }));
}

proof fn lemma_audio_buttons(on: bool, e: EntityView)
    ensures
        listed(on, audio_buttons()).contains(e) <==> {
            ||| on && e == (EntityView::Button { name: "media_play_pause"@, icon: "mdi:play-pause"@ })
            ||| on && e == (EntityView::Button { name: "media_next"@, icon: "mdi:skip-next"@ })
            ||| on && e == (EntityView::Button { name: "media_previous"@, icon: "mdi:skip-previous"@ })
            ||| on && e == (EntityView::Button { name: "media_stop"@, icon: "mdi:stop"@ })
            ||| on && e == (EntityView::Button { name: "volume_mute"@, icon: "mdi:volume-mute"@ })
        },
{
    let all = audio_buttons();
    assert(all.len() == 5);
    assert(all[0] == (EntityView::Button { name: "media_play_pause"@, icon: "mdi:play-pause"@ }));
    assert(all[1] == (EntityView::Button { name: "media_next"@, icon: "mdi:skip-next"@ }));
    assert(all[2] == (EntityView::Button { name: "media_previous"@, icon: "mdi:skip-previous"@ }));
    assert(all[3] == (EntityView::Button { name: "media_stop"@, icon: "mdi:stop"@ }));
    assert(all[4] == (EntityView::Button { name: "volume_mute"@, icon: "mdi:volume-mute"@ }));
}

proof fn lemma_audio_sensors(on: bool, e: EntityView)
    ensures
        listed(on, audio_sensors()).contains(e) <==> {
            ||| on && e == (EntityView::Sensor { name: "volume_level"@, display_name: "Volume Level"@, icon: "mdi:volume-high"@, device_class: None, unit: Some("%"@), attributes: false, source: SensorSource::Agent })
        },
{
    let all = audio_sensors();
    assert(all.len() == 1);
    assert(all[0] == (EntityView::Sensor { name: "volume_level"@, display_name: "Volume Level"@, icon: "mdi:volume-high"@, device_class: None, unit: Some("%"@), attributes: false, source: SensorSource::Agent }));
}

/// Which sensors are announced for each group that is on, and which buttons.
#[verifier::spinoff_prover]
#[verifier::rlimit(60)]
pub proof fn law_entities_of_the_groups(g: FeatureGroups, e: EntityView)
    ensures
        group_announced(g).contains(e) <==> {
            ||| g.game_detection && e == (EntityView::Sensor { name: "runninggames"@, display_name: "Running Game"@, icon: "mdi:gamepad-variant"@, device_class: None, unit: None, attributes: true, source: SensorSource::Agent })
            ||| g.idle_tracking && e == (EntityView::Sensor { name: "lastactive"@, display_name: "Last Active"@, icon: "mdi:clock-outline"@, device_class: Some("timestamp"@), unit: None, attributes: false, source: SensorSource::Agent })
            ||| g.idle_tracking && e == (EntityView::Sensor { name: "screensaver"@, display_name: "Screensaver"@, icon: "mdi:monitor-shimmer"@, device_class: None, unit: None, attributes: false, source: SensorSource::Agent })
            ||| g.power_events && e == (EntityView::Sensor { name: "sleep_state"@, display_name: "Sleep State"@, icon: "mdi:power-sleep"@, device_class: None, unit: None, attributes: false, source: SensorSource::Always })
            ||| g.power_events && e == (EntityView::Sensor { name: "display"@, display_name: "Display"@, icon: "mdi:monitor"@, device_class: None, unit: None, attributes: false, source: SensorSource::Agent })
            ||| g.system_sensors && e == (EntityView::Sensor { name: "cpu_usage"@, display_name: "CPU Usage"@, icon: "mdi:cpu-64-bit"@, device_class: None, unit: Some("%"@), attributes: false, source: SensorSource::Agent })
            ||| g.system_sensors && e == (EntityView::Sensor { name: "memory_usage"@, display_name: "Memory Usage"@, icon: "mdi:memory"@, device_class: None, unit: Some("%"@), attributes: false, source: SensorSource::Agent })
            ||| g.system_sensors && e == (EntityView::Sensor { name: "battery_level"@, display_name: "Battery Level"@, icon: "mdi:battery"@, device_class: Some("battery"@), unit: Some("%"@), attributes: false, source: SensorSource::Agent })
            ||| g.system_sensors && e == (EntityView::Sensor { name: "battery_charging"@, display_name: "Battery Charging"@, icon: "mdi:battery-charging"@, device_class: None, unit: None, attributes: false, source: SensorSource::Agent })
            ||| g.system_sensors && e == (EntityView::Sensor { name: "active_window"@, display_name: "Active Window"@, icon: "mdi:application"@, device_class: None, unit: None, attributes: false, source: SensorSource::Agent })
            ||| g.steam_updates && e == (EntityView::Sensor { name: "steam_updating"@, display_name: "Steam Updating"@, icon: "mdi:steam"@, device_class: None, unit: None, attributes: true, source: SensorSource::Agent })
            ||| g.game_detection && e == (EntityView::Button { name: "Launch"@, icon: "mdi:rocket-launch"@ })
            ||| g.idle_tracking && e == (EntityView::Button { name: "Screensaver"@, icon: "mdi:monitor"@ })
            ||| g.idle_tracking && e == (EntityView::Button { name: "Wake"@, icon: "mdi:monitor-eye"@ })
            ||| g.power_events && e == (EntityView::Button { name: "Shutdown"@, icon: "mdi:power"@ })
            ||| g.power_events && e == (EntityView::Button { name: "sleep"@, icon: "mdi:power-sleep"@ })
            ||| g.power_events && e == (EntityView::Button { name: "Lock"@, icon: "mdi:lock"@ })
            ||| g.power_events && e == (EntityView::Button { name: "Hibernate"@, icon: "mdi:power-sleep"@ })
            ||| g.power_events && e == (EntityView::Button { name: "Restart"@, icon: "mdi:restart"@ })
            ||| g.discord && e == (EntityView::Button { name: "discord_join"@, icon: "mdi:discord"@ })
            ||| g.discord && e == (EntityView::Button { name: "discord_leave_channel"@, icon: "mdi:phone-hangup"@ })
            ||| g.audio_control && e == (EntityView::Button { name: "media_play_pause"@, icon: "mdi:play-pause"@ })
            ||| g.audio_control && e == (EntityView::Button { name: "media_next"@, icon: "mdi:skip-next"@ })
            ||| g.audio_control && e == (EntityView::Button { name: "media_previous"@, icon: "mdi:skip-previous"@ })
            ||| g.audio_control && e == (EntityView::Button { name: "media_stop"@, icon: "mdi:stop"@ })
            ||| g.audio_control && e == (EntityView::Button { name: "volume_mute"@, icon: "mdi:volume-mute"@ })
            ||| g.audio_control && e == (EntityView::Sensor { name: "volume_level"@, display_name: "Volume Level"@, icon: "mdi:volume-high"@, device_class: None, unit: Some("%"@), attributes: false, source: SensorSource::Agent })
            ||| g.notifications && e == EntityView::Notify
        },
{
    lemma_announced(g, e);
    lemma_game_sensors(g.game_detection, e);
    lemma_idle_sensors(g.idle_tracking, e);
    lemma_power_sensors(g.power_events, e);
    lemma_system_sensors(g.system_sensors, e);
    lemma_update_sensors(g.steam_updates, e);
    lemma_game_buttons(g.game_detection, e);
    lemma_idle_buttons(g.idle_tracking, e);
    lemma_power_buttons(g.power_events, e);
    lemma_discord_buttons(g.discord, e);
    lemma_audio_buttons(g.audio_control, e);
    lemma_audio_sensors(g.audio_control, e);
    assert(seq![EntityView::Notify].contains(e) <==> e == EntityView::Notify) by {
        assert(seq![EntityView::Notify][0] == EntityView::Notify);
    }
}

proof fn lemma_game_removals(d: Seq<char>, gone: bool, m: session::MessageView)
    requires
        m.payload == ""@,
        m.retained,
        m.qos == 1,
    ensures
        removals(d, removed_when(gone, game_entities())).contains(m) <==> {
            ||| gone && m.topic == "homeassistant/"@ + "sensor"@ + "/"@ + d + "/"@ + "runninggames"@ + "/config"@
            ||| gone && m.topic == "homeassistant/"@ + "button"@ + "/"@ + d + "/"@ + "Launch"@ + "/config"@
        },
{
    if gone {
        let all = removals(d, game_entities());
        assert(all.len() == 2);
        assert(all[0] == removal(d, ("sensor"@, "runninggames"@)));
        assert(all[1] == removal(d, ("button"@, "Launch"@)));
    }
}

proof fn lemma_idle_removals(d: Seq<char>, gone: bool, m: session::MessageView)
    requires
        m.payload == ""@,
        m.retained,
        m.qos == 1,
    ensures
        removals(d, removed_when(gone, idle_entities())).contains(m) <==> {
            ||| gone && m.topic == "homeassistant/"@ + "sensor"@ + "/"@ + d + "/"@ + "lastactive"@ + "/config"@
            ||| gone && m.topic == "homeassistant/"@ + "sensor"@ + "/"@ + d + "/"@ + "screensaver"@ + "/config"@
            ||| gone && m.topic == "homeassistant/"@ + "button"@ + "/"@ + d + "/"@ + "Screensaver"@ + "/config"@
            ||| gone && m.topic == "homeassistant/"@ + "button"@ + "/"@ + d + "/"@ + "Wake"@ + "/config"@
        },
{
    if gone {
        let all = removals(d, idle_entities());
        assert(all.len() == 4);
        assert(all[0] == removal(d, ("sensor"@, "lastactive"@)));
        assert(all[1] == removal(d, ("sensor"@, "screensaver"@)));
        assert(all[2] == removal(d, ("button"@, "Screensaver"@)));
        assert(all[3] == removal(d, ("button"@, "Wake"@)));
    }
}

proof fn lemma_power_removals(d: Seq<char>, gone: bool, m: session::MessageView)
    requires
        m.payload == ""@,
        m.retained,
        m.qos == 1,
    ensures
        removals(d, removed_when(gone, power_entities())).contains(m) <==> {
            ||| gone && m.topic == "homeassistant/"@ + "sensor"@ + "/"@ + d + "/"@ + "sleep_state"@ + "/config"@
            ||| gone && m.topic == "homeassistant/"@ + "sensor"@ + "/"@ + d + "/"@ + "display"@ + "/config"@
            ||| gone && m.topic == "homeassistant/"@ + "button"@ + "/"@ + d + "/"@ + "Shutdown"@ + "/config"@
            ||| gone && m.topic == "homeassistant/"@ + "button"@ + "/"@ + d + "/"@ + "sleep"@ + "/config"@
            ||| gone && m.topic == "homeassistant/"@ + "button"@ + "/"@ + d + "/"@ + "Lock"@ + "/config"@
            ||| gone && m.topic == "homeassistant/"@ + "button"@ + "/"@ + d + "/"@ + "Hibernate"@ + "/config"@
            ||| gone && m.topic == "homeassistant/"@ + "button"@ + "/"@ + d + "/"@ + "Restart"@ + "/config"@
        },
{
    if gone {
        let all = removals(d, power_entities());
        assert(all.len() == 7);
        assert(all[0] == removal(d, ("sensor"@, "sleep_state"@)));
        assert(all[1] == removal(d, ("sensor"@, "display"@)));
        assert(all[2] == removal(d, ("button"@, "Shutdown"@)));
        assert(all[3] == removal(d, ("button"@, "sleep"@)));
        assert(all[4] == removal(d, ("button"@, "Lock"@)));
        assert(all[5] == removal(d, ("button"@, "Hibernate"@)));
        assert(all[6] == removal(d, ("button"@, "Restart"@)));
    }
}

proof fn lemma_system_removals(d: Seq<char>, gone: bool, m: session::MessageView)
    requires
        m.payload == ""@,
        m.retained,
        m.qos == 1,
    ensures
        removals(d, removed_when(gone, system_entities())).contains(m) <==> {
            ||| gone && m.topic == "homeassistant/"@ + "sensor"@ + "/"@ + d + "/"@ + "cpu_usage"@ + "/config"@
            ||| gone && m.topic == "homeassistant/"@ + "sensor"@ + "/"@ + d + "/"@ + "memory_usage"@ + "/config"@
            ||| gone && m.topic == "homeassistant/"@ + "sensor"@ + "/"@ + d + "/"@ + "battery_level"@ + "/config"@
            ||| gone && m.topic == "homeassistant/"@ + "sensor"@ + "/"@ + d + "/"@ + "battery_charging"@ + "/config"@
            ||| gone && m.topic == "homeassistant/"@ + "sensor"@ + "/"@ + d + "/"@ + "active_window"@ + "/config"@
        },
{
    if gone {
        let all = removals(d, system_entities());
        assert(all.len() == 5);
        assert(all[0] == removal(d, ("sensor"@, "cpu_usage"@)));
        assert(all[1] == removal(d, ("sensor"@, "memory_usage"@)));
        assert(all[2] == removal(d, ("sensor"@, "battery_level"@)));
        assert(all[3] == removal(d, ("sensor"@, "battery_charging"@)));
        assert(all[4] == removal(d, ("sensor"@, "active_window"@)));
    }
}

proof fn lemma_audio_removals(d: Seq<char>, gone: bool, m: session::MessageView)
    requires
        m.payload == ""@,
        m.retained,
        m.qos == 1,
    ensures
        removals(d, removed_when(gone, audio_entities())).contains(m) <==> {
            ||| gone && m.topic == "homeassistant/"@ + "button"@ + "/"@ + d + "/"@ + "media_play_pause"@ + "/config"@
            ||| gone && m.topic == "homeassistant/"@ + "button"@ + "/"@ + d + "/"@ + "media_next"@ + "/config"@
            ||| gone && m.topic == "homeassistant/"@ + "button"@ + "/"@ + d + "/"@ + "media_previous"@ + "/config"@
            ||| gone && m.topic == "homeassistant/"@ + "button"@ + "/"@ + d + "/"@ + "media_stop"@ + "/config"@
            ||| gone && m.topic == "homeassistant/"@ + "button"@ + "/"@ + d + "/"@ + "volume_mute"@ + "/config"@
            ||| gone && m.topic == "homeassistant/"@ + "number"@ + "/"@ + d + "/"@ + "volume_set"@ + "/config"@
        },
{
    if gone {
        let all = removals(d, audio_entities());
        assert(all.len() == 6);
        assert(all[0] == removal(d, ("button"@, "media_play_pause"@)));
        assert(all[1] == removal(d, ("button"@, "media_next"@)));
        assert(all[2] == removal(d, ("button"@, "media_previous"@)));
        assert(all[3] == removal(d, ("button"@, "media_stop"@)));
        assert(all[4] == removal(d, ("button"@, "volume_mute"@)));
        assert(all[5] == removal(d, ("number"@, "volume_set"@)));
    }
}

proof fn lemma_discord_removals(d: Seq<char>, gone: bool, m: session::MessageView)
    requires
        m.payload == ""@,
        m.retained,
        m.qos == 1,
    ensures
        removals(d, removed_when(gone, discord_entities())).contains(m) <==> {
            ||| gone && m.topic == "homeassistant/"@ + "button"@ + "/"@ + d + "/"@ + "discord_join"@ + "/config"@
            ||| gone && m.topic == "homeassistant/"@ + "button"@ + "/"@ + d + "/"@ + "discord_leave_channel"@ + "/config"@
        },
{
    if gone {
        let all = removals(d, discord_entities());
        assert(all.len() == 2);
        assert(all[0] == removal(d, ("button"@, "discord_join"@)));
        assert(all[1] == removal(d, ("button"@, "discord_leave_channel"@)));
    }
}

/// Every message that removes something is an empty one that the broker keeps.
pub proof fn law_removals_are_empty(
    previous: FeatureGroups,
    now: FeatureGroups,
    d: Seq<char>,
    m: session::MessageView,
)
    requires
        group_removals(previous, now, d).contains(m),
    ensures
        m.payload == ""@,
        m.retained,
        m.qos == 1,
{
    lemma_removed(previous, now, d, m);
}

/// What is removed: the entities of each group that was on and is off, under their own
/// discovery topics, and nothing else.
#[verifier::spinoff_prover]
#[verifier::rlimit(60)]
pub proof fn law_removals_of_the_groups(
    previous: FeatureGroups,
    now: FeatureGroups,
    d: Seq<char>,
    m: session::MessageView,
)
    requires
        m.payload == ""@,
        m.retained,
        m.qos == 1,
    ensures
        group_removals(previous, now, d).contains(m) <==> {
            ||| previous.game_detection && !now.game_detection && m.topic == "homeassistant/"@ + "sensor"@ + "/"@ + d + "/"@ + "runninggames"@ + "/config"@
            ||| previous.game_detection && !now.game_detection && m.topic == "homeassistant/"@ + "button"@ + "/"@ + d + "/"@ + "Launch"@ + "/config"@
            ||| previous.idle_tracking && !now.idle_tracking && m.topic == "homeassistant/"@ + "sensor"@ + "/"@ + d + "/"@ + "lastactive"@ + "/config"@
            ||| previous.idle_tracking && !now.idle_tracking && m.topic == "homeassistant/"@ + "sensor"@ + "/"@ + d + "/"@ + "screensaver"@ + "/config"@
            ||| previous.idle_tracking && !now.idle_tracking && m.topic == "homeassistant/"@ + "button"@ + "/"@ + d + "/"@ + "Screensaver"@ + "/config"@
            ||| previous.idle_tracking && !now.idle_tracking && m.topic == "homeassistant/"@ + "button"@ + "/"@ + d + "/"@ + "Wake"@ + "/config"@
            ||| previous.power_events && !now.power_events && m.topic == "homeassistant/"@ + "sensor"@ + "/"@ + d + "/"@ + "sleep_state"@ + "/config"@
            ||| previous.power_events && !now.power_events && m.topic == "homeassistant/"@ + "sensor"@ + "/"@ + d + "/"@ + "display"@ + "/config"@
            ||| previous.power_events && !now.power_events && m.topic == "homeassistant/"@ + "button"@ + "/"@ + d + "/"@ + "Shutdown"@ + "/config"@
            ||| previous.power_events && !now.power_events && m.topic == "homeassistant/"@ + "button"@ + "/"@ + d + "/"@ + "sleep"@ + "/config"@
            ||| previous.power_events && !now.power_events && m.topic == "homeassistant/"@ + "button"@ + "/"@ + d + "/"@ + "Lock"@ + "/config"@
            ||| previous.power_events && !now.power_events && m.topic == "homeassistant/"@ + "button"@ + "/"@ + d + "/"@ + "Hibernate"@ + "/config"@
            ||| previous.power_events && !now.power_events && m.topic == "homeassistant/"@ + "button"@ + "/"@ + d + "/"@ + "Restart"@ + "/config"@
            ||| previous.system_sensors && !now.system_sensors && m.topic == "homeassistant/"@ + "sensor"@ + "/"@ + d + "/"@ + "cpu_usage"@ + "/config"@
            ||| previous.system_sensors && !now.system_sensors && m.topic == "homeassistant/"@ + "sensor"@ + "/"@ + d + "/"@ + "memory_usage"@ + "/config"@
            ||| previous.system_sensors && !now.system_sensors && m.topic == "homeassistant/"@ + "sensor"@ + "/"@ + d + "/"@ + "battery_level"@ + "/config"@
            ||| previous.system_sensors && !now.system_sensors && m.topic == "homeassistant/"@ + "sensor"@ + "/"@ + d + "/"@ + "battery_charging"@ + "/config"@
            ||| previous.system_sensors && !now.system_sensors && m.topic == "homeassistant/"@ + "sensor"@ + "/"@ + d + "/"@ + "active_window"@ + "/config"@
            ||| previous.audio_control && !now.audio_control && m.topic == "homeassistant/"@ + "button"@ + "/"@ + d + "/"@ + "media_play_pause"@ + "/config"@
            ||| previous.audio_control && !now.audio_control && m.topic == "homeassistant/"@ + "button"@ + "/"@ + d + "/"@ + "media_next"@ + "/config"@
            ||| previous.audio_control && !now.audio_control && m.topic == "homeassistant/"@ + "button"@ + "/"@ + d + "/"@ + "media_previous"@ + "/config"@
            ||| previous.audio_control && !now.audio_control && m.topic == "homeassistant/"@ + "button"@ + "/"@ + d + "/"@ + "media_stop"@ + "/config"@
            ||| previous.audio_control && !now.audio_control && m.topic == "homeassistant/"@ + "button"@ + "/"@ + d + "/"@ + "volume_mute"@ + "/config"@
            ||| previous.audio_control && !now.audio_control && m.topic == "homeassistant/"@ + "number"@ + "/"@ + d + "/"@ + "volume_set"@ + "/config"@
            ||| previous.discord && !now.discord && m.topic == "homeassistant/"@ + "button"@ + "/"@ + d + "/"@ + "discord_join"@ + "/config"@
            ||| previous.discord && !now.discord && m.topic == "homeassistant/"@ + "button"@ + "/"@ + d + "/"@ + "discord_leave_channel"@ + "/config"@
            ||| previous.notifications && !now.notifications && m.topic == "homeassistant/notify/"@
                + d + "/config"@
        },
{
    lemma_removed(previous, now, d, m);
    lemma_game_removals(d, previous.game_detection && !now.game_detection, m);
    lemma_idle_removals(d, previous.idle_tracking && !now.idle_tracking, m);
    lemma_power_removals(d, previous.power_events && !now.power_events, m);
    lemma_system_removals(d, previous.system_sensors && !now.system_sensors, m);
    lemma_audio_removals(d, previous.audio_control && !now.audio_control, m);
    lemma_discord_removals(d, previous.discord && !now.discord, m);
    if previous.notifications && !now.notifications {
        let all = notify_removal(true, d);
        assert(all[0].topic == "homeassistant/notify/"@ + d + "/config"@);
    }
}

proof fn lemma_core_topics(d: Seq<char>, t: Seq<char>)
    ensures
        command_topics(d, core_commands()).contains(t) <==> {
            ||| t == "homeassistant/button/"@ + d + "/"@ + "Launch"@ + "/action"@
            ||| t == "homeassistant/button/"@ + d + "/"@ + "Screensaver"@ + "/action"@
            ||| t == "homeassistant/button/"@ + d + "/"@ + "Wake"@ + "/action"@
            ||| t == "homeassistant/button/"@ + d + "/"@ + "Shutdown"@ + "/action"@
            ||| t == "homeassistant/button/"@ + d + "/"@ + "sleep"@ + "/action"@
            ||| t == "homeassistant/button/"@ + d + "/"@ + "Lock"@ + "/action"@
            ||| t == "homeassistant/button/"@ + d + "/"@ + "Hibernate"@ + "/action"@
            ||| t == "homeassistant/button/"@ + d + "/"@ + "Restart"@ + "/action"@
            ||| t == "homeassistant/button/"@ + d + "/"@ + "discord_join"@ + "/action"@
            ||| t == "homeassistant/button/"@ + d + "/"@ + "discord_leave_channel"@ + "/action"@
        },
{
    let all = command_topics(d, core_commands());
    assert(all.len() == 10);
    assert(all[0] == topics::command(d, "Launch"@));
    assert(all[1] == topics::command(d, "Screensaver"@));
    assert(all[2] == topics::command(d, "Wake"@));
    assert(all[3] == topics::command(d, "Shutdown"@));
    assert(all[4] == topics::command(d, "sleep"@));
    assert(all[5] == topics::command(d, "Lock"@));
    assert(all[6] == topics::command(d, "Hibernate"@));
    assert(all[7] == topics::command(d, "Restart"@));
    assert(all[8] == topics::command(d, "discord_join"@));
    assert(all[9] == topics::command(d, "discord_leave_channel"@));
}

proof fn lemma_audio_topics(d: Seq<char>, t: Seq<char>)
    ensures
        command_topics(d, audio_commands()).contains(t) <==> {
            ||| t == "homeassistant/button/"@ + d + "/"@ + "media_play_pause"@ + "/action"@
            ||| t == "homeassistant/button/"@ + d + "/"@ + "media_next"@ + "/action"@
            ||| t == "homeassistant/button/"@ + d + "/"@ + "media_previous"@ + "/action"@
            ||| t == "homeassistant/button/"@ + d + "/"@ + "media_stop"@ + "/action"@
            ||| t == "homeassistant/button/"@ + d + "/"@ + "volume_set"@ + "/action"@
            ||| t == "homeassistant/button/"@ + d + "/"@ + "volume_mute"@ + "/action"@
        },
{
    let all = command_topics(d, audio_commands());
    assert(all.len() == 6);
    assert(all[0] == topics::command(d, "media_play_pause"@));
    assert(all[1] == topics::command(d, "media_next"@));
    assert(all[2] == topics::command(d, "media_previous"@));
    assert(all[3] == topics::command(d, "media_stop"@));
    assert(all[4] == topics::command(d, "volume_set"@));
    assert(all[5] == topics::command(d, "volume_mute"@));
}

/// What is subscribed to: the presses of the core commands always, those of the audio
/// commands and the notifications where their groups are on, and the presses of each
/// custom command.
pub proof fn law_subscriptions_of_the_groups(
    d: Seq<char>,
    g: FeatureGroups,
    custom: Seq<CustomCommand>,
    t: Seq<char>,
)
    ensures
        group_topics(d, g, custom).contains(t) <==> {
            ||| t == "homeassistant/button/"@ + d + "/"@ + "Launch"@ + "/action"@
            ||| t == "homeassistant/button/"@ + d + "/"@ + "Screensaver"@ + "/action"@
            ||| t == "homeassistant/button/"@ + d + "/"@ + "Wake"@ + "/action"@
            ||| t == "homeassistant/button/"@ + d + "/"@ + "Shutdown"@ + "/action"@
            ||| t == "homeassistant/button/"@ + d + "/"@ + "sleep"@ + "/action"@
            ||| t == "homeassistant/button/"@ + d + "/"@ + "Lock"@ + "/action"@
            ||| t == "homeassistant/button/"@ + d + "/"@ + "Hibernate"@ + "/action"@
            ||| t == "homeassistant/button/"@ + d + "/"@ + "Restart"@ + "/action"@
            ||| t == "homeassistant/button/"@ + d + "/"@ + "discord_join"@ + "/action"@
            ||| t == "homeassistant/button/"@ + d + "/"@ + "discord_leave_channel"@ + "/action"@
            ||| g.audio_control && t == "homeassistant/button/"@ + d + "/"@ + "media_play_pause"@ + "/action"@
            ||| g.audio_control && t == "homeassistant/button/"@ + d + "/"@ + "media_next"@ + "/action"@
            ||| g.audio_control && t == "homeassistant/button/"@ + d + "/"@ + "media_previous"@ + "/action"@
            ||| g.audio_control && t == "homeassistant/button/"@ + d + "/"@ + "media_stop"@ + "/action"@
            ||| g.audio_control && t == "homeassistant/button/"@ + d + "/"@ + "volume_set"@ + "/action"@
            ||| g.audio_control && t == "homeassistant/button/"@ + d + "/"@ + "volume_mute"@ + "/action"@
            ||| g.notifications && t == "pc-bridge/notifications/"@ + d
            ||| exists|j: int|
                0 <= j < custom.len() && t == "homeassistant/button/"@ + d + "/"@ + (
                #[trigger] custom[j]).name@ + "/action"@
        },
{
    let core = command_topics(d, core_commands());
    let audio = if g.audio_control {
        command_topics(d, audio_commands())
    } else {
        seq![]
    };
    let notify = if g.notifications {
        seq![topics::notifications(d)]
    } else {
        seq![]
    };
    let own = custom.map_values(|c: CustomCommand| topics::command(d, c.name@));
    lemma_core_topics(d, t);
    lemma_audio_topics(d, t);
    lemma_either(core, audio, t);
    lemma_either(core + audio, notify, t);
    lemma_either(core + audio + notify, own, t);
    assert(notify.contains(t) <==> g.notifications && t == topics::notifications(d)) by {
        if g.notifications {
            assert(notify[0] == topics::notifications(d));
        }
    }
    if own.contains(t) {
        let j = choose|j: int| 0 <= j < own.len() && own[j] == t;
        assert(t == topics::command(d, custom[j].name@));
    }
    assert forall|j: int|
        0 <= j < custom.len() && t == topics::command(d, (#[trigger] custom[j]).name@) implies own.contains(
        t,
    ) by {
        assert(own[j] == t);
    }
}

/// Where the groups of the last start are kept: below the data directory of the user on
/// Windows, below their cache directory elsewhere, and in the working directory where the
/// user has none.
pub proof fn law_place_of_the_state(a: Option<Seq<char>>, b: Option<Seq<char>>, d: Seq<char>)
    ensures
        state_path_parts(Platform::Windows, Some(d), b) == seq![
            d,
            "pc-bridge"@,
            "feature_state.json"@,
        ],
        state_path_parts(Platform::Windows, None, b) == seq!["feature_state.json"@],
        state_path_parts(Platform::Unix, a, Some(d)) == seq![
            d,
            ".cache"@,
            "pc-bridge"@,
            "feature_state.json"@,
        ],
        state_path_parts(Platform::Unix, a, None) == seq!["feature_state.json"@],
{
}

} // verus!
