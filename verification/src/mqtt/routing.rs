//! Which topics are subscribed, and which command an incoming topic stands for.

use crate::commands;
use crate::commands::{command_feature_enabled, native_command_list};
use crate::config::{Config, CustomCommand, FeatureConfig};
use crate::mqtt::discovery;
use crate::mqtt::topics;
use crate::mqtt::topics::{button_prefix_of, command_topic_of, notify_topic_of};
use crate::mqtt::MqttClient;
use crate::text;
use crate::text::{chars_of, string_of, strip_prefix, strip_suffix};
use vstd::prelude::*;
use vstd::string::*;

verus! {

// ---------------------------------------------------------------------------
// Incoming topics
// ---------------------------------------------------------------------------

/// The command that a topic stands for: the name between the button prefix and
/// `/action`, or "notification" for the notification topic.
pub open spec fn routed(
    topic: Seq<char>,
    button_prefix: Seq<char>,
    notify_topic: Seq<char>,
) -> Option<Seq<char>> {
    let pressed = match text::strip_prefix_spec(topic, button_prefix) {
        Some(rest) => text::strip_suffix_spec(rest, "/action"@),
        None => None,
    };
    match pressed {
        Some(name) => Some(name),
        None => if topic == notify_topic {
            Some("notification"@)
        } else {
            None
        },
    }
}

/// Matches an incoming topic against the button prefix and the notification
/// topic, and returns the name of the command if it is one.
pub fn parse_incoming_topic(topic: &str, button_prefix: &str, notify_topic: &str) -> (r: Option<
    String,
>)
    ensures
        text::opt(r) == routed(topic@, button_prefix@, notify_topic@),
{
    if let Some(rest) = strip_prefix(&chars_of(topic), button_prefix) {
        if let Some(name) = strip_suffix(&rest, "/action") {
            return Some(string_of(&name));
        }
    }
    if topic.eq(notify_topic) {
        return Some("notification".to_string());
    }
    None
}

// ---------------------------------------------------------------------------
// Subscriptions
// ---------------------------------------------------------------------------

/// The command topics of the commands whose feature is on.
pub open spec fn enabled_topics(
    device: Seq<char>,
    names: Seq<Seq<char>>,
    f: FeatureConfig,
) -> Seq<Seq<char>>
    decreases names.len(),
{
    if names.len() == 0 {
        seq![]
    } else {
        let rest = enabled_topics(device, names.drop_last(), f);
        if commands::feature_enabled(names.last(), f) {
            rest.push(topics::command(device, names.last()))
        } else {
            rest
        }
    }
}

/// The topics to subscribe to: the built-in commands whose feature is on, the
/// notification topic where notifications are on, and every custom command.
pub open spec fn subscribe_topics(
    device: Seq<char>,
    f: FeatureConfig,
    custom: Seq<CustomCommand>,
) -> Seq<Seq<char>> {
    enabled_topics(device, commands::native_commands(), f) + (if f.notifications {
        seq![topics::notifications(device)]
    } else {
        seq![]
    }) + custom.map_values(|c: CustomCommand| topics::command(device, c.name@))
}

impl MqttClient {
    /// The command that an incoming topic of a device stands for.
    pub fn extract_command_name(topic: &str, device_name: &str) -> (r: Option<String>)
        ensures
            text::opt(r) == routed(
                topic@,
                topics::button_prefix(device_name@),
                topics::notifications(device_name@),
            ),
    {
        parse_incoming_topic(topic, &button_prefix_of(device_name), &notify_topic_of(device_name))
    }

    /// The topics to subscribe to, on the first connection and on each later one.
    pub fn build_subscribe_topics(device_name: &str, config: &Config) -> (r: Vec<String>)
        ensures
            text::views(r@) == subscribe_topics(
                device_name@,
                config.features,
                config.custom_commands@,
            ),
    {
        let names = native_command_list();
        let ghost all = commands::native_commands();
        let f = config.features;
        let mut out: Vec<String> = Vec::new();
        proof {
            assert(text::views(out@) =~= enabled_topics(device_name@, all.take(0), f));
        }
        let mut i: usize = 0;
        while i < names.len()
            invariant
                i <= names.len(),
                all == commands::native_commands(),
                names@.len() == all.len(),
                forall|k: int| 0 <= k < names@.len() ==> (#[trigger] names@[k])@ == all[k],
                text::views(out@) == enabled_topics(device_name@, all.take(i as int), f),
            decreases names.len() - i,
        {
            proof {
                assert(all.take(i + 1).drop_last() =~= all.take(i as int));
                assert(all.take(i + 1).last() == all[i as int]);
            }
            if command_feature_enabled(names[i], &f) {
                let ghost before = out@;
                out.push(command_topic_of(device_name, names[i]));
                proof {
                    assert(text::views(out@) =~= text::views(before).push(
                        topics::command(device_name@, all[i as int]),
                    ));
                }
            }
            i += 1;
        }
        proof {
            assert(all.take(all.len() as int) =~= all);
        }
        let ghost native = text::views(out@);
        if f.notifications {
            let ghost before = out@;
            out.push(notify_topic_of(device_name));
            proof {
                assert(text::views(out@) =~= native + seq![topics::notifications(device_name@)]);
            }
        } else {
            proof {
                assert(text::views(out@) =~= native + Seq::<Seq<char>>::empty());
            }
        }
        let ghost built_in = text::views(out@);
        let ghost custom = config.custom_commands@.map_values(
            |c: CustomCommand| topics::command(device_name@, c.name@),
        );
        let mut k: usize = 0;
        while k < config.custom_commands.len()
            invariant
                k <= config.custom_commands.len(),
                custom == config.custom_commands@.map_values(
                    |c: CustomCommand| topics::command(device_name@, c.name@),
                ),
                text::views(out@) == built_in + custom.take(k as int),
            decreases config.custom_commands.len() - k,
        {
            let ghost before = out@;
            out.push(command_topic_of(device_name, &config.custom_commands[k].name));
            proof {
                let t = topics::command(device_name@, config.custom_commands@[k as int].name@);
                assert(custom[k as int] == t);
                assert(text::views(out@) =~= text::views(before).push(t));
                assert(custom.take(k + 1) =~= custom.take(k as int).push(t));
                assert(text::views(out@) =~= built_in + custom.take(k + 1));
            }
            k += 1;
        }
        proof {
            assert(custom.take(custom.len() as int) =~= custom);
        }
        out
    }
}

// ---------------------------------------------------------------------------
// Laws
// ---------------------------------------------------------------------------

/// A press of a button of this device is routed to the command that the topic was
/// made for.
pub proof fn law_command_topic_routes_back(device: Seq<char>, name: Seq<char>)
    ensures
        routed(
            topics::command(device, name),
            topics::button_prefix(device),
            topics::notifications(device),
        ) == Some(name),
{
    let p = topics::button_prefix(device);
    let t = topics::command(device, name);
    let rest = name + "/action"@;
    assert(t.take(p.len() as int) =~= p);
    assert(t.skip(p.len() as int) =~= rest);
    assert(rest.skip(rest.len() - "/action"@.len()) =~= "/action"@);
    assert(rest.take(rest.len() - "/action"@.len()) =~= name);
}

/// The notification topic of this device is routed to "notification".
pub proof fn law_notification_topic_routes(device: Seq<char>)
    ensures
        routed(
            topics::notifications(device),
            topics::button_prefix(device),
            topics::notifications(device),
        ) == Some("notification"@),
{
    topics::law_notifications_are_no_command(device, device, seq![]);
}

/// A press of a button of another device is not routed, as long as the names of
/// the devices hold no slash.
pub proof fn law_other_devices_are_ignored(
    device: Seq<char>,
    other: Seq<char>,
    name: Seq<char>,
)
    requires
        device != other,
        !device.contains('/'),
        !other.contains('/'),
    ensures
        routed(
            topics::command(other, name),
            topics::button_prefix(device),
            topics::notifications(device),
        ) is None,
{
    reveal_strlit("homeassistant/button/");
    reveal_strlit("/");
    let p = topics::button_prefix(device);
    let t = topics::command(other, name);
    let n = "homeassistant/button/"@.len() as int;
    topics::law_notifications_are_no_command(device, other, name);
    if text::has_prefix(t, p) {
        assert(p[n + device.len()] == '/');
        assert(t[n + other.len()] == '/');
        assert forall|i: int| 0 <= i < p.len() implies t[i] == p[i] by {
            assert(t.take(p.len() as int)[i] == t[i]);
        }
        assert forall|i: int| 0 <= i < device.len() implies p[n + i] == #[trigger] device[i] by {}
        assert forall|i: int| 0 <= i < other.len() implies t[n + i] == #[trigger] other[i] by {}
        if device.len() < other.len() {
            assert(t[n + device.len()] == other[device.len() as int]);
            assert(other.contains('/'));
        } else if other.len() < device.len() {
            assert(p[n + other.len()] == device[other.len() as int]);
            assert(device.contains('/'));
        } else {
            assert forall|i: int| 0 <= i < device.len() implies device[i] == other[i] by {
                assert(p[n + i] == device[i]);
                assert(t[n + i] == other[i]);
            }
            assert(device =~= other);
        }
    }
}

proof fn lemma_enabled_topics(device: Seq<char>, names: Seq<Seq<char>>, f: FeatureConfig)
    ensures
        forall|name: Seq<char>|
            enabled_topics(device, names, f).contains(#[trigger] topics::command(device, name))
                <==> names.contains(name) && commands::feature_enabled(name, f),
        forall|i: int|
            0 <= i < enabled_topics(device, names, f).len() ==> exists|name: Seq<char>|
                (#[trigger] enabled_topics(device, names, f)[i]) == topics::command(device, name),
    decreases names.len(),
{
    let all = enabled_topics(device, names, f);
    if names.len() > 0 {
        let rest = names.drop_last();
        let before = enabled_topics(device, rest, f);
        let last = names.last();
        lemma_enabled_topics(device, rest, f);
        assert forall|name: Seq<char>|
            all.contains(#[trigger] topics::command(device, name)) <==> names.contains(name)
                && commands::feature_enabled(name, f) by {
            let t = topics::command(device, name);
            if all.contains(t) {
                let i = choose|i: int| 0 <= i < all.len() && all[i] == t;
                if i < before.len() {
                    assert(before[i] == t);
                    assert(before.contains(t));
                    let k = choose|k: int| 0 <= k < rest.len() && rest[k] == name;
                    assert(names[k] == name);
                } else {
                    topics::law_command_topics_are_distinct(device, name, last);
                    assert(names[names.len() - 1] == name);
                }
            }
            if names.contains(name) && commands::feature_enabled(name, f) {
                let k = choose|k: int| 0 <= k < names.len() && names[k] == name;
                if k < rest.len() {
                    assert(rest[k] == name);
                    assert(before.contains(t));
                    let i = choose|i: int| 0 <= i < before.len() && before[i] == t;
                    assert(all[i] == t);
                } else {
                    assert(all[all.len() - 1] == t);
                }
            }
        }
        assert forall|i: int| 0 <= i < all.len() implies exists|name: Seq<char>|
            (#[trigger] all[i]) == topics::command(device, name) by {
            if i < before.len() {
                assert(before[i] == all[i]);
            } else {
                assert(all[i] == topics::command(device, last));
            }
        }
    } else {
        assert forall|name: Seq<char>|
            all.contains(#[trigger] topics::command(device, name)) <==> names.contains(name)
                && commands::feature_enabled(name, f) by {
        }
    }
}

/// A built-in command is subscribed exactly if the guard in front of its
/// execution lets it through, as long as no custom command takes its name.
pub proof fn law_subscribed_iff_executable(
    device: Seq<char>,
    f: FeatureConfig,
    custom: Seq<CustomCommand>,
    name: Seq<char>,
)
    requires
        commands::native_commands().contains(name),
        forall|i: int| 0 <= i < custom.len() ==> (#[trigger] custom[i]).name@ != name,
    ensures
        subscribe_topics(device, f, custom).contains(topics::command(device, name))
            == commands::feature_enabled(name, f),
{
    let t = topics::command(device, name);
    let native = enabled_topics(device, commands::native_commands(), f);
    let notify = if f.notifications {
        seq![topics::notifications(device)]
    } else {
        Seq::<Seq<char>>::empty()
    };
    let customs = custom.map_values(|c: CustomCommand| topics::command(device, c.name@));
    let all = subscribe_topics(device, f, custom);
    lemma_enabled_topics(device, commands::native_commands(), f);
    if all.contains(t) {
        let i = choose|i: int| 0 <= i < all.len() && all[i] == t;
        if i < native.len() {
            assert(native[i] == t);
            assert(native.contains(t));
        } else if i < native.len() + notify.len() {
            topics::law_notifications_are_no_command(device, device, name);
            assert(all[i] == notify[i - native.len()]);
        } else {
            let k = i - native.len() - notify.len();
            assert(all[i] == customs[k]);
            assert(customs[k] == topics::command(device, custom[k].name@));
            topics::law_command_topics_are_distinct(device, name, custom[k].name@);
        }
    }
    if commands::feature_enabled(name, f) {
        assert(native.contains(t));
        let i = choose|i: int| 0 <= i < native.len() && native[i] == t;
        assert(all[i] == t);
    }
}

/// Every custom command is subscribed.
pub proof fn law_custom_commands_are_subscribed(
    device: Seq<char>,
    f: FeatureConfig,
    custom: Seq<CustomCommand>,
    k: int,
)
    requires
        0 <= k < custom.len(),
    ensures
        subscribe_topics(device, f, custom).contains(topics::command(device, custom[k].name@)),
{
    let native = enabled_topics(device, commands::native_commands(), f);
    let notify = if f.notifications {
        seq![topics::notifications(device)]
    } else {
        Seq::<Seq<char>>::empty()
    };
    let customs = custom.map_values(|c: CustomCommand| topics::command(device, c.name@));
    let all = subscribe_topics(device, f, custom);
    assert(all[native.len() + notify.len() + k] == customs[k]);
}

/// Every announced button can be pressed: the topic that its payload names is
/// subscribed.
pub proof fn law_announced_buttons_are_subscribed(
    device: Seq<char>,
    f: FeatureConfig,
    custom: Seq<CustomCommand>,
    i: int,
)
    requires
        0 <= i < discovery::buttons(f).len(),
    ensures
        discovery::buttons(f)[i] matches discovery::EntityView::Button { name, .. }
            && subscribe_topics(device, f, custom).contains(topics::command(device, name)),
{
    discovery::law_buttons_follow_the_gate(f);
    discovery::lemma_button_names(discovery::button_table(), f, i);
    let e = discovery::buttons(f)[i];
    assert(discovery::is_enabled_button(e, f));
    let k = choose|k: int|
        0 <= k < discovery::button_table().len() && e == (discovery::EntityView::Button {
            name: (#[trigger] discovery::button_table()[k]).0,
            icon: discovery::button_table()[k].1,
        });
    let name = discovery::button_table()[k].0;
    lemma_table_is_native(k);
    lemma_enabled_topics(device, commands::native_commands(), f);
    let native = enabled_topics(device, commands::native_commands(), f);
    let t = topics::command(device, name);
    assert(native.contains(t));
    let j = choose|j: int| 0 <= j < native.len() && native[j] == t;
    assert(subscribe_topics(device, f, custom)[j] == t);
}

/// Every button of the table belongs to a built-in command.
proof fn lemma_table_is_native(k: int)
    requires
        0 <= k < discovery::button_table().len(),
    ensures
        commands::native_commands().contains(discovery::button_table()[k].0),
{
    let n = commands::native_commands();
    let at = seq![0int, 2, 3, 4, 7, 9, 11, 10, 8, 5, 6, 15, 16, 17, 18, 19];
    assert(n[at[k]] == discovery::button_table()[k].0);
}

/// Nothing but a press of a button of this device and its notification topic is routed.
pub proof fn law_only_own_topics_are_routed(device: Seq<char>, topic: Seq<char>, name: Seq<char>)
    requires
        routed(topic, topics::button_prefix(device), topics::notifications(device)) == Some(name),
    ensures
        topic == "homeassistant/button/"@ + device + "/"@ + name + "/action"@ || (topic
            == "pc-bridge/notifications/"@ + device && name == "notification"@),
{
    let p = topics::button_prefix(device);
    if text::has_prefix(topic, p) {
        let rest = topic.skip(p.len() as int);
        if text::has_suffix(rest, "/action"@) {
            let n = rest.take(rest.len() - "/action"@.len());
            assert(topic =~= p + n + "/action"@);
        }
    }
}

/// The notification topic is subscribed exactly where notifications are on.
pub proof fn law_notifications_are_subscribed(
    device: Seq<char>,
    f: FeatureConfig,
    custom: Seq<CustomCommand>,
)
    ensures
        subscribe_topics(device, f, custom).contains("pc-bridge/notifications/"@ + device)
            == f.notifications,
{
    let t = topics::notifications(device);
    let native = enabled_topics(device, commands::native_commands(), f);
    let note = if f.notifications {
        seq![t]
    } else {
        Seq::<Seq<char>>::empty()
    };
    let own = custom.map_values(|c: CustomCommand| topics::command(device, c.name@));
    let all = subscribe_topics(device, f, custom);
    assert(all =~= native + note + own);
    lemma_enabled_topics(device, commands::native_commands(), f);
    if f.notifications {
        assert(all[native.len() as int] == t);
    }
    if all.contains(t) && !f.notifications {
        let i = choose|i: int| 0 <= i < all.len() && all[i] == t;
        if i < native.len() {
            assert(native[i] == t);
            let name = choose|name: Seq<char>| native[i] == topics::command(device, name);
            topics::law_notifications_are_no_command(device, device, name);
        } else {
            let k = i - native.len();
            assert(own[k] == topics::command(device, custom[k].name@));
            topics::law_notifications_are_no_command(device, device, custom[k].name@);
        }
    }
}

/// The topic of each built-in command is subscribed exactly where its own switch is on, as
/// long as no custom command takes a built-in name.
pub proof fn law_subscriptions_follow_the_switches(
    device: Seq<char>,
    f: FeatureConfig,
    custom: Seq<CustomCommand>,
)
    requires
        forall|i: int|
            0 <= i < custom.len() ==> !commands::native_commands().contains(
                (#[trigger] custom[i]).name@,
            ),
    ensures
        ({
            let subscribed = |name: Seq<char>|
                subscribe_topics(device, f, custom).contains(topics::command(device, name));
            &&& subscribed("Launch"@) == f.launch_game
            &&& subscribed("CloseGame"@) == f.close_game
            &&& subscribed("RefreshSteamGames"@) == f.steam_library
            &&& subscribed("Screensaver"@) == f.idle_tracking
            &&& subscribed("Wake"@) == f.idle_tracking
            &&& subscribed("DiscordJoin"@) == f.discord
            &&& subscribed("DiscordLeaveChannel"@) == f.discord
            &&& subscribed("Shutdown"@) == f.cmd_shutdown
            &&& subscribed("Restart"@) == f.cmd_restart
            &&& subscribed("Sleep"@) == f.cmd_sleep
            &&& subscribed("Hibernate"@) == f.cmd_sleep
            &&& subscribed("Lock"@) == f.cmd_lock
            &&& subscribed("Logoff"@) == f.cmd_logoff
            &&& subscribed("MonitorOff"@) == f.cmd_monitor
            &&& subscribed("MonitorOn"@) == f.cmd_monitor
            &&& subscribed("MediaPlayPause"@) == f.media_controls
            &&& subscribed("MediaNext"@) == f.media_controls
            &&& subscribed("MediaPrevious"@) == f.media_controls
            &&& subscribed("MediaStop"@) == f.media_controls
            &&& subscribed("VolumeMute"@) == f.media_controls
        }),
{
    commands::law_each_command_has_its_feature(f);
    lemma_subscribed(device, f, custom, "Launch"@);
    lemma_subscribed(device, f, custom, "CloseGame"@);
    lemma_subscribed(device, f, custom, "RefreshSteamGames"@);
    lemma_subscribed(device, f, custom, "Screensaver"@);
    lemma_subscribed(device, f, custom, "Wake"@);
    lemma_subscribed(device, f, custom, "DiscordJoin"@);
    lemma_subscribed(device, f, custom, "DiscordLeaveChannel"@);
    lemma_subscribed(device, f, custom, "Shutdown"@);
    lemma_subscribed(device, f, custom, "Restart"@);
    lemma_subscribed(device, f, custom, "Sleep"@);
    lemma_subscribed(device, f, custom, "Hibernate"@);
    lemma_subscribed(device, f, custom, "Lock"@);
    lemma_subscribed(device, f, custom, "Logoff"@);
    lemma_subscribed(device, f, custom, "MonitorOff"@);
    lemma_subscribed(device, f, custom, "MonitorOn"@);
    lemma_subscribed(device, f, custom, "MediaPlayPause"@);
    lemma_subscribed(device, f, custom, "MediaNext"@);
    lemma_subscribed(device, f, custom, "MediaPrevious"@);
    lemma_subscribed(device, f, custom, "MediaStop"@);
    lemma_subscribed(device, f, custom, "VolumeMute"@);
}

proof fn lemma_subscribed(
    device: Seq<char>,
    f: FeatureConfig,
    custom: Seq<CustomCommand>,
    name: Seq<char>,
)
    requires
        forall|i: int|
            0 <= i < custom.len() ==> !commands::native_commands().contains(
                (#[trigger] custom[i]).name@,
            ),
    ensures
        commands::native_commands().contains(name) ==> subscribe_topics(device, f, custom).contains(
            topics::command(device, name),
        ) == commands::feature_enabled(name, f),
        name == "Launch"@ || name == "CloseGame"@ || name == "RefreshSteamGames"@ || name == "Screensaver"@ || name == "Wake"@ || name == "DiscordJoin"@ || name == "DiscordLeaveChannel"@ || name == "Shutdown"@ || name == "Restart"@ || name == "Sleep"@ || name == "Hibernate"@ || name == "Lock"@ || name == "Logoff"@ || name == "MonitorOff"@ || name == "MonitorOn"@ || name == "MediaPlayPause"@ || name == "MediaNext"@ || name == "MediaPrevious"@ || name == "MediaStop"@ || name == "VolumeMute"@ ==> commands::native_commands().contains(name),
{
    commands::law_built_in_commands(name);
    if commands::native_commands().contains(name) {
        assert forall|i: int| 0 <= i < custom.len() implies (#[trigger] custom[i]).name@ != name by {
            assert(!commands::native_commands().contains(custom[i].name@));
        }
        law_subscribed_iff_executable(device, f, custom, name);
    }
}

} // verus!
