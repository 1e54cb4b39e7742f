//! Home Assistant discovery payloads.

use crate::text;
use crate::text::clone_strings;
use vstd::prelude::*;
use vstd::string::*;

verus! {

/// A discovery payload. Fields that are `None` do not appear on the wire.
#[derive(Debug, Clone)]
pub struct HADiscoveryPayload {
    pub name: String,
    pub unique_id: String,
    pub state_topic: Option<String>,
    pub command_topic: Option<String>,
    pub availability_topic: Option<String>,
    /// Used in place of `availability_topic` where an entity depends on more
    /// than one online signal.
    pub availability: Option<Vec<AvailabilityEntry>>,
    /// "all" or "any"; goes with `availability`.
    pub availability_mode: Option<String>,
    pub json_attributes_topic: Option<String>,
    pub device: HADevice,
    pub icon: Option<String>,
    pub device_class: Option<String>,
    pub unit_of_measurement: Option<String>,
    pub state_class: Option<String>,
}

/// One entry of the availability list.
#[derive(Debug, Clone)]
pub struct AvailabilityEntry {
    pub topic: String,
}

/// The device that all entities belong to.
#[derive(Debug, Clone)]
pub struct HADevice {
    pub identifiers: Vec<String>,
    pub name: String,
    pub model: String,
    pub manufacturer: String,
    pub sw_version: String,
}

/// A device as plain values.
pub struct DeviceView {
    pub identifiers: Seq<Seq<char>>,
    pub name: Seq<char>,
    pub model: Seq<char>,
    pub manufacturer: Seq<char>,
    pub sw_version: Seq<char>,
}

impl View for HADevice {
    type V = DeviceView;

    open spec fn view(&self) -> DeviceView {
        DeviceView {
            identifiers: text::views(self.identifiers@),
            name: self.name@,
            model: self.model@,
            manufacturer: self.manufacturer@,
            sw_version: self.sw_version@,
        }
    }
}

/// The device block of a bridge.
pub open spec fn bridge_device(
    device_id: Seq<char>,
    device_name: Seq<char>,
    version: Seq<char>,
) -> DeviceView {
    DeviceView {
        identifiers: seq![device_id],
        name: device_name,
        model: "PC Bridge v"@ + version,
        manufacturer: "dank0i"@,
        sw_version: version,
    }
}

impl HADevice {
    /// The device block of a bridge.
    pub fn bridge(device_id: &str, device_name: &str, version: &str) -> (r: Self)
        ensures
            r@ == bridge_device(device_id@, device_name@, version@),
    {
        let mut model = "PC Bridge v".to_string();
        model.append(version);
        let r = HADevice {
            identifiers: vec![device_id.to_string()],
            name: device_name.to_string(),
            model,
            manufacturer: "dank0i".to_string(),
            sw_version: version.to_string(),
        };
        proof {
            assert(text::views(r.identifiers@) =~= seq![device_id@]);
        }
        r
    }

    /// A copy of the device block.
    pub fn duplicate(&self) -> (r: Self)
        ensures
            r@ == self@,
    {
        HADevice {
            identifiers: clone_strings(&self.identifiers),
            name: self.name.clone(),
            model: self.model.clone(),
            manufacturer: self.manufacturer.clone(),
            sw_version: self.sw_version.clone(),
        }
    }
}

/// A payload as plain values.
pub struct PayloadView {
    pub name: Seq<char>,
    pub unique_id: Seq<char>,
    pub state_topic: Option<Seq<char>>,
    pub command_topic: Option<Seq<char>>,
    pub availability_topic: Option<Seq<char>>,
    pub availability: Option<Seq<Seq<char>>>,
    pub availability_mode: Option<Seq<char>>,
    pub json_attributes_topic: Option<Seq<char>>,
    pub device: DeviceView,
    pub icon: Option<Seq<char>>,
    pub device_class: Option<Seq<char>>,
    pub unit_of_measurement: Option<Seq<char>>,
    pub state_class: Option<Seq<char>>,
}

/// The topics of an availability list.
pub open spec fn entry_topics(v: Option<Vec<AvailabilityEntry>>) -> Option<Seq<Seq<char>>> {
    match v {
        Some(entries) => Some(entries@.map_values(|e: AvailabilityEntry| e.topic@)),
        None => None,
    }
}

impl View for HADiscoveryPayload {
    type V = PayloadView;

    open spec fn view(&self) -> PayloadView {
        PayloadView {
            name: self.name@,
            unique_id: self.unique_id@,
            state_topic: text::opt(self.state_topic),
            command_topic: text::opt(self.command_topic),
            availability_topic: text::opt(self.availability_topic),
            availability: entry_topics(self.availability),
            availability_mode: text::opt(self.availability_mode),
            json_attributes_topic: text::opt(self.json_attributes_topic),
            device: self.device@,
            icon: text::opt(self.icon),
            device_class: text::opt(self.device_class),
            unit_of_measurement: text::opt(self.unit_of_measurement),
            state_class: text::opt(self.state_class),
        }
    }
}

/// The state class of a sensor: a sensor with a unit is a measurement, unless
/// its device class says that its values are points in time or an enumeration.
pub open spec fn state_class_of(
    device_class: Option<Seq<char>>,
    unit: Option<Seq<char>>,
) -> Option<Seq<char>> {
    if device_class == Some("timestamp"@) || device_class == Some("enum"@) {
        None
    } else if unit is Some {
        Some("measurement"@)
    } else {
        None
    }
}

/// The characters of an optional string slice.
pub open spec fn opt_str(s: Option<&str>) -> Option<Seq<char>> {
    match s {
        Some(t) => Some(t@),
        None => None,
    }
}

/// Picks the state class that puts a numeric sensor into the long-term
/// statistics. `None` means that the sensor is no measurement.
pub fn derive_state_class(device_class: Option<&str>, unit: Option<&str>) -> (r: Option<String>)
    ensures
        text::opt(r) == state_class_of(opt_str(device_class), opt_str(unit)),
{
    if let Some(class) = device_class {
        if class.eq("timestamp") || class.eq("enum") {
            return None;
        }
    }
    match unit {
        Some(_) => Some("measurement".to_string()),
        None => None,
    }
}

// ---------------------------------------------------------------------------
// The wire form
// ---------------------------------------------------------------------------

/// The value of a field on the wire.
#[derive(Debug, Clone)]
pub enum WireValue {
    Text(String),
    /// A list of objects, each with the one field `topic`.
    Topics(Vec<String>),
    Device(HADevice),
    Number(u64),
}

/// The value of a field, as plain values.
pub enum WireView {
    Text(Seq<char>),
    Topics(Seq<Seq<char>>),
    Device(DeviceView),
    Number(u64),
}

impl View for WireValue {
    type V = WireView;

    open spec fn view(&self) -> WireView {
        match self {
            WireValue::Text(s) => WireView::Text(s@),
            WireValue::Topics(t) => WireView::Topics(text::views(t@)),
            WireValue::Device(d) => WireView::Device(d@),
            WireValue::Number(n) => WireView::Number(*n),
        }
    }
}

/// A field on the wire: its name and its value.
pub type WireField = (Seq<char>, WireView);

/// The fields as plain values.
pub open spec fn fields_view(v: Seq<(&'static str, WireValue)>) -> Seq<WireField> {
    v.map_values(|x: (&'static str, WireValue)| (x.0@, x.1@))
}

/// One text field, or none where there is no text.
pub open spec fn text_field(name: Seq<char>, value: Option<Seq<char>>) -> Seq<WireField> {
    match value {
        Some(t) => seq![(name, WireView::Text(t))],
        None => seq![],
    }
}

/// The fields of a payload in the order in which they are written; those that
/// have no value are left out.
pub open spec fn payload_fields(p: PayloadView) -> Seq<WireField> {
    seq![("name"@, WireView::Text(p.name)), ("unique_id"@, WireView::Text(p.unique_id))]
        + text_field("state_topic"@, p.state_topic) + text_field("command_topic"@, p.command_topic)
        + text_field("availability_topic"@, p.availability_topic) + (match p.availability {
        Some(topics) => seq![("availability"@, WireView::Topics(topics))],
        None => seq![],
    }) + text_field("availability_mode"@, p.availability_mode) + text_field(
        "json_attributes_topic"@,
        p.json_attributes_topic,
    ) + seq![("device"@, WireView::Device(p.device))] + text_field("icon"@, p.icon) + text_field(
        "device_class"@,
        p.device_class,
    ) + text_field("unit_of_measurement"@, p.unit_of_measurement) + text_field(
        "state_class"@,
        p.state_class,
    )
}

fn push_text(
    out: &mut Vec<(&'static str, WireValue)>,
    name: &'static str,
    value: &Option<String>,
)
    ensures
        fields_view(final(out)@) == fields_view(old(out)@) + text_field(name@, text::opt(*value)),
{
    match value {
        Some(t) => {
            out.push((name, WireValue::Text(t.clone())));
            proof {
                assert(fields_view(out@) =~= fields_view(old(out)@) + text_field(
                    name@,
                    text::opt(*value),
                ));
            }
        },
        None => {
            proof {
                assert(fields_view(out@) =~= fields_view(old(out)@) + text_field(
                    name@,
                    text::opt(*value),
                ));
            }
        },
    }
}

fn topics_of(entries: &Vec<AvailabilityEntry>) -> (r: Vec<String>)
    ensures
        text::views(r@) == entries@.map_values(|e: AvailabilityEntry| e.topic@),
{
    let mut topics: Vec<String> = Vec::new();
    let mut i: usize = 0;
    while i < entries.len()
        invariant
            i <= entries.len(),
            topics@.len() == i,
            forall|k: int| 0 <= k < i ==> (#[trigger] topics@[k])@ == entries@[k].topic@,
        decreases entries.len() - i,
    {
        topics.push(entries[i].topic.clone());
        i += 1;
    }
    proof {
        assert(text::views(topics@) =~= entries@.map_values(|e: AvailabilityEntry| e.topic@));
    }
    topics
}

impl HADiscoveryPayload {
    /// The fields that are written, in order.
    pub fn fields(&self) -> (r: Vec<(&'static str, WireValue)>)
        ensures
            fields_view(r@) == payload_fields(self@),
    {
        let mut out: Vec<(&'static str, WireValue)> = Vec::new();
        out.push(("name", WireValue::Text(self.name.clone())));
        out.push(("unique_id", WireValue::Text(self.unique_id.clone())));
        proof {
            assert(fields_view(out@) =~= seq![
                ("name"@, WireView::Text(self.name@)),
                ("unique_id"@, WireView::Text(self.unique_id@)),
            ]);
        }
        push_text(&mut out, "state_topic", &self.state_topic);
        push_text(&mut out, "command_topic", &self.command_topic);
        push_text(&mut out, "availability_topic", &self.availability_topic);
        let ghost before = fields_view(out@);
        match &self.availability {
            Some(entries) => {
                out.push(("availability", WireValue::Topics(topics_of(entries))));
                proof {
                    assert(fields_view(out@) =~= before + seq![
                        ("availability"@, WireView::Topics(entry_topics(self.availability)->0)),
                    ]);
                }
            },
            None => {
                proof {
                    assert(fields_view(out@) =~= before + Seq::<WireField>::empty());
                }
            },
        }
        push_text(&mut out, "availability_mode", &self.availability_mode);
        push_text(&mut out, "json_attributes_topic", &self.json_attributes_topic);
        let ghost before_device = fields_view(out@);
        out.push(("device", WireValue::Device(self.device.duplicate())));
        proof {
            assert(fields_view(out@) =~= before_device + seq![
                ("device"@, WireView::Device(self.device@)),
            ]);
        }
        push_text(&mut out, "icon", &self.icon);
        push_text(&mut out, "device_class", &self.device_class);
        push_text(&mut out, "unit_of_measurement", &self.unit_of_measurement);
        push_text(&mut out, "state_class", &self.state_class);
        out
    }
}

/// The discovery payload of the notify service.
#[derive(Debug, Clone)]
pub struct NotifyPayload {
    pub name: String,
    pub unique_id: String,
    pub command_topic: String,
    pub availability_topic: String,
    pub device: HADevice,
    pub icon: String,
    pub qos: u64,
}

/// The payload of the notify service as plain values.
pub struct NotifyView {
    pub name: Seq<char>,
    pub unique_id: Seq<char>,
    pub command_topic: Seq<char>,
    pub availability_topic: Seq<char>,
    pub device: DeviceView,
    pub icon: Seq<char>,
    pub qos: u64,
}

impl View for NotifyPayload {
    type V = NotifyView;

    open spec fn view(&self) -> NotifyView {
        NotifyView {
            name: self.name@,
            unique_id: self.unique_id@,
            command_topic: self.command_topic@,
            availability_topic: self.availability_topic@,
            device: self.device@,
            icon: self.icon@,
            qos: self.qos,
        }
    }
}

/// The fields of the notify payload.
pub open spec fn notify_fields(p: NotifyView) -> Seq<WireField> {
    seq![
        ("name"@, WireView::Text(p.name)),
        ("unique_id"@, WireView::Text(p.unique_id)),
        ("command_topic"@, WireView::Text(p.command_topic)),
        ("availability_topic"@, WireView::Text(p.availability_topic)),
        ("device"@, WireView::Device(p.device)),
        ("icon"@, WireView::Text(p.icon)),
        ("qos"@, WireView::Number(p.qos)),
    ]
}

impl NotifyPayload {
    /// The fields that are written.
    pub fn fields(&self) -> (r: Vec<(&'static str, WireValue)>)
        ensures
            fields_view(r@) == notify_fields(self@),
    {
        let mut out: Vec<(&'static str, WireValue)> = Vec::new();
        out.push(("name", WireValue::Text(self.name.clone())));
        out.push(("unique_id", WireValue::Text(self.unique_id.clone())));
        out.push(("command_topic", WireValue::Text(self.command_topic.clone())));
        out.push(("availability_topic", WireValue::Text(self.availability_topic.clone())));
        out.push(("device", WireValue::Device(self.device.duplicate())));
        out.push(("icon", WireValue::Text(self.icon.clone())));
        out.push(("qos", WireValue::Number(self.qos)));
        proof {
            assert(fields_view(out@) =~= notify_fields(self@));
        }
        out
    }
}

// ---------------------------------------------------------------------------
// Laws
// ---------------------------------------------------------------------------

/// What a bridge says of itself.
pub proof fn law_bridge_device(id: Seq<char>, name: Seq<char>, version: Seq<char>)
    ensures
        bridge_device(id, name, version).identifiers == seq![id],
        bridge_device(id, name, version).name == name,
        bridge_device(id, name, version).model == "PC Bridge v"@ + version,
        bridge_device(id, name, version).manufacturer == "dank0i"@,
        bridge_device(id, name, version).sw_version == version,
{
}

/// A sensor with a unit is a measurement, unless its values are points in time or an
/// enumeration; a sensor without a unit is none.
pub proof fn law_state_classes(class: Option<Seq<char>>, unit: Option<Seq<char>>)
    ensures
        unit is None ==> state_class_of(class, unit) is None,
        class == Some("timestamp"@) || class == Some("enum"@) ==> state_class_of(class, unit)
            is None,
        unit is Some && class != Some("timestamp"@) && class != Some("enum"@) ==> state_class_of(
            class,
            unit,
        ) == Some("measurement"@),
{
}

proof fn lemma_either_part(a: Seq<WireField>, b: Seq<WireField>, x: WireField)
    ensures
        (a + b).contains(x) <==> a.contains(x) || b.contains(x),
{
    if a.contains(x) {
        let i = choose|i: int| 0 <= i < a.len() && a[i] == x;
        assert((a + b)[i] == x);
    }
    if b.contains(x) {
        let i = choose|i: int| 0 <= i < b.len() && b[i] == x;
        assert((a + b)[a.len() + i] == x);
    }
    if (a + b).contains(x) {
        let i = choose|i: int| 0 <= i < (a + b).len() && (a + b)[i] == x;
        if i < a.len() {
            assert(a[i] == x);
        } else {
            assert(b[i - a.len()] == x);
        }
    }
}

proof fn lemma_text_field(name: Seq<char>, value: Option<Seq<char>>, x: WireField)
    ensures
        text_field(name, value).contains(x) <==> value is Some && x == (
            name,
            WireView::Text(value->0),
        ),
{
    if value is Some {
        assert(text_field(name, value)[0] == (name, WireView::Text(value->0)));
    }
}

/// A payload is written with its name, its id and its device, and with each other field
/// that has a value, and with nothing else.
pub proof fn law_written_fields(p: PayloadView, x: WireField)
    ensures
        payload_fields(p).contains(x) <==> {
            ||| x == ("name"@, WireView::Text(p.name))
            ||| x == ("unique_id"@, WireView::Text(p.unique_id))
            ||| x == ("device"@, WireView::Device(p.device))
            ||| p.state_topic is Some && x == ("state_topic"@, WireView::Text(p.state_topic->0))
            ||| p.command_topic is Some && x == (
                "command_topic"@,
                WireView::Text(p.command_topic->0),
            )
            ||| p.availability_topic is Some && x == (
                "availability_topic"@,
                WireView::Text(p.availability_topic->0),
            )
            ||| p.availability is Some && x == ("availability"@, WireView::Topics(p.availability->0))
            ||| p.availability_mode is Some && x == (
                "availability_mode"@,
                WireView::Text(p.availability_mode->0),
            )
            ||| p.json_attributes_topic is Some && x == (
                "json_attributes_topic"@,
                WireView::Text(p.json_attributes_topic->0),
            )
            ||| p.icon is Some && x == ("icon"@, WireView::Text(p.icon->0))
            ||| p.device_class is Some && x == ("device_class"@, WireView::Text(p.device_class->0))
            ||| p.unit_of_measurement is Some && x == (
                "unit_of_measurement"@,
                WireView::Text(p.unit_of_measurement->0),
            )
            ||| p.state_class is Some && x == ("state_class"@, WireView::Text(p.state_class->0))
        },
{
    let named = seq![("name"@, WireView::Text(p.name)), ("unique_id"@, WireView::Text(p.unique_id))];
    let list = match p.availability {
        Some(topics) => seq![("availability"@, WireView::Topics(topics))],
        None => seq![],
    };
    let device = seq![("device"@, WireView::Device(p.device))];
    assert(named.contains(x) <==> x == named[0] || x == named[1]) by {
        assert(named.len() == 2);
        if x == named[0] || x == named[1] {
            assert(named.contains(named[0]) && named.contains(named[1]));
        }
    }
    assert(list.contains(x) <==> p.availability is Some && x == (
        "availability"@,
        WireView::Topics(p.availability->0),
    )) by {
        if p.availability is Some {
            assert(list[0] == ("availability"@, WireView::Topics(p.availability->0)));
        }
    }
    assert(device.contains(x) <==> x == ("device"@, WireView::Device(p.device))) by {
        assert(device[0] == ("device"@, WireView::Device(p.device)));
    }
    let a = text_field("state_topic"@, p.state_topic);
    let b = text_field("command_topic"@, p.command_topic);
    let c = text_field("availability_topic"@, p.availability_topic);
    let d = text_field("availability_mode"@, p.availability_mode);
    let e = text_field("json_attributes_topic"@, p.json_attributes_topic);
    let f = text_field("icon"@, p.icon);
    let g = text_field("device_class"@, p.device_class);
    let h = text_field("unit_of_measurement"@, p.unit_of_measurement);
    let i = text_field("state_class"@, p.state_class);
    lemma_text_field("state_topic"@, p.state_topic, x);
    lemma_text_field("command_topic"@, p.command_topic, x);
    lemma_text_field("availability_topic"@, p.availability_topic, x);
    lemma_text_field("availability_mode"@, p.availability_mode, x);
    lemma_text_field("json_attributes_topic"@, p.json_attributes_topic, x);
    lemma_text_field("icon"@, p.icon, x);
    lemma_text_field("device_class"@, p.device_class, x);
    lemma_text_field("unit_of_measurement"@, p.unit_of_measurement, x);
    lemma_text_field("state_class"@, p.state_class, x);
    lemma_three_parts(named, a, b, c, x);
    lemma_three_parts(named + a + b + c, list, d, e, x);
    lemma_three_parts(named + a + b + c + list + d + e, device, f, g, x);
    lemma_three_parts(
        named + a + b + c + list + d + e + device + f + g,
        h,
        i,
        Seq::<WireField>::empty(),
        x,
    );
    let all = named + a + b + c + list + d + e + device + f + g + h + i;
    assert(all + Seq::<WireField>::empty() =~= all);
    assert(payload_fields(p) == all);
}

proof fn lemma_three_parts(
    s: Seq<WireField>,
    a: Seq<WireField>,
    b: Seq<WireField>,
    c: Seq<WireField>,
    x: WireField,
)
    ensures
        (s + a + b + c).contains(x) <==> s.contains(x) || a.contains(x) || b.contains(x)
            || c.contains(x),
{
    lemma_either_part(s, a, x);
    lemma_either_part(s + a, b, x);
    lemma_either_part(s + a + b, c, x);
}

/// The notify service is written with these seven fields.
pub proof fn law_written_notify_fields(p: NotifyView)
    ensures
        notify_fields(p).len() == 7,
        notify_fields(p)[0] == ("name"@, WireView::Text(p.name)),
        notify_fields(p)[1] == ("unique_id"@, WireView::Text(p.unique_id)),
        notify_fields(p)[2] == ("command_topic"@, WireView::Text(p.command_topic)),
        notify_fields(p)[3] == ("availability_topic"@, WireView::Text(p.availability_topic)),
        notify_fields(p)[4] == ("device"@, WireView::Device(p.device)),
        notify_fields(p)[5] == ("icon"@, WireView::Text(p.icon)),
        notify_fields(p)[6] == ("qos"@, WireView::Number(p.qos)),
{
}

} // verus!
