//! Whether a monitor is physically attached, on Windows. This is another question
//! than whether the display has power: a machine without any monitor reports
//! power. Virtual displays do not count.

use crate::text;
use crate::text::{chars_of, contains, from_utf16_lossy, to_ascii_upper};
use vstd::prelude::*;
use vstd::string::*;

verus! {

/// How long a burst of notifications is collected before the monitors are looked
/// at, in milliseconds.
pub const DEBOUNCE_MS: u64 = 750;

/// How often the monitors are looked at where the system says nothing by itself, in
/// seconds.
pub const POLL_SECS: u64 = 5;

/// What the sensor says.
#[derive(Debug, Clone, Copy, PartialEq, Eq, Structural)]
pub enum Attachment {
    Attached,
    Detached,
    /// Nothing could be observed.
    Unknown,
}

/// The text of a value.
pub open spec fn attachment_text(a: Attachment) -> Seq<char> {
    match a {
        Attachment::Attached => "attached"@,
        Attachment::Detached => "detached"@,
        Attachment::Unknown => "unknown"@,
    }
}

impl Attachment {
    /// The text that is published.
    pub fn as_str(self) -> (r: &'static str)
        ensures
            r@ == attachment_text(self),
    {
        match self {
            Attachment::Attached => "attached",
            Attachment::Detached => "detached",
            Attachment::Unknown => "unknown",
        }
    }
}

/// The value of an observation.
pub open spec fn attachment(probed: Option<bool>) -> Attachment {
    match probed {
        Some(true) => Attachment::Attached,
        Some(false) => Attachment::Detached,
        None => Attachment::Unknown,
    }
}

/// The value to publish, if any: an observation is published when it differs from
/// what was published last. A failed one counts as `Unknown` and is published
/// too, so that no stale value stands.
pub fn publish_change(last: Option<Attachment>, probed: Option<bool>) -> (r: Option<Attachment>)
    ensures
        r == (if last == Some(attachment(probed)) {
            None
        } else {
            Some(attachment(probed))
        }),
{
    let value = match probed {
        Some(true) => Attachment::Attached,
        Some(false) => Attachment::Detached,
        None => Attachment::Unknown,
    };
    match last {
        Some(l) => {
            if l == value {
                None
            } else {
                Some(value)
            }
        },
        None => Some(value),
    }
}

// ---------------------------------------------------------------------------
// The sensor
// ---------------------------------------------------------------------------

/// What happens to the sensor.
#[derive(Debug, Clone, Copy, PartialEq, Eq, Structural)]
pub enum DisplayEvent {
    /// The system will say when monitors come and go.
    Registered,
    /// It will not.
    RegistrationFailed,
    /// The connection to the broker came back, perhaps more than once.
    Reconnected,
    /// Nobody will say any more that it came back.
    ReconnectsClosed,
    /// A monitor came or went. One plug makes several of these.
    Changed,
    /// The system says nothing any more.
    ChangesClosed,
    /// It is time to look, where the system says nothing by itself.
    Tick,
    /// The monitors were looked at.
    Probed(Option<bool>),
    /// The sensor is to stop.
    Stopping,
}

/// What the sensor does next.
#[derive(Debug, Clone, Copy, PartialEq, Eq, Structural)]
pub enum DisplayAction {
    /// Let further changes arrive for so many milliseconds, take them as one, and
    /// look at the monitors.
    Probe { settle_ms: u64 },
    /// Publish the value, and wait for the next event.
    Publish(Attachment),
    /// Wait for the next event.
    Wait,
    /// Publish the value, and do nothing more until the sensor is to stop.
    PublishAndPark(Attachment),
    /// Stop.
    Stop,
}

/// What was published last, and what is done, after an event. The last value is
/// forgotten when the connection comes back, so that the next observation is
/// published in any case: the broker may have lost it.
pub open spec fn after_event(last: Option<Attachment>, event: DisplayEvent) -> (
    Option<Attachment>,
    DisplayAction,
) {
    match event {
        DisplayEvent::Registered => (last, DisplayAction::Probe { settle_ms: 0 }),
        DisplayEvent::RegistrationFailed => (
            Some(Attachment::Unknown),
            DisplayAction::PublishAndPark(Attachment::Unknown),
        ),
        DisplayEvent::Reconnected => (None, DisplayAction::Probe { settle_ms: 0 }),
        DisplayEvent::Changed => (last, DisplayAction::Probe { settle_ms: DEBOUNCE_MS }),
        DisplayEvent::Tick => (last, DisplayAction::Probe { settle_ms: 0 }),
        DisplayEvent::Probed(probed) => if last == Some(attachment(probed)) {
            (last, DisplayAction::Wait)
        } else {
            (Some(attachment(probed)), DisplayAction::Publish(attachment(probed)))
        },
        DisplayEvent::ReconnectsClosed => (last, DisplayAction::Stop),
        DisplayEvent::ChangesClosed => (last, DisplayAction::Stop),
        DisplayEvent::Stopping => (last, DisplayAction::Stop),
    }
}

/// What was published last, and what is done, after an event.
pub fn on_event(last: Option<Attachment>, event: DisplayEvent) -> (r: (
    Option<Attachment>,
    DisplayAction,
))
    ensures
        r == after_event(last, event),
{
    match event {
        DisplayEvent::Registered => (last, DisplayAction::Probe { settle_ms: 0 }),
        DisplayEvent::RegistrationFailed => (
            Some(Attachment::Unknown),
            DisplayAction::PublishAndPark(Attachment::Unknown),
        ),
        DisplayEvent::Reconnected => (None, DisplayAction::Probe { settle_ms: 0 }),
        DisplayEvent::Changed => (last, DisplayAction::Probe { settle_ms: DEBOUNCE_MS }),
        DisplayEvent::Tick => (last, DisplayAction::Probe { settle_ms: 0 }),
        DisplayEvent::Probed(probed) => match publish_change(last, probed) {
            Some(value) => (Some(value), DisplayAction::Publish(value)),
            None => (last, DisplayAction::Wait),
        },
        DisplayEvent::ReconnectsClosed => (last, DisplayAction::Stop),
        DisplayEvent::ChangesClosed => (last, DisplayAction::Stop),
        DisplayEvent::Stopping => (last, DisplayAction::Stop),
    }
}

/// Once the connection came back, the next observation is published, whatever was
/// published before.
pub proof fn law_reconnecting_publishes_again(last: Option<Attachment>, probed: Option<bool>)
    ensures
        after_event(after_event(last, DisplayEvent::Reconnected).0, DisplayEvent::Probed(probed)).1
            == DisplayAction::Publish(attachment(probed)),
{
}

/// The same observation is not published twice in a row.
pub proof fn law_repeated_observations_are_published_once(
    last: Option<Attachment>,
    probed: Option<bool>,
)
    ensures
        after_event(
            after_event(last, DisplayEvent::Probed(probed)).0,
            DisplayEvent::Probed(probed),
        ).1 == DisplayAction::Wait,
{
}

// ---------------------------------------------------------------------------
// Monitors
// ---------------------------------------------------------------------------

/// Parts of the names of virtual displays, in upper case.
pub open spec fn virtual_markers() -> Seq<Seq<char>> {
    seq!["PSCCDD0"@, "IDDSAMPLEDRIVER"@, "USBMMIDD"@, "VIRTUALDISPLAY"@]
}

/// Parts of the names of virtual displays, in upper case.
pub fn virtual_display_markers() -> (r: [&'static str; 4])
    ensures
        r@.map_values(|m: &'static str| m@) == virtual_markers(),
{
    let r: [&'static str; 4] = ["PSCCDD0", "IDDSAMPLEDRIVER", "USBMMIDD", "VIRTUALDISPLAY"];
    proof {
        assert(r@.map_values(|m: &'static str| m@) =~= virtual_markers());
    }
    r
}

/// The monitor is virtual: its name holds one of the markers, in upper or lower
/// case.
pub open spec fn virtual_display(link: Seq<char>) -> bool {
    exists|i: int|
        0 <= i < virtual_markers().len() && text::contains_text(
            text::ascii_upper_all(link),
            #[trigger] virtual_markers()[i],
        )
}

/// Whether the symbolic link of a monitor is that of a virtual display.
pub fn is_virtual_display(link: &str) -> (r: bool)
    ensures
        r == virtual_display(link@),
{
    let upper = to_ascii_upper(&chars_of(link));
    let markers = virtual_display_markers();
    let mut i: usize = 0;
    while i < 4
        invariant
            i <= 4,
            upper@ == text::ascii_upper_all(link@),
            markers@.map_values(|m: &'static str| m@) == virtual_markers(),
            markers@.len() == 4,
            virtual_markers().len() == 4,
            forall|k: int|
                0 <= k < i ==> !text::contains_text(upper@, #[trigger] virtual_markers()[k]),
        decreases 4 - i,
    {
        proof {
            assert(markers@[i as int]@ == markers@.map_values(|m: &'static str| m@)[i as int]);
        }
        if contains(&upper, markers[i]) {
            proof {
                assert(text::contains_text(upper@, virtual_markers()[i as int]));
            }
            return true;
        }
        i += 1;
    }
    false
}

/// Where the first text of a list ends: at its first NUL, or at the end.
pub open spec fn first_nul(list: Seq<u16>) -> int
    decreases list.len(),
{
    if list.len() == 0 || list[0] == 0 {
        0
    } else {
        1 + first_nul(list.skip(1))
    }
}

/// Some text of the list names a monitor that is not virtual. The list holds
/// UTF-16 texts that end in a NUL; an empty one names nothing.
pub open spec fn names_physical(list: Seq<u16>) -> bool
    decreases list.len(),
{
    let n = first_nul(list);
    let here = n > 0 && !virtual_display(text::lossy_utf16(list.take(n)));
    if 0 <= n < list.len() {
        here || names_physical(list.skip(n + 1))
    } else {
        here
    }
}

proof fn lemma_first_nul_is(list: Seq<u16>, k: int)
    requires
        0 <= k <= list.len(),
        forall|j: int| 0 <= j < k ==> list[j] != 0,
        k < list.len() ==> list[k] == 0,
    ensures
        first_nul(list) == k,
    decreases k,
{
    if k > 0 {
        let rest = list.skip(1);
        assert forall|j: int| 0 <= j < k - 1 implies rest[j] != 0 by {
            assert(rest[j] == list[j + 1]);
        }
        lemma_first_nul_is(rest, k - 1);
    }
}

fn sub_units(units: &[u16], from: usize, to: usize) -> (r: Vec<u16>)
    requires
        from <= to <= units@.len(),
    ensures
        r@ == units@.subrange(from as int, to as int),
{
    let mut out: Vec<u16> = Vec::new();
    let mut i: usize = from;
    while i < to
        invariant
            from <= i <= to <= units@.len(),
            out@ == units@.subrange(from as int, i as int),
        decreases to - i,
    {
        out.push(units[i]);
        proof {
            assert(units@.subrange(from as int, i + 1) =~= units@.subrange(
                from as int,
                i as int,
            ).push(units@[i as int]));
        }
        i += 1;
    }
    out
}

/// Whether a monitor that is not virtual is present. `list` is the list of monitor
/// interfaces as the system gives it, or nothing where it could not be had.
pub fn physical_display_present(list: Option<&[u16]>) -> (r: Option<bool>)
    ensures
        r == (match list {
            Some(l) => Some(names_physical(l@)),
            None => None::<bool>,
        }),
{
    match list {
        Some(l) => Some(lists_physical(l)),
        None => None,
    }
}

fn lists_physical(l: &[u16]) -> (r: bool)
    ensures
        r == names_physical(l@),
{
    let mut start: usize = 0;
    proof {
        assert(l@.skip(0) =~= l@);
    }
    loop
        invariant_except_break
            start <= l@.len(),
            names_physical(l@) == names_physical(l@.skip(start as int)),
        ensures
            !names_physical(l@),
        decreases l@.len() - start,
    {
        let ghost rest = l@.skip(start as int);
        let mut end: usize = start;
        while end < l.len() && l[end] != 0
            invariant
                start <= end <= l@.len(),
                forall|j: int| start <= j < end ==> l@[j] != 0,
            decreases l@.len() - end,
        {
            end += 1;
        }
        proof {
            assert forall|j: int| 0 <= j < end - start implies rest[j] != 0 by {
                assert(rest[j] == l@[start + j]);
            }
            lemma_first_nul_is(rest, end - start);
        }
        if end > start {
            let units = sub_units(l, start, end);
            proof {
                assert(units@ =~= rest.take(end - start));
            }
            let link = from_utf16_lossy(&units);
            if !is_virtual_display(&link) {
                return true;
            }
        }
        if end >= l.len() {
            break;
        }
        proof {
            assert(rest.skip(end - start + 1) =~= l@.skip(end + 1));
        }
        start = end + 1;
    }
    false
}

/// A virtual display never changes the answer, and a monitor that is not virtual
/// makes it true, whatever else is listed: the list may begin with any text that is
/// followed by a NUL.
pub proof fn law_virtual_displays_do_not_count(link: Seq<u16>, list: Seq<u16>)
    requires
        forall|j: int| 0 <= j < link.len() ==> link[j] != 0,
    ensures
        names_physical(link.push(0) + list) == (names_physical(list) || (link.len() > 0
            && !virtual_display(text::lossy_utf16(link)))),
{
    let all = link.push(0) + list;
    lemma_first_nul_is(all, link.len() as int);
    assert(all.take(link.len() as int) =~= link);
    assert(all.skip(link.len() as int + 1) =~= list);
}

/// Without any listed text there is no monitor.
pub proof fn law_no_text_is_no_monitor(list: Seq<u16>)
    requires
        forall|j: int| 0 <= j < list.len() ==> list[j] == 0,
    ensures
        !names_physical(list),
    decreases list.len(),
{
    if list.len() > 0 {
        lemma_first_nul_is(list, 0);
        law_no_text_is_no_monitor(list.skip(1));
    } else {
        lemma_first_nul_is(list, 0);
    }
}

/// What is done at each event: a change is looked at after three quarters of a second, a
/// tick, a registration and a new connection at once; an observation is published unless
/// it is what was published last; a failed registration publishes that nothing is known
/// and then waits for the end; and the end stops.
pub proof fn law_what_each_event_does(last: Option<Attachment>, probed: Option<bool>)
    ensures
        after_event(last, DisplayEvent::Registered) == (
            last,
            DisplayAction::Probe { settle_ms: 0 },
        ),
        after_event(last, DisplayEvent::Tick) == (last, DisplayAction::Probe { settle_ms: 0 }),
        after_event(last, DisplayEvent::Changed) == (
            last,
            DisplayAction::Probe { settle_ms: 750 },
        ),
        after_event(last, DisplayEvent::Reconnected) == (
            None::<Attachment>,
            DisplayAction::Probe { settle_ms: 0 },
        ),
        after_event(last, DisplayEvent::RegistrationFailed) == (
            Some(Attachment::Unknown),
            DisplayAction::PublishAndPark(Attachment::Unknown),
        ),
        after_event(last, DisplayEvent::ReconnectsClosed) == (last, DisplayAction::Stop),
        after_event(last, DisplayEvent::ChangesClosed) == (last, DisplayAction::Stop),
        after_event(last, DisplayEvent::Stopping) == (last, DisplayAction::Stop),
        ({
            let now = match probed {
                Some(b) => if b {
                    Attachment::Attached
                } else {
                    Attachment::Detached
                },
                None => Attachment::Unknown,
            };
            after_event(last, DisplayEvent::Probed(probed)) == (if last == Some(now) {
                (last, DisplayAction::Wait)
            } else {
                (Some(now), DisplayAction::Publish(now))
            })
        }),
        attachment_text(Attachment::Attached) == "attached"@,
        attachment_text(Attachment::Detached) == "detached"@,
        attachment_text(Attachment::Unknown) == "unknown"@,
{
}

/// A display is virtual exactly where its name holds one of the four markers, in any
/// letter case.
pub proof fn law_virtual_displays(link: Seq<char>)
    ensures
        virtual_display(link) <==> text::contains_text(text::ascii_upper_all(link), "PSCCDD0"@)
            || text::contains_text(text::ascii_upper_all(link), "IDDSAMPLEDRIVER"@)
            || text::contains_text(text::ascii_upper_all(link), "USBMMIDD"@) || text::contains_text(
            text::ascii_upper_all(link),
            "VIRTUALDISPLAY"@,
        ),
{
    let all = virtual_markers();
    assert(all[0] == "PSCCDD0"@);
    assert(all[1] == "IDDSAMPLEDRIVER"@);
    assert(all[2] == "USBMMIDD"@);
    assert(all[3] == "VIRTUALDISPLAY"@);
}

} // verus!
