//! Display power on Linux: which source is asked, in which order, and what is
//! done where none answers.

use crate::commands::custom::{Invocation, InvocationView};
use crate::text;
use vstd::prelude::*;
use vstd::string::*;

verus! {

/// What a display power state is called.
pub open spec fn on_off(on: bool) -> Seq<char> {
    if on {
        "on"@
    } else {
        "off"@
    }
}

fn on_off_text(on: bool) -> (r: &'static str)
    ensures
        r@ == on_off(on),
{
    if on {
        "on"
    } else {
        "off"
    }
}

/// The display power state as far as it can be observed. X11 is asked first, but
/// not in a Wayland session, where it knows nothing of the real monitor. Where
/// neither answers there is no state.
pub fn observed_display_state(wayland: bool, x11_on: Option<bool>, wlr_on: Option<bool>) -> (r:
    Option<&'static str>)
    ensures
        match r {
            Some(s) => if !wayland && x11_on is Some {
                s@ == on_off(x11_on->0)
            } else {
                wlr_on is Some && s@ == on_off(wlr_on->0)
            },
            None => (wayland || x11_on is None) && wlr_on is None,
        },
{
    if !wayland {
        match x11_on {
            Some(on) => {
                return Some(on_off_text(on));
            },
            None => {},
        }
    }
    match wlr_on {
        Some(on) => Some(on_off_text(on)),
        None => None,
    }
}

/// What is done next to change the display power.
#[derive(Debug, Clone)]
pub enum DisplayStep {
    /// Ask X11.
    AskX11,
    /// Ask the Wayland output power protocol.
    AskWlr,
    /// Ask `xset`.
    AskXset,
    /// Run these tools, whatever each of them answers.
    RunTools(Vec<Invocation>),
    /// Say once that it is not supported.
    Warn,
    /// Nothing.
    Done,
}

/// A step as plain values.
pub enum DisplayStepView {
    AskX11,
    AskWlr,
    AskXset,
    RunTools(Seq<InvocationView>),
    Warn,
    Done,
}

impl View for DisplayStep {
    type V = DisplayStepView;

    open spec fn view(&self) -> DisplayStepView {
        match self {
            DisplayStep::AskX11 => DisplayStepView::AskX11,
            DisplayStep::AskWlr => DisplayStepView::AskWlr,
            DisplayStep::AskXset => DisplayStepView::AskXset,
            DisplayStep::RunTools(t) => DisplayStepView::RunTools(
                t@.map_values(|i: Invocation| i@),
            ),
            DisplayStep::Warn => DisplayStepView::Warn,
            DisplayStep::Done => DisplayStepView::Done,
        }
    }
}

/// The tools that wake the display where nothing else does: a keypress and `xset`
/// outside Wayland, and everywhere the screensaver of GNOME.
pub open spec fn wake_tools(wayland: bool) -> Seq<InvocationView> {
    let gnome = InvocationView {
        program: "dbus-send"@,
        args: seq![
            "--session"@,
            "--dest=org.gnome.ScreenSaver"@,
            "--type=method_call"@,
            "/org/gnome/ScreenSaver"@,
            "org.gnome.ScreenSaver.SetActive"@,
            "boolean:false"@,
        ],
    };
    if wayland {
        seq![gnome]
    } else {
        seq![
            InvocationView { program: "xdotool"@, args: seq!["key"@, "shift"@] },
            InvocationView { program: "xset"@, args: seq!["dpms"@, "force"@, "on"@] },
            gnome,
        ]
    }
}

fn gnome_tool() -> (r: Invocation)
    ensures
        seq![r@] == wake_tools(true),
{
    let r = Invocation {
        program: "dbus-send".to_string(),
        args: vec![
            "--session".to_string(),
            "--dest=org.gnome.ScreenSaver".to_string(),
            "--type=method_call".to_string(),
            "/org/gnome/ScreenSaver".to_string(),
            "org.gnome.ScreenSaver.SetActive".to_string(),
            "boolean:false".to_string(),
        ],
    };
    proof {
        assert(text::views(r.args@) =~= wake_tools(true)[0].args);
        assert(seq![r@] =~= wake_tools(true));
    }
    r
}

fn tools(wayland: bool) -> (r: Vec<Invocation>)
    ensures
        r@.map_values(|i: Invocation| i@) == wake_tools(wayland),
{
    let gnome = gnome_tool();
    proof {
        assert(gnome@ == seq![gnome@][0]);
        assert(wake_tools(true)[0] == wake_tools(false)[2]);
    }
    if wayland {
        let r = vec![gnome];
        proof {
            assert(r@.map_values(|i: Invocation| i@) =~= wake_tools(true));
        }
        return r;
    }
    let key = Invocation {
        program: "xdotool".to_string(),
        args: vec!["key".to_string(), "shift".to_string()],
    };
    let xset = Invocation {
        program: "xset".to_string(),
        args: vec!["dpms".to_string(), "force".to_string(), "on".to_string()],
    };
    proof {
        assert(text::views(key.args@) =~= wake_tools(false)[0].args);
        assert(text::views(xset.args@) =~= wake_tools(false)[1].args);
    }
    let r = vec![key, xset, gnome];
    proof {
        assert(r@.map_values(|i: Invocation| i@) =~= wake_tools(false));
    }
    r
}

/// The order in which the sources are asked. An answer is `None` as long as the
/// source has not been asked, and else whether it did what it was asked. `last`
/// is what is left where none did.
pub open spec fn asked_in_order(
    wayland: bool,
    x11: Option<bool>,
    wlr: Option<bool>,
    last: DisplayStepView,
) -> DisplayStepView {
    if !wayland && x11 is None {
        DisplayStepView::AskX11
    } else if !wayland && x11 == Some(true) {
        DisplayStepView::Done
    } else if wlr is None {
        DisplayStepView::AskWlr
    } else if wlr == Some(true) {
        DisplayStepView::Done
    } else {
        last
    }
}

/// What is done next to wake the display, given the answers so far.
pub fn wake_display(wayland: bool, x11: Option<bool>, wlr: Option<bool>) -> (r: DisplayStep)
    ensures
        r@ == asked_in_order(
            wayland,
            x11,
            wlr,
            DisplayStepView::RunTools(wake_tools(wayland)),
        ),
{
    if !wayland {
        match x11 {
            None => {
                return DisplayStep::AskX11;
            },
            Some(true) => {
                return DisplayStep::Done;
            },
            Some(false) => {},
        }
    }
    match wlr {
        None => DisplayStep::AskWlr,
        Some(true) => DisplayStep::Done,
        Some(false) => DisplayStep::RunTools(tools(wayland)),
    }
}

/// What is left to turn the display off where neither X11 nor Wayland did: outside
/// Wayland `xset`, and a warning unless one was given before.
pub open spec fn monitor_off_rest(
    wayland: bool,
    xset: Option<bool>,
    warned: bool,
) -> DisplayStepView {
    if !wayland && xset is None {
        DisplayStepView::AskXset
    } else if !wayland && xset == Some(true) {
        DisplayStepView::Done
    } else if warned {
        DisplayStepView::Done
    } else {
        DisplayStepView::Warn
    }
}

/// What is done next to turn the display off, given the answers so far and whether
/// the warning was given before.
pub fn monitor_off(
    wayland: bool,
    x11: Option<bool>,
    wlr: Option<bool>,
    xset: Option<bool>,
    warned: bool,
) -> (r: DisplayStep)
    ensures
        r@ == asked_in_order(wayland, x11, wlr, monitor_off_rest(wayland, xset, warned)),
{
    if !wayland {
        match x11 {
            None => {
                return DisplayStep::AskX11;
            },
            Some(true) => {
                return DisplayStep::Done;
            },
            Some(false) => {},
        }
    }
    match wlr {
        None => {
            return DisplayStep::AskWlr;
        },
        Some(true) => {
            return DisplayStep::Done;
        },
        Some(false) => {},
    }
    if !wayland {
        match xset {
            None => {
                return DisplayStep::AskXset;
            },
            Some(true) => {
                return DisplayStep::Done;
            },
            Some(false) => {},
        }
    }
    if warned {
        DisplayStep::Done
    } else {
        DisplayStep::Warn
    }
}

// ---------------------------------------------------------------------------
// Laws
// ---------------------------------------------------------------------------

/// X11 is asked first, but not on Wayland, and the compositor where X11 did not do it. The
/// first that does it ends the matter; where none does, the last resort is left.
pub proof fn law_sources_are_asked_in_order(
    wayland: bool,
    x11: Option<bool>,
    wlr: Option<bool>,
    last: DisplayStepView,
)
    ensures
        on_off(true) == "on"@,
        on_off(false) == "off"@,
        asked_in_order(false, None, wlr, last) == DisplayStepView::AskX11,
        asked_in_order(false, Some(true), wlr, last) == DisplayStepView::Done,
        asked_in_order(false, Some(false), None, last) == DisplayStepView::AskWlr,
        asked_in_order(false, Some(false), Some(true), last) == DisplayStepView::Done,
        asked_in_order(false, Some(false), Some(false), last) == last,
        asked_in_order(true, x11, None, last) == DisplayStepView::AskWlr,
        asked_in_order(true, x11, Some(true), last) == DisplayStepView::Done,
        asked_in_order(true, x11, Some(false), last) == last,
{
}

/// What is left to turn a display off is `xset`, but not on Wayland, and then a warning,
/// which is given once.
pub proof fn law_last_resort_of_turning_off(xset: Option<bool>, warned: bool)
    ensures
        monitor_off_rest(false, None, warned) == DisplayStepView::AskXset,
        monitor_off_rest(false, Some(true), warned) == DisplayStepView::Done,
        monitor_off_rest(false, Some(false), false) == DisplayStepView::Warn,
        monitor_off_rest(false, Some(false), true) == DisplayStepView::Done,
        monitor_off_rest(true, xset, false) == DisplayStepView::Warn,
        monitor_off_rest(true, xset, true) == DisplayStepView::Done,
{
}

/// The tools that wake a display: outside Wayland a key press and `xset`, and everywhere
/// the screensaver of GNOME is ended.
pub proof fn law_wake_tools()
    ensures
        wake_tools(false).len() == 3,
        wake_tools(false)[0].program == "xdotool"@,
        wake_tools(false)[0].args == seq!["key"@, "shift"@],
        wake_tools(false)[1].program == "xset"@,
        wake_tools(false)[1].args == seq!["dpms"@, "force"@, "on"@],
        wake_tools(false)[2] == wake_tools(true)[0],
        wake_tools(true).len() == 1,
        wake_tools(true)[0].program == "dbus-send"@,
        wake_tools(true)[0].args == seq![
            "--session"@,
            "--dest=org.gnome.ScreenSaver"@,
            "--type=method_call"@,
            "/org/gnome/ScreenSaver"@,
            "org.gnome.ScreenSaver.SetActive"@,
            "boolean:false"@,
        ],
{
}

} // verus!
