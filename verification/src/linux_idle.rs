//! How long the user has been idle on Linux: from the desktop's services, or from
//! the idle notifications of a Wayland compositor.

use vstd::prelude::*;

verus! {

/// The idle time that the desktop's services give, in milliseconds. GNOME answers
/// in milliseconds and is asked first, KDE answers in seconds.
pub fn desktop_idle_millis(mutter_ms: Option<u64>, kde_secs: Option<u32>) -> (r: Option<u64>)
    ensures
        match r {
            Some(ms) => match mutter_ms {
                Some(m) => ms == m,
                None => kde_secs is Some && ms == kde_secs->0 * 1000,
            },
            None => mutter_ms is None && kde_secs is None,
        },
{
    match mutter_ms {
        Some(ms) => Some(ms),
        None => match kde_secs {
            Some(secs) => Some(secs as u64 * 1000),
            None => None,
        },
    }
}

/// How long without input until the compositor calls the user idle, in
/// milliseconds.
pub const IDLE_THRESHOLD_MS: u32 = 1000;

/// What the listener to idle notifications knows. Times are milliseconds on a
/// clock that does not go back.
#[derive(Debug, Clone, Copy, PartialEq, Eq, Structural)]
pub struct IdleListener {
    /// The compositor sends notifications.
    pub available: bool,
    /// When the current idle period began.
    pub idle_since: Option<u64>,
    /// The listener was started.
    pub spawned: bool,
}

/// How long ago an idle period began that is reported now: by the threshold, as
/// far as the clock goes back.
pub open spec fn began_at(now: u64) -> u64 {
    if now >= IDLE_THRESHOLD_MS {
        (now - IDLE_THRESHOLD_MS) as u64
    } else {
        now
    }
}

impl IdleListener {
    /// What is known once the compositor has called the user idle or active. An idle
    /// period began when the threshold began to run.
    pub open spec fn notified(self, idle: bool, now: u64) -> Self {
        IdleListener {
            idle_since: if idle {
                Some(began_at(now))
            } else {
                None
            },
            ..self
        }
    }

    /// What is known once the compositor has begun or ceased to send notifications.
    pub open spec fn reached(self, available: bool) -> Self {
        IdleListener {
            available,
            idle_since: if available {
                self.idle_since
            } else {
                None
            },
            ..self
        }
    }

    /// The idle time in milliseconds; none where there are no notifications.
    pub open spec fn idle_time(self, now: u64) -> Option<int> {
        if !self.available {
            None
        } else {
            match self.idle_since {
                None => Some(0),
                Some(t) => if now >= t {
                    Some(now - t)
                } else {
                    Some(0)
                },
            }
        }
    }

    /// Before it was started.
    pub fn new() -> (r: Self)
        ensures
            r == (IdleListener { available: false, idle_since: None, spawned: false }),
    {
        IdleListener { available: false, idle_since: None, spawned: false }
    }

    /// Whether the listener is to be started: only the first time.
    pub fn ensure_started(&mut self) -> (r: bool)
        ensures
            r == !old(self).spawned,
            *final(self) == (IdleListener { spawned: true, ..*old(self) }),
    {
        if self.spawned {
            return false;
        }
        self.spawned = true;
        true
    }

    /// The compositor sends notifications from now on, or does not any more.
    pub fn set_available(&mut self, available: bool)
        ensures
            *final(self) == old(self).reached(available),
    {
        self.available = available;
        if !available {
            self.idle_since = None;
        }
    }

    /// The compositor calls the user idle or active.
    pub fn set_idle(&mut self, idle: bool, now: u64)
        ensures
            *final(self) == old(self).notified(idle, now),
    {
        self.idle_since = if idle {
            if now >= IDLE_THRESHOLD_MS as u64 {
                Some(now - IDLE_THRESHOLD_MS as u64)
            } else {
                Some(now)
            }
        } else {
            None
        };
    }

    /// The idle time in milliseconds; none where there are no notifications.
    pub fn idle_millis(&self, now: u64) -> (r: Option<u64>)
        ensures
            match r {
                Some(ms) => self.idle_time(now) == Some(ms as int),
                None => self.idle_time(now) is None,
            },
    {
        if !self.available {
            return None;
        }
        match self.idle_since {
            None => Some(0),
            Some(t) => {
                if now >= t {
                    Some(now - t)
                } else {
                    Some(0)
                }
            },
        }
    }
}

/// Once the user is called idle, the idle time counts on from the threshold; once
/// the user is called active it is zero; and without notifications there is none.
pub proof fn law_idle_time_counts_from_the_threshold(l: IdleListener, idled: u64, now: u64)
    requires
        l.available,
        idled <= now,
    ensures
        idled >= IDLE_THRESHOLD_MS ==> l.notified(true, idled).idle_time(now) == Some(
            now - idled + IDLE_THRESHOLD_MS,
        ),
        idled < IDLE_THRESHOLD_MS ==> l.notified(true, idled).idle_time(now) == Some(now - idled),
        l.notified(false, idled).idle_time(now) == Some(0int),
        l.notified(true, idled).reached(false).idle_time(now) is None,
        l.notified(true, idled).reached(false).reached(true).idle_time(now) == Some(0int),
{
}

/// The user is called idle after a second without input, so an idle period that is
/// reported now began a second ago.
pub proof fn law_idle_periods_begin_a_second_ago(l: IdleListener, now: u64)
    ensures
        IDLE_THRESHOLD_MS == 1000,
        now >= 1000 ==> l.notified(true, now).idle_since == Some((now - 1000) as u64),
        now < 1000 ==> l.notified(true, now).idle_since == Some(now),
        l.notified(false, now).idle_since is None,
        l.notified(true, now).available == l.available,
        l.notified(true, now).spawned == l.spawned,
        l.reached(true) == (IdleListener { available: true, ..l }),
        l.reached(false) == (IdleListener { available: false, idle_since: None, ..l }),
{
}

/// The idle time is the time since the idle period began, zero outside of one and where the
/// clock was set back, and unknown without notifications.
pub proof fn law_idle_time(l: IdleListener, now: u64, began: u64)
    ensures
        !l.available ==> l.idle_time(now) is None,
        l.available && l.idle_since is None ==> l.idle_time(now) == Some(0int),
        l.available && l.idle_since == Some(began) && began <= now ==> l.idle_time(now) == Some(
            now - began,
        ),
        l.available && l.idle_since == Some(began) && now < began ==> l.idle_time(now) == Some(0int),
{
}

} // verus!
