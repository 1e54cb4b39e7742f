//! Audio control: media keys, and what the `pactl` tool says and is told.

use crate::text;
use crate::text::{chars_of, contains, string_of, sub_chars, trim_chars};
use vstd::prelude::*;
use vstd::string::*;

verus! {

/// A media key.
#[derive(Debug, Clone, Copy, PartialEq, Eq, Structural)]
pub enum MediaKey {
    PlayPause,
    Next,
    Previous,
    Stop,
    VolumeUp,
    VolumeDown,
    VolumeMute,
}

/// The X11 name of a media key.
pub open spec fn x11_key(key: MediaKey) -> Seq<char> {
    match key {
        MediaKey::PlayPause => "XF86AudioPlay"@,
        MediaKey::Next => "XF86AudioNext"@,
        MediaKey::Previous => "XF86AudioPrev"@,
        MediaKey::Stop => "XF86AudioStop"@,
        MediaKey::VolumeUp => "XF86AudioRaiseVolume"@,
        MediaKey::VolumeDown => "XF86AudioLowerVolume"@,
        MediaKey::VolumeMute => "XF86AudioMute"@,
    }
}

/// The Windows virtual-key code of a media key.
pub open spec fn virtual_key(key: MediaKey) -> u16 {
    match key {
        MediaKey::PlayPause => 0xB3,
        MediaKey::Next => 0xB0,
        MediaKey::Previous => 0xB1,
        MediaKey::Stop => 0xB2,
        MediaKey::VolumeUp => 0xAF,
        MediaKey::VolumeDown => 0xAE,
        MediaKey::VolumeMute => 0xAD,
    }
}

impl MediaKey {
    /// The X11 name that `xdotool` takes.
    pub fn x11_name(self) -> (r: &'static str)
        ensures
            r@ == x11_key(self),
    {
        match self {
            MediaKey::PlayPause => "XF86AudioPlay",
            MediaKey::Next => "XF86AudioNext",
            MediaKey::Previous => "XF86AudioPrev",
            MediaKey::Stop => "XF86AudioStop",
            MediaKey::VolumeUp => "XF86AudioRaiseVolume",
            MediaKey::VolumeDown => "XF86AudioLowerVolume",
            MediaKey::VolumeMute => "XF86AudioMute",
        }
    }

    /// The Windows virtual-key code.
    pub fn virtual_key_code(self) -> (r: u16)
        ensures
            r == virtual_key(self),
    {
        match self {
            MediaKey::PlayPause => 0xB3,
            MediaKey::Next => 0xB0,
            MediaKey::Previous => 0xB1,
            MediaKey::Stop => 0xB2,
            MediaKey::VolumeUp => 0xAF,
            MediaKey::VolumeDown => 0xAE,
            MediaKey::VolumeMute => 0xAD,
        }
    }
}

/// The mute state that a toggle sets: the opposite of the current one. Where the
/// current state is not known there is nothing to set, and the toggle fails.
pub fn toggle_mute(current: Option<bool>) -> (r: Option<bool>)
    ensures
        r == (match current {
            Some(muted) => Some(!muted),
            None => None::<bool>,
        }),
{
    match current {
        Some(muted) => Some(!muted),
        None => None,
    }
}

/// What follows the last `c` in `s`, or all of `s` where there is none.
pub open spec fn after_last(s: Seq<char>, c: char) -> Seq<char>
    decreases s.len(),
{
    if s.len() == 0 {
        s
    } else if s.last() == c {
        seq![]
    } else {
        after_last(s.drop_last(), c).push(s.last())
    }
}

/// The number in front of the first percent sign: what stands between the last
/// space before it and the sign.
pub open spec fn volume_number(stdout: Seq<char>) -> Option<Seq<char>> {
    match text::split_once_spec(stdout, '%') {
        Some((before, _)) => Some(text::trim(after_last(before, ' '))),
        None => None,
    }
}

proof fn lemma_after_last(s: Seq<char>, c: char, k: int)
    requires
        0 <= k <= s.len(),
        forall|j: int| k <= j < s.len() ==> s[j] != c,
        k > 0 ==> s[k - 1] == c,
    ensures
        after_last(s, c) == s.skip(k),
    decreases s.len(),
{
    if k < s.len() {
        let t = s.drop_last();
        lemma_after_last(t, c, k);
        assert(t.skip(k).push(s.last()) =~= s.skip(k));
    } else {
        assert(s.skip(k) =~= seq![]);
    }
}

/// The number that `pactl get-sink-volume` prints in front of the first percent
/// sign, as text.
pub fn volume_text(stdout: &str) -> (r: Option<String>)
    ensures
        text::opt(r) == volume_number(stdout@),
{
    match text::split_once(&chars_of(stdout), '%') {
        Some((before, _after)) => {
            let mut k: usize = before.len();
            while k > 0 && before[k - 1] != ' '
                invariant
                    k <= before.len(),
                    forall|j: int| k <= j < before.len() ==> before@[j] != ' ',
                decreases k,
            {
                k -= 1;
            }
            let word = sub_chars(&before, k, before.len());
            proof {
                lemma_after_last(before@, ' ', k as int);
                assert(word@ =~= before@.skip(k as int));
            }
            Some(string_of(&trim_chars(&word)))
        },
        None => None,
    }
}

/// Whether `pactl get-sink-mute` says that the sink is muted.
pub fn mute_state(stdout: &str) -> (r: bool)
    ensures
        r == text::contains_text(stdout@, "yes"@),
{
    contains(&chars_of(stdout), "yes")
}

/// The argument that sets the volume to a percentage.
pub fn volume_argument(percent: u32) -> (r: String)
    ensures
        r@ == text::decimal(percent as nat) + "%"@,
{
    let mut s = text::decimal_string(percent as u64);
    s.append("%");
    s
}

/// The argument that mutes or unmutes.
pub fn mute_argument(mute: bool) -> (r: &'static str)
    ensures
        r@ == (if mute {
            "1"@
        } else {
            "0"@
        }),
{
    if mute {
        "1"
    } else {
        "0"
    }
}

/// The media keys by the names that X11 has for them.
pub proof fn law_media_keys_of_x11()
    ensures
        x11_key(MediaKey::PlayPause) == "XF86AudioPlay"@,
        x11_key(MediaKey::Next) == "XF86AudioNext"@,
        x11_key(MediaKey::Previous) == "XF86AudioPrev"@,
        x11_key(MediaKey::Stop) == "XF86AudioStop"@,
        x11_key(MediaKey::VolumeUp) == "XF86AudioRaiseVolume"@,
        x11_key(MediaKey::VolumeDown) == "XF86AudioLowerVolume"@,
        x11_key(MediaKey::VolumeMute) == "XF86AudioMute"@,
{
}

/// The media keys by the codes that Windows has for them.
pub proof fn law_media_keys_of_windows()
    ensures
        virtual_key(MediaKey::VolumeMute) == 0xAD,
        virtual_key(MediaKey::VolumeDown) == 0xAE,
        virtual_key(MediaKey::VolumeUp) == 0xAF,
        virtual_key(MediaKey::Next) == 0xB0,
        virtual_key(MediaKey::Previous) == 0xB1,
        virtual_key(MediaKey::Stop) == 0xB2,
        virtual_key(MediaKey::PlayPause) == 0xB3,
{
}

/// The volume is the number that stands directly in front of the first percent sign,
/// after a space or at the beginning.
pub proof fn law_volume_is_read(before: Seq<char>, number: Seq<char>, rest: Seq<char>)
    requires
        !before.contains('%'),
        !number.contains('%'),
        !number.contains(' '),
    ensures
        volume_number(before + seq![' '] + number + seq!['%'] + rest) == Some(text::trim(number)),
        volume_number(number + seq!['%'] + rest) == Some(text::trim(number)),
        volume_number(before) is None,
{
    let front = before + seq![' '] + number;
    if front.contains('%') {
        let i = choose|i: int| 0 <= i < front.len() && front[i] == '%';
        if i < before.len() {
            assert(front[i] == before[i]);
        } else if i > before.len() {
            assert(front[i] == number[i - before.len() - 1]);
        }
    }
    text::law_split_at_the_first(front, '%', rest);
    text::law_split_at_the_first(number, '%', rest);
    text::law_split_at_the_first(before, '%', rest);
    let k = before.len() as int + 1;
    assert forall|j: int| k <= j < front.len() implies front[j] != ' ' by {
        assert(front[j] == number[j - k]);
    }
    lemma_after_last(front, ' ', k);
    assert(front.skip(k) =~= number);
    lemma_after_last(number, ' ', 0);
    assert(number.skip(0) =~= number);
}

} // verus!
