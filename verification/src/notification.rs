//! Notifications: their title and message, and how each platform shows them.

use crate::commands::custom::{Invocation, InvocationView};
use crate::text;
use crate::text::chars_of;
use vstd::prelude::*;
use vstd::string::*;

verus! {

/// A notification.
#[derive(Debug, Clone)]
pub struct NotificationPayload {
    pub title: String,
    pub message: String,
}

/// The title and the message.
pub open spec fn payload_view(p: NotificationPayload) -> (Seq<char>, Seq<char>) {
    (p.title@, p.message@)
}

impl NotificationPayload {
    /// Reads a payload: `parsed` is the notification that it spells as JSON, if it
    /// does; else the payload is the message.
    pub fn from_payload(payload: &str, parsed: Option<NotificationPayload>) -> (r: Self)
        ensures
            payload_view(r) == (match parsed {
                Some(p) => payload_view(p),
                None => (Seq::<char>::empty(), payload@),
            }),
    {
        match parsed {
            Some(p) => p,
            None => NotificationPayload { title: String::new(), message: payload.to_string() },
        }
    }

    /// The title and the message that are shown: without a title that of the
    /// sender, and without a message the payload itself.
    pub fn shown(&self, payload: &str) -> (r: (String, String))
        ensures
            (r.0@, r.1@) == shown_texts(payload_view(*self), payload@),
    {
        let title = if self.title.as_str().is_empty() {
            "Home Assistant".to_string()
        } else {
            self.title.clone()
        };
        let message = if self.message.as_str().is_empty() {
            payload.to_string()
        } else {
            self.message.clone()
        };
        (title, message)
    }
}

/// The title and the message that are shown.
pub open spec fn shown_texts(n: (Seq<char>, Seq<char>), payload: Seq<char>) -> (
    Seq<char>,
    Seq<char>,
) {
    (
        if n.0.len() == 0 {
            "Home Assistant"@
        } else {
            n.0
        },
        if n.1.len() == 0 {
            payload
        } else {
            n.1
        },
    )
}

// ---------------------------------------------------------------------------
// Windows
// ---------------------------------------------------------------------------

/// A character as it stands in XML. A control character that XML does not take is
/// left out.
pub open spec fn xml_char(c: char) -> Seq<char> {
    if c < ' ' && c != '\t' && c != '\n' && c != '\r' {
        seq![]
    } else if c == '&' {
        "&amp;"@
    } else if c == '<' {
        "&lt;"@
    } else if c == '>' {
        "&gt;"@
    } else if c == '\'' {
        "&apos;"@
    } else if c == '"' {
        "&quot;"@
    } else {
        seq![c]
    }
}

/// A text as it stands in XML.
pub open spec fn xml_text(s: Seq<char>) -> Seq<char>
    decreases s.len(),
{
    if s.len() == 0 {
        seq![]
    } else {
        xml_text(s.drop_last()) + xml_char(s.last())
    }
}

/// A text as it stands in XML.
pub fn escape_xml(s: &str) -> (r: String)
    ensures
        r@ == xml_text(s@),
{
    let cs = chars_of(s);
    let mut out = String::new();
    let mut i: usize = 0;
    proof {
        assert(cs@.take(0) =~= Seq::<char>::empty());
    }
    while i < cs.len()
        invariant
            i <= cs.len(),
            out@ == xml_text(cs@.take(i as int)),
        decreases cs.len() - i,
    {
        let ghost before = out@;
        let c = cs[i];
        if c < ' ' && c != '\t' && c != '\n' && c != '\r' {
        } else if c == '&' {
            out.append("&amp;");
        } else if c == '<' {
            out.append("&lt;");
        } else if c == '>' {
            out.append("&gt;");
        } else if c == '\'' {
            out.append("&apos;");
        } else if c == '"' {
            out.append("&quot;");
        } else {
            out.push(c);
        }
        proof {
            assert(cs@.take(i + 1).drop_last() =~= cs@.take(i as int));
            assert(cs@.take(i + 1).last() == c);
            assert(out@ =~= before + xml_char(c));
        }
        i += 1;
    }
    proof {
        assert(cs@.take(cs@.len() as int) =~= cs@);
    }
    out
}

/// No text breaks out of the element that it stands in: once escaped it holds no
/// angle bracket and no quote.
pub proof fn law_escaped_text_has_no_markup(s: Seq<char>)
    ensures
        !xml_text(s).contains('<'),
        !xml_text(s).contains('>'),
        !xml_text(s).contains('"'),
        !xml_text(s).contains('\''),
    decreases s.len(),
{
    if s.len() > 0 {
        law_escaped_text_has_no_markup(s.drop_last());
        let c = s.last();
        reveal_strlit("&amp;");
        reveal_strlit("&lt;");
        reveal_strlit("&gt;");
        reveal_strlit("&apos;");
        reveal_strlit("&quot;");
        let a = xml_text(s.drop_last());
        let b = xml_char(c);
        assert forall|i: int| 0 <= i < b.len() implies b[i] != '<' && b[i] != '>' && b[i] != '"'
            && b[i] != '\'' by {
        }
        assert forall|i: int| 0 <= i < (a + b).len() implies (a + b)[i] != '<' && (a + b)[i] != '>'
            && (a + b)[i] != '"' && (a + b)[i] != '\'' by {
            if i < a.len() {
                assert(a.contains(a[i]));
                assert((a + b)[i] == a[i]);
            } else {
                assert((a + b)[i] == b[i - a.len()]);
            }
        }
    }
}

/// The toast that Windows shows for a title and a message.
pub open spec fn toast(title: Seq<char>, message: Seq<char>) -> Seq<char> {
    "<toast>\n            <visual>\n                <binding template=\"ToastText02\">\n                    <text id=\"1\">"@
        + xml_text(title) + "</text>\n                    <text id=\"2\">"@ + xml_text(message)
        + "</text>\n                </binding>\n            </visual>\n        </toast>"@
}

/// The toast that Windows shows for a title and a message, as XML.
pub fn toast_xml(title: &str, message: &str) -> (r: String)
    ensures
        r@ == toast(title@, message@),
{
    let mut s = "<toast>\n            <visual>\n                <binding template=\"ToastText02\">\n                    <text id=\"1\">".to_string();
    s.append(&escape_xml(title));
    s.append("</text>\n                    <text id=\"2\">");
    s.append(&escape_xml(message));
    s.append("</text>\n                </binding>\n            </visual>\n        </toast>");
    s
}

// ---------------------------------------------------------------------------
// Linux
// ---------------------------------------------------------------------------

/// The tool that is tried first.
pub open spec fn notify_send_of(title: Seq<char>, message: Seq<char>) -> InvocationView {
    InvocationView {
        program: "notify-send"@,
        args: seq!["--app-name=PC Bridge"@, "--icon=dialog-information"@, title, message],
    }
}

/// The tool that is tried where the first one cannot be started.
pub open spec fn gdbus_of(title: Seq<char>, message: Seq<char>) -> InvocationView {
    InvocationView {
        program: "gdbus"@,
        args: seq![
            "call"@,
            "--session"@,
            "--dest=org.freedesktop.Notifications"@,
            "--object-path=/org/freedesktop/Notifications"@,
            "--method=org.freedesktop.Notifications.Notify"@,
            "PC Bridge"@,
            "0"@,
            "dialog-information"@,
            title,
            message,
            "[]"@,
            "{}"@,
            "-1"@,
        ],
    }
}

/// The tool that is tried first, with its arguments.
pub fn notify_send(title: &str, message: &str) -> (r: Invocation)
    ensures
        r@ == notify_send_of(title@, message@),
{
    let r = Invocation {
        program: "notify-send".to_string(),
        args: vec![
            "--app-name=PC Bridge".to_string(),
            "--icon=dialog-information".to_string(),
            title.to_string(),
            message.to_string(),
        ],
    };
    proof {
        assert(text::views(r.args@) =~= notify_send_of(title@, message@).args);
    }
    r
}

/// The tool that is tried where the first one cannot be started, with its
/// arguments.
pub fn gdbus_notify(title: &str, message: &str) -> (r: Invocation)
    ensures
        r@ == gdbus_of(title@, message@),
{
    let r = Invocation {
        program: "gdbus".to_string(),
        args: vec![
            "call".to_string(),
            "--session".to_string(),
            "--dest=org.freedesktop.Notifications".to_string(),
            "--object-path=/org/freedesktop/Notifications".to_string(),
            "--method=org.freedesktop.Notifications.Notify".to_string(),
            "PC Bridge".to_string(),
            "0".to_string(),
            "dialog-information".to_string(),
            title.to_string(),
            message.to_string(),
            "[]".to_string(),
            "{}".to_string(),
            "-1".to_string(),
        ],
    };
    proof {
        assert(text::views(r.args@) =~= gdbus_of(title@, message@).args);
    }
    r
}

// ---------------------------------------------------------------------------
// Laws
// ---------------------------------------------------------------------------

/// A title and a message that were given are shown; a missing title is that of the
/// sender, and a missing message is the payload.
pub proof fn law_what_is_shown(title: Seq<char>, message: Seq<char>, payload: Seq<char>)
    ensures
        title.len() > 0 ==> shown_texts((title, message), payload).0 == title,
        title.len() == 0 ==> shown_texts((title, message), payload).0 == "Home Assistant"@,
        message.len() > 0 ==> shown_texts((title, message), payload).1 == message,
        message.len() == 0 ==> shown_texts((title, message), payload).1 == payload,
{
}

proof fn lemma_xml_parts(a: Seq<char>, b: Seq<char>)
    ensures
        xml_text(a + b) == xml_text(a) + xml_text(b),
    decreases b.len(),
{
    if b.len() == 0 {
        assert(a + b =~= a);
        assert(xml_text(a) + xml_text(b) =~= xml_text(a));
    } else {
        lemma_xml_parts(a, b.drop_last());
        assert((a + b).drop_last() =~= a + b.drop_last());
        assert(xml_text(a + b) =~= xml_text(a) + xml_text(b));
    }
}

/// Each character of a text stands in the XML in its place: the five that XML gives a
/// meaning to as the entities that stand for them, a control character other than a tab
/// and the line breaks not at all, and any other as it is.
pub proof fn law_every_character_is_escaped(before: Seq<char>, c: char, after: Seq<char>)
    ensures
        ({
            let all = xml_text(before + seq![c] + after);
            let put = |t: Seq<char>| all == xml_text(before) + t + xml_text(after);
            &&& c == '&' ==> put("&amp;"@)
            &&& c == '<' ==> put("&lt;"@)
            &&& c == '>' ==> put("&gt;"@)
            &&& c == '\'' ==> put("&apos;"@)
            &&& c == '"' ==> put("&quot;"@)
            &&& c < ' ' && c != '\t' && c != '\n' && c != '\r' ==> put(Seq::<char>::empty())
            &&& (c >= ' ' || c == '\t' || c == '\n' || c == '\r') && c != '&' && c != '<' && c
                != '>' && c != '\'' && c != '"' ==> put(seq![c])
        }),
        xml_text(Seq::<char>::empty()).len() == 0,
{
    lemma_xml_parts(before + seq![c], after);
    lemma_xml_parts(before, seq![c]);
    let one = seq![c];
    assert(one.drop_last() =~= Seq::<char>::empty());
    assert(xml_text(one.drop_last()) =~= Seq::<char>::empty());
    assert(one.last() == c);
    assert(xml_text(one) =~= xml_char(c));
    assert(xml_text(before) + xml_char(c) + xml_text(after) =~= xml_text(before + seq![c] + after));
}

/// The title and the message reach the tools that show them on Linux as they are, the
/// title first.
pub proof fn law_linux_notifications(title: Seq<char>, message: Seq<char>)
    ensures
        notify_send_of(title, message).program == "notify-send"@,
        notify_send_of(title, message).args == seq![
            "--app-name=PC Bridge"@,
            "--icon=dialog-information"@,
            title,
            message,
        ],
        gdbus_of(title, message).program == "gdbus"@,
        gdbus_of(title, message).args.len() == 13,
        gdbus_of(title, message).args[0] == "call"@,
        gdbus_of(title, message).args[1] == "--session"@,
        gdbus_of(title, message).args[2] == "--dest=org.freedesktop.Notifications"@,
        gdbus_of(title, message).args[3] == "--object-path=/org/freedesktop/Notifications"@,
        gdbus_of(title, message).args[4] == "--method=org.freedesktop.Notifications.Notify"@,
        gdbus_of(title, message).args[5] == "PC Bridge"@,
        gdbus_of(title, message).args[6] == "0"@,
        gdbus_of(title, message).args[7] == "dialog-information"@,
        gdbus_of(title, message).args[8] == title,
        gdbus_of(title, message).args[9] == message,
        gdbus_of(title, message).args[10] == "[]"@,
        gdbus_of(title, message).args[11] == "{}"@,
        gdbus_of(title, message).args[12] == "-1"@,
{
}

/// A toast holds the title in its first text and the message in its second, both escaped,
/// and nothing else of them.
pub proof fn law_toast_texts(title: Seq<char>, message: Seq<char>)
    ensures
        ({
            let t = toast(title, message);
            let a = xml_text(title);
            let b = xml_text(message);
            let head = "<toast>\n            <visual>\n                <binding template=\"ToastText02\">\n                    <text id=\"1\">"@;
            let mid = "</text>\n                    <text id=\"2\">"@;
            let tail = "</text>\n                </binding>\n            </visual>\n        </toast>"@;
            &&& t.len() == head.len() + a.len() + mid.len() + b.len() + tail.len()
            &&& t.take(head.len() as int) == head
            &&& t.subrange(head.len() as int, (head.len() + a.len()) as int) == a
            &&& t.subrange(
                (head.len() + a.len() + mid.len()) as int,
                (head.len() + a.len() + mid.len() + b.len()) as int,
            ) == b
            &&& t.skip((head.len() + a.len() + mid.len() + b.len()) as int) == tail
        }),
{
    let t = toast(title, message);
    let a = xml_text(title);
    let b = xml_text(message);
    let head = "<toast>\n            <visual>\n                <binding template=\"ToastText02\">\n                    <text id=\"1\">"@;
    let mid = "</text>\n                    <text id=\"2\">"@;
    let tail = "</text>\n                </binding>\n            </visual>\n        </toast>"@;
    let h = head.len() as int;
    assert(t.take(h) =~= head);
    assert(t.subrange(h, h + a.len()) =~= a);
    assert(t.subrange(h + a.len() + mid.len(), h + a.len() + mid.len() + b.len()) =~= b);
    assert(t.skip(h + a.len() + mid.len() + b.len()) =~= tail);
}

} // verus!
