//! One-shot MQTT 3.1.1 publish of the sleep state.
//!
//! The exchange is CONNECT, CONNACK, PUBLISH, DISCONNECT over one stream. This
//! module builds the packets and decides each step; the caller owns the stream.

use crate::config;
use crate::config::Config;
use crate::mqtt::topics;
use crate::mqtt::topics::sensor_topic_of;
use crate::text;
use crate::text::{
    chars_of, push_decimal, push_hex_byte, read_unsigned, split_char, string_of, strip_prefix,
};
use vstd::prelude::*;
use vstd::string::*;
use vstd::utf8::*;

verus! {

/// Broker connection used for the synchronous publish.
#[derive(Debug, Clone)]
pub struct SyncMqttConfig {
    pub host: String,
    pub port: u16,
    pub use_tls: bool,
    pub user: String,
    pub pass: String,
    pub client_id: String,
    pub sleep_topic: String,
}

// ---------------------------------------------------------------------------
// Broker URL
// ---------------------------------------------------------------------------

/// The part of a broker URL after its scheme, and whether the scheme asks for
/// TLS. A URL without a known scheme is taken whole and in clear.
pub open spec fn broker_address(url: Seq<char>) -> (Seq<char>, bool) {
    if text::strip_prefix_spec(url, "ssl://"@) is Some {
        (text::strip_prefix_spec(url, "ssl://"@)->0, true)
    } else if text::strip_prefix_spec(url, "wss://"@) is Some {
        (text::strip_prefix_spec(url, "wss://"@)->0, true)
    } else if text::strip_prefix_spec(url, "tcp://"@) is Some {
        (text::strip_prefix_spec(url, "tcp://"@)->0, false)
    } else if text::strip_prefix_spec(url, "ws://"@) is Some {
        (text::strip_prefix_spec(url, "ws://"@)->0, false)
    } else {
        (url, false)
    }
}

/// The port used when the URL names none, or none that fits in sixteen bits.
pub open spec fn default_port(use_tls: bool) -> u16 {
    if use_tls {
        8883
    } else {
        1883
    }
}

/// Host, port and TLS of a broker URL: the host is what precedes the first
/// colon of the address, the port what stands between the first and the second.
pub open spec fn broker_url(url: Seq<char>) -> (Seq<char>, nat, bool) {
    let (address, use_tls) = broker_address(url);
    let parts = text::split_on(address, ':');
    let port = if parts.len() > 1 {
        text::parse_unsigned(parts[1], 0xffff)
    } else {
        None
    };
    (
        parts[0],
        match port {
            Some(p) => p,
            None => default_port(use_tls) as nat,
        },
        use_tls,
    )
}

/// Parses a broker URL like "tcp://host:port" into (host, port, use_tls).
pub fn parse_broker_url(url: &str) -> (r: (String, u16, bool))
    ensures
        broker_url(url@) == (r.0@, r.1 as nat, r.2),
{
    let u = chars_of(url);
    let mut use_tls = false;
    let mut address = u;
    if let Some(rest) = strip_prefix(&address, "ssl://") {
        address = rest;
        use_tls = true;
    } else if let Some(rest) = strip_prefix(&address, "wss://") {
        address = rest;
        use_tls = true;
    } else if let Some(rest) = strip_prefix(&address, "tcp://") {
        address = rest;
    } else if let Some(rest) = strip_prefix(&address, "ws://") {
        address = rest;
    }
    assert(broker_address(url@) == (address@, use_tls));
    let parts = split_char(&address, ':');
    let host = string_of(&parts[0]);
    let mut port: u16 = if use_tls {
        8883
    } else {
        1883
    };
    if parts.len() > 1 {
        if let Some(p) = read_unsigned(&parts[1], 0xffff) {
            port = p as u16;
        }
    }
    (host, port, use_tls)
}

/// The connection that publishes the sleep state of a device: the broker and the
/// account of the configuration, under a client id of its own so that the broker
/// does not drop the main connection.
pub open spec fn publishes_sleep_of(s: SyncMqttConfig, c: Config) -> bool {
    &&& broker_url(c.mqtt.broker@) == (s.host@, s.port as nat, s.use_tls)
    &&& s.user@ == c.mqtt.user@
    &&& s.pass@ == c.mqtt.pass@
    &&& s.client_id@ == config::client_id_of(c) + "-sleep"@
    &&& s.sleep_topic@ == topics::sensor_state(c.device_name@, "sleep_state"@)
}

/// The connection that publishes the sleep state of the configured device.
pub fn sleep_connection(c: &Config) -> (r: SyncMqttConfig)
    ensures
        publishes_sleep_of(r, *c),
{
    let (host, port, use_tls) = parse_broker_url(&c.mqtt.broker);
    let mut client_id = c.client_id();
    client_id.append("-sleep");
    SyncMqttConfig {
        host,
        port,
        use_tls,
        user: c.mqtt.user.clone(),
        pass: c.mqtt.pass.clone(),
        client_id,
        sleep_topic: sensor_topic_of(&c.device_name, "sleep_state"),
    }
}

// ---------------------------------------------------------------------------
// Remaining length
// ---------------------------------------------------------------------------

/// The variable-length encoding of `n`: seven bits to a byte, the least
/// significant first, the top bit set on every byte but the last.
pub open spec fn remaining_length(n: nat) -> Seq<u8>
    decreases n,
{
    if n < 128 {
        seq![n as u8]
    } else {
        seq![(n % 128 + 128) as u8] + remaining_length(n / 128)
    }
}

/// What a receiver reads from the front of `bytes` as a remaining length: the
/// value and the number of bytes that it takes.
pub open spec fn read_remaining_length(bytes: Seq<u8>) -> Option<(nat, nat)>
    decreases bytes.len(),
{
    if bytes.len() == 0 {
        None
    } else if bytes[0] < 128 {
        Some((bytes[0] as nat, 1))
    } else {
        match read_remaining_length(bytes.skip(1)) {
            Some((rest, k)) => Some(((bytes[0] - 128) as nat + 128 * rest, k + 1)),
            None => None,
        }
    }
}

/// Appends the variable-length encoding of `len`.
pub fn encode_remaining_length(buf: &mut Vec<u8>, len: usize)
    ensures
        final(buf)@ == old(buf)@ + remaining_length(len as nat),
{
    let mut rest: usize = len;
    let ghost target = buf@ + remaining_length(len as nat);
    while rest >= 128
        invariant
            buf@ + remaining_length(rest as nat) == target,
        decreases rest,
    {
        let ghost before = buf@;
        let byte: u8 = (rest % 128) as u8 + 128;
        buf.push(byte);
        proof {
            assert(before + remaining_length(rest as nat) =~= before.push(byte)
                + remaining_length((rest / 128) as nat));
        }
        rest = rest / 128;
    }
    buf.push(rest as u8);
    proof {
        assert(buf@ =~= target);
    }
}

/// A receiver reads back the length that was encoded, whatever follows it, and
/// consumes exactly its bytes.
pub proof fn law_remaining_length_round_trip(n: nat, rest: Seq<u8>)
    ensures
        read_remaining_length(remaining_length(n) + rest) == Some(
            (n, remaining_length(n).len()),
        ),
    decreases n,
{
    let bytes = remaining_length(n) + rest;
    if n < 128 {
        assert(bytes[0] == n as u8);
    } else {
        let head = (n % 128 + 128) as u8;
        assert(bytes[0] == head);
        assert(bytes.skip(1) =~= remaining_length(n / 128) + rest);
        law_remaining_length_round_trip(n / 128, rest);
        assert((head - 128) as nat + 128 * (n / 128) == n);
    }
}

/// The encoding of a length below 128 to the power of four takes at most the
/// four bytes that MQTT allows for it.
pub proof fn law_remaining_length_fits(n: nat)
    requires
        n < 0x1000_0000,
    ensures
        1 <= remaining_length(n).len() <= 4,
{
    reveal_with_fuel(remaining_length, 4);
}

// ---------------------------------------------------------------------------
// Packets
// ---------------------------------------------------------------------------

/// Two big-endian bytes holding the low sixteen bits of `n`.
pub open spec fn be16(n: nat) -> Seq<u8> {
    seq![((n / 256) % 256) as u8, (n % 256) as u8]
}

/// A length-prefixed field.
pub open spec fn field(bytes: Seq<u8>) -> Seq<u8> {
    be16(bytes.len()) + bytes
}

fn push_all(buf: &mut Vec<u8>, bytes: &[u8])
    ensures
        final(buf)@ == old(buf)@ + bytes@,
{
    let mut i: usize = 0;
    while i < bytes.len()
        invariant
            i <= bytes.len(),
            buf@ == old(buf)@ + bytes@.take(i as int),
        decreases bytes.len() - i,
    {
        buf.push(bytes[i]);
        i += 1;
        proof {
            assert(buf@ =~= old(buf)@ + bytes@.take(i as int));
        }
    }
    proof {
        assert(bytes@.take(bytes@.len() as int) =~= bytes@);
    }
}

fn push_field(buf: &mut Vec<u8>, bytes: &[u8])
    ensures
        final(buf)@ == old(buf)@ + field(bytes@),
{
    let n: usize = bytes.len();
    buf.push(((n / 256) % 256) as u8);
    buf.push((n % 256) as u8);
    push_all(buf, bytes);
    proof {
        assert(buf@ =~= old(buf)@ + field(bytes@));
    }
}

/// Connect flags: clean session, and one bit each for a user and a password.
pub open spec fn connect_flags(user: Seq<char>, pass: Seq<char>) -> u8 {
    if user.len() > 0 && pass.len() > 0 {
        0xC2
    } else if user.len() > 0 {
        0x82
    } else if pass.len() > 0 {
        0x42
    } else {
        0x02
    }
}

/// What follows the fixed header of a CONNECT packet: the protocol name and
/// level, the flags, a keep-alive of ten seconds, and the client id, user and
/// password, the last two only where they are not empty.
pub open spec fn connect_body(client_id: Seq<char>, user: Seq<char>, pass: Seq<char>) -> Seq<u8> {
    seq![0x00u8, 0x04, 0x4D, 0x51, 0x54, 0x54, 0x04, connect_flags(user, pass), 0x00, 0x0A]
        + field(encode_utf8(client_id)) + (if user.len() > 0 {
        field(encode_utf8(user))
    } else {
        seq![]
    }) + (if pass.len() > 0 {
        field(encode_utf8(pass))
    } else {
        seq![]
    })
}

/// A packet: the first byte, the length of the body, and the body.
pub open spec fn packet(first: u8, body: Seq<u8>) -> Seq<u8> {
    seq![first] + remaining_length(body.len()) + body
}

/// A CONNECT packet.
pub open spec fn connect_packet(
    client_id: Seq<char>,
    user: Seq<char>,
    pass: Seq<char>,
) -> Seq<u8> {
    packet(0x10, connect_body(client_id, user, pass))
}

/// A PUBLISH packet at QoS 0.
pub open spec fn publish_packet(topic: Seq<char>, payload: Seq<u8>, retain: bool) -> Seq<u8> {
    packet(
        if retain {
            0x31
        } else {
            0x30
        },
        field(encode_utf8(topic)) + payload,
    )
}

fn build_packet(first: u8, body: &[u8]) -> (r: Vec<u8>)
    ensures
        r@ == packet(first, body@),
{
    let mut out: Vec<u8> = Vec::new();
    out.push(first);
    encode_remaining_length(&mut out, body.len());
    push_all(&mut out, body);
    proof {
        assert(out@ =~= packet(first, body@));
    }
    out
}

/// Builds an MQTT 3.1.1 CONNECT packet.
pub fn build_mqtt_connect(client_id: &str, user: &str, pass: &str) -> (r: Vec<u8>)
    ensures
        r@ == connect_packet(client_id@, user@, pass@),
{
    let mut flags: u8 = 0x02;
    if !user.is_empty() {
        flags = flags + 0x80;
    }
    if !pass.is_empty() {
        flags = flags + 0x40;
    }
    let mut body: Vec<u8> = vec![0x00, 0x04, 0x4D, 0x51, 0x54, 0x54, 0x04, flags, 0x00, 0x0A];
    let ghost head = body@;
    push_field(&mut body, client_id.as_bytes());
    if !user.is_empty() {
        push_field(&mut body, user.as_bytes());
    }
    if !pass.is_empty() {
        push_field(&mut body, pass.as_bytes());
    }
    proof {
        assert(head =~= seq![
            0x00u8,
            0x04,
            0x4D,
            0x51,
            0x54,
            0x54,
            0x04,
            connect_flags(user@, pass@),
            0x00,
            0x0A,
        ]);
        assert(body@ =~= connect_body(client_id@, user@, pass@));
    }
    build_packet(0x10, &body)
}

/// Builds an MQTT 3.1.1 PUBLISH packet (QoS 0).
pub fn build_mqtt_publish(topic: &str, payload: &[u8], retain: bool) -> (r: Vec<u8>)
    ensures
        r@ == publish_packet(topic@, payload@, retain),
{
    let mut body: Vec<u8> = Vec::new();
    push_field(&mut body, topic.as_bytes());
    push_all(&mut body, payload);
    proof {
        assert(body@ =~= field(encode_utf8(topic@)) + payload@);
    }
    build_packet(
        if retain {
            0x31
        } else {
            0x30
        },
        &body,
    )
}

/// What a broker makes of a PUBLISH packet at QoS 0: topic bytes, payload and
/// the retain flag.
pub open spec fn read_publish(p: Seq<u8>) -> Option<(Seq<u8>, Seq<u8>, bool)> {
    if p.len() == 0 || (p[0] != 0x30 && p[0] != 0x31) {
        None
    } else {
        match read_remaining_length(p.skip(1)) {
            Some((n, k)) => {
                let body = p.skip(1 + k as int);
                let t = body[0] as int * 256 + body[1] as int;
                if body.len() == n && 2 + t <= n {
                    Some((body.subrange(2, 2 + t), body.skip(2 + t), p[0] == 0x31))
                } else {
                    None
                }
            },
            None => None,
        }
    }
}

/// A broker reads back from a PUBLISH packet the topic, the payload and the
/// retain flag that it was built from, for every topic that a two-byte length
/// can hold.
pub proof fn law_publish_read_back(topic: Seq<char>, payload: Seq<u8>, retain: bool)
    requires
        encode_utf8(topic).len() <= 0xffff,
    ensures
        read_publish(publish_packet(topic, payload, retain)) == Some(
            (encode_utf8(topic), payload, retain),
        ),
{
    let t = encode_utf8(topic);
    let body = field(t) + payload;
    let p = publish_packet(topic, payload, retain);
    let k = remaining_length(body.len()).len();
    assert(p.skip(1) =~= remaining_length(body.len()) + body);
    law_remaining_length_round_trip(body.len(), body);
    assert(p.skip(1 + k as int) =~= body);
    assert(body[0] as int * 256 + body[1] as int == t.len());
    assert(body.subrange(2, 2 + t.len() as int) =~= t);
    assert(body.skip(2 + t.len() as int) =~= payload);
}

/// What a broker reads from the front of `bytes` as a length-prefixed field: its
/// content, and what follows.
pub open spec fn read_field(bytes: Seq<u8>) -> Option<(Seq<u8>, Seq<u8>)> {
    let n = bytes[0] as int * 256 + bytes[1] as int;
    if bytes.len() >= 2 && 2 + n <= bytes.len() {
        Some((bytes.subrange(2, 2 + n), bytes.skip(2 + n)))
    } else {
        None
    }
}

/// What a broker reads as a field that is there only where its flag is set.
pub open spec fn read_optional_field(bytes: Seq<u8>, present: bool) -> Option<
    (Seq<u8>, Seq<u8>),
> {
    if present {
        read_field(bytes)
    } else {
        Some((seq![], bytes))
    }
}

/// What a broker reads behind the header of a CONNECT packet: the client id, the
/// user and the password, and nothing after them.
pub open spec fn read_account(bytes: Seq<u8>, has_user: bool, has_pass: bool) -> Option<
    (Seq<u8>, Seq<u8>, Seq<u8>),
> {
    match read_field(bytes) {
        Some((id, r1)) => match read_optional_field(r1, has_user) {
            Some((user, r2)) => match read_optional_field(r2, has_pass) {
                Some((pass, r3)) => if r3.len() == 0 {
                    Some((id, user, pass))
                } else {
                    None
                },
                None => None,
            },
            None => None,
        },
        None => None,
    }
}

/// What a broker makes of a CONNECT packet with a clean session: the bytes of the
/// client id, of the user and of the password. A user or a password that is not
/// sent is empty.
pub open spec fn read_connect(p: Seq<u8>) -> Option<(Seq<u8>, Seq<u8>, Seq<u8>)> {
    match read_remaining_length(p.skip(1)) {
        Some((n, k)) => {
            let body = p.skip(1 + k as int);
            let flags = body[7];
            if p[0] != 0x10 || body.len() != n || n < 10 || body.take(7) != seq![
                0x00u8,
                0x04,
                0x4D,
                0x51,
                0x54,
                0x54,
                0x04,
            ] {
                None
            } else {
                read_account(
                    body.skip(10),
                    flags == 0x82 || flags == 0xC2,
                    flags == 0x42 || flags == 0xC2,
                )
            }
        },
        None => None,
    }
}

proof fn lemma_field_read_back(bytes: Seq<u8>, rest: Seq<u8>)
    requires
        bytes.len() <= 0xffff,
    ensures
        read_field(field(bytes) + rest) == Some((bytes, rest)),
{
    let all = field(bytes) + rest;
    assert(all[0] as int * 256 + all[1] as int == bytes.len());
    assert(all.subrange(2, 2 + bytes.len() as int) =~= bytes);
    assert(all.skip(2 + bytes.len() as int) =~= rest);
}

/// The account fields of a CONNECT packet.
spec fn account_fields(id: Seq<u8>, user: Seq<u8>, pass: Seq<u8>, u: bool, p: bool) -> Seq<u8> {
    field(id) + ((if u {
        field(user)
    } else {
        seq![]
    }) + (if p {
        field(pass)
    } else {
        seq![]
    }))
}

proof fn lemma_account_read_back(id: Seq<u8>, user: Seq<u8>, pass: Seq<u8>, u: bool, p: bool)
    requires
        id.len() <= 0xffff,
        user.len() <= 0xffff,
        pass.len() <= 0xffff,
        !u ==> user.len() == 0,
        !p ==> pass.len() == 0,
    ensures
        read_account(account_fields(id, user, pass, u, p), u, p) == Some((id, user, pass)),
{
    let user_part = if u {
        field(user)
    } else {
        seq![]
    };
    let pass_part = if p {
        field(pass)
    } else {
        seq![]
    };
    let none = Seq::<u8>::empty();
    lemma_field_read_back(id, user_part + pass_part);
    assert(read_optional_field(user_part + pass_part, u) == Some((user, pass_part))) by {
        if u {
            lemma_field_read_back(user, pass_part);
        } else {
            assert(user =~= none);
            assert(user_part + pass_part =~= pass_part);
        }
    }
    assert(read_optional_field(pass_part, p) == Some((pass, none))) by {
        if p {
            lemma_field_read_back(pass, none);
            assert(pass_part =~= field(pass) + none);
        } else {
            assert(pass =~= none);
        }
    }
}

proof fn lemma_connect_header(flags: u8, account: Seq<u8>)
    ensures
        read_connect(
            packet(
                0x10,
                seq![0x00u8, 0x04, 0x4D, 0x51, 0x54, 0x54, 0x04, flags, 0x00, 0x0A] + account,
            ),
        ) == read_account(
            account,
            flags == 0x82 || flags == 0xC2,
            flags == 0x42 || flags == 0xC2,
        ),
{
    let head = seq![0x00u8, 0x04, 0x4D, 0x51, 0x54, 0x54, 0x04, flags, 0x00, 0x0A];
    let body = head + account;
    let p = packet(0x10, body);
    let k = remaining_length(body.len()).len();
    assert(p.skip(1) =~= remaining_length(body.len()) + body);
    law_remaining_length_round_trip(body.len(), body);
    assert(p.skip(1 + k as int) =~= body);
    assert(p[0] == 0x10);
    assert(body.take(7) =~= seq![0x00u8, 0x04, 0x4D, 0x51, 0x54, 0x54, 0x04]);
    assert(body[7] == flags);
    assert(body.skip(10) =~= account);
}

proof fn lemma_regroup(a: Seq<u8>, b: Seq<u8>, c: Seq<u8>, d: Seq<u8>)
    ensures
        a + b + c + d == a + (b + (c + d)),
{
    assert(a + b + c + d =~= a + (b + (c + d)));
}

proof fn lemma_connect_packet(client_id: Seq<char>, user: Seq<char>, pass: Seq<char>)
    ensures
        connect_packet(client_id, user, pass) == packet(
            0x10,
            seq![
                0x00u8,
                0x04,
                0x4D,
                0x51,
                0x54,
                0x54,
                0x04,
                connect_flags(user, pass),
                0x00,
                0x0A,
            ] + account_fields(
                encode_utf8(client_id),
                encode_utf8(user),
                encode_utf8(pass),
                user.len() > 0,
                pass.len() > 0,
            ),
        ),
{
    lemma_regroup(
        seq![
            0x00u8,
            0x04,
            0x4D,
            0x51,
            0x54,
            0x54,
            0x04,
            connect_flags(user, pass),
            0x00,
            0x0A,
        ],
        field(encode_utf8(client_id)),
        if user.len() > 0 {
            field(encode_utf8(user))
        } else {
            seq![]
        },
        if pass.len() > 0 {
            field(encode_utf8(pass))
        } else {
            seq![]
        },
    );
}

/// A broker reads back from a CONNECT packet the client id, the user and the
/// password that it was built from, for all that two-byte lengths can hold.
pub proof fn law_connect_read_back(client_id: Seq<char>, user: Seq<char>, pass: Seq<char>)
    requires
        encode_utf8(client_id).len() <= 0xffff,
        encode_utf8(user).len() <= 0xffff,
        encode_utf8(pass).len() <= 0xffff,
    ensures
        read_connect(connect_packet(client_id, user, pass)) == Some(
            (encode_utf8(client_id), encode_utf8(user), encode_utf8(pass)),
        ),
{
    let id = encode_utf8(client_id);
    let u = encode_utf8(user);
    let p = encode_utf8(pass);
    lemma_connect_packet(client_id, user, pass);
    lemma_connect_header(
        connect_flags(user, pass),
        account_fields(id, u, p, user.len() > 0, pass.len() > 0),
    );
    lemma_account_read_back(id, u, p, user.len() > 0, pass.len() > 0);
}

/// Every packet announces exactly the number of bytes that follow its header.
pub proof fn law_packet_length(first: u8, body: Seq<u8>)
    ensures
        ({
            let p = packet(first, body);
            match read_remaining_length(p.skip(1)) {
                Some((n, k)) => p.len() == 1 + k + n && p.skip(1 + k as int) == body,
                None => false,
            }
        }),
{
    let p = packet(first, body);
    assert(p.skip(1) =~= remaining_length(body.len()) + body);
    law_remaining_length_round_trip(body.len(), body);
    assert(p.skip(1 + remaining_length(body.len()).len() as int) =~= body);
}

// ---------------------------------------------------------------------------
// The exchange
// ---------------------------------------------------------------------------

/// Where the exchange stands.
#[derive(Clone, Copy, Debug, PartialEq, Eq, Structural)]
pub enum ExchangeStep {
    Connect,
    Connack,
    Publish,
    Disconnect,
    Done,
}

/// What the owner of the stream has to do at a step.
#[derive(Clone, Debug)]
pub enum ExchangeAction {
    /// Write the bytes and flush; a failed flush ends the exchange where
    /// `flush_must_succeed` is set and is ignored elsewhere.
    Send { bytes: Vec<u8>, flush_must_succeed: bool },
    /// Read exactly four bytes.
    Receive,
    /// Nothing is left to do.
    Finish,
}

/// A CONNACK is accepted when its type, its length and its return code are the
/// expected ones.
pub open spec fn connack_accepted(reply: Seq<u8>) -> bool {
    reply[0] == 0x20 && reply[1] == 0x02 && reply[3] == 0x00
}

/// The message that reports a refused CONNACK.
pub open spec fn connack_message(reply: Seq<u8>) -> Seq<char> {
    "CONNACK rejected (type="@ + text::hex_byte(reply[0]) + ", len="@ + text::decimal(reply[1] as nat)
        + ", rc="@ + text::decimal(reply[3] as nat) + ")"@
}

/// The bytes written at a step.
pub open spec fn step_bytes(cfg: SyncMqttConfig, step: ExchangeStep) -> Seq<u8> {
    match step {
        ExchangeStep::Connect => connect_packet(cfg.client_id@, cfg.user@, cfg.pass@),
        ExchangeStep::Publish => publish_packet(
            cfg.sleep_topic@,
            encode_utf8("sleeping"@),
            true,
        ),
        ExchangeStep::Disconnect => seq![0xE0u8, 0x00],
        ExchangeStep::Connack | ExchangeStep::Done => seq![],
    }
}

/// The step that follows a completed one; a refused CONNACK has none.
pub open spec fn step_after(step: ExchangeStep, reply: Seq<u8>) -> Option<ExchangeStep> {
    match step {
        ExchangeStep::Connect => Some(ExchangeStep::Connack),
        ExchangeStep::Connack => if connack_accepted(reply) {
            Some(ExchangeStep::Publish)
        } else {
            None
        },
        ExchangeStep::Publish => Some(ExchangeStep::Disconnect),
        ExchangeStep::Disconnect | ExchangeStep::Done => Some(ExchangeStep::Done),
    }
}

/// What the owner of the stream does at `step` of the exchange: send CONNECT,
/// read the CONNACK, send the retained PUBLISH of "sleeping", send DISCONNECT.
pub fn do_mqtt_exchange(cfg: &SyncMqttConfig, step: ExchangeStep) -> (r: ExchangeAction)
    ensures
        match step {
            ExchangeStep::Connack => r is Receive,
            ExchangeStep::Done => r is Finish,
            _ => r matches ExchangeAction::Send { bytes, flush_must_succeed } && bytes@
                == step_bytes(*cfg, step) && flush_must_succeed == (step
                != ExchangeStep::Disconnect),
        },
{
    match step {
        ExchangeStep::Connect => ExchangeAction::Send {
            bytes: build_mqtt_connect(&cfg.client_id, &cfg.user, &cfg.pass),
            flush_must_succeed: true,
        },
        ExchangeStep::Connack => ExchangeAction::Receive,
        ExchangeStep::Publish => ExchangeAction::Send {
            bytes: build_mqtt_publish(&cfg.sleep_topic, "sleeping".as_bytes(), true),
            flush_must_succeed: true,
        },
        ExchangeStep::Disconnect => ExchangeAction::Send {
            bytes: vec![0xE0, 0x00],
            flush_must_succeed: false,
        },
        ExchangeStep::Done => ExchangeAction::Finish,
    }
}

/// The step after a completed one. `reply` holds the four bytes read at the
/// CONNACK step and is ignored at the others. A refused CONNACK ends the
/// exchange with a message that names its type, length and return code.
pub fn next_step(step: ExchangeStep, reply: [u8; 4]) -> (r: Result<ExchangeStep, String>)
    ensures
        match r {
            Ok(next) => step_after(step, reply@) == Some(next),
            Err(message) => step_after(step, reply@) is None && message@ == connack_message(
                reply@,
            ),
        },
{
    match step {
        ExchangeStep::Connect => Ok(ExchangeStep::Connack),
        ExchangeStep::Connack => {
            if reply[0] != 0x20 || reply[1] != 0x02 || reply[3] != 0x00 {
                let mut message = "CONNACK rejected (type=".to_string();
                push_hex_byte(&mut message, reply[0]);
                message.append(", len=");
                push_decimal(&mut message, reply[1] as u64);
                message.append(", rc=");
                push_decimal(&mut message, reply[3] as u64);
                message.append(")");
                Err(message)
            } else {
                Ok(ExchangeStep::Publish)
            }
        },
        ExchangeStep::Publish => Ok(ExchangeStep::Disconnect),
        ExchangeStep::Disconnect => Ok(ExchangeStep::Done),
        ExchangeStep::Done => Ok(ExchangeStep::Done),
    }
}

/// How many steps are left.
pub open spec fn steps_left(step: ExchangeStep) -> nat {
    match step {
        ExchangeStep::Connect => 4,
        ExchangeStep::Connack => 3,
        ExchangeStep::Publish => 2,
        ExchangeStep::Disconnect => 1,
        ExchangeStep::Done => 0,
    }
}

/// Everything written from `step` on, when the broker answers `reply`.
pub open spec fn wire_bytes(cfg: SyncMqttConfig, step: ExchangeStep, reply: Seq<u8>) -> Seq<u8>
    decreases steps_left(step),
{
    if step == ExchangeStep::Done {
        seq![]
    } else {
        step_bytes(cfg, step) + match step_after(step, reply) {
            Some(next) => wire_bytes(cfg, next, reply),
            None => seq![],
        }
    }
}

/// A broker that accepts the connection is sent CONNECT, the retained PUBLISH
/// and DISCONNECT, in this order; one that refuses it is sent CONNECT alone.
pub proof fn law_exchange_bytes(cfg: SyncMqttConfig, reply: Seq<u8>)
    ensures
        wire_bytes(cfg, ExchangeStep::Connect, reply) == if connack_accepted(reply) {
            connect_packet(cfg.client_id@, cfg.user@, cfg.pass@) + publish_packet(
                cfg.sleep_topic@,
                encode_utf8("sleeping"@),
                true,
            ) + seq![0xE0u8, 0x00]
        } else {
            connect_packet(cfg.client_id@, cfg.user@, cfg.pass@)
        },
{
    reveal_with_fuel(wire_bytes, 5);
    if connack_accepted(reply) {
        assert(wire_bytes(cfg, ExchangeStep::Connect, reply) =~= connect_packet(
            cfg.client_id@,
            cfg.user@,
            cfg.pass@,
        ) + publish_packet(cfg.sleep_topic@, encode_utf8("sleeping"@), true) + seq![0xE0u8, 0x00]);
    } else {
        assert(wire_bytes(cfg, ExchangeStep::Connect, reply) =~= connect_packet(
            cfg.client_id@,
            cfg.user@,
            cfg.pass@,
        ));
    }
}

// ---------------------------------------------------------------------------
// Broker URLs
// ---------------------------------------------------------------------------

proof fn lemma_host_and_port(host: Seq<char>, port: Seq<char>)
    requires
        !host.contains(':'),
        !port.contains(':'),
    ensures
        text::split_on(host + seq![':'] + port, ':') == seq![host, port],
        text::split_on(host, ':') == seq![host],
{
    let all = host + seq![':'] + port;
    assert forall|j: int| 0 <= j < host.len() implies host[j] != ':' && all[j] != ':' by {
        assert(all[j] == host[j]);
        assert(host.contains(host[j]));
    }
    text::lemma_first_index_is(all, ':', host.len() as int);
    text::lemma_first_index_is(host, ':', host.len() as int);
    assert(all.take(host.len() as int) =~= host);
    assert(all.skip(host.len() as int + 1) =~= port);
    assert forall|j: int| 0 <= j < port.len() implies port[j] != ':' by {
        assert(port.contains(port[j]));
    }
    text::lemma_first_index_is(port, ':', port.len() as int);
    assert(text::split_on(port, ':') == seq![port]);
    assert(text::split_on(all, ':') =~= seq![host, port]);
}

/// The schemes `ssl` and `wss` ask for TLS, `tcp` and `ws` do not. The host stands in front
/// of the colon and the port behind it; without a port, or with a text that is none, it is
/// 8883 with TLS and 1883 without.
pub proof fn law_broker_urls(host: Seq<char>, port: Seq<char>)
    requires
        !host.contains(':'),
        !port.contains(':'),
    ensures
        ({
            let or = |usual: nat|
                match text::parse_unsigned(port, 65535) {
                    Some(p) => p,
                    None => usual,
                };
            &&& broker_url("ssl://"@ + host) == (host, 8883nat, true)
            &&& broker_url("ssl://"@ + (host + seq![':'] + port)) == (host, or(8883), true)
            &&& broker_url("wss://"@ + host) == (host, 8883nat, true)
            &&& broker_url("wss://"@ + (host + seq![':'] + port)) == (host, or(8883), true)
            &&& broker_url("tcp://"@ + host) == (host, 1883nat, false)
            &&& broker_url("tcp://"@ + (host + seq![':'] + port)) == (host, or(1883), false)
            &&& broker_url("ws://"@ + host) == (host, 1883nat, false)
            &&& broker_url("ws://"@ + (host + seq![':'] + port)) == (host, or(1883), false)
        }),
{
    lemma_host_and_port(host, port);
    lemma_schemes(host);
    lemma_schemes(host + seq![':'] + port);
}

proof fn lemma_schemes(address: Seq<char>)
    ensures
        broker_address("ssl://"@ + address) == (address, true),
        broker_address("wss://"@ + address) == (address, true),
        broker_address("tcp://"@ + address) == (address, false),
        broker_address("ws://"@ + address) == (address, false),
{
    reveal_strlit("ssl://");
    reveal_strlit("wss://");
    reveal_strlit("tcp://");
    reveal_strlit("ws://");
    let u = "ssl://"@ + address;
    assert(u.take(6) =~= "ssl://"@);
    assert(u.skip(6) =~= address);
    if text::has_prefix(u, "wss://"@) {
        assert(u.take(6)[0] == u[0]);
        assert(u[0] == "ssl://"@[0]);
    }
    if text::has_prefix(u, "tcp://"@) {
        assert(u.take(6)[0] == u[0]);
        assert(u[0] == "ssl://"@[0]);
    }
    if text::has_prefix(u, "ws://"@) {
        assert(u.take(5)[0] == u[0]);
        assert(u[0] == "ssl://"@[0]);
    }
    let u = "wss://"@ + address;
    assert(u.take(6) =~= "wss://"@);
    assert(u.skip(6) =~= address);
    if text::has_prefix(u, "ssl://"@) {
        assert(u.take(6)[0] == u[0]);
        assert(u[0] == "wss://"@[0]);
    }
    if text::has_prefix(u, "tcp://"@) {
        assert(u.take(6)[0] == u[0]);
        assert(u[0] == "wss://"@[0]);
    }
    if text::has_prefix(u, "ws://"@) {
        assert(u.take(5)[2] == u[2]);
        assert(u[2] == "wss://"@[2]);
    }
    let u = "tcp://"@ + address;
    assert(u.take(6) =~= "tcp://"@);
    assert(u.skip(6) =~= address);
    if text::has_prefix(u, "ssl://"@) {
        assert(u.take(6)[0] == u[0]);
        assert(u[0] == "tcp://"@[0]);
    }
    if text::has_prefix(u, "wss://"@) {
        assert(u.take(6)[0] == u[0]);
        assert(u[0] == "tcp://"@[0]);
    }
    if text::has_prefix(u, "ws://"@) {
        assert(u.take(5)[0] == u[0]);
        assert(u[0] == "tcp://"@[0]);
    }
    let u = "ws://"@ + address;
    assert(u.take(5) =~= "ws://"@);
    assert(u.skip(5) =~= address);
    if text::has_prefix(u, "ssl://"@) {
        assert(u.take(6)[0] == u[0]);
        assert(u[0] == "ws://"@[0]);
    }
    if text::has_prefix(u, "wss://"@) {
        assert(u.take(6)[2] == u[2]);
        assert(u[2] == "ws://"@[2]);
    }
    if text::has_prefix(u, "tcp://"@) {
        assert(u.take(6)[0] == u[0]);
        assert(u[0] == "ws://"@[0]);
    }
}

/// The sleep state is published to the broker of the configuration with its account, under
/// a client id of its own, on the topic of the sensor.
pub proof fn law_sleep_connection(s: SyncMqttConfig, c: Config)
    requires
        publishes_sleep_of(s, c),
    ensures
        s.host@ == broker_url(c.mqtt.broker@).0,
        s.port == broker_url(c.mqtt.broker@).1,
        s.use_tls == broker_url(c.mqtt.broker@).2,
        s.user@ == c.mqtt.user@,
        s.pass@ == c.mqtt.pass@,
        c.mqtt.client_id matches Some(id) ==> s.client_id@ == id@ + "-sleep"@,
        c.mqtt.client_id is None ==> s.client_id@ == "pc-agent-"@ + c.device_name@ + "-sleep"@,
        s.sleep_topic@ == "homeassistant/sensor/"@ + c.device_name@ + "/"@ + "sleep_state"@
            + "/state"@,
{
}

/// A CONNECT packet begins with the name and the level of the protocol, says which of user
/// and password follow, asks for a clean session and has a keep-alive of ten seconds.
pub proof fn law_connect_header(client_id: Seq<char>, user: Seq<char>, pass: Seq<char>)
    ensures
        ({
            let body = connect_body(client_id, user, pass);
            let flags = if user.len() > 0 && pass.len() > 0 {
                0xC2u8
            } else if user.len() > 0 {
                0x82
            } else if pass.len() > 0 {
                0x42
            } else {
                0x02
            };
            body.take(10) == seq![
                0x00u8,
                0x04,
                0x4D,
                0x51,
                0x54,
                0x54,
                0x04,
                flags,
                0x00,
                0x0A,
            ]
        }),
{
    let body = connect_body(client_id, user, pass);
    assert(body.take(10) =~= seq![
        0x00u8,
        0x04,
        0x4D,
        0x51,
        0x54,
        0x54,
        0x04,
        connect_flags(user, pass),
        0x00,
        0x0A,
    ]);
}

/// A broker accepts a connection with the four bytes 20 02, any, 00; anything else refuses
/// it, and the type, the length and the code are reported.
pub proof fn law_connack(reply: Seq<u8>)
    ensures
        connack_accepted(reply) <==> reply[0] == 0x20 && reply[1] == 2 && reply[3] == 0,
        connack_message(reply) == "CONNACK rejected (type="@ + text::hex_byte(reply[0]) + ", len="@
            + text::decimal(reply[1] as nat) + ", rc="@ + text::decimal(reply[3] as nat) + ")"@,
{
}

/// The steps of an exchange follow each other: connect, answer, publish, disconnect. A
/// refusal ends it before anything is published.
pub proof fn law_steps_of_the_exchange(reply: Seq<u8>)
    ensures
        step_after(ExchangeStep::Connect, reply) == Some(ExchangeStep::Connack),
        connack_accepted(reply) ==> step_after(ExchangeStep::Connack, reply) == Some(
            ExchangeStep::Publish,
        ),
        !connack_accepted(reply) ==> step_after(ExchangeStep::Connack, reply) is None,
        step_after(ExchangeStep::Publish, reply) == Some(ExchangeStep::Disconnect),
        step_after(ExchangeStep::Disconnect, reply) == Some(ExchangeStep::Done),
{
}

/// A field is its length in two bytes, the higher one first, and then its bytes.
pub proof fn law_fields(bytes: Seq<u8>)
    requires
        bytes.len() <= 65535,
    ensures
        field(bytes).len() == bytes.len() + 2,
        field(bytes)[0] * 256 + field(bytes)[1] == bytes.len(),
        field(bytes).skip(2) == bytes,
{
    assert(field(bytes).skip(2) =~= bytes);
}

} // verus!
