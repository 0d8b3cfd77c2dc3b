//! Notification handshake: upgrading one HTTP connection into a one-shot
//! push channel, and the tiny frames sent over it.

use vstd::prelude::*;
use vstd::string::StrSliceExecFns;
use vstd::string::StringExecFns;
use vstd::string::StringSliceAdditionalSpecFns;
use vstd::utf8::encode_utf8;
use vstd::utf8::is_ascii_chars;
use vstd::utf8::is_ascii_chars_encode_utf8;
use base64::Engine;
use sha1::Digest;
use crate::hub::Event;

verus! {

/// The fixed protocol magic appended to the client's key before hashing.
pub const WEBSOCKET_MAGIC: &'static str = "258EAFA5-E914-47DA-95CA-C5AB0DC85B11";

/// The SHA-1 digest of a byte string.
pub uninterp spec fn sha1_of(data: Seq<u8>) -> Seq<u8>;

/// Relies on the sha1 crate's `Digest::digest`: SHA-1 is a function of the
/// input bytes alone, and its digest is 20 bytes long.
#[verifier::external_body]
fn sha1_digest(data: &[u8]) -> (r: Vec<u8>)
    ensures
        r@ == sha1_of(data@),
        r@.len() == 20,
{
    <sha1::Sha1 as Digest>::digest(data).to_vec()
}

/// The standard base64 alphabet.
pub open spec fn b64_alphabet() -> Seq<char> {
    seq![
        'A', 'B', 'C', 'D', 'E', 'F', 'G', 'H', 'I', 'J', 'K', 'L', 'M', 'N', 'O', 'P', 'Q', 'R',
        'S', 'T', 'U', 'V', 'W', 'X', 'Y', 'Z', 'a', 'b', 'c', 'd', 'e', 'f', 'g', 'h', 'i', 'j',
        'k', 'l', 'm', 'n', 'o', 'p', 'q', 'r', 's', 't', 'u', 'v', 'w', 'x', 'y', 'z', '0', '1',
        '2', '3', '4', '5', '6', '7', '8', '9', '+', '/',
    ]
}

/// Standard base64 with `=` padding: each group of three bytes becomes four
/// alphabet characters; a final group of one or two bytes is padded.
pub open spec fn base64_encode(bytes: Seq<u8>) -> Seq<char>
    decreases bytes.len(),
{
    if bytes.len() == 0 {
        Seq::empty()
    } else if bytes.len() == 1 {
        let b0 = bytes[0] as int;
        seq![b64_alphabet()[b0 / 4], b64_alphabet()[(b0 % 4) * 16], '=', '=']
    } else if bytes.len() == 2 {
        let b0 = bytes[0] as int;
        let b1 = bytes[1] as int;
        seq![
            b64_alphabet()[b0 / 4],
            b64_alphabet()[(b0 % 4) * 16 + b1 / 16],
            b64_alphabet()[(b1 % 16) * 4],
            '=',
        ]
    } else {
        let b0 = bytes[0] as int;
        let b1 = bytes[1] as int;
        let b2 = bytes[2] as int;
        seq![
            b64_alphabet()[b0 / 4],
            b64_alphabet()[(b0 % 4) * 16 + b1 / 16],
            b64_alphabet()[(b1 % 16) * 4 + b2 / 64],
            b64_alphabet()[b2 % 64],
        ] + base64_encode(bytes.skip(3))
    }
}

/// Relies on the base64 crate's `STANDARD` engine: standard alphabet,
/// `=`-padded, as `base64_encode` spells out.
#[verifier::external_body]
fn base64_encode_bytes(data: &[u8]) -> (r: String)
    ensures
        r@ == base64_encode(data@),
{
    base64::engine::general_purpose::STANDARD.encode(data)
}

/// The accept token owed to a client key: the key is concatenated with the
/// protocol magic, hashed with SHA-1, and the digest base64-encoded.
pub open spec fn websocket_accept_of(key: Seq<char>) -> Seq<char> {
    base64_encode(sha1_of(encode_utf8(key + "258EAFA5-E914-47DA-95CA-C5AB0DC85B11"@)))
}

/// Turn a `Sec-WebSocket-Key` into the `Sec-WebSocket-Accept` value owed in
/// the protocol-switch response.
pub fn convert_websocket_key(input: &str) -> (r: String)
    ensures
        r@ == websocket_accept_of(input@),
{
    let mut s = String::from_str(input);
    s.append(WEBSOCKET_MAGIC);
    let digest = sha1_digest(s.as_str().as_bytes());
    base64_encode_bytes(digest.as_slice())
}

/// A minimal one-text-frame encoding: the frame header for a short final
/// text frame, then the payload's length and bytes.
pub open spec fn frame_bytes(msg: Seq<u8>) -> Seq<u8> {
    seq![0x81u8, msg.len() as u8] + msg
}

/// Encode one short text message as a single frame.  Only tiny frames are
/// supported: the payload must be under 126 bytes.
pub fn encode_frame(msg: &str) -> (r: Vec<u8>)
    requires
        msg.spec_bytes().len() < 126,
    ensures
        r@ == frame_bytes(msg.spec_bytes()),
{
    let bytes = msg.as_bytes();
    let mut frame: Vec<u8> = Vec::new();
    frame.push(0x81);
    frame.push(bytes.len() as u8);
    let n = bytes.len();
    proof {
        assert(frame@ =~= seq![0x81u8, n as u8] + bytes@.take(0));
    }
    let mut i: usize = 0;
    while i < n
        invariant
            n == bytes@.len(),
            n < 126,
            0 <= i <= n,
            frame@ == seq![0x81u8, n as u8] + bytes@.take(i as int),
        decreases n - i,
    {
        frame.push(bytes[i]);
        proof {
            let ghost header = seq![0x81u8, n as u8];
            assert((header + bytes@.take(i as int)).push(bytes@[i as int]) =~= header
                + bytes@.take(i + 1));
        }
        i = i + 1;
    }
    proof {
        assert(bytes@.take(n as int) =~= bytes@);
    }
    frame
}

/// How the server answers a request on the reload endpoint.
pub enum UpgradeDecision {
    /// The request carries no `Upgrade: websocket` signal: a client error,
    /// and the connection ends.
    RejectNoUpgrade,
    /// The upgrade signal is there but the key header is missing: a client
    /// error, and the connection ends.
    RejectNoKey,
    /// The handshake succeeds: answer with the protocol-switch status and
    /// this `Sec-WebSocket-Accept` value, and the connection becomes a push
    /// channel.
    Accept(String),
}

/// Decide the handshake: reject a request without the upgrade signal, then
/// one without a key; otherwise compute the accept token owed to the key.
pub fn upgrade_decision(has_websocket_upgrade: bool, key: Option<&str>) -> (d: UpgradeDecision)
    ensures
        !has_websocket_upgrade ==> d is RejectNoUpgrade,
        has_websocket_upgrade && key is None ==> d is RejectNoKey,
        (match key {
            Some(k) => has_websocket_upgrade ==> (d matches UpgradeDecision::Accept(a) && a@
                == websocket_accept_of(k@)),
            None => true,
        }),
{
    if !has_websocket_upgrade {
        UpgradeDecision::RejectNoUpgrade
    } else {
        match key {
            None => UpgradeDecision::RejectNoKey,
            Some(k) => UpgradeDecision::Accept(convert_websocket_key(k)),
        }
    }
}

/// The payload text announced for a notice: `reload` when the tree changed,
/// `shutdown` when the server goes down.
pub open spec fn notice_message(ev: Event) -> Seq<char> {
    match ev {
        Event::Reload => "reload"@,
        Event::Shutdown => "shutdown"@,
    }
}

/// The per-connection state of the notification channel.
pub enum ConnState {
    /// A request reached the reload endpoint; no upgrade happened yet.
    AwaitingUpgrade,
    /// The protocol switch was sent; the connection waits for one notice.
    Open,
    /// The channel is spent: after its single notification (or any error)
    /// nothing more is ever sent.
    Closed,
}

/// What arrives at an open connection.
pub enum ConnInput<'a> {
    /// The initial request: whether it signalled `Upgrade: websocket`, and
    /// its key header.
    Request(bool, Option<&'a str>),
    /// The subscription delivered a notice.
    Notice(Event),
    /// The subscription failed (the hub went away).
    ChannelError,
}

/// What the connection's handler must do next.
pub enum ConnAction {
    /// Answer with a client-error status and the reason, then hang up.
    RespondBadRequest(String),
    /// Answer with the protocol-switch status carrying this accept token,
    /// and keep the stream.
    RespondSwitching(String),
    /// Write this single frame, flush, and hang up.
    SendFrame(Vec<u8>),
    /// Hang up without writing anything.
    CloseQuiet,
}

/// One step of the notification channel's state machine.  A request either
/// completes the handshake (the channel opens) or is rejected (the channel
/// closes); an open channel sends exactly one frame, for its first notice,
/// and closes; everything after `Closed` is silence.
pub fn conn_step(state: ConnState, input: ConnInput<'_>) -> (r: (ConnState, ConnAction))
    ensures
        (match (state, input) {
            (ConnState::AwaitingUpgrade, ConnInput::Request(up, key)) => if !up {
                r.0 is Closed && r.1 is RespondBadRequest
            } else {
                match key {
                    None => r.0 is Closed && r.1 is RespondBadRequest,
                    Some(k) => r.0 is Open && (r.1 matches ConnAction::RespondSwitching(a) && a@
                        == websocket_accept_of(k@)),
                }
            },
            (ConnState::Open, ConnInput::Notice(ev)) => r.0 is Closed && (
            r.1 matches ConnAction::SendFrame(f) && f@ == frame_bytes(
                encode_utf8(notice_message(ev)),
            )),
            _ => r.0 is Closed && r.1 is CloseQuiet,
        }),
{
    match (state, input) {
        (ConnState::AwaitingUpgrade, ConnInput::Request(up, key)) => {
            match upgrade_decision(up, key) {
                UpgradeDecision::RejectNoUpgrade => (
                    ConnState::Closed,
                    ConnAction::RespondBadRequest(
                        String::from_str("Expected 'Upgrade: websocket' header"),
                    ),
                ),
                UpgradeDecision::RejectNoKey => (
                    ConnState::Closed,
                    ConnAction::RespondBadRequest(
                        String::from_str("Expected 'Sec-WebSocket-Key' header"),
                    ),
                ),
                UpgradeDecision::Accept(a) => (ConnState::Open, ConnAction::RespondSwitching(a)),
            }
        },
        (ConnState::Open, ConnInput::Notice(ev)) => {
            let msg: &str = match ev {
                Event::Reload => "reload",
                Event::Shutdown => "shutdown",
            };
            proof {
                reveal_strlit("reload");
                reveal_strlit("shutdown");
                assert(is_ascii_chars("reload"@));
                assert(is_ascii_chars("shutdown"@));
                is_ascii_chars_encode_utf8("reload"@);
                is_ascii_chars_encode_utf8("shutdown"@);
            }
            (ConnState::Closed, ConnAction::SendFrame(encode_frame(msg)))
        },
        _ => (ConnState::Closed, ConnAction::CloseQuiet),
    }
}

} // verus!
