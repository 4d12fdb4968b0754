use vstd::prelude::*;
use vstd::string::{StrSliceExecFns, StringExecFns};

use crate::registry::{Auth, Disconnect};

verus! {

/// How often a connection pings its peer, in milliseconds.
pub const HEARTBEAT_INTERVAL_MS: u64 = 5000;

/// How long a connection may stay silent before it is closed, in milliseconds.
pub const CLIENT_TIMEOUT_MS: u64 = 30000;

/// The state of one live connection: its registry id, when the peer was last heard
/// from (milliseconds on a monotonic clock), and its token once it sent one.
#[derive(Clone, Debug, PartialEq)]
pub struct WebSocketSession {
    pub id: String,
    pub hb: u64,
    pub token: Option<String>,
}

/// An inbound event on a connection.
#[derive(Clone, Debug, PartialEq)]
pub enum WsFrame {
    Ping(Vec<u8>),
    Pong,
    Text(String),
    Binary(Vec<u8>),
    Close,
    ProtocolError,
    Other,
}

/// What the connection does in answer to an event.
#[derive(Clone, Debug, PartialEq)]
pub enum FrameAction {
    Pong(Vec<u8>),
    Nothing,
    /// Ask the registry to authenticate this connection.
    Authenticate(Auth),
    /// Send this text to this connection only.
    Reply(String),
    EchoBinary(Vec<u8>),
    /// Tell the registry, close the connection and stop.
    Close(Disconnect),
    Stop,
}

/// What a heartbeat tick does.
#[derive(Clone, Copy, Debug, PartialEq, Eq, Structural)]
pub enum HeartbeatAction {
    Ping,
    /// The peer has been silent too long: tell the registry and stop.
    Disconnect,
}

/// A text frame read as a command.
#[derive(Clone, Debug, PartialEq)]
pub enum Command {
    /// Not a command: ignored.
    Ignore,
    Auth(String),
    InvalidRequest,
    /// An unknown command, with the reply it gets.
    Unknown(String),
}

/// The characters with the Unicode property White_Space.
pub open spec fn is_white_space(c: char) -> bool {
    ('\u{9}' <= c && c <= '\u{d}') || c == ' ' || c == '\u{85}' || c == '\u{a0}' || c
        == '\u{1680}' || ('\u{2000}' <= c && c <= '\u{200a}') || c == '\u{2028}' || c
        == '\u{2029}' || c == '\u{202f}' || c == '\u{205f}' || c == '\u{3000}'
}

/// `s` without its leading white space.
pub open spec fn trim_start(s: Seq<char>) -> Seq<char>
    decreases s.len(),
{
    if s.len() > 0 && is_white_space(s[0]) {
        trim_start(s.drop_first())
    } else {
        s
    }
}

/// `s` without its trailing white space.
pub open spec fn trim_end(s: Seq<char>) -> Seq<char>
    decreases s.len(),
{
    if s.len() > 0 && is_white_space(s.last()) {
        trim_end(s.drop_last())
    } else {
        s
    }
}

/// `s` without leading and trailing white space.
pub open spec fn trimmed(s: Seq<char>) -> Seq<char> {
    trim_end(trim_start(s))
}

/// The string field `token` of the JSON object `s`, if `s` is one that holds it.
pub uninterp spec fn token_field(s: Seq<char>) -> Option<Seq<char>>;

/// The `Debug` rendering of `s`: quoted, with special characters escaped.
pub uninterp spec fn debug_string(s: Seq<char>) -> Seq<char>;

/// Relies on `str::trim`: `s` without leading and trailing whitespace, as the Unicode
/// property White_Space defines it.
#[verifier::external_body]
fn trim(s: &str) -> (r: &str)
    ensures
        r@ == trimmed(s@),
{
    s.trim()
}

/// Relies on `serde_json::from_str` into a `serde_json::Value`, and on `Value::get` and
/// `Value::as_str`: the `token` field of `s` when `s` is a JSON object whose `token` is
/// a string.
#[verifier::external_body]
fn parse_token(s: &str) -> (r: Option<String>)
    ensures
        match r {
            Some(t) => token_field(s@) == Some(t@),
            None => token_field(s@) is None,
        },
{
    match serde_json::from_str::<serde_json::Value>(s) {
        Ok(value) => match value.get("token") {
            Some(token) => token.as_str().map(String::from),
            None => None,
        },
        Err(_) => None,
    }
}

/// Relies on the `Debug` formatting of `str`.
#[verifier::external_body]
fn debug_quote(s: &str) -> (r: String)
    ensures
        r@ == debug_string(s@),
{
    format!("{:?}", s)
}

/// Relies on `uuid::Uuid::new_v4` and its `Display`, the hyphenated form of 36
/// characters: a fresh random identifier.
#[verifier::external_body]
fn new_session_id() -> (r: String)
    ensures
        r@.len() == 36,
{
    uuid::Uuid::new_v4().to_string()
}

/// The position of the first space at or after `k`; -1 where there is none.
pub open spec fn first_space_from(s: Seq<char>, k: int) -> int
    decreases s.len() - k,
{
    if k < 0 || k >= s.len() {
        -1
    } else if s[k] == ' ' {
        k
    } else {
        first_space_from(s, k + 1)
    }
}

/// The command name of `m`: the text before its first space.
pub open spec fn command_name(m: Seq<char>) -> Seq<char> {
    let sp = first_space_from(m, 0);
    if sp < 0 {
        m
    } else {
        m.subrange(0, sp)
    }
}

/// What a trimmed text frame `m` asks for: frames that do not start with `/` are
/// ignored; `/auth` takes a JSON object with a string `token`.
pub open spec fn command_post(m: Seq<char>, r: Command) -> bool {
    let sp = first_space_from(m, 0);
    if m.len() == 0 || m[0] != '/' {
        r is Ignore
    } else if command_name(m) == "/auth"@ {
        if sp < 0 {
            r is InvalidRequest
        } else {
            match token_field(m.subrange(sp + 1, m.len() as int)) {
                Some(t) => r matches Command::Auth(x) && x@ == t,
                None => r is InvalidRequest,
            }
        }
    } else {
        r matches Command::Unknown(reply) && reply@ == "unknown command "@ + debug_string(m)
    }
}

fn is_auth_name(s: &str) -> (r: bool)
    ensures
        r == (s@ == "/auth"@),
{
    proof {
        reveal_strlit("/auth");
    }
    if s.unicode_len() != 5 {
        return false;
    }
    let r = s.get_char(0) == '/' && s.get_char(1) == 'a' && s.get_char(2) == 'u' && s.get_char(3)
        == 't' && s.get_char(4) == 'h';
    proof {
        if r {
            assert(s@ =~= "/auth"@);
        }
    }
    r
}

/// The command that an `/auth` frame carries, given the token read from its JSON.
pub fn auth_command(token: Option<String>) -> (r: Command)
    ensures
        match token {
            Some(t) => r == Command::Auth(t),
            None => r is InvalidRequest,
        },
{
    match token {
        Some(t) => Command::Auth(t),
        None => Command::InvalidRequest,
    }
}

/// The reply to an unknown command, given the command's `Debug` rendering.
pub fn unknown_command(rendered: &str) -> (r: Command)
    ensures
        r matches Command::Unknown(reply) && reply@ == "unknown command "@ + rendered@,
{
    let mut reply = String::from_str("unknown command ");
    reply.append(rendered);
    Command::Unknown(reply)
}

/// Reads a trimmed text frame as a command.
pub fn classify(m: &str) -> (r: Command)
    ensures
        command_post(m@, r),
{
    let len = m.unicode_len();
    if len == 0 || m.get_char(0) != '/' {
        return Command::Ignore;
    }
    let mut i: usize = 0;
    while i < len
        invariant
            len == m@.len(),
            i <= len,
            first_space_from(m@, 0) == first_space_from(m@, i as int),
        ensures
            i == len || m@[i as int] == ' ',
            first_space_from(m@, 0) == first_space_from(m@, i as int),
        decreases len - i,
    {
        if m.get_char(i) == ' ' {
            break;
        }
        i = i + 1;
    }
    let name = m.substring_char(0, i);
    proof {
        if i == len {
            assert(name@ =~= m@);
        }
    }
    if is_auth_name(name) {
        if i == len {
            return Command::InvalidRequest;
        }
        let rest = m.substring_char(i + 1, len);
        auth_command(parse_token(rest))
    } else {
        unknown_command(debug_quote(m).as_str())
    }
}

/// Reads an inbound text frame as a command, after trimming it.
pub fn parse_command(text: &str) -> (r: Command)
    ensures
        command_post(trimmed(text@), r),
{
    classify(trim(text))
}

impl WebSocketSession {
    /// A connection first heard from at `now`, under a fresh random id.
    pub fn new(now: u64) -> (r: WebSocketSession)
        ensures
            r.hb == now,
            r.token is None,
            r.id@.len() == 36,
    {
        WebSocketSession { id: new_session_id(), hb: now, token: None }
    }

    /// What a heartbeat tick at `now` does: a peer silent for longer than the timeout is
    /// disconnected, any other is pinged.
    pub fn heartbeat(&self, now: u64) -> (r: HeartbeatAction)
        ensures
            r == (if now > self.hb && now - self.hb > CLIENT_TIMEOUT_MS {
                HeartbeatAction::Disconnect
            } else {
                HeartbeatAction::Ping
            }),
    {
        let elapsed: u64 = if now > self.hb {
            now - self.hb
        } else {
            0
        };
        if elapsed > CLIENT_TIMEOUT_MS {
            HeartbeatAction::Disconnect
        } else {
            HeartbeatAction::Ping
        }
    }

    /// Handles one inbound event at `now`: pings and pongs refresh the heartbeat, text
    /// frames are read as commands, binary frames are echoed, a close ends the session.
    pub fn handle(&mut self, frame: WsFrame, now: u64) -> (r: FrameAction)
        ensures
            final(self).id == old(self).id,
            final(self).token == old(self).token,
            final(self).hb == (if frame is Ping || frame is Pong {
                now
            } else {
                old(self).hb
            }),
            match frame {
                WsFrame::Ping(p) => r == FrameAction::Pong(p),
                WsFrame::Pong => r == FrameAction::Nothing,
                WsFrame::Text(t) => {
                    let m = trimmed(t@);
                    let sp = first_space_from(m, 0);
                    if m.len() == 0 || m[0] != '/' {
                        r == FrameAction::Nothing
                    } else if command_name(m) == "/auth"@ {
                        if sp >= 0 && token_field(m.subrange(sp + 1, m.len() as int)) is Some {
                            r matches FrameAction::Authenticate(a) && a.id == old(self).id
                                && Some(a.token@) == token_field(
                                m.subrange(sp + 1, m.len() as int),
                            )
                        } else {
                            r matches FrameAction::Reply(x) && x@ == "Invalid request params"@
                        }
                    } else {
                        r matches FrameAction::Reply(x) && x@ == "unknown command "@
                            + debug_string(m)
                    }
                },
                WsFrame::Binary(b) => r == FrameAction::EchoBinary(b),
                WsFrame::Close => r == FrameAction::Close(Disconnect { id: old(self).id }),
                _ => r == FrameAction::Stop,
            },
    {
        match frame {
            WsFrame::Ping(p) => {
                self.hb = now;
                FrameAction::Pong(p)
            },
            WsFrame::Pong => {
                self.hb = now;
                FrameAction::Nothing
            },
            WsFrame::Text(t) => match parse_command(t.as_str()) {
                Command::Ignore => FrameAction::Nothing,
                Command::Auth(token) => FrameAction::Authenticate(Auth { id: self.id.clone(), token }),
                Command::InvalidRequest => FrameAction::Reply(
                    String::from_str("Invalid request params"),
                ),
                Command::Unknown(reply) => FrameAction::Reply(reply),
            },
            WsFrame::Binary(b) => FrameAction::EchoBinary(b),
            WsFrame::Close => FrameAction::Close(Disconnect { id: self.id.clone() }),
            _ => FrameAction::Stop,
        }
    }
}

} // verus!
