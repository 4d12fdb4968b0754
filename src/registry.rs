use vstd::prelude::*;
use vstd::string::StringExecFns;

use crate::auth::PrivateClaim;
use crate::errors::clone_strings;
use crate::text::{signed_decimal, signed_decimal_string};

verus! {

/// A frame of text pushed to one connection.
#[derive(Clone, Debug, PartialEq)]
pub struct Message(pub String);

/// A request to bind connection `id` to the game that `token` names.
#[derive(Clone, Debug, PartialEq)]
pub struct Auth {
    pub id: String,
    pub token: String,
}

/// A new connection, with the handle that pushes frames to it.
pub struct Connect<H> {
    pub addr: H,
    pub id: String,
}

/// The end of a connection.
#[derive(Clone, Debug, PartialEq)]
pub struct Disconnect {
    pub id: String,
}

/// A notification for every connection bound to a game: `data` is JSON text.
#[derive(Clone, Debug, PartialEq)]
pub struct MessageToClient {
    pub path: String,
    pub data: String,
    pub game_id: i32,
}

/// A live connection: its id, its handle, the token it authenticated with, and the
/// games it is bound to.
pub struct Session<H> {
    pub id: String,
    pub addr: H,
    pub token: Option<String>,
    pub game_ids: Vec<i32>,
}

/// The connections bound to one game, in the order they were bound.
#[derive(Clone, Debug, PartialEq)]
pub struct GameSessions {
    pub game_id: i32,
    pub session_ids: Vec<String>,
}

/// What an authentication attempt did.
#[derive(Clone, Copy, Debug, PartialEq, Eq, Structural)]
pub enum AuthOutcome {
    /// The token did not verify: nothing changed.
    Rejected,
    /// The connection is gone: nothing changed.
    UnknownSession,
    /// The connection was already bound to the token's game.
    AlreadyBound,
    /// The connection is now bound to this game for the first time: every connection
    /// of the game is owed the current player list.
    Bound(i32),
}

/// The single owner of live connections and of their game bindings. Ids of ended
/// connections may stay in the game lists: fanout skips them.
pub struct Server<H> {
    pub sessions: Vec<Session<H>>,
    pub game_to_sessions: Vec<GameSessions>,
}

pub open spec fn ids_view(v: Seq<String>) -> Seq<Seq<char>> {
    v.map_values(|s: String| s@)
}

/// The position of the session with id `id`; -1 where there is none.
pub open spec fn session_index<H>(sessions: Seq<Session<H>>, id: Seq<char>) -> int
    decreases sessions.len(),
{
    if sessions.len() == 0 {
        -1
    } else if sessions.last().id@ == id {
        sessions.len() - 1
    } else {
        session_index(sessions.drop_last(), id)
    }
}

/// The position of the entry of game `g`; -1 where there is none.
pub open spec fn entry_index(index: Seq<GameSessions>, g: i32) -> int
    decreases index.len(),
{
    if index.len() == 0 {
        -1
    } else if index.last().game_id == g {
        index.len() - 1
    } else {
        entry_index(index.drop_last(), g)
    }
}

/// The ids bound to game `g`, in binding order.
pub open spec fn bound_to(index: Seq<GameSessions>, g: i32) -> Seq<Seq<char>> {
    let e = entry_index(index, g);
    if e < 0 {
        seq![]
    } else {
        ids_view(index[e].session_ids@)
    }
}

pub open spec fn is_live<H>(sessions: Seq<Session<H>>, id: Seq<char>) -> bool {
    session_index(sessions, id) >= 0
}

/// The ids of `list` whose connection is still live, in order.
pub open spec fn live_targets<H>(list: Seq<Seq<char>>, sessions: Seq<Session<H>>) -> Seq<Seq<char>>
    decreases list.len(),
{
    if list.len() == 0 {
        seq![]
    } else if is_live(sessions, list.last()) {
        live_targets(list.drop_last(), sessions).push(list.last())
    } else {
        live_targets(list.drop_last(), sessions)
    }
}

/// A connection with id `id` and handle `addr`, with no token and no game yet.
pub open spec fn is_fresh_session<H>(s: Session<H>, id: String, addr: H) -> bool {
    &&& s.id == id
    &&& s.addr == addr
    &&& s.token is None
    &&& s.game_ids@.len() == 0
}

pub proof fn lemma_session_index<H>(sessions: Seq<Session<H>>, id: Seq<char>)
    ensures
        -1 <= session_index(sessions, id) < sessions.len(),
        session_index(sessions, id) >= 0 ==> sessions[session_index(sessions, id)].id@ == id,
        session_index(sessions, id) == -1 <==> forall|k: int|
            0 <= k < sessions.len() ==> (#[trigger] sessions[k]).id@ != id,
    decreases sessions.len(),
{
    if sessions.len() > 0 {
        lemma_session_index(sessions.drop_last(), id);
        assert forall|k: int| 0 <= k < sessions.len() - 1 implies sessions.drop_last()[k]
            == #[trigger] sessions[k] by {}
    }
}

pub proof fn lemma_entry_index(index: Seq<GameSessions>, g: i32)
    ensures
        -1 <= entry_index(index, g) < index.len(),
        entry_index(index, g) >= 0 ==> index[entry_index(index, g)].game_id == g,
        entry_index(index, g) == -1 <==> forall|k: int|
            0 <= k < index.len() ==> (#[trigger] index[k]).game_id != g,
    decreases index.len(),
{
    if index.len() > 0 {
        lemma_entry_index(index.drop_last(), g);
        assert forall|k: int| 0 <= k < index.len() - 1 implies index.drop_last()[k]
            == #[trigger] index[k] by {}
    }
}

/// What `authenticate` does with connection `id`, the token it presented, and the
/// claim that the token verified to (`None` where it did not verify).
pub open spec fn authenticate_post<H>(
    old: Server<H>,
    new: Server<H>,
    id: Seq<char>,
    token: String,
    claim: Option<PrivateClaim>,
    r: AuthOutcome,
) -> bool {
    match claim {
        None => r == AuthOutcome::Rejected && new == old,
        Some(c) => {
            let k = session_index(old.sessions@, id);
            let g = c.game_id;
            if k < 0 {
                r == AuthOutcome::UnknownSession && new == old
            } else if bound_to(old.game_to_sessions@, g).contains(id) {
                r == AuthOutcome::AlreadyBound && new == old
            } else {
                &&& r == AuthOutcome::Bound(g)
                &&& new.sessions@.len() == old.sessions@.len()
                &&& forall|j: int|
                    0 <= j < old.sessions@.len() && j != k ==> #[trigger] new.sessions@[j]
                        == old.sessions@[j]
                &&& new.sessions@[k].id == old.sessions@[k].id
                &&& new.sessions@[k].addr == old.sessions@[k].addr
                &&& new.sessions@[k].token == Some(token)
                &&& new.sessions@[k].game_ids@ == old.sessions@[k].game_ids@.push(g)
                &&& bound_to(new.game_to_sessions@, g) == bound_to(old.game_to_sessions@, g).push(id)
                &&& forall|h: i32|
                    h != g ==> #[trigger] bound_to(new.game_to_sessions@, h) == bound_to(
                        old.game_to_sessions@,
                        h,
                    )
            }
        },
    }
}

pub open spec fn hex_digit(d: nat) -> char {
    "0123456789abcdef"@[d as int]
}

/// How serde_json writes one character inside a JSON string: quote, backslash and the
/// control characters are escaped, short forms first; everything else stands as is.
pub open spec fn json_escape(c: char) -> Seq<char> {
    if c == '"' {
        seq!['\\', '"']
    } else if c == '\\' {
        seq!['\\', '\\']
    } else if c == '\u{8}' {
        seq!['\\', 'b']
    } else if c == '\t' {
        seq!['\\', 't']
    } else if c == '\n' {
        seq!['\\', 'n']
    } else if c == '\u{c}' {
        seq!['\\', 'f']
    } else if c == '\r' {
        seq!['\\', 'r']
    } else if (c as u32) < 0x20 {
        seq!['\\', 'u', '0', '0', hex_digit((c as u32 / 16) as nat), hex_digit((c as u32 % 16) as nat)]
    } else {
        seq![c]
    }
}

pub open spec fn json_escaped(s: Seq<char>) -> Seq<char>
    decreases s.len(),
{
    if s.len() == 0 {
        seq![]
    } else {
        json_escaped(s.drop_last()) + json_escape(s.last())
    }
}

/// The JSON string literal that serde_json writes for `s`.
pub open spec fn json_string(s: Seq<char>) -> Seq<char> {
    seq!['"'] + json_escaped(s) + seq!['"']
}

/// Relies on `serde_json::to_string` on a `str`: the JSON string literal of `s`, escaped
/// by serde_json's `ESCAPE` table, which serde_json always manages to write for a string.
#[verifier::external_body]
fn json_quote(s: &str) -> (r: String)
    ensures
        r@ == json_string(s@),
{
    match serde_json::to_string(s) {
        Ok(text) => text,
        Err(_) => String::new(),
    }
}

/// The outbound envelope `{"path":...,"data":...,"game_id":...}` with the path already
/// written as a JSON string literal and the data as JSON text.
pub open spec fn envelope(quoted_path: Seq<char>, data: Seq<char>, game_id: i32) -> Seq<char> {
    "{\"path\":"@ + quoted_path + ",\"data\":"@ + data + ",\"game_id\":"@ + signed_decimal(
        game_id as int,
    ) + "}"@
}

/// Writes the outbound envelope around an already quoted path and JSON data.
pub fn encode_frame(quoted_path: &String, data: &String, game_id: i32) -> (r: String)
    ensures
        r@ == envelope(quoted_path@, data@, game_id),
{
    let mut r = String::from_str("{\"path\":");
    r.append(quoted_path.as_str());
    r.append(",\"data\":");
    r.append(data.as_str());
    r.append(",\"game_id\":");
    r.append(signed_decimal_string(game_id as i64).as_str());
    r.append("}");
    r
}

impl MessageToClient {
    pub fn new(path: &str, game_id: i32, data: String) -> (r: MessageToClient)
        ensures
            r.path@ == path@,
            r.game_id == game_id,
            r.data == data,
    {
        MessageToClient { path: path.to_string(), data, game_id }
    }

    /// The frame pushed to every recipient, written once per broadcast.
    pub fn to_json(&self) -> (r: String)
        ensures
            r@ == envelope(json_string(self.path@), self.data@, self.game_id),
    {
        let quoted = json_quote(self.path.as_str());
        encode_frame(&quoted, &self.data, self.game_id)
    }
}

/// A connection that authenticates twice into the same game is listed once: a
/// broadcast to that game reaches it, and reaches no connection twice.
pub proof fn lemma_repeated_auth_single_delivery<H>(
    s0: Server<H>,
    s1: Server<H>,
    s2: Server<H>,
    id: Seq<char>,
    first_token: String,
    second_token: String,
    claim: PrivateClaim,
    first: AuthOutcome,
    second: AuthOutcome,
)
    requires
        s0.wf(),
        s1.wf(),
        s2.wf(),
        is_live(s0.sessions@, id),
        authenticate_post(s0, s1, id, first_token, Some(claim), first),
        authenticate_post(s1, s2, id, second_token, Some(claim), second),
    ensures
        second == AuthOutcome::AlreadyBound,
        s2 == s1,
        live_targets(bound_to(s2.game_to_sessions@, claim.game_id), s2.sessions@).contains(id),
        live_targets(bound_to(s2.game_to_sessions@, claim.game_id), s2.sessions@).no_duplicates(),
{
    let g = claim.game_id;
    lemma_session_index(s0.sessions@, id);
    let k = session_index(s0.sessions@, id);
    assert(s1.sessions@[k].id@ == id);
    lemma_session_unique(s1.sessions@, id, k);
    let b0 = bound_to(s0.game_to_sessions@, g);
    let b1 = bound_to(s1.game_to_sessions@, g);
    assert(b1.contains(id)) by {
        if !b0.contains(id) {
            assert(b1[b1.len() - 1] == id);
        }
    }
    let b2 = bound_to(s2.game_to_sessions@, g);
    lemma_entry_index(s2.game_to_sessions@, g);
    assert(b2.no_duplicates());
    lemma_live_targets(b2, s2.sessions@);
}

pub proof fn lemma_entry_unique(index: Seq<GameSessions>, g: i32, e: int)
    requires
        forall|a: int, b: int|
            0 <= a < b < index.len() ==> (#[trigger] index[a]).game_id != (#[trigger] index[b]).game_id,
        0 <= e < index.len(),
        index[e].game_id == g,
    ensures
        entry_index(index, g) == e,
{
    lemma_entry_index(index, g);
    let f = entry_index(index, g);
    if f != e {
        if f < e {
            assert(index[f].game_id != index[e].game_id);
        } else {
            assert(index[e].game_id != index[f].game_id);
        }
    }
}

pub proof fn lemma_session_unique<H>(sessions: Seq<Session<H>>, id: Seq<char>, k: int)
    requires
        forall|a: int, b: int|
            0 <= a < b < sessions.len() ==> (#[trigger] sessions[a]).id@ != (#[trigger] sessions[b]).id@,
        0 <= k < sessions.len(),
        sessions[k].id@ == id,
    ensures
        session_index(sessions, id) == k,
{
    lemma_session_index(sessions, id);
    let f = session_index(sessions, id);
    if f != k {
        if f < k {
            assert(sessions[f].id@ != sessions[k].id@);
        } else {
            assert(sessions[k].id@ != sessions[f].id@);
        }
    }
}

/// Fanout reaches exactly the live connections among the bound ones, each once.
pub proof fn lemma_live_targets<H>(list: Seq<Seq<char>>, sessions: Seq<Session<H>>)
    ensures
        forall|x: Seq<char>|
            #[trigger] live_targets(list, sessions).contains(x) <==> (list.contains(x) && is_live(
                sessions,
                x,
            )),
        list.no_duplicates() ==> live_targets(list, sessions).no_duplicates(),
    decreases list.len(),
{
    if list.len() > 0 {
        let rest = list.drop_last();
        lemma_live_targets(rest, sessions);
        assert(list == rest.push(list.last()));
        assert forall|x: Seq<char>| list.contains(x) <==> (rest.contains(x) || x == list.last()) by {
            if list.contains(x) {
                let i = choose|i: int| 0 <= i < list.len() && list[i] == x;
                if i < list.len() - 1 {
                    assert(rest[i] == x);
                }
            }
            if rest.contains(x) {
                let i = choose|i: int| 0 <= i < rest.len() && rest[i] == x;
                assert(list[i] == x);
            }
            if x == list.last() {
                assert(list[list.len() - 1] == x);
            }
        }
        let t = live_targets(list, sessions);
        let tr = live_targets(rest, sessions);
        if is_live(sessions, list.last()) {
            assert(t == tr.push(list.last()));
            assert forall|x: Seq<char>| t.contains(x) <==> (tr.contains(x) || x == list.last()) by {
                if t.contains(x) {
                    let i = choose|i: int| 0 <= i < t.len() && t[i] == x;
                    if i < t.len() - 1 {
                        assert(tr[i] == x);
                    }
                }
                if tr.contains(x) {
                    let i = choose|i: int| 0 <= i < tr.len() && tr[i] == x;
                    assert(t[i] == x);
                }
                if x == list.last() {
                    assert(t[t.len() - 1] == x);
                }
            }
            if list.no_duplicates() {
                assert(rest.no_duplicates()) by {
                    assert forall|a: int, b: int| 0 <= a < b < rest.len() implies rest[a] != rest[b] by {
                        assert(rest[a] == list[a] && rest[b] == list[b]);
                    }
                }
                assert(!rest.contains(list.last())) by {
                    if rest.contains(list.last()) {
                        let i = choose|i: int| 0 <= i < rest.len() && rest[i] == list.last();
                        assert(list[i] == list[list.len() - 1]);
                    }
                }
                assert(!tr.contains(list.last()));
                assert forall|a: int, b: int| 0 <= a < b < t.len() implies t[a] != t[b] by {
                    if b == t.len() - 1 {
                        assert(tr[a] == t[a]);
                        assert(tr.contains(t[a]));
                    } else {
                        assert(tr[a] == t[a] && tr[b] == t[b]);
                    }
                }
            }
        } else {
            assert(t == tr);
            if list.no_duplicates() {
                assert forall|a: int, b: int| 0 <= a < b < rest.len() implies rest[a] != rest[b] by {
                    assert(rest[a] == list[a] && rest[b] == list[b]);
                }
            }
        }
    }
}

impl<H> Server<H> {
    /// Session ids are unique, each game has one entry, and no game lists an id twice.
    pub open spec fn wf(&self) -> bool {
        &&& forall|a: int, b: int|
            0 <= a < b < self.sessions@.len() ==> (#[trigger] self.sessions@[a]).id@
                != (#[trigger] self.sessions@[b]).id@
        &&& forall|a: int, b: int|
            0 <= a < b < self.game_to_sessions@.len() ==> (#[trigger] self.game_to_sessions@[a]).game_id
                != (#[trigger] self.game_to_sessions@[b]).game_id
        &&& forall|e: int|
            0 <= e < self.game_to_sessions@.len() ==> ids_view(
                (#[trigger] self.game_to_sessions@[e]).session_ids@,
            ).no_duplicates()
    }

    /// A registry with no connections.
    pub fn new() -> (r: Server<H>)
        ensures
            r.wf(),
            r.sessions@.len() == 0,
            r.game_to_sessions@.len() == 0,
    {
        Server { sessions: Vec::new(), game_to_sessions: Vec::new() }
    }

    /// The position of the session with id `id`.
    pub fn find_session(&self, id: &String) -> (r: Option<usize>)
        ensures
            match r {
                Some(k) => k as int == session_index(self.sessions@, id@) && k < self.sessions@.len(),
                None => session_index(self.sessions@, id@) == -1,
            },
    {
        proof {
            lemma_session_index(self.sessions@, id@);
        }
        let mut n: usize = self.sessions.len();
        assert(self.sessions@.subrange(0, n as int) == self.sessions@);
        while n > 0
            invariant
                n <= self.sessions@.len(),
                session_index(self.sessions@, id@) == session_index(
                    self.sessions@.subrange(0, n as int),
                    id@,
                ),
            decreases n,
        {
            proof {
                assert(self.sessions@.subrange(0, n as int).drop_last() == self.sessions@.subrange(
                    0,
                    n - 1,
                ));
            }
            if self.sessions[n - 1].id == *id {
                return Some(n - 1);
            }
            n = n - 1;
        }
        None
    }

    /// The position of the entry of game `g`.
    pub fn find_entry(&self, g: i32) -> (r: Option<usize>)
        ensures
            match r {
                Some(e) => e as int == entry_index(self.game_to_sessions@, g) && e
                    < self.game_to_sessions@.len(),
                None => entry_index(self.game_to_sessions@, g) == -1,
            },
    {
        proof {
            lemma_entry_index(self.game_to_sessions@, g);
        }
        let mut n: usize = self.game_to_sessions.len();
        assert(self.game_to_sessions@.subrange(0, n as int) == self.game_to_sessions@);
        while n > 0
            invariant
                n <= self.game_to_sessions@.len(),
                entry_index(self.game_to_sessions@, g) == entry_index(
                    self.game_to_sessions@.subrange(0, n as int),
                    g,
                ),
            decreases n,
        {
            proof {
                assert(self.game_to_sessions@.subrange(0, n as int).drop_last()
                    == self.game_to_sessions@.subrange(0, n - 1));
            }
            if self.game_to_sessions[n - 1].game_id == g {
                return Some(n - 1);
            }
            n = n - 1;
        }
        None
    }

    /// Registers a new connection with no token and no game; a connection that reuses
    /// a live id replaces it.
    pub fn connect(&mut self, msg: Connect<H>) -> (r: ())
        requires
            old(self).wf(),
        ensures
            final(self).wf(),
            final(self).game_to_sessions@ == old(self).game_to_sessions@,
            ({
                let k = session_index(old(self).sessions@, msg.id@);
                let n = old(self).sessions@.len() as int;
                if k >= 0 {
                    &&& final(self).sessions@.len() == n
                    &&& is_fresh_session(final(self).sessions@[k], msg.id, msg.addr)
                    &&& forall|j: int|
                        0 <= j < n && j != k ==> #[trigger] final(self).sessions@[j]
                            == old(self).sessions@[j]
                } else {
                    &&& final(self).sessions@.len() == n + 1
                    &&& is_fresh_session(final(self).sessions@[n], msg.id, msg.addr)
                    &&& forall|j: int|
                        0 <= j < n ==> #[trigger] final(self).sessions@[j] == old(self).sessions@[j]
                }
            }),
    {
        proof {
            lemma_session_index(self.sessions@, msg.id@);
        }
        let session = Session { id: msg.id, addr: msg.addr, token: None, game_ids: Vec::new() };
        match self.find_session(&session.id) {
            Some(k) => {
                self.sessions.set(k, session);
            },
            None => {
                self.sessions.push(session);
            },
        }
    }

    /// Forgets a connection. Its id stays in the game lists, where fanout skips it.
    pub fn disconnect(&mut self, msg: &Disconnect)
        requires
            old(self).wf(),
        ensures
            final(self).wf(),
            final(self).game_to_sessions@ == old(self).game_to_sessions@,
            ({
                let k = session_index(old(self).sessions@, msg.id@);
                if k >= 0 {
                    final(self).sessions@ == old(self).sessions@.remove(k)
                } else {
                    final(self).sessions@ == old(self).sessions@
                }
            }),
            !is_live(final(self).sessions@, msg.id@),
    {
        proof {
            lemma_session_index(self.sessions@, msg.id@);
        }
        match self.find_session(&msg.id) {
            Some(k) => {
                let ghost before = self.sessions@;
                self.sessions.remove(k);
                proof {
                    assert forall|a: int| 0 <= a < self.sessions@.len() implies (
                    #[trigger] self.sessions@[a]).id@ != msg.id@ by {
                        if a < k {
                            assert(self.sessions@[a] == before[a]);
                        } else {
                            assert(self.sessions@[a] == before[a + 1]);
                        }
                    }
                    lemma_session_index(self.sessions@, msg.id@);
                }
            },
            None => {},
        }
    }

    /// Binds connection `msg.id` to the game of `claim`, the claim that `msg.token`
    /// verified to. A token that did not verify, or a connection that is gone, changes
    /// nothing; binding twice to one game lists the connection once.
    pub fn authenticate(&mut self, msg: Auth, claim: Option<PrivateClaim>) -> (r: AuthOutcome)
        requires
            old(self).wf(),
        ensures
            final(self).wf(),
            authenticate_post(*old(self), *final(self), msg.id@, msg.token, claim, r),
    {
        let c = match claim {
            Some(c) => c,
            None => return AuthOutcome::Rejected,
        };
        let k = match self.find_session(&msg.id) {
            Some(k) => k,
            None => return AuthOutcome::UnknownSession,
        };
        let g = c.game_id;
        let ghost old_index = self.game_to_sessions@;
        let ghost old_sessions = self.sessions@;
        proof {
            lemma_session_index(old_sessions, msg.id@);
            lemma_entry_index(old_index, g);
        }
        match self.find_entry(g) {
            Some(e) => {
                let list = &self.game_to_sessions[e].session_ids;
                let mut i: usize = 0;
                let mut found = false;
                while i < list.len()
                    invariant
                        i <= list@.len(),
                        found == exists|j: int| 0 <= j < i && (#[trigger] list@[j])@ == msg.id@,
                    decreases list.len() - i,
                {
                    if list[i] == msg.id {
                        found = true;
                    }
                    i = i + 1;
                }
                proof {
                    if found {
                        let j = choose|j: int| 0 <= j < i && (#[trigger] list@[j])@ == msg.id@;
                        assert(ids_view(list@)[j] == msg.id@);
                    } else {
                        assert forall|j: int| 0 <= j < ids_view(list@).len() implies ids_view(list@)[j] != msg.id@ by {
                            assert(ids_view(list@)[j] == list@[j]@);
                        }
                    }
                }
                if found {
                    return AuthOutcome::AlreadyBound;
                }
                let mut ids = clone_strings(list);
                ids.push(msg.id.clone());
                proof {
                    assert(ids_view(ids@) =~= ids_view(list@).push(msg.id@));
                }
                self.game_to_sessions.set(e, GameSessions { game_id: g, session_ids: ids });
                proof {
                    assert forall|h: i32| h != g implies #[trigger] bound_to(
                        self.game_to_sessions@,
                        h,
                    ) == bound_to(old_index, h) by {
                        lemma_entry_index(old_index, h);
                        lemma_entry_index(self.game_to_sessions@, h);
                        let f = entry_index(old_index, h);
                        if f >= 0 {
                            assert(self.game_to_sessions@[f] == old_index[f]);
                            lemma_entry_unique(self.game_to_sessions@, h, f);
                        } else {
                            assert forall|m: int| 0 <= m < self.game_to_sessions@.len() implies (
                            #[trigger] self.game_to_sessions@[m]).game_id != h by {
                                if m != e {
                                    assert(self.game_to_sessions@[m] == old_index[m]);
                                    assert(old_index[m].game_id != h);
                                }
                            }
                        }
                    }
                    lemma_entry_unique(self.game_to_sessions@, g, e as int);
                }
            },
            None => {
                let mut ids: Vec<String> = Vec::new();
                ids.push(msg.id.clone());
                proof {
                    assert(ids_view(ids@) =~= seq![msg.id@]);
                    assert(seq![msg.id@] =~= Seq::<Seq<char>>::empty().push(msg.id@));
                }
                self.game_to_sessions.push(GameSessions { game_id: g, session_ids: ids });
                proof {
                    assert forall|h: i32| h != g implies #[trigger] bound_to(
                        self.game_to_sessions@,
                        h,
                    ) == bound_to(old_index, h) by {
                        lemma_entry_index(old_index, h);
                        lemma_entry_index(self.game_to_sessions@, h);
                        let f = entry_index(old_index, h);
                        if f >= 0 {
                            assert(self.game_to_sessions@[f] == old_index[f]);
                            lemma_entry_unique(self.game_to_sessions@, h, f);
                        } else {
                            assert forall|m: int| 0 <= m < self.game_to_sessions@.len() implies (
                            #[trigger] self.game_to_sessions@[m]).game_id != h by {
                                if m < old_index.len() {
                                    assert(self.game_to_sessions@[m] == old_index[m]);
                                    assert(old_index[m].game_id != h);
                                }
                            }
                        }
                    }
                    lemma_entry_unique(self.game_to_sessions@, g, old_index.len() as int);
                }
            },
        }
        self.sessions[k].token = Some(msg.token);
        self.sessions[k].game_ids.push(g);
        proof {
            lemma_session_unique(self.sessions@, msg.id@, k as int);
        }
        AuthOutcome::Bound(g)
    }

    /// The ids of the live connections bound to game `g`, in binding order: the
    /// recipients of a broadcast to `g`.
    pub fn fanout(&self, g: i32) -> (r: Vec<String>)
        ensures
            ids_view(r@) == live_targets(bound_to(self.game_to_sessions@, g), self.sessions@),
    {
        let mut r: Vec<String> = Vec::new();
        let e = match self.find_entry(g) {
            Some(e) => e,
            None => {
                assert(ids_view(r@) =~= Seq::<Seq<char>>::empty());
                return r;
            },
        };
        let list = &self.game_to_sessions[e].session_ids;
        let mut i: usize = 0;
        while i < list.len()
            invariant
                i <= list@.len(),
                ids_view(r@) == live_targets(ids_view(list@.subrange(0, i as int)), self.sessions@),
            decreases list.len() - i,
        {
            proof {
                assert(ids_view(list@.subrange(0, i + 1)).drop_last() =~= ids_view(
                    list@.subrange(0, i as int),
                ));
                assert(ids_view(list@.subrange(0, i + 1)).last() == list@[i as int]@);
            }
            let id = &list[i];
            if self.find_session(id).is_some() {
                let ghost before = r@;
                r.push(id.clone());
                proof {
                    assert(ids_view(r@) =~= ids_view(before).push(id@));
                }
            }
            i = i + 1;
        }
        proof {
            assert(list@.subrange(0, list@.len() as int) == list@);
        }
        r
    }

    /// The handle of live connection `id`.
    pub fn handle(&self, id: &String) -> (r: Option<&H>)
        ensures
            match r {
                Some(h) => is_live(self.sessions@, id@) && *h == self.sessions@[session_index(
                    self.sessions@,
                    id@,
                )].addr,
                None => !is_live(self.sessions@, id@),
            },
    {
        match self.find_session(id) {
            Some(k) => Some(&self.sessions[k].addr),
            None => None,
        }
    }
}

} // verus!
