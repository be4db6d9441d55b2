//! The game server's decision core: the identity handshake, the binding of
//! connections to player names, and the dispatch of decoded client messages
//! to world actions. The transports themselves live outside the library and
//! hand decoded messages in.

use vstd::prelude::*;
use vstd::std_specs::iter::IteratorSpec;
use vstd::string::StringExecFns;
use vstd::string::StringSliceAdditionalSpecFns;
use crate::controls::{Action, Control};
use crate::player::PlayerId;
use crate::timestamp::Timestamp;

verus! {

/// Unicode letter class membership; depends on the character alone.
pub uninterp spec fn unicode_letter(c: char) -> bool;

/// Unicode number class membership; depends on the character alone.
pub uninterp spec fn unicode_number(c: char) -> bool;

/// Unicode connector punctuation membership; depends on the character alone.
pub uninterp spec fn unicode_connector(c: char) -> bool;

/// Relies on unicode_categories' `char::is_letter`: a pure table lookup of
/// the letter categories, a function of the character alone.
#[verifier::external_body]
fn is_letter_char(c: char) -> (r: bool)
    ensures
        r == unicode_letter(c),
{
    unicode_categories::UnicodeCategories::is_letter(c)
}

/// Relies on unicode_categories' `char::is_number`: a pure table lookup of
/// the number categories, a function of the character alone.
#[verifier::external_body]
fn is_number_char(c: char) -> (r: bool)
    ensures
        r == unicode_number(c),
{
    unicode_categories::UnicodeCategories::is_number(c)
}

/// Relies on unicode_categories' `char::is_punctuation_connector`: a pure
/// table lookup of the connector category, a function of the character alone.
#[verifier::external_body]
fn is_connector_char(c: char) -> (r: bool)
    ensures
        r == unicode_connector(c),
{
    unicode_categories::UnicodeCategories::is_punctuation_connector(c)
}

/// Collects the characters of a string into a vector, in order.
fn str_chars(s: &str) -> (r: Vec<char>)
    ensures
        r@ == s@,
{
    broadcast use vstd::string::group_string_axioms;

    let mut it = s.chars();
    let mut out: Vec<char> = Vec::new();
    proof {
        assert(out@ + it.remaining() =~= s@);
    }
    loop
        invariant
            it.obeys_prophetic_iter_laws(),
            it.decrease() is Some,
            out@ + it.remaining() == s@,
        ensures
            out@ == s@,
        decreases it.decrease()->0,
    {
        match it.next() {
            Some(c) => {
                out.push(c);
                proof {
                    assert(out@ + it.remaining() =~= s@);
                }
            },
            None => {
                proof {
                    assert(out@ + it.remaining() =~= out@);
                }
                break ;
            },
        }
    }
    out
}

/// Whether every character may appear in a player name.
pub open spec fn name_chars_ok(s: Seq<char>) -> bool {
    forall|i: int|
        0 <= i < s.len() ==> unicode_letter(#[trigger] s[i]) || unicode_number(s[i])
            || unicode_connector(s[i])
}

/// A name the handshake accepts: one to sixty bytes, every code point a
/// letter, a number or connector punctuation.
pub open spec fn name_ok(chars: Seq<char>) -> bool {
    &&& vstd::utf8::encode_utf8(chars).len() <= 60
    &&& chars.len() >= 1
    &&& name_chars_ok(chars)
}

/// Checks a requested player name, answering the reason it is refused.
pub fn validate_name(name: &str) -> (r: Option<&'static str>)
    ensures
        r is None <==> name_ok(name@),
        r is Some ==> !name_ok(name@),
{
    let byte_count = name.as_bytes().len();
    if byte_count > 60 {
        return Some("A name can not be longer than 60 bytes");
    }
    let chars = str_chars(name);
    if chars.len() == 0 {
        return Some("A name must have at least one character");
    }
    let mut i: usize = 0;
    while i < chars.len()
        invariant
            0 <= i <= chars@.len(),
            chars@ == name@,
            name.spec_bytes().len() <= 60,
            chars@.len() >= 1,
            forall|j: int|
                0 <= j < i ==> unicode_letter(#[trigger] chars@[j]) || unicode_number(chars@[j])
                    || unicode_connector(chars@[j]),
        decreases chars@.len() - i,
    {
        let c = chars[i];
        if !(is_letter_char(c) || is_number_char(c) || is_connector_char(c)) {
            proof {
                assert(!(unicode_letter(#[trigger] chars@[i as int]) || unicode_number(
                    chars@[i as int],
                ) || unicode_connector(chars@[i as int])));
            }
            return Some("A name can only contain letters, numbers and underscores");
        }
        i = i + 1;
    }
    None
}

/// One connection as the fan-in names it: the listener it arrived on and its
/// number there.
#[derive(Debug, Clone, Copy, PartialEq, Eq, Hash, Structural)]
pub struct ClientId(pub usize, pub usize);

/// One decoded client message.
#[derive(Debug)]
pub enum Message {
    Introduction(String),
    Chat(String),
    Input(Control, u64),
}

/// What the server answers a message with, besides a world action.
#[derive(Debug)]
pub enum Reply {
    /// An error reply to the sending connection; the connection stays open.
    Error(ClientId, &'static str, String),
    /// The confirmation to a successful introduction.
    Connected(ClientId, String),
    /// A line of text for every connected player.
    Broadcast(String),
}

/// Whether some binding carries this connection.
pub open spec fn bound_client(s: Seq<(ClientId, PlayerId)>, c: ClientId) -> bool {
    exists|i: int| 0 <= i < s.len() && (#[trigger] s[i]).0 == c
}

/// Whether some binding carries this player name.
pub open spec fn bound_name(s: Seq<(ClientId, PlayerId)>, n: Seq<char>) -> bool {
    exists|i: int| 0 <= i < s.len() && (#[trigger] s[i]).1@ == n
}

/// The game server's registry: which connection speaks for which player.
#[derive(Debug)]
pub struct GameServer {
    pub connections: Vec<(ClientId, PlayerId)>,
}

impl GameServer {
    pub fn new() -> (r: GameServer)
        ensures
            r.connections@.len() == 0,
    {
        GameServer { connections: Vec::new() }
    }

    /// The player a connection is bound to.
    pub fn player_of(&self, clientid: ClientId) -> (r: Option<PlayerId>)
        ensures
            match r {
                Some(id) => exists|i: int|
                    0 <= i < self.connections@.len() && (#[trigger] self.connections@[i]).0
                        == clientid && self.connections@[i].1@ == id@,
                None => !bound_client(self.connections@, clientid),
            },
    {
        let mut i: usize = 0;
        while i < self.connections.len()
            invariant
                0 <= i <= self.connections@.len(),
                forall|j: int| 0 <= j < i ==> (#[trigger] self.connections@[j]).0 != clientid,
            decreases self.connections@.len() - i,
        {
            if self.connections[i].0 == clientid {
                proof {
                    assert((#[trigger] self.connections@[i as int]).0 == clientid);
                }
                return Some(PlayerId(self.connections[i].1.0.clone()));
            }
            i = i + 1;
        }
        None
    }

    /// The connection bound to a player.
    pub fn client_of(&self, player: &PlayerId) -> (r: Option<ClientId>)
        ensures
            match r {
                Some(c) => exists|i: int|
                    0 <= i < self.connections@.len() && (#[trigger] self.connections@[i]).1@
                        == player@ && self.connections@[i].0 == c,
                None => !bound_name(self.connections@, player@),
            },
    {
        let mut i: usize = 0;
        while i < self.connections.len()
            invariant
                0 <= i <= self.connections@.len(),
                forall|j: int| 0 <= j < i ==> (#[trigger] self.connections@[j]).1@ != player@,
            decreases self.connections@.len() - i,
        {
            if self.connections[i].1 == *player {
                proof {
                    assert((#[trigger] self.connections@[i as int]).1@ == player@);
                }
                return Some(self.connections[i].0);
            }
            i = i + 1;
        }
        None
    }

    /// Unbinds a closed connection: the binding is removed, and the departed
    /// player's name comes back with a farewell broadcast.
    pub fn disconnect(&mut self, clientid: ClientId) -> (r: Option<(PlayerId, Reply)>)
        ensures
            match r {
                Some(dropped) => exists|i: int|
                    {
                        &&& 0 <= i < old(self).connections@.len()
                        &&& (#[trigger] old(self).connections@[i]).0 == clientid
                        &&& forall|j: int|
                            0 <= j < i ==> (#[trigger] old(self).connections@[j]).0 != clientid
                        &&& final(self).connections@ == old(self).connections@.remove(i)
                        &&& dropped.0@ == old(self).connections@[i].1@
                        &&& (dropped.1 matches Reply::Broadcast(text) && text@ == old(
                            self,
                        ).connections@[i].1@ + " disconnected"@)
                    },
                None => !bound_client(old(self).connections@, clientid) && *final(self) == *old(
                    self,
                ),
            },
    {
        let mut i: usize = 0;
        while i < self.connections.len()
            invariant
                0 <= i <= self.connections@.len(),
                *self == *old(self),
                forall|j: int| 0 <= j < i ==> (#[trigger] self.connections@[j]).0 != clientid,
            decreases self.connections@.len() - i,
        {
            if self.connections[i].0 == clientid {
                proof {
                    assert((#[trigger] self.connections@[i as int]).0 == clientid);
                }
                let (_, player) = self.connections.remove(i);
                let mut text = player.0.clone();
                text.append(" disconnected");
                let name = PlayerId(player.0.clone());
                proof {
                    assert((#[trigger] old(self).connections@[i as int]).0 == clientid);
                }
                return Some((name, Reply::Broadcast(text)));
            }
            i = i + 1;
        }
        None
    }

    /// Resolves one decoded message: introductions must carry an acceptable,
    /// unused name on an unbound connection and then bind it, answered with
    /// a join broadcast and a confirmation; chat is broadcast under the
    /// speaker's name; inputs turn into world actions for the bound player.
    /// Every refusal is answered with exactly one error reply naming its
    /// kind, and the connection and bindings are kept unchanged.
    pub fn handle_message(&mut self, clientid: ClientId, msg: Message) -> (r: (
        Option<Action>,
        Vec<Reply>,
    ))
        ensures
            match msg {
                Message::Introduction(ref name) => {
                    if name_ok(name@) && !bound_client(old(self).connections@, clientid)
                        && !bound_name(old(self).connections@, name@) {
                        &&& (r.0 matches Some(a) && a matches Action::Join(p) && p@ == name@)
                        &&& final(self).connections@ == old(self).connections@.push(
                            (clientid, final(self).connections@.last().1),
                        )
                        &&& final(self).connections@.last().0 == clientid
                        &&& final(self).connections@.last().1@ == name@
                        &&& r.1@.len() == 2
                        &&& (r.1@[0] matches Reply::Broadcast(t) && t@ == name@ + " connected"@)
                        &&& (r.1@[1] matches Reply::Connected(c, t) && c == clientid && t@
                            == "successfully connected as "@ + name@)
                    } else {
                        &&& r.0 is None
                        &&& *final(self) == *old(self)
                        &&& r.1@.len() == 1
                        &&& (r.1@[0] matches Reply::Error(c, kind, _) && c == clientid && kind@
                            == (if !name_ok(name@) {
                            "invalidname"@
                        } else if bound_client(old(self).connections@, clientid) {
                            "invalidaction"@
                        } else {
                            "nametaken"@
                        }))
                    }
                },
                Message::Chat(ref text) => {
                    &&& *final(self) == *old(self)
                    &&& r.0 is None
                    &&& r.1@.len() == 1
                    &&& if bound_client(old(self).connections@, clientid) {
                        r.1@[0] matches Reply::Broadcast(t) && exists|i: int|
                            0 <= i < old(self).connections@.len() && (#[trigger] old(
                                self,
                            ).connections@[i]).0 == clientid && t@ == old(
                                self,
                            ).connections@[i].1@ + ": "@ + text@
                    } else {
                        r.1@[0] matches Reply::Error(c, kind, _) && c == clientid && kind@
                            == "invalidaction"@
                    }
                },
                Message::Input(control, millis) => {
                    &&& *final(self) == *old(self)
                    &&& if bound_client(old(self).connections@, clientid) {
                        &&& r.1@.len() == 0
                        &&& (r.0 matches Some(a) && a matches Action::Input(p, c, ts) && c
                            == control && ts.0 == millis && exists|i: int|
                            0 <= i < old(self).connections@.len() && (#[trigger] old(
                                self,
                            ).connections@[i]).0 == clientid && p@ == old(
                                self,
                            ).connections@[i].1@)
                    } else {
                        &&& r.0 is None
                        &&& r.1@.len() == 1
                        &&& (r.1@[0] matches Reply::Error(c, kind, _) && c == clientid && kind@
                            == "invalidaction"@)
                    }
                },
            },
    {
        match msg {
            Message::Introduction(name) => {
                match validate_name(name.as_str()) {
                    Some(refusal) => {
                        (
                            None,
                            vec![
                                Reply::Error(clientid, "invalidname", refusal.to_owned()),
                            ],
                        )
                    },
                    None => {
                        if self.player_of(clientid).is_some() {
                            return (
                                None,
                                vec![
                                    Reply::Error(
                                        clientid,
                                        "invalidaction",
                                        "You can not change your name".to_owned(),
                                    ),
                                ],
                            );
                        }
                        let player = PlayerId(name.clone());
                        if self.client_of(&player).is_some() {
                            return (
                                None,
                                vec![
                                    Reply::Error(
                                        clientid,
                                        "nametaken",
                                        "Another connection to this player exists already".to_owned(),
                                    ),
                                ],
                            );
                        }
                        let mut joined = name.clone();
                        joined.append(" connected");
                        let mut confirmation: String = "successfully connected as ".to_owned();
                        confirmation.append(name.as_str());
                        self.connections.push((clientid, PlayerId(name.clone())));
                        (
                            Some(Action::Join(player)),
                            vec![
                                Reply::Broadcast(joined),
                                Reply::Connected(clientid, confirmation),
                            ],
                        )
                    },
                }
            },
            Message::Chat(text) => {
                match self.player_of(clientid) {
                    Some(player) => {
                        let mut line = player.0.clone();
                        line.append(": ");
                        line.append(text.as_str());
                        (None, vec![Reply::Broadcast(line)])
                    },
                    None => (
                        None,
                        vec![
                            Reply::Error(
                                clientid,
                                "invalidaction",
                                "Set a valid name before you send any other messages".to_owned(),
                            ),
                        ],
                    ),
                }
            },
            Message::Input(control, millis) => {
                match self.player_of(clientid) {
                    Some(player) => (
                        Some(Action::Input(player, control, Timestamp(millis))),
                        Vec::new(),
                    ),
                    None => (
                        None,
                        vec![
                            Reply::Error(
                                clientid,
                                "invalidaction",
                                "Set a name before you send any other messages".to_owned(),
                            ),
                        ],
                    ),
                }
            },
        }
    }
}

} // verus!
