//! One client connection as a state machine. The caller owns the socket,
//! the store and the world: it hands each happening to `connection_step`
//! as an event (bytes read, a request together with what the store or the
//! world answered, a chat line) and performs the actions that come back.
//! Bytes are cut into frames and decoded here; a frame that does not decode
//! drops the rest of the buffer.
use vstd::prelude::*;

use crate::chat::{parse_chat_command, spec_chat_command, words, ChatCmd, ChatCommand};
use crate::maps::le_u16;
use crate::net::{spec_frame, try_parse_frame};
use crate::packets::{decode_client_packet, spec_decode, ClientPacket, PacketV};
use crate::session::{session_next, Reply, Session, SessionEvent};
use crate::text::trim;

verus! {

/// A connection: its session and the bytes read but not yet cut into frames.
pub struct Connection {
    pub session: Session,
    pub buf: Vec<u8>,
}

/// Abstract value of a `Connection`.
pub struct ConnView {
    pub session: Session,
    pub buf: Seq<u8>,
}

impl View for Connection {
    type V = ConnView;

    open spec fn view(&self) -> ConnView {
        ConnView { session: self.session, buf: self.buf@ }
    }
}

/// What happened on a connection.
pub enum ClientEvent {
    /// The socket was accepted.
    Connected,
    /// Bytes arrived.
    Received(Vec<u8>),
    /// A decoded request, with what the store or the world answered.
    Request(SessionEvent),
    /// A chat line typed by the player.
    Chat(String),
}

/// Abstract value of a `ClientEvent`.
pub enum EventV {
    Connected,
    Received(Seq<u8>),
    Request(SessionEvent),
    Chat(Seq<char>),
}

impl View for ClientEvent {
    type V = EventV;

    open spec fn view(&self) -> EventV {
        match self {
            ClientEvent::Connected => EventV::Connected,
            ClientEvent::Received(b) => EventV::Received(b@),
            ClientEvent::Request(e) => EventV::Request(*e),
            ClientEvent::Chat(m) => EventV::Chat(m@),
        }
    }
}

/// What the caller does after a step.
pub enum Action {
    /// Greet the client (the server speaks first).
    Greet,
    /// A request arrived: answer it, asking the store or the world as needed.
    Packet(ClientPacket),
    /// Answer as the session rules say.
    Reply(Reply),
    /// Show a chat line of player `object_id` to everyone, the speaker too.
    Say { object_id: u32, message: String },
    /// Carry out a chat command of player `object_id`.
    Command { object_id: u32, cmd: ChatCommand },
}

/// Abstract value of an `Action`.
pub enum ActionV {
    Greet,
    Packet(PacketV),
    Reply(Reply),
    Say { object_id: u32, message: Seq<char> },
    Command { object_id: u32, cmd: ChatCmd },
}

impl View for Action {
    type V = ActionV;

    open spec fn view(&self) -> ActionV {
        match self {
            Action::Greet => ActionV::Greet,
            Action::Packet(p) => ActionV::Packet(p@),
            Action::Reply(r) => ActionV::Reply(*r),
            Action::Say { object_id, message } => ActionV::Say {
                object_id: *object_id,
                message: message@,
            },
            Action::Command { object_id, cmd } => ActionV::Command { object_id: *object_id, cmd: cmd@ },
        }
    }
}

/// The abstract values of a list of actions.
pub open spec fn actions_view(s: Seq<Action>) -> Seq<ActionV> {
    s.map_values(|a: Action| a@)
}

/// The actions that hand each request on.
pub open spec fn packet_actions(ps: Seq<PacketV>) -> Seq<ActionV> {
    ps.map_values(|p: PacketV| ActionV::Packet(p))
}

/// The requests at the front of `buf`, frame by frame, and what is left of
/// it: the bytes of an incomplete frame, or nothing once a frame fails to
/// decode.
pub open spec fn spec_drain(buf: Seq<u8>) -> (Seq<u8>, Seq<PacketV>)
    decreases buf.len(),
{
    match spec_frame(buf) {
        None => (buf, Seq::empty()),
        Some((id, payload, used)) => if 0 < used <= buf.len() {
            match spec_decode(id, payload) {
                Some(p) => {
                    let (rest, ps) = spec_drain(buf.subrange(used, buf.len() as int));
                    (rest, seq![p] + ps)
                },
                None => (Seq::empty(), Seq::empty()),
            }
        } else {
            (buf, Seq::empty())
        },
    }
}

/// Every frame at the front of `buf`, up to an incomplete one, has a length
/// in range and decodes.
pub open spec fn well_framed(buf: Seq<u8>) -> bool
    decreases buf.len(),
{
    match spec_frame(buf) {
        None => true,
        Some((id, payload, used)) => {
            &&& 4 <= used <= buf.len()
            &&& le_u16(buf, 0) as int == used
            &&& spec_decode(id, payload) is Some
            &&& well_framed(buf.subrange(used, buf.len() as int))
        },
    }
}

/// A complete frame at the front of `x` is read the same whatever follows.
proof fn lemma_frame_prefix(x: Seq<u8>, y: Seq<u8>)
    requires
        spec_frame(x) matches Some((_, _, used)) && 4 <= used <= x.len() && le_u16(x, 0) as int == used,
    ensures
        spec_frame(x + y) == spec_frame(x),
{
    let xy = x + y;
    assert(xy[0] == x[0] && xy[1] == x[1] && xy[2] == x[2] && xy[3] == x[3]);
    assert(le_u16(xy, 0) == le_u16(x, 0));
    let used = le_u16(x, 0) as int;
    assert(xy.subrange(4, used) =~= x.subrange(4, used));
}

/// Bytes may arrive in pieces: as long as the frames read from the first
/// piece (after what was buffered) are well formed, reading two pieces one
/// after the other yields the same requests, in the same order, and leaves
/// the same buffer as reading them at once.
pub proof fn law_split_reads(c: ConnView, a: Seq<u8>, b: Seq<u8>)
    requires
        well_framed(c.buf + a),
    ensures
        ({
            let (c1, r1) = conn_next(c, EventV::Received(a));
            let (c2, r2) = conn_next(c1, EventV::Received(b));
            let (d, r) = conn_next(c, EventV::Received(a + b));
            &&& c2 == d
            &&& r1 + r2 == r
        }),
{
    lemma_drain_append(c.buf + a, b);
    assert(c.buf + (a + b) =~= (c.buf + a) + b);
    let ps1 = spec_drain(c.buf + a).1;
    let ps2 = spec_drain(spec_drain(c.buf + a).0 + b).1;
    assert(packet_actions(ps1) + packet_actions(ps2) =~= packet_actions(ps1 + ps2));
}

/// Draining `x + y` is draining `x` and then what is left of it with `y`,
/// when the frames of `x` are well formed.
proof fn lemma_drain_append(x: Seq<u8>, y: Seq<u8>)
    requires
        well_framed(x),
    ensures
        spec_drain(x + y) == ({
            let (rest, ps) = spec_drain(x);
            let (rest2, ps2) = spec_drain(rest + y);
            (rest2, ps + ps2)
        }),
    decreases x.len(),
{
    match spec_frame(x) {
        None => {
            assert(spec_drain(x).1 + spec_drain(x + y).1 =~= spec_drain(x + y).1);
        },
        Some((id, payload, used)) => {
            lemma_frame_prefix(x, y);
            let rx = x.subrange(used, x.len() as int);
            lemma_drain_append(rx, y);
            assert((x + y).subrange(used, (x + y).len() as int) =~= rx + y);
            let (r1, p1) = spec_drain(rx);
            let (r2, p2) = spec_drain(r1 + y);
            let p = spec_decode(id, payload)->0;
            assert(seq![p] + (p1 + p2) =~= (seq![p] + p1) + p2);
        },
    }
}

/// The chat command a line asks for, if it is one (see `parse_chat_command`).
pub open spec fn command_of_line(m: Seq<char>) -> Option<ChatCmd> {
    let ws = words(m);
    if ws.len() > 0 && ws[0].len() > 0 && ws[0][0] == '/' {
        Some(spec_chat_command(ws, trim(m)))
    } else {
        None
    }
}

/// One step of a connection (see `connection_step`).
pub open spec fn conn_next(c: ConnView, ev: EventV) -> (ConnView, Seq<ActionV>) {
    match ev {
        EventV::Connected => (c, seq![ActionV::Greet]),
        EventV::Received(bytes) => {
            let (rest, ps) = spec_drain(c.buf + bytes);
            (ConnView { buf: rest, ..c }, packet_actions(ps))
        },
        EventV::Request(e) => {
            let (s, r) = session_next(c.session, e);
            (ConnView { session: s, ..c }, seq![ActionV::Reply(r)])
        },
        EventV::Chat(m) => match c.session.object_id {
            None => (c, Seq::empty()),
            Some(oid) => match command_of_line(m) {
                Some(cmd) => (c, seq![ActionV::Command { object_id: oid, cmd }]),
                None => (c, seq![ActionV::Say { object_id: oid, message: m }]),
            },
        },
    }
}

/// Cuts the complete frames off the front of `buf` and decodes them (see
/// `spec_drain`).
fn drain_frames(buf: &mut Vec<u8>) -> (r: Vec<Action>)
    ensures
        final(buf)@ == spec_drain(old(buf)@).0,
        actions_view(r@) == packet_actions(spec_drain(old(buf)@).1),
{
    let ghost b0 = buf@;
    let mut r: Vec<Action> = Vec::new();
    assert(actions_view(r@) + packet_actions(spec_drain(b0).1) =~= packet_actions(spec_drain(b0).1));
    loop
        invariant
            spec_drain(b0).0 == spec_drain(buf@).0,
            packet_actions(spec_drain(b0).1) == actions_view(r@) + packet_actions(spec_drain(buf@).1),
        ensures
            buf@ == spec_drain(b0).0,
            actions_view(r@) == packet_actions(spec_drain(b0).1),
        decreases buf@.len(),
    {
        let ghost cur = buf@;
        let (id, payload, used) = match try_parse_frame(buf.as_slice()) {
            Some(x) => x,
            None => {
                assert(packet_actions(Seq::empty()) =~= Seq::<ActionV>::empty());
                assert(actions_view(r@) + Seq::<ActionV>::empty() =~= actions_view(r@));
                break;
            },
        };
        if used == 0 || used > buf.len() {
            assert(packet_actions(Seq::empty()) =~= Seq::<ActionV>::empty());
            assert(actions_view(r@) + Seq::<ActionV>::empty() =~= actions_view(r@));
            break;
        }
        match decode_client_packet(id, payload.as_slice()) {
            Some(p) => {
                let rest = buf.split_off(used);
                *buf = rest;
                let ghost pv = p@;
                let ghost r0 = actions_view(r@);
                r.push(Action::Packet(p));
                proof {
                    let tail = spec_drain(buf@).1;
                    assert(buf@ =~= cur.subrange(used as int, cur.len() as int));
                    assert(spec_drain(cur).1 == seq![pv] + tail);
                    assert(actions_view(r@) =~= r0.push(ActionV::Packet(pv)));
                    assert(packet_actions(seq![pv] + tail) =~= seq![ActionV::Packet(pv)]
                        + packet_actions(tail));
                    assert(r0 + (seq![ActionV::Packet(pv)] + packet_actions(tail)) =~= actions_view(r@)
                        + packet_actions(tail));
                }
            },
            None => {
                buf.clear();
                proof {
                    assert(buf@ =~= Seq::<u8>::empty());
                    assert(spec_drain(cur).0 =~= Seq::<u8>::empty());
                    assert(packet_actions(Seq::empty()) =~= Seq::<ActionV>::empty());
                    assert(actions_view(r@) + Seq::<ActionV>::empty() =~= actions_view(r@));
                }
                break;
            },
        }
    }
    r
}

/// Handles one event (see `conn_next`): the greeting on connect; bytes are
/// added to the buffer and every complete frame is cut off and decoded into
/// a request, in order, a frame that fails to decode dropping what is left;
/// a request with the store's answer steps the session (`session_next`); a
/// chat line of a player in the game becomes a command when its first word
/// starts with `/` and is said aloud otherwise, and is ignored before the
/// player is in the game.
pub fn connection_step(s: &mut Connection, ev: ClientEvent) -> (r: Vec<Action>)
    ensures
        (final(s)@, actions_view(r@)) == conn_next(old(s)@, ev@),
{
    match ev {
        ClientEvent::Connected => {
            let r = vec![Action::Greet];
            assert(actions_view(r@) =~= seq![ActionV::Greet]);
            r
        },
        ClientEvent::Received(bytes) => {
            let mut bytes = bytes;
            s.buf.append(&mut bytes);
            drain_frames(&mut s.buf)
        },
        ClientEvent::Request(e) => {
            let reply = s.session.step(e);
            let r = vec![Action::Reply(reply)];
            assert(actions_view(r@) =~= seq![ActionV::Reply(reply)]);
            r
        },
        ClientEvent::Chat(m) => match s.session.object_id {
            None => {
                let r: Vec<Action> = Vec::new();
                assert(actions_view(r@) =~= Seq::<ActionV>::empty());
                r
            },
            Some(oid) => match parse_chat_command(m.as_str()) {
                Some(cmd) => {
                    let ghost cv = cmd@;
                    let r = vec![Action::Command { object_id: oid, cmd }];
                    assert(actions_view(r@) =~= seq![ActionV::Command { object_id: oid, cmd: cv }]);
                    r
                },
                None => {
                    let ghost mv = m@;
                    let r = vec![Action::Say { object_id: oid, message: m }];
                    assert(actions_view(r@) =~= seq![ActionV::Say { object_id: oid, message: mv }]);
                    r
                },
            },
        },
    }
}

} // verus!
