//! The per-connection forwarding session, as a state machine over plain
//! values. The surrounding process owns the sockets and drives this
//! machine: it reports the upstream connect result, hands over each
//! forwarded chunk, and reports the end of each direction. The machine
//! decides the states and produces the log events; every decision here is
//! verified, while the I/O that triggers it stays outside.
//!
//! States: `Connecting` then `Forwarding` (on upstream connect, emitting
//! one `Open`), then `Closing` once one direction ends, then `Closed` once
//! both have. A failed connect goes straight to `Closed` with no event: an
//! unobserved attempt leaves no partial trail. Each direction that detects
//! its own end emits one `Close` - up to two per session, deliberately
//! never deduplicated, since the pair documents which side closed first.

use vstd::prelude::*;

use crate::encoding::encode_data;
use crate::encoding::encoded;

verus! {

/// The lifecycle of one forwarding session.
#[derive(PartialEq, Eq, Structural, Clone, Copy, Debug)]
pub enum SessionState {
    Connecting,
    Forwarding,
    Closing,
    Closed,
}

/// One direction of a session, named after the side it reads from.
#[derive(PartialEq, Eq, Structural, Clone, Copy, Debug)]
pub enum Direction {
    ClientToServer,
    ServerToClient,
}

/// One observation for the log: the closed event set of the data model.
/// Created at the observed moment, consumed exactly once by the sink.
pub enum LogEvent {
    Open { conn_id: String, from: String, to: String },
    Close { conn_id: String, from: String, to: String },
    Data { conn_id: String, data: String, from: String, to: String },
}

/// One forwarding session: its state, its identifier, the two endpoint
/// addresses, and which directions still run.
pub struct Session {
    state: SessionState,
    conn_id: String,
    client_addr: String,
    server_addr: String,
    client_to_server_open: bool,
    server_to_client_open: bool,
}

impl Session {
    /// The current lifecycle state.
    pub closed spec fn state(self) -> SessionState {
        self.state
    }

    /// The connection identifier carried into every log event.
    pub closed spec fn conn_id_text(self) -> Seq<char> {
        self.conn_id@
    }

    /// The formatted client address.
    pub closed spec fn client_addr_text(self) -> Seq<char> {
        self.client_addr@
    }

    /// The formatted upstream address, known once connected.
    pub closed spec fn server_addr_text(self) -> Seq<char> {
        self.server_addr@
    }

    /// Whether a direction is still forwarding.
    pub closed spec fn dir_open(self, dir: Direction) -> bool {
        match dir {
            Direction::ClientToServer => self.client_to_server_open,
            Direction::ServerToClient => self.server_to_client_open,
        }
    }

    /// The address of the side a direction reads from.
    pub open spec fn source_addr_text(self, dir: Direction) -> Seq<char> {
        match dir {
            Direction::ClientToServer => self.client_addr_text(),
            Direction::ServerToClient => self.server_addr_text(),
        }
    }

    /// The address of the side a direction writes to.
    pub open spec fn dest_addr_text(self, dir: Direction) -> Seq<char> {
        match dir {
            Direction::ClientToServer => self.server_addr_text(),
            Direction::ServerToClient => self.client_addr_text(),
        }
    }

    /// A session for one accepted socket, about to connect upstream.
    pub fn start(conn_id: String, client_addr: String) -> (s: Session)
        ensures
            s.state() == SessionState::Connecting,
            s.conn_id_text() == conn_id@,
            s.client_addr_text() == client_addr@,
            !s.dir_open(Direction::ClientToServer),
            !s.dir_open(Direction::ServerToClient),
    {
        Session {
            state: SessionState::Connecting,
            conn_id,
            client_addr,
            server_addr: String::new(),
            client_to_server_open: false,
            server_to_client_open: false,
        }
    }

    /// The upstream connect failed (or its peer address could not be
    /// read): the session closes immediately and emits nothing, so an
    /// unobserved attempt leaves no partial trail.
    pub fn on_connect_failed(&mut self)
        requires
            old(self).state() == SessionState::Connecting,
        ensures
            final(self).state() == SessionState::Closed,
            !final(self).dir_open(Direction::ClientToServer),
            !final(self).dir_open(Direction::ServerToClient),
    {
        self.state = SessionState::Closed;
        self.client_to_server_open = false;
        self.server_to_client_open = false;
    }

    /// The upstream connect succeeded: enter `Forwarding`, open both
    /// directions, and emit exactly one `Open` from client to server.
    pub fn on_connect_ok(&mut self, server_addr: String) -> (ev: LogEvent)
        requires
            old(self).state() == SessionState::Connecting,
        ensures
            final(self).state() == SessionState::Forwarding,
            final(self).dir_open(Direction::ClientToServer),
            final(self).dir_open(Direction::ServerToClient),
            final(self).conn_id_text() == old(self).conn_id_text(),
            final(self).client_addr_text() == old(self).client_addr_text(),
            final(self).server_addr_text() == server_addr@,
            ev matches LogEvent::Open { conn_id, from, to } && conn_id@ == old(
                self,
            ).conn_id_text() && from@ == old(self).client_addr_text() && to@ == server_addr@,
    {
        self.server_addr = server_addr;
        self.state = SessionState::Forwarding;
        self.client_to_server_open = true;
        self.server_to_client_open = true;
        LogEvent::Open {
            conn_id: self.conn_id.clone(),
            from: self.client_addr.clone(),
            to: self.server_addr.clone(),
        }
    }

    /// A chunk was read and forwarded on one direction: emit exactly one
    /// `Data` event encoding that chunk, from the direction's source to
    /// its destination. Forward first, then log: the caller calls this
    /// only after the chunk reached its destination.
    pub fn on_chunk(&self, dir: Direction, chunk: &[u8]) -> (ev: LogEvent)
        requires
            self.state() == SessionState::Forwarding || self.state() == SessionState::Closing,
            self.dir_open(dir),
        ensures
            ev matches LogEvent::Data { conn_id, data, from, to } && conn_id@
                == self.conn_id_text() && data@ == encoded(chunk@) && from@
                == self.source_addr_text(dir) && to@ == self.dest_addr_text(dir),
    {
        let (from, to) = match dir {
            Direction::ClientToServer => (self.client_addr.clone(), self.server_addr.clone()),
            Direction::ServerToClient => (self.server_addr.clone(), self.client_addr.clone()),
        };
        LogEvent::Data { conn_id: self.conn_id.clone(), data: encode_data(chunk), from, to }
    }

    /// One direction ended: end-of-stream or an I/O error, terminal for
    /// that direction only. When the direction detected its own end (its
    /// read side closed, rather than its write failing), it emits one
    /// `Close` naming the side that closed. The session reaches `Closing`
    /// while the other direction runs, `Closed` once both have ended.
    pub fn on_direction_end(&mut self, dir: Direction, detected_close: bool) -> (ev: Option<
        LogEvent,
    >)
        requires
            old(self).state() == SessionState::Forwarding || old(self).state()
                == SessionState::Closing,
            old(self).dir_open(dir),
        ensures
            !final(self).dir_open(dir),
            final(self).dir_open(other_direction(dir)) == old(self).dir_open(
                other_direction(dir),
            ),
            final(self).state() == (if old(self).dir_open(other_direction(dir)) {
                SessionState::Closing
            } else {
                SessionState::Closed
            }),
            final(self).conn_id_text() == old(self).conn_id_text(),
            final(self).client_addr_text() == old(self).client_addr_text(),
            final(self).server_addr_text() == old(self).server_addr_text(),
            detected_close ==> (ev matches Option::Some(e) && (e matches LogEvent::Close {
                conn_id,
                from,
                to,
            } && conn_id@ == old(self).conn_id_text() && from@ == old(self).source_addr_text(dir)
                && to@ == old(self).dest_addr_text(dir))),
            !detected_close ==> (ev matches Option::None),
    {
        match dir {
            Direction::ClientToServer => {
                self.client_to_server_open = false;
            },
            Direction::ServerToClient => {
                self.server_to_client_open = false;
            },
        }
        self.state = if self.client_to_server_open || self.server_to_client_open {
            SessionState::Closing
        } else {
            SessionState::Closed
        };
        if detected_close {
            let (from, to) = match dir {
                Direction::ClientToServer => (self.client_addr.clone(), self.server_addr.clone()),
                Direction::ServerToClient => (self.server_addr.clone(), self.client_addr.clone()),
            };
            Some(LogEvent::Close { conn_id: self.conn_id.clone(), from, to })
        } else {
            None
        }
    }

    /// Whether the session has reached `Closed`.
    pub fn finished(&self) -> (r: bool)
        ensures
            r == (self.state() == SessionState::Closed),
    {
        match self.state {
            SessionState::Closed => true,
            _ => false,
        }
    }
}

/// The opposite direction.
pub open spec fn other_direction(dir: Direction) -> Direction {
    match dir {
        Direction::ClientToServer => Direction::ServerToClient,
        Direction::ServerToClient => Direction::ClientToServer,
    }
}

} // verus!
