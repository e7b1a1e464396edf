//! A client's visit, from the first thing it sends until it is gone.

use crate::game::{Admission, Dispatch, GameState};
use crate::messages::{joined, unasked, welcome, TABLE_FULL};
use crate::text::{receive_text, received_text};
use vstd::prelude::*;

verus! {

/// How far a visit has come. `C` is what carries messages to the client.
#[derive(Debug)]
pub enum Session<C> {
    /// The client has not said its name yet.
    Connecting { channel: C },
    /// The client plays at seat `id`.
    Playing { id: usize },
    /// The visit is over.
    Closed,
}

/// What reading from a client gave.
#[derive(Debug)]
pub enum Read {
    /// The bytes that came; none when the client has closed.
    Bytes(Vec<u8>),
    /// Reading failed.
    Failed,
}

/// What is to be done after a client was read from. `R` is where an answer that
/// somebody waits for is put.
#[derive(Debug)]
pub enum ClientAction<R> {
    /// Nothing is sent and the visit is over.
    Close,
    /// The client is sent `reply` and the visit is over.
    Refuse { reply: String },
    /// The client is sent `reply`, the operator sees `log`, and the client plays.
    Welcome { reply: String, log: String },
    /// `message` is put into `waiting`.
    Deliver { waiting: R, message: String },
    /// The operator sees `line`.
    Log { line: String },
}

impl<C, R> GameState<C, R> {
    /// Takes one step of a client's visit. The first text from a client is its name,
    /// every later one a message.
    pub fn handle_client(&mut self, session: Session<C>, read: Read) -> (res: (
        Session<C>,
        ClientAction<R>,
    ))
        requires
            old(self)@.well_formed(),
            session is Connecting ==> read is Bytes,
            session matches Session::Playing { id } ==> old(self)@.players.contains_key(id),
        ensures
            final(self)@.well_formed(),
            match session {
                Session::Connecting { channel } => {
                    let bytes = read->Bytes_0@;
                    let name = received_text(bytes);
                    let player = old(self)@.newcomer(name);
                    if bytes.len() == 0 {
                        &&& final(self)@ == old(self)@
                        &&& res.0 is Closed
                        &&& res.1 is Close
                    } else if old(self)@.has_room() {
                        &&& final(self)@ == old(self)@.join(name, channel)
                        &&& res.0 == Session::<C>::Playing { id: player.num }
                        &&& res.1 matches ClientAction::Welcome { reply, log }
                        &&& reply@ == welcome(player.num, player.role)
                        &&& log@ == joined(name, player.num, player.role)
                    } else {
                        &&& final(self)@ == old(self)@.join(name, channel)
                        &&& res.0 is Closed
                        &&& res.1 matches ClientAction::Refuse { reply }
                        &&& reply@ == TABLE_FULL@
                    }
                },
                Session::Playing { id } => if read is Failed || read->Bytes_0@.len() == 0 {
                    &&& final(self)@ == old(self)@.leave(id)
                    &&& res.0 is Closed
                    &&& res.1 is Close
                } else {
                    let message = received_text(read->Bytes_0@);
                    &&& final(self)@ == old(self)@.forget_reply(id)
                    &&& res.0 == session
                    &&& if old(self)@.pending_responses.contains_key(id) {
                        &&& res.1 matches ClientAction::Deliver { waiting, message: answer }
                        &&& waiting == old(self)@.pending_responses[id]
                        &&& answer@ == message
                    } else {
                        &&& res.1 matches ClientAction::Log { line }
                        &&& line@ == unasked(id, message)
                    }
                },
                Session::Closed => {
                    &&& final(self)@ == old(self)@
                    &&& res.0 is Closed
                    &&& res.1 is Close
                },
            },
    {
        match session {
            Session::Connecting { channel } => match read {
                Read::Bytes(bytes) => {
                    if bytes.len() == 0 {
                        return (Session::Closed, ClientAction::Close);
                    }
                    let name = receive_text(&bytes);
                    match self.join(name, channel) {
                        Admission::Refused { reply } => (
                            Session::Closed,
                            ClientAction::Refuse { reply },
                        ),
                        Admission::Seated { id, reply, log } => (
                            Session::Playing { id },
                            ClientAction::Welcome { reply, log },
                        ),
                    }
                },
                Read::Failed => (Session::Closed, ClientAction::Close),
            },
            Session::Playing { id } => match read {
                Read::Bytes(bytes) => {
                    if bytes.len() == 0 {
                        self.leave(id);
                        return (Session::Closed, ClientAction::Close);
                    }
                    let message = receive_text(&bytes);
                    match self.process_client_message(id, message) {
                        Dispatch::Deliver { reply, message } => (
                            Session::Playing { id },
                            ClientAction::Deliver { waiting: reply, message },
                        ),
                        Dispatch::Unasked { log } => (
                            Session::Playing { id },
                            ClientAction::Log { line: log },
                        ),
                    }
                },
                Read::Failed => {
                    self.leave(id);
                    (Session::Closed, ClientAction::Close)
                },
            },
            Session::Closed => (Session::Closed, ClientAction::Close),
        }
    }
}

} // verus!
