//! The coordinator's per-session frame handling: inbound frames either
//! carry a status snapshot for the aggregator, end the session, or are
//! heartbeat traffic.  The socket reads and writes, the broadcast
//! subscription and the heartbeat timer live in the surrounding event
//! loop; the decisions it acts on are defined and verified here.
use vstd::prelude::*;

use crate::messages;
use crate::messages::Frame;
use crate::messages::StatusV;
use crate::messages::spec_parse_status;
use crate::worker::SessionError;

verus! {

/// What the coordinator's session loop does with one inbound frame.
#[derive(Debug)]
pub enum CoordinatorAction {
    /// Ping and pong frames are heartbeat traffic; nothing to do.
    Continue,
    /// A close frame ends the session.
    Exit,
    /// A text frame carried a status snapshot: deliver it to the
    /// aggregator under the session's id, stamped with its peer
    /// address.
    Deliver { id: u32, status: messages::Status },
}

/// The status snapshot carried by a complete JSON text, if it is one.
pub open spec fn spec_status_of_text(s: Seq<char>) -> Option<StatusV> {
    match spec_parse_status(s) {
        Some((st, rest)) => if rest.len() == 0 {
            Some(st)
        } else {
            None
        },
        None => None,
    }
}

/// Decide what one inbound frame means for the coordinator: heartbeats
/// are ignored, text must decode to a status snapshot (which is stamped
/// with the session's peer address), close ends the session, and any
/// other frame kind is a protocol violation.
pub fn handle_incoming_message(msg: &Frame, addr: &str, id: u32) -> (r: Result<
    CoordinatorAction,
    SessionError,
>)
    ensures
        match msg {
            Frame::Ping(_) => r matches Ok(CoordinatorAction::Continue),
            Frame::Pong(_) => r matches Ok(CoordinatorAction::Continue),
            Frame::Close => r matches Ok(CoordinatorAction::Exit),
            Frame::Binary(_) => r matches Err(SessionError::Protocol),
            Frame::Text(t) => match spec_status_of_text(t@) {
                Some(sv) => r matches Ok(CoordinatorAction::Deliver { id: i, status }) && i == id
                    && status@ == (StatusV { socket: Some(addr@), ..sv }),
                None => r matches Err(SessionError::Decode),
            },
        },
{
    match msg {
        Frame::Ping(_) => Ok(CoordinatorAction::Continue),
        Frame::Pong(_) => Ok(CoordinatorAction::Continue),
        Frame::Close => Ok(CoordinatorAction::Exit),
        Frame::Binary(_) => Err(SessionError::Protocol),
        Frame::Text(t) => match messages::Status::parse_text(t.as_str()) {
            Some(mut status) => {
                status.socket = Some(addr.to_owned());
                Ok(CoordinatorAction::Deliver { id, status })
            },
            None => Err(SessionError::Decode),
        },
    }
}

} // verus!
