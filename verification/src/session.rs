//! The steady-state decisions of one member session. The transport loop
//! races "next fanout snapshot" against "next inbound frame" and hands
//! whichever event arrives to [`session_step`]; the step decides, and the
//! caller performs the chosen action (send, apply to the room, or stop).

use vstd::prelude::*;

use crate::codec::parse_command;
use crate::codec::spec_parse_command;
use crate::codec::str_eq;
use crate::model::PlayerCommand;

verus! {

/// One thing that can happen to a connected session.
pub enum SessionEvent {
    /// A snapshot text arrived from the room's fanout.
    Fanout(String),
    /// A text frame arrived from the member's transport.
    Inbound(String),
    /// The member closed the connection.
    ClosedByPeer,
    /// The transport reported a receive or send failure.
    TransportFailed,
}

/// What the session loop is to do next.
#[derive(Debug, PartialEq)]
pub enum SessionAction {
    /// Send this text to the member.
    Forward(String),
    /// Apply this command to the room's state.
    Apply(PlayerCommand),
    /// Do nothing; keep the session running.
    Ignore,
    /// End the session; the room and its other members are unaffected.
    Stop,
}

/// Decides one step of the session loop: fanout snapshots are forwarded
/// verbatim, an inbound frame is applied exactly when it parses as a
/// command message and is silently ignored otherwise, and a close or a
/// transport failure ends the session and nothing else.
pub fn session_step(ev: SessionEvent) -> (a: SessionAction)
    ensures
        match ev {
            SessionEvent::Fanout(m) => a == SessionAction::Forward(m),
            SessionEvent::Inbound(t) => (match spec_parse_command(t@) {
                Some(c) => a == SessionAction::Apply(c),
                None => a == SessionAction::Ignore,
            }),
            SessionEvent::ClosedByPeer => a == SessionAction::Stop,
            SessionEvent::TransportFailed => a == SessionAction::Stop,
        },
{
    match ev {
        SessionEvent::Fanout(m) => SessionAction::Forward(m),
        SessionEvent::Inbound(t) => {
            match parse_command(t.as_str()) {
                Some(c) => SessionAction::Apply(c),
                None => SessionAction::Ignore,
            }
        },
        SessionEvent::ClosedByPeer => SessionAction::Stop,
        SessionEvent::TransportFailed => SessionAction::Stop,
    }
}

/// Which transport command, if any, one keyboard shortcut stands for:
/// `p` plays, `s` pauses, `n` and `b` step forward and back, `r` restarts.
pub open spec fn spec_key_command(s: Seq<char>) -> Option<PlayerCommand> {
    if s == "p"@ {
        Some(PlayerCommand::Play)
    } else if s == "s"@ {
        Some(PlayerCommand::Pause)
    } else if s == "n"@ {
        Some(PlayerCommand::Next)
    } else if s == "b"@ {
        Some(PlayerCommand::Prev)
    } else if s == "r"@ {
        Some(PlayerCommand::Restart)
    } else {
        None
    }
}

/// Maps one trimmed keyboard line from a member's terminal to the command
/// it stands for; any other input maps to nothing.
pub fn key_command(key: &str) -> (r: Option<PlayerCommand>)
    ensures
        r == spec_key_command(key@),
{
    if str_eq(key, "p") {
        Some(PlayerCommand::Play)
    } else if str_eq(key, "s") {
        Some(PlayerCommand::Pause)
    } else if str_eq(key, "n") {
        Some(PlayerCommand::Next)
    } else if str_eq(key, "b") {
        Some(PlayerCommand::Prev)
    } else if str_eq(key, "r") {
        Some(PlayerCommand::Restart)
    } else {
        None
    }
}

} // verus!
