//! Per-connection decisions: how one player's transport frames drive its
//! game loop.
//!
//! The caller reads and decodes frames; this module owns the rules: a decoded
//! frame is forwarded, a bad frame is skipped, and any kind of close becomes
//! the authoritative `Leave` and ends the session.

use vstd::prelude::*;
use crate::logic::{GameMessage, GameMessageInner};
use crate::messages::ClientMessage;
use crate::settings::GameMode;
use crate::user::UserToken;

verus! {

/// Close code sent when a joining player names a room that does not exist.
pub const CLOSE_GAME_NOT_FOUND: u16 = 4000;

/// Close code sent to remaining players when their room's loop has ended.
pub const CLOSE_GAME_CLOSED: u16 = 4001;

/// One inbound transport frame, as far as the session cares.
#[derive(Debug)]
pub enum InboundFrame {
    /// A text frame that decoded to a client message.
    Message(ClientMessage),
    /// A text frame that did not decode; logged and skipped.
    Malformed,
    /// A close frame, or the transport reporting the peer gone.
    Closed,
}

/// Wrap a loop message for the mode of the room it belongs to.
pub open spec fn wrap_spec(mode: GameMode, m: GameMessageInner) -> GameMessage {
    match mode {
        GameMode::Team => GameMessage::Team(m),
        GameMode::Competitive => GameMessage::Competitive(m),
    }
}

/// Wrap a loop message for the mode of the room it belongs to.
pub fn wrap_message(mode: GameMode, m: GameMessageInner) -> (r: GameMessage)
    ensures
        r == wrap_spec(mode, m),
{
    match mode {
        GameMode::Team => GameMessage::Team(m),
        GameMode::Competitive => GameMessage::Competitive(m),
    }
}

/// What one inbound frame makes the session do: the message to hand to the
/// loop, if any, and whether the session ends. A decoded frame is forwarded;
/// a malformed one is dropped; a close of any kind sends the authoritative
/// `Leave` and ends the session.
pub fn frame_action(mode: GameMode, token: UserToken, frame: InboundFrame) -> (r: (
    Option<GameMessage>,
    bool,
))
    ensures
        match frame {
            InboundFrame::Message(m) => r.0 == Some(
                wrap_spec(
                    mode,
                    GameMessageInner::ClientMessage { token, message: m },
                ),
            ) && r.1 == false,
            InboundFrame::Malformed => r.0 is None && r.1 == false,
            InboundFrame::Closed => r.0 == Some(wrap_spec(mode, GameMessageInner::Leave(token)))
                && r.1 == true,
        },
{
    match frame {
        InboundFrame::Message(m) => (
            Some(wrap_message(mode, GameMessageInner::ClientMessage { token, message: m })),
            false,
        ),
        InboundFrame::Malformed => (None, false),
        InboundFrame::Closed => (Some(wrap_message(mode, GameMessageInner::Leave(token))), true),
    }
}

} // verus!
