//! The decisions of the line echo service: what to do after each read from a
//! peer. The caller performs the reads, writes and shutdown.

use vstd::prelude::*;

verus! {

/// How many messages one session echoes before it closes the connection.
pub const ECHO_ROUNDS: u32 = 5;

/// What the session does after a read.
#[derive(Clone, Copy, Debug, PartialEq, Eq, Structural)]
pub enum EchoAction {
    /// The peer sent nothing: end the session without a shutdown.
    Stop,
    /// Send the bytes back and wait for the next message.
    Echo,
    /// Send the bytes back, then shut the connection down: this was the last round.
    EchoThenShutdown,
}

/// The action after reading `bytes_read` bytes when `rounds_done` messages
/// have already been echoed.
pub fn echo_action(rounds_done: u32, bytes_read: usize) -> (r: EchoAction)
    requires
        rounds_done < ECHO_ROUNDS,
    ensures
        bytes_read == 0 ==> r == EchoAction::Stop,
        bytes_read > 0 && rounds_done + 1 < ECHO_ROUNDS ==> r == EchoAction::Echo,
        bytes_read > 0 && rounds_done + 1 == ECHO_ROUNDS ==> r == EchoAction::EchoThenShutdown,
{
    if bytes_read == 0 {
        EchoAction::Stop
    } else if rounds_done + 1 < ECHO_ROUNDS {
        EchoAction::Echo
    } else {
        EchoAction::EchoThenShutdown
    }
}

} // verus!
