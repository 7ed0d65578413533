//! How the daemon comes by its control socket.

use vstd::prelude::*;

verus! {

/// The directory of the control socket, below the runtime directory of the
/// user.
pub const CONTROL_DIRECTORY: &'static str = "hyprwhspr-rs";

/// The name of the control socket.
pub const CONTROL_SOCKET: &'static str = "control.sock";

/// What was found while the socket was prepared.
#[derive(Debug, Clone, Copy, PartialEq, Eq, Structural)]
pub enum SocketEvent {
    /// Whether something is at the path of the socket.
    LookedUp { exists: bool },
    /// Whether someone answered at the path of the socket.
    Probed { answered: bool },
    /// Whether the file at the path of the socket was removed.
    Removed { gone: bool },
}

/// What is done next to prepare the socket.
#[derive(Debug, Clone, Copy, PartialEq, Eq, Structural)]
pub enum SocketStep {
    /// The path is free: the socket can be bound.
    Bind,
    /// Connect to the path, to see whether someone answers.
    Probe,
    /// Remove what a daemon that is gone left behind.
    RemoveStale,
    /// Give up: another daemon is serving.
    AlreadyServing,
    /// Give up: what was left behind cannot be removed.
    CannotRemove,
}

/// What is done after what was found.
pub open spec fn socket_step(event: SocketEvent) -> SocketStep {
    match event {
        SocketEvent::LookedUp { exists } => if exists {
            SocketStep::Probe
        } else {
            SocketStep::Bind
        },
        SocketEvent::Probed { answered } => if answered {
            SocketStep::AlreadyServing
        } else {
            SocketStep::RemoveStale
        },
        SocketEvent::Removed { gone } => if gone {
            SocketStep::Bind
        } else {
            SocketStep::CannotRemove
        },
    }
}

/// Decides what is done after what was found.
pub fn prepare_socket(event: SocketEvent) -> (r: SocketStep)
    ensures
        r == socket_step(event),
{
    match event {
        SocketEvent::LookedUp { exists } => if exists {
            SocketStep::Probe
        } else {
            SocketStep::Bind
        },
        SocketEvent::Probed { answered } => if answered {
            SocketStep::AlreadyServing
        } else {
            SocketStep::RemoveStale
        },
        SocketEvent::Removed { gone } => if gone {
            SocketStep::Bind
        } else {
            SocketStep::CannotRemove
        },
    }
}

/// Nothing is removed but what nobody answers at, and the socket is bound only
/// where the path was free or was freed.
pub proof fn law_served_sockets_are_kept(event: SocketEvent)
    ensures
        socket_step(event) == SocketStep::RemoveStale <==> event == (SocketEvent::Probed {
            answered: false,
        }),
        socket_step(event) == SocketStep::Bind <==> (event == (SocketEvent::LookedUp {
            exists: false,
        }) || event == (SocketEvent::Removed { gone: true })),
{
}

/// Someone is looked for only where something is at the path. Where someone
/// answers, or what was left behind cannot be removed, nothing more is done.
pub proof fn law_socket_is_given_up(event: SocketEvent)
    ensures
        socket_step(event) == SocketStep::Probe <==> event == (SocketEvent::LookedUp {
            exists: true,
        }),
        socket_step(event) == SocketStep::AlreadyServing <==> event == (SocketEvent::Probed {
            answered: true,
        }),
        socket_step(event) == SocketStep::CannotRemove <==> event == (SocketEvent::Removed {
            gone: false,
        }),
{
}

/// Where the control socket is, below the runtime directory.
pub proof fn law_socket_names()
    ensures
        CONTROL_DIRECTORY@ == "hyprwhspr-rs"@,
        CONTROL_SOCKET@ == "control.sock"@,
{
}

} // verus!
