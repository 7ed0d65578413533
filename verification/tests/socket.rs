use hyprwhspr_rs::socket::{
    prepare_socket, SocketEvent, SocketStep, CONTROL_DIRECTORY, CONTROL_SOCKET,
};

#[test]
fn a_free_path_is_bound() {
    assert_eq!(
        prepare_socket(SocketEvent::LookedUp { exists: false }),
        SocketStep::Bind
    );
}

#[test]
fn a_served_socket_is_kept() {
    assert_eq!(
        prepare_socket(SocketEvent::LookedUp { exists: true }),
        SocketStep::Probe
    );
    assert_eq!(
        prepare_socket(SocketEvent::Probed { answered: true }),
        SocketStep::AlreadyServing
    );
}

#[test]
fn a_stale_socket_is_removed_first() {
    assert_eq!(
        prepare_socket(SocketEvent::Probed { answered: false }),
        SocketStep::RemoveStale
    );
    assert_eq!(
        prepare_socket(SocketEvent::Removed { gone: true }),
        SocketStep::Bind
    );
    assert_eq!(
        prepare_socket(SocketEvent::Removed { gone: false }),
        SocketStep::CannotRemove
    );
}

#[test]
fn the_socket_has_its_own_directory() {
    assert_eq!(CONTROL_DIRECTORY, "hyprwhspr-rs");
    assert_eq!(CONTROL_SOCKET, "control.sock");
}
