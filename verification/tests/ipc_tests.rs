use wrp_native::ipc::{fallback_socket_path, json_command, socket_candidate, socket_path};

#[test]
fn candidate_lies_under_the_runtime_dir() {
    let p = socket_candidate("/run/user/1000", "sig123");
    assert_eq!(p, "/run/user/1000/hypr/sig123/.socket.sock");
}

#[test]
fn fallback_lies_under_tmp() {
    let p = fallback_socket_path("sig123");
    assert_eq!(p, "/tmp/hypr/sig123/.socket.sock");
}

#[test]
fn existing_candidate_wins() {
    let p = socket_path(Some("/run/user/1000"), "s", true);
    assert_eq!(p, "/run/user/1000/hypr/s/.socket.sock");
}

#[test]
fn missing_candidate_falls_back() {
    let p = socket_path(Some("/run/user/1000"), "s", false);
    assert_eq!(p, "/tmp/hypr/s/.socket.sock");
}

#[test]
fn unset_runtime_dir_falls_back() {
    let p = socket_path(None, "s", false);
    assert_eq!(p, "/tmp/hypr/s/.socket.sock");
}

#[test]
fn json_marker_is_prefixed() {
    assert_eq!(json_command("clients"), "j/clients");
}
