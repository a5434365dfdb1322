//! Where the window manager's control socket lives, and how a command asks
//! for JSON output. The socket sits under the runtime directory for recent
//! window manager versions, with a fixed `/tmp` location as the fallback;
//! the caller reports whether the runtime-directory candidate exists on
//! disk, and the I/O itself stays outside the library.

use vstd::prelude::*;

verus! {

/// The resolved socket path: the runtime-directory candidate when the
/// environment names that directory and the candidate exists, else the
/// fixed fallback.
pub open spec fn socket_path_spec(
    runtime_dir: Option<Seq<char>>,
    sig: Seq<char>,
    candidate_exists: bool,
) -> Seq<char> {
    match runtime_dir {
        Some(dir) => if candidate_exists {
            dir + "/hypr/"@ + sig + "/.socket.sock"@
        } else {
            "/tmp/hypr/"@ + sig + "/.socket.sock"@
        },
        None => "/tmp/hypr/"@ + sig + "/.socket.sock"@,
    }
}

/// The socket path below the runtime directory, for the caller to test on
/// disk.
pub fn socket_candidate(runtime_dir: &str, sig: &str) -> (r: String)
    ensures
        r@ == runtime_dir@ + "/hypr/"@ + sig@ + "/.socket.sock"@,
{
    let mut s = String::from_str(runtime_dir);
    s.append("/hypr/");
    s.append(sig);
    s.append("/.socket.sock");
    s
}

/// The fixed socket path under `/tmp`.
pub fn fallback_socket_path(sig: &str) -> (r: String)
    ensures
        r@ == "/tmp/hypr/"@ + sig@ + "/.socket.sock"@,
{
    let mut s = String::from_str("/tmp/hypr/");
    s.append(sig);
    s.append("/.socket.sock");
    s
}

/// Resolve the socket path for the running instance. `runtime_dir` is the
/// runtime directory the environment names, if any; `candidate_exists` says
/// whether the caller found the runtime-directory socket on disk.
pub fn socket_path(runtime_dir: Option<&str>, sig: &str, candidate_exists: bool) -> (r: String)
    ensures
        r@ == socket_path_spec(
            match runtime_dir {
                Some(d) => Some(d@),
                None => None,
            },
            sig@,
            candidate_exists,
        ),
{
    match runtime_dir {
        Some(dir) => {
            if candidate_exists {
                socket_candidate(dir, sig)
            } else {
                fallback_socket_path(sig)
            }
        },
        None => fallback_socket_path(sig),
    }
}

/// A command with the marker that asks the window manager for JSON output.
pub fn json_command(command: &str) -> (r: String)
    ensures
        r@ == "j/"@ + command@,
{
    let mut s = String::from_str("j/");
    s.append(command);
    s
}

} // verus!
