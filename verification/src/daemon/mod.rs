//! Daemon mode: a background process holds the audio engines and app state;
//! a thin UI client attaches over a Unix socket and ships keys / receives
//! rendered terminal buffers. This module names the rendezvous files and the
//! framing of the messages between the two.

pub mod session;
pub mod wire;

use vstd::prelude::*;

use crate::content::resolver::{join, join_path};

verus! {

/// Wire-protocol version. Bumped on any incompatible change to the messages.
/// A client whose `Hello.proto` doesn't match the daemon's `Welcome.proto`
/// aborts with a clear message.
pub const PROTO_VERSION: u32 = 1;

/// Unix-domain-socket path the daemon binds and the client connects to,
/// inside the runtime directory.
pub fn socket_path(runtime_dir: &str) -> (r: String)
    ensures
        r@ == join_path(runtime_dir@, "quran-tui.sock"@),
{
    join(runtime_dir, "quran-tui.sock")
}

/// Advisory single-instance lock file (held by the live daemon process),
/// inside the runtime directory.
pub fn lock_path(runtime_dir: &str) -> (r: String)
    ensures
        r@ == join_path(runtime_dir@, "quran-tui.lock"@),
{
    join(runtime_dir, "quran-tui.lock")
}

} // verus!
