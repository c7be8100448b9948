//! Android: ports and processes as far as they are to be seen, and sockets kept out of a VPN.

use vstd::prelude::*;

use crate::io_error::IoError;
use crate::platform::proc_fs;
use crate::platform::proc_fs::tables_have_port;
use crate::platform::processes;
use crate::platform::processes::{game_name_list, proc_visible_matches, ProcEntry};
use crate::text::joined;

verus! {

/// Why the platform could not be probed.
#[derive(Debug, PartialEq, Eq)]
pub enum PlatformError {
    /// Kernel tables could not be read, or a socket could not be made.
    Io(IoError),
}

impl PlatformError {
    /// What the error's message says.
    pub open spec fn message(&self) -> Seq<char> {
        match *self {
            PlatformError::Io(e) => "io error: "@ + e@.message(),
        }
    }

    /// The error in words.
    pub fn display(&self) -> (r: String)
        ensures
            r@ == self.message(),
    {
        match self {
            PlatformError::Io(e) => joined("io error: ", e.display().as_str()),
        }
    }
}

/// Whether any UDP socket is bound to the local port, by the kernel's tables for IPv4 and IPv6 as
/// they were read: a table that is not there lists nothing. On some builds the tables may not be
/// read; callers should take that for unknown.
pub fn udp_port_bound(
    port: u16,
    udp: Result<Option<String>, IoError>,
    udp6: Result<Option<String>, IoError>,
) -> (r: Result<bool, PlatformError>)
    ensures
        match proc_fs::either_lists_port(udp, udp6, port) {
            Ok(bound) => r == Ok::<bool, PlatformError>(bound),
            Err(e) => r == Err::<bool, PlatformError>(PlatformError::Io(e)),
        },
{
    match tables_have_port(udp, udp6, port) {
        Ok(bound) => Ok(bound),
        Err(e) => Err(PlatformError::Io(e)),
    }
}

/// Whether a Bedrock-compatible Minecraft process seems to run. Where no process is to be seen at
/// all it counts as running, so that the node yields the discovery port rather than squats on it.
pub fn minecraft_process_running(entries: Option<&Vec<ProcEntry>>) -> (r: bool)
    ensures
        r == match entries {
            Some(list) => processes::visible_match(list@, processes::game_names())
                != Some(false),
            None => true,
        },
{
    let names = game_name_list();
    match proc_visible_matches(entries, &names) {
        Some(found) => found,
        None => true,
    }
}

/// Where the callback stands that keeps a socket out of a `VpnService` tunnel.
pub struct ProtectSlot<F> {
    pub callback: Option<F>,
}

/// A slot without a callback.
pub fn protect_socket_slot<F: Fn(i32) -> bool>() -> (r: ProtectSlot<F>)
    ensures
        r.callback is None,
{
    ProtectSlot { callback: None }
}

/// Registers the callback that protects sockets.
pub fn set_protect_socket_callback<F: Fn(i32) -> bool>(slot: &mut ProtectSlot<F>, callback: F)
    ensures
        final(slot).callback == Some(callback),
{
    slot.callback = Some(callback);
}

/// Takes the callback out.
pub fn clear_protect_socket_callback<F: Fn(i32) -> bool>(slot: &mut ProtectSlot<F>)
    ensures
        final(slot).callback is None,
{
    slot.callback = None;
}

/// Whether the callback protected the socket. Without a callback there is nothing to do, which
/// counts as success.
pub fn protect_socket<F: Fn(i32) -> bool>(slot: &ProtectSlot<F>, fd: i32) -> (r: bool)
    requires
        slot.callback matches Some(f) ==> call_requires(f, (fd,)),
    ensures
        match slot.callback {
            Some(f) => call_ensures(f, (fd,), r),
            None => r,
        },
{
    match &slot.callback {
        Some(callback) => callback(fd),
        None => true,
    }
}

/// A process list that shows no process does not say that the game is not running.
pub proof fn empty_list_says_nothing(list: Seq<ProcEntry>, names: Seq<Seq<char>>)
    requires
        forall|i: int| 0 <= i < list.len() ==> !processes::is_process(#[trigger] list[i]),
    ensures
        processes::visible_match(list, names) is None,
{
}

/// What an error says, in fixed words and the details as they are.
pub proof fn error_says_what_went_wrong(e: PlatformError)
    ensures
        match e {
            PlatformError::Io(inner) => e.message() == "io error: "@ + inner@.message(),
        },
{
}

} // verus!
