//! Linux: ports and processes as the process file system shows them.

use vstd::prelude::*;

use crate::io_error::IoError;
use crate::platform::proc_fs;
use crate::platform::proc_fs::tables_have_port;
use crate::platform::processes;
use crate::platform::processes::{
    game_name_list, proc_cmdline_matches, proc_comm_matches, ProcEntry,
};
use crate::text::joined;

verus! {

/// Why the platform could not be probed.
#[derive(Debug, PartialEq, Eq)]
pub enum PlatformError {
    /// Kernel tables could not be read, or a socket could not be made.
    Io(IoError),
    /// An external command failed.
    Command(String),
}

impl PlatformError {
    /// What the error's message says.
    pub open spec fn message(&self) -> Seq<char> {
        match *self {
            PlatformError::Io(e) => "io error: "@ + e@.message(),
            PlatformError::Command(words) => "command failed: "@ + words@,
        }
    }

    /// The error in words.
    pub fn display(&self) -> (r: String)
        ensures
            r@ == self.message(),
    {
        match self {
            PlatformError::Io(e) => joined("io error: ", e.display().as_str()),
            PlatformError::Command(words) => joined("command failed: ", words.as_str()),
        }
    }
}

/// Whether any UDP socket is bound to the local port, by the kernel's tables for IPv4 and IPv6 as
/// they were read: a table that is not there lists nothing.
pub fn udp_port_bound(
    port: u16,
    udp: Result<Option<String>, IoError>,
    udp6: Result<Option<String>, IoError>,
) -> (r: Result<bool, PlatformError>)
    ensures
        match proc_fs::either_lists_port(udp, udp6, port) {
            Ok(bound) => r == Ok::<bool, PlatformError>(bound),
            Err(e) => r == Err::<bool, PlatformError>(PlatformError::Io(e)),
        },
{
    match tables_have_port(udp, udp6, port) {
        Ok(bound) => Ok(bound),
        Err(e) => Err(PlatformError::Io(e)),
    }
}

/// Whether a command succeeded, where it could be run at all.
pub fn command_succeeds(outcome: Option<bool>) -> (r: bool)
    ensures
        r == (outcome == Some(true)),
{
    match outcome {
        Some(success) => success,
        None => false,
    }
}

/// Whether any of the evidence that was gathered shows the game.
pub open spec fn shows_the_game(
    by_comm: Option<&Vec<ProcEntry>>,
    by_cmdline: Option<&Vec<ProcEntry>>,
    game_search: Option<bool>,
    server_search: Option<bool>,
) -> bool {
    ||| by_comm matches Some(list) && processes::some_comm(list@, processes::game_names())
    ||| by_cmdline matches Some(list) && processes::some_cmdline(list@, processes::game_names())
    ||| game_search == Some(true)
    ||| server_search == Some(true)
}

/// Evidence may be gathered piece by piece, and no further once a piece shows the game: the pieces
/// together show what any of them shows.
pub proof fn evidence_adds_up(
    by_comm: Option<&Vec<ProcEntry>>,
    by_cmdline: Option<&Vec<ProcEntry>>,
    game_search: Option<bool>,
    server_search: Option<bool>,
)
    ensures
        shows_the_game(by_comm, by_cmdline, game_search, server_search) == {
            ||| shows_the_game(by_comm, None, None, None)
            ||| shows_the_game(None, by_cmdline, None, None)
            ||| shows_the_game(None, None, game_search, None)
            ||| shows_the_game(None, None, None, server_search)
        },
{
}

/// Whether a Bedrock-compatible Minecraft process seems to run: by the command names and the
/// command lines of the processes as they were read, or by what two searches with an external
/// command found.
pub fn minecraft_process_running(
    by_comm: Option<&Vec<ProcEntry>>,
    by_cmdline: Option<&Vec<ProcEntry>>,
    game_search: Option<bool>,
    server_search: Option<bool>,
) -> (r: bool)
    ensures
        r == shows_the_game(by_comm, by_cmdline, game_search, server_search),
{
    let names = game_name_list();
    if proc_comm_matches(by_comm, &names) || proc_cmdline_matches(by_cmdline, &names) {
        return true;
    }
    command_succeeds(game_search) || command_succeeds(server_search)
}

/// What an error says, in fixed words and the details as they are.
pub proof fn error_says_what_went_wrong(e: PlatformError)
    ensures
        match e {
            PlatformError::Io(inner) => e.message() == "io error: "@ + inner@.message(),
            PlatformError::Command(words) => e.message() == "command failed: "@ + words@,
        },
{
}

/// What shows the game: a process whose command has one of the game's names, one whose command line
/// speaks of one, or a search that found something; nothing shows it where nothing was gathered.
pub proof fn each_piece_of_evidence_counts(list: &Vec<ProcEntry>, found: bool)
    ensures
        shows_the_game(Some(list), None, None, None) <==> processes::some_comm(
            list@,
            processes::game_names(),
        ),
        shows_the_game(None, Some(list), None, None) <==> processes::some_cmdline(
            list@,
            processes::game_names(),
        ),
        shows_the_game(None, None, Some(found), None) <==> found,
        shows_the_game(None, None, None, Some(found)) <==> found,
        !shows_the_game(None, None, None, None),
{
}

} // verus!
