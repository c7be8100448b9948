//! Windows: the owners of UDP ports, and the loopback exemption of the game's package.

use vstd::prelude::*;

use crate::io_error::IoError;
use crate::text::joined;

verus! {

/// Why the platform could not be probed.
#[derive(Debug, PartialEq, Eq)]
pub enum PlatformError {
    /// The operating system could not be probed.
    Io(IoError),
    /// An external command failed.
    Command(String),
    /// The build target has no native implementation.
    Unsupported,
}

impl PlatformError {
    /// What the error's message says.
    pub open spec fn message(&self) -> Seq<char> {
        match *self {
            PlatformError::Io(e) => "io error: "@ + e@.message(),
            PlatformError::Command(words) => "command failed: "@ + words@,
            PlatformError::Unsupported => "unsupported platform for windows backend"@,
        }
    }

    /// The error in words.
    pub fn display(&self) -> (r: String)
        ensures
            r@ == self.message(),
    {
        match self {
            PlatformError::Io(e) => joined("io error: ", e.display().as_str()),
            PlatformError::Command(words) => joined("command failed: ", words.as_str()),
            PlatformError::Unsupported => "unsupported platform for windows backend".to_owned(),
        }
    }
}

/// A row of the table of UDP sockets with their owners.
#[derive(Clone, Copy, Debug, PartialEq, Eq, Structural)]
pub struct UdpRow {
    /// The local port, in the low 16 bits in network byte order.
    pub local_port: u32,
    pub owning_pid: u32,
}

/// The table of UDP sockets, as far as it was to be had.
#[derive(Debug)]
pub enum UdpTable {
    /// The build target has no such table.
    Unsupported,
    /// The table takes no space.
    Empty,
    /// The table could not be read.
    Failed(IoError),
    Rows(Vec<UdpRow>),
}

/// What became of an external command.
#[derive(Debug)]
pub enum CommandOutcome {
    /// The build target does not have the command.
    Unsupported,
    /// The command could not be started.
    NotStarted(IoError),
    Succeeded,
    /// The command ended with this status.
    Exited(String),
}

/// The port that a row holds: its low two bytes, the first of which is the more significant.
pub open spec fn row_port(row: UdpRow) -> nat {
    ((row.local_port % 256) * 256 + row.local_port / 256 % 256) as nat
}

/// The owner that the first row with the port names.
pub open spec fn owner_in(rows: Seq<UdpRow>, port: u16) -> Option<u32>
    decreases rows.len(),
{
    if rows.len() == 0 {
        None
    } else if row_port(rows[0]) == port {
        Some(rows[0].owning_pid)
    } else {
        owner_in(rows.skip(1), port)
    }
}

/// The owner of a port by the table.
pub open spec fn owner_by(table: UdpTable, port: u16) -> Result<Option<u32>, PlatformError> {
    match table {
        UdpTable::Unsupported => Err(PlatformError::Unsupported),
        UdpTable::Empty => Ok(None),
        UdpTable::Failed(e) => Err(PlatformError::Io(e)),
        UdpTable::Rows(rows) => Ok(owner_in(rows@, port)),
    }
}

/// Whether a port is bound by the table.
pub open spec fn bound_by(table: UdpTable, port: u16) -> Result<bool, PlatformError> {
    match owner_by(table, port) {
        Ok(owner) => Ok(owner is Some),
        Err(e) => Err(e),
    }
}

/// The words of a failed exemption.
pub open spec fn exemption_failure(status: Seq<char>) -> Seq<char> {
    "CheckNetIsolation exited with status "@ + status
}

/// Whether any UDP socket is bound to the local port.
pub fn udp_port_bound(port: u16, table: UdpTable) -> (r: Result<bool, PlatformError>)
    ensures
        r == bound_by(table, port),
{
    udp_port_bound_impl(port, table)
}

/// The process that owns a bound UDP port, where the system tells.
pub fn owner_pid_of_port(port: u16, table: UdpTable) -> (r: Result<Option<u32>, PlatformError>)
    ensures
        r == owner_by(table, port),
{
    owner_pid_of_port_impl(port, table)
}

/// What became of exempting the game's package from loopback isolation.
pub fn ensure_loopback_exempt(outcome: CommandOutcome) -> (r: Result<(), PlatformError>)
    ensures
        match outcome {
            CommandOutcome::Unsupported => r == Err::<(), PlatformError>(
                PlatformError::Unsupported,
            ),
            CommandOutcome::NotStarted(e) => r == Err::<(), PlatformError>(PlatformError::Io(e)),
            CommandOutcome::Succeeded => r is Ok,
            CommandOutcome::Exited(status) => r matches Err(PlatformError::Command(words))
                && words@ == exemption_failure(status@),
        },
{
    ensure_loopback_exempt_impl(outcome)
}

/// Whether a port is bound by the table.
pub fn udp_port_bound_impl(port: u16, table: UdpTable) -> (r: Result<bool, PlatformError>)
    ensures
        r == bound_by(table, port),
{
    match owner_pid_of_port_impl(port, table) {
        Ok(owner) => Ok(owner.is_some()),
        Err(e) => Err(e),
    }
}

/// The owner of a port by the table.
pub fn owner_pid_of_port_impl(port: u16, table: UdpTable) -> (r: Result<
    Option<u32>,
    PlatformError,
>)
    ensures
        r == owner_by(table, port),
{
    match table {
        UdpTable::Unsupported => Err(PlatformError::Unsupported),
        UdpTable::Empty => Ok(None),
        UdpTable::Failed(e) => Err(PlatformError::Io(e)),
        UdpTable::Rows(rows) => Ok(owner_among(&rows, port)),
    }
}

/// The owner that the first row with the port names.
fn owner_among(rows: &Vec<UdpRow>, port: u16) -> (r: Option<u32>)
    ensures
        r == owner_in(rows@, port),
{
    assert(rows@.skip(0) =~= rows@);
    for i in 0..rows.len()
        invariant
            owner_in(rows@, port) == owner_in(rows@.skip(i as int), port),
    {
        let row = rows[i];
        let local_port: u32 = (row.local_port % 256) * 256 + row.local_port / 256 % 256;
        assert(rows@.skip(i as int)[0] == row);
        assert(rows@.skip(i as int).skip(1) =~= rows@.skip(i + 1));
        if local_port == port as u32 {
            return Some(row.owning_pid);
        }
    }
    None
}

/// What became of exempting the game's package from loopback isolation.
pub fn ensure_loopback_exempt_impl(outcome: CommandOutcome) -> (r: Result<(), PlatformError>)
    ensures
        match outcome {
            CommandOutcome::Unsupported => r == Err::<(), PlatformError>(
                PlatformError::Unsupported,
            ),
            CommandOutcome::NotStarted(e) => r == Err::<(), PlatformError>(PlatformError::Io(e)),
            CommandOutcome::Succeeded => r is Ok,
            CommandOutcome::Exited(status) => r matches Err(PlatformError::Command(words))
                && words@ == exemption_failure(status@),
        },
{
    match outcome {
        CommandOutcome::Unsupported => Err(PlatformError::Unsupported),
        CommandOutcome::NotStarted(e) => Err(PlatformError::Io(e)),
        CommandOutcome::Succeeded => Ok(()),
        CommandOutcome::Exited(status) => {
            let mut words = "CheckNetIsolation exited with status ".to_owned();
            words.append(status.as_str());
            Err(PlatformError::Command(words))
        },
    }
}

/// A port is bound exactly when it has an owner.
pub proof fn bound_iff_owned(table: UdpTable, port: u16)
    ensures
        bound_by(table, port) == Ok::<bool, PlatformError>(true) <==> owner_by(table, port) matches Ok(
            Some(pid),
        ),
{
}

/// The owner that is told is that of a row with the port, and none is told only where no row has
/// it.
pub proof fn owner_is_of_a_row(rows: Seq<UdpRow>, port: u16)
    ensures
        match owner_in(rows, port) {
            Some(pid) => exists|i: int|
                0 <= i < rows.len() && row_port(#[trigger] rows[i]) == port && rows[i].owning_pid
                    == pid,
            None => forall|i: int| 0 <= i < rows.len() ==> row_port(#[trigger] rows[i]) != port,
        },
    decreases rows.len(),
{
    if rows.len() > 0 {
        let rest = rows.skip(1);
        owner_is_of_a_row(rest, port);
        if row_port(rows[0]) != port {
            if owner_in(rest, port) is Some {
                let i = choose|i: int|
                    0 <= i < rest.len() && row_port(#[trigger] rest[i]) == port
                        && rest[i].owning_pid == owner_in(rest, port)->0;
                assert(rows[i + 1] == rest[i]);
            } else {
                assert forall|i: int| 0 <= i < rows.len() implies row_port(#[trigger] rows[i])
                    != port by {
                    if i > 0 {
                        assert(rest[i - 1] == rows[i]);
                    }
                }
            }
        }
    }
}

/// The port of a row stands in the lowest two bytes of its field, the lower of which is the more
/// significant, whatever the higher ones hold.
pub proof fn port_is_in_the_low_bytes(low: u8, next: u8, rest: u16, owning_pid: u32)
    ensures
        row_port(
            UdpRow { local_port: (low + next * 0x100 + rest * 0x1_0000) as u32, owning_pid },
        ) == low * 0x100 + next,
{
}

/// Of the rows with a port the first tells the owner.
pub proof fn first_row_tells_the_owner(rows: Seq<UdpRow>, port: u16, k: int)
    requires
        0 <= k < rows.len(),
        row_port(rows[k]) == port,
        forall|i: int| 0 <= i < k ==> row_port(#[trigger] rows[i]) != port,
    ensures
        owner_in(rows, port) == Some(rows[k].owning_pid),
    decreases rows.len(),
{
    if k > 0 {
        let rest = rows.skip(1);
        assert(rest[k - 1] == rows[k]);
        assert(row_port(rows[0]) != port);
        assert forall|i: int| 0 <= i < k - 1 implies row_port(#[trigger] rest[i]) != port by {
            assert(rest[i] == rows[i + 1]);
        }
        first_row_tells_the_owner(rest, port, k - 1);
    }
}

/// What a table says of a port: nothing where there is none, and why where it could not be read; an
/// empty one knows no owner. The port is bound exactly where an owner is known.
pub proof fn table_says_who_owns_a_port(table: UdpTable, port: u16)
    ensures
        match table {
            UdpTable::Unsupported => {
                &&& owner_by(table, port) matches Err(PlatformError::Unsupported)
                &&& bound_by(table, port) matches Err(PlatformError::Unsupported)
            },
            UdpTable::Empty => {
                &&& owner_by(table, port) matches Ok(None)
                &&& bound_by(table, port) matches Ok(false)
            },
            UdpTable::Failed(e) => {
                &&& owner_by(table, port) == Err::<Option<u32>, PlatformError>(
                    PlatformError::Io(e),
                )
                &&& bound_by(table, port) == Err::<bool, PlatformError>(PlatformError::Io(e))
            },
            UdpTable::Rows(rows) => {
                &&& owner_by(table, port) == Ok::<Option<u32>, PlatformError>(
                    owner_in(rows@, port),
                )
                &&& bound_by(table, port) == Ok::<bool, PlatformError>(
                    owner_in(rows@, port) is Some,
                )
            },
        },
{
}

/// What an error says, in fixed words and the details as they are.
pub proof fn error_says_what_went_wrong(e: PlatformError, status: Seq<char>)
    ensures
        match e {
            PlatformError::Io(inner) => e.message() == "io error: "@ + inner@.message(),
            PlatformError::Command(words) => e.message() == "command failed: "@ + words@,
            PlatformError::Unsupported => e.message()
                == "unsupported platform for windows backend"@,
        },
        exemption_failure(status) == "CheckNetIsolation exited with status "@ + status,
{
}

} // verus!
