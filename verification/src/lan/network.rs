//! The machine that the tunnel runs on.

use vstd::prelude::*;

use crate::addr;
use crate::addr::IpAddr;
use crate::io_error::IoError;
use crate::text::same_text;

verus! {

#[derive(Clone, Copy, Debug, PartialEq, Eq, Structural)]
pub enum Platform {
    Linux,
    Windows,
    MacOS,
    Other,
}

/// The platform of an operating system, by the name that Rust gives the system.
pub open spec fn platform_of(target_os: Seq<char>) -> Platform {
    if target_os == "linux"@ {
        Platform::Linux
    } else if target_os == "windows"@ {
        Platform::Windows
    } else if target_os == "macos"@ {
        Platform::MacOS
    } else {
        Platform::Other
    }
}

impl Platform {
    /// The platform of the operating system that the program was built for.
    pub fn current(target_os: &str) -> (r: Self)
        ensures
            r == platform_of(target_os@),
    {
        if same_text(target_os, "linux") {
            Platform::Linux
        } else if same_text(target_os, "windows") {
            Platform::Windows
        } else if same_text(target_os, "macos") {
            Platform::MacOS
        } else {
            Platform::Other
        }
    }

    /// The platform's name for people.
    pub fn name(&self) -> (r: &'static str)
        ensures
            r@ == match *self {
                Platform::Linux => "Linux"@,
                Platform::Windows => "Windows"@,
                Platform::MacOS => "macOS"@,
                Platform::Other => "Other"@,
            },
    {
        match self {
            Platform::Linux => "Linux",
            Platform::Windows => "Windows",
            Platform::MacOS => "macOS",
            Platform::Other => "Other",
        }
    }
}

/// The addresses under which the tunnel and the local game meet.
#[derive(Clone, Copy, Debug, PartialEq, Eq, Structural)]
pub struct PlatformNetwork {
    pub platform: Platform,
    pub loopback_ip: IpAddr,
    /// A virtual address whose traffic is reflected to this machine.
    pub reflector_ip: Option<IpAddr>,
}

impl PlatformNetwork {
    /// The address that sockets are bound to: the reflector's where there is one.
    pub open spec fn bind_ip(&self) -> IpAddr {
        match self.reflector_ip {
            Some(ip) => ip,
            None => self.loopback_ip,
        }
    }

    /// A machine without a reflector.
    pub fn new(platform: Platform) -> (r: Self)
        ensures
            r.platform == platform,
            addr::is_loopback(r.loopback_ip),
            r.reflector_ip is None,
    {
        PlatformNetwork { platform, loopback_ip: IpAddr::v4(127, 0, 0, 1), reflector_ip: None }
    }

    /// Sets the virtual address of the reflector, such as 10.10.10.10.
    pub fn set_reflector(&mut self, ip: IpAddr)
        ensures
            *final(self) == (PlatformNetwork { reflector_ip: Some(ip), ..*old(self) }),
    {
        self.reflector_ip = Some(ip);
    }

    /// The address to bind local sockets to and to talk to the game at.
    pub fn effective_bind_ip(&self) -> (r: IpAddr)
        ensures
            r == self.bind_ip(),
    {
        match self.reflector_ip {
            Some(ip) => ip,
            None => self.loopback_ip,
        }
    }

    /// What became of the loopback exemption that the game needs on Windows: `attempt` says whether
    /// the command that grants it succeeded, or why it could not be run; elsewhere there is none.
    /// A command that ran and was refused is no failure.
    pub fn ensure_windows_loopback_exempt(&self, attempt: Option<Result<bool, IoError>>) -> (r:
        Result<(), IoError>)
        ensures
            match attempt {
                Some(Err(e)) => r == Err::<(), IoError>(e),
                _ => r is Ok,
            },
    {
        match attempt {
            Some(Err(e)) => Err(e),
            _ => Ok(()),
        }
    }
}

/// A reflector takes the place of the loopback address, and the latest one counts.
pub proof fn reflector_takes_over(net: PlatformNetwork, first: IpAddr, second: IpAddr)
    ensures
        net.reflector_ip is None ==> net.bind_ip() == net.loopback_ip,
        (PlatformNetwork { reflector_ip: Some(first), ..net }).bind_ip() == first,
        (PlatformNetwork {
            reflector_ip: Some(second),
            ..PlatformNetwork { reflector_ip: Some(first), ..net }
        }).bind_ip() == second,
{
}

/// Each of the three systems that are told apart has its own platform, and any other has none of
/// theirs.
pub proof fn systems_have_their_platforms(target_os: Seq<char>)
    ensures
        platform_of(target_os) == Platform::Linux <==> target_os == "linux"@,
        platform_of(target_os) == Platform::Windows <==> target_os == "windows"@,
        platform_of(target_os) == Platform::MacOS <==> target_os == "macos"@,
{
    reveal_strlit("linux");
    reveal_strlit("windows");
    reveal_strlit("macos");
    assert("linux"@.len() == 5 && "windows"@.len() == 7 && "macos"@.len() == 5);
    assert("linux"@[0] == 'l' && "macos"@[0] == 'm');
}

} // verus!
