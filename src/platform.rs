//! The depots that the game is distributed through, one per environment and
//! operating system.

use vstd::prelude::*;

verus! {

/// One distribution depot: an environment (client or server) on a platform.
#[derive(Clone, Copy, Debug, PartialEq, Eq, Structural)]
pub enum PlatformDepot {
    MacClient,
    LinuxClient,
    WindowsClient,
    CommonServer,
    MacServer,
    LinuxServer,
    WindowsServer,
}

/// The platform directory name of a depot.
pub open spec fn spec_platform_name(p: PlatformDepot) -> Seq<char> {
    match p {
        PlatformDepot::CommonServer => "common"@,
        PlatformDepot::MacClient | PlatformDepot::MacServer => "mac"@,
        PlatformDepot::LinuxClient | PlatformDepot::LinuxServer => "linux"@,
        PlatformDepot::WindowsClient | PlatformDepot::WindowsServer => "win"@,
    }
}

/// Whether a depot belongs to the client environment.
pub open spec fn spec_is_client(p: PlatformDepot) -> bool {
    match p {
        PlatformDepot::MacClient | PlatformDepot::LinuxClient | PlatformDepot::WindowsClient => true,
        _ => false,
    }
}

/// The environment directory name of a depot.
pub open spec fn spec_platform_env(p: PlatformDepot) -> Seq<char> {
    if spec_is_client(p) {
        "client"@
    } else {
        "server"@
    }
}

/// The numeric identifier under which the depot is published.
pub open spec fn spec_depot_id(p: PlatformDepot) -> u32 {
    match p {
        PlatformDepot::MacClient => 108602,
        PlatformDepot::LinuxClient => 108603,
        PlatformDepot::WindowsClient => 108604,
        PlatformDepot::CommonServer => 380871,
        PlatformDepot::MacServer => 380872,
        PlatformDepot::LinuxServer => 380873,
        PlatformDepot::WindowsServer => 380874,
    }
}

impl PlatformDepot {
    /// Every depot, clients first.
    pub fn all() -> (r: Vec<PlatformDepot>)
        ensures
            r@ == seq![
                PlatformDepot::MacClient,
                PlatformDepot::LinuxClient,
                PlatformDepot::WindowsClient,
                PlatformDepot::CommonServer,
                PlatformDepot::MacServer,
                PlatformDepot::LinuxServer,
                PlatformDepot::WindowsServer,
            ],
    {
        vec![
            PlatformDepot::MacClient,
            PlatformDepot::LinuxClient,
            PlatformDepot::WindowsClient,
            PlatformDepot::CommonServer,
            PlatformDepot::MacServer,
            PlatformDepot::LinuxServer,
            PlatformDepot::WindowsServer,
        ]
    }

    /// The platform directory name: `common`, `mac`, `linux` or `win`.
    pub fn name(&self) -> (r: &'static str)
        ensures
            r@ == spec_platform_name(*self),
    {
        match *self {
            PlatformDepot::CommonServer => "common",
            PlatformDepot::MacClient | PlatformDepot::MacServer => "mac",
            PlatformDepot::LinuxClient | PlatformDepot::LinuxServer => "linux",
            PlatformDepot::WindowsClient | PlatformDepot::WindowsServer => "win",
        }
    }

    /// The environment directory name: `client` or `server`.
    pub fn env(&self) -> (r: &'static str)
        ensures
            r@ == spec_platform_env(*self),
    {
        match *self {
            PlatformDepot::MacClient | PlatformDepot::LinuxClient | PlatformDepot::WindowsClient => {
                "client"
            },
            PlatformDepot::CommonServer
            | PlatformDepot::MacServer
            | PlatformDepot::LinuxServer
            | PlatformDepot::WindowsServer => "server",
        }
    }

    /// Whether the depot is one of the client depots.
    pub fn is_client(&self) -> (r: bool)
        ensures
            r == spec_is_client(*self),
    {
        match *self {
            PlatformDepot::MacClient | PlatformDepot::LinuxClient | PlatformDepot::WindowsClient => true,
            _ => false,
        }
    }

    /// The depot's published identifier.
    pub fn depot_id(&self) -> (r: u32)
        ensures
            r == spec_depot_id(*self),
    {
        match *self {
            PlatformDepot::MacClient => 108602,
            PlatformDepot::LinuxClient => 108603,
            PlatformDepot::WindowsClient => 108604,
            PlatformDepot::CommonServer => 380871,
            PlatformDepot::MacServer => 380872,
            PlatformDepot::LinuxServer => 380873,
            PlatformDepot::WindowsServer => 380874,
        }
    }
}

} // verus!
