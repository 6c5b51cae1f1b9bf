//! The command line: the commands a user can give, and the use case each one starts.

use vstd::prelude::*;

verus! {

/// A command line interface for CargoDrop.
pub struct Cli {
    pub command: Commands,
}

/// The commands, with their arguments.
pub enum Commands {
    /// Start CargoDrop in advertiser mode.
    Advertise,
    /// Start CargoDrop in discovery mode.
    Discover,
    /// Send a file, to a given address or to a peer picked after a discovery.
    Send { ip: Option<String>, port: Option<u16>, file: String },
    /// Receive files, advertising in the background.
    Receive,
    /// Show the local IP address.
    GetIp,
    /// Show the username.
    GetName,
    /// Set the username (at most 14 characters), or reset it to the host name.
    SetName { name: Option<String>, default: bool },
    /// Show the transfer port.
    GetPort,
    /// Set the transfer port, or reset it to the default.
    SetPort { port: Option<u16>, default: bool },
    /// Show the whole user configuration.
    Info,
}

/// The use cases that the application runs.
pub enum CasUtilisation {
    Advertise,
    Discover,
    /// Send straight to an address, on the given port or the configured one.
    Send { ip: String, port: Option<u16>, file_path: String },
    /// Discover peers, then send to the ones the user picks.
    InteractiveSend { file_path: String },
    /// Receive, advertising in the background.
    AdvertiseAndReceive,
    GetIp,
    GetName,
    SetName(String),
    SetNameDefault,
    GetPort,
    SetPort(u16),
    SetPortDefault,
    Info,
}

/// Whether a command carries what its use case needs: a name to set, or the reset flag,
/// and likewise for the port (the parser guarantees it).
pub open spec fn commande_complete(c: Commands) -> bool {
    match c {
        Commands::SetName { name, default } => default || name is Some,
        Commands::SetPort { port, default } => default || port is Some,
        _ => true,
    }
}

impl Cli {
    /// The use case that the command starts.
    pub fn cas_utilisation(self) -> (r: CasUtilisation)
        requires
            commande_complete(self.command),
        ensures
            match self.command {
                Commands::Advertise => r is Advertise,
                Commands::Discover => r is Discover,
                Commands::Send { ip, port, file } => match ip {
                    Some(a) => r == (CasUtilisation::Send { ip: a, port, file_path: file }),
                    None => r == (CasUtilisation::InteractiveSend { file_path: file }),
                },
                Commands::Receive => r is AdvertiseAndReceive,
                Commands::GetIp => r is GetIp,
                Commands::GetName => r is GetName,
                Commands::SetName { name, default } => if default {
                    r is SetNameDefault
                } else {
                    r == CasUtilisation::SetName(name->0)
                },
                Commands::GetPort => r is GetPort,
                Commands::SetPort { port, default } => if default {
                    r is SetPortDefault
                } else {
                    r == CasUtilisation::SetPort(port->0)
                },
                Commands::Info => r is Info,
            },
    {
        match self.command {
            Commands::Advertise => CasUtilisation::Advertise,
            Commands::Discover => CasUtilisation::Discover,
            Commands::Send { ip, port, file } => match ip {
                Some(ip_addr) => CasUtilisation::Send { ip: ip_addr, port, file_path: file },
                None => CasUtilisation::InteractiveSend { file_path: file },
            },
            Commands::Receive => CasUtilisation::AdvertiseAndReceive,
            Commands::GetIp => CasUtilisation::GetIp,
            Commands::GetName => CasUtilisation::GetName,
            Commands::SetName { name, default } => {
                if default {
                    CasUtilisation::SetNameDefault
                } else {
                    CasUtilisation::SetName(name.unwrap())
                }
            },
            Commands::GetPort => CasUtilisation::GetPort,
            Commands::SetPort { port, default } => {
                if default {
                    CasUtilisation::SetPortDefault
                } else {
                    CasUtilisation::SetPort(port.unwrap())
                }
            },
            Commands::Info => CasUtilisation::Info,
        }
    }
}

} // verus!
