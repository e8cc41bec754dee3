//! The command-line surface: the proxy arguments and the subcommand
//! shape, as plain data.

use vstd::prelude::*;

verus! {

/// Arguments of the proxy subcommand.
#[derive(Debug, Clone)]
pub struct ProxyArgs {
    pub host: String,
    pub user: Option<String>,
    pub port: Option<u16>,
    pub log_level: String,
}

/// The subcommands this helper accepts.
pub enum Commands {
    Proxy(ProxyArgs),
    Configure,
}

/// A parsed invocation.
pub struct Cli {
    pub command: Option<Commands>,
}

/// The refusal when no subcommand is given.
pub fn no_command_message() -> (r: String)
    ensures
        r@ == "no command provided. Use the configure or proxy subcommands."@,
{
    String::from_str("no command provided. Use the configure or proxy subcommands.")
}

} // verus!
