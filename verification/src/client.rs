//! The client's decisions: which command runs, what a failure is reported
//! as, and what it keeps of the daemon's messages.

use vstd::prelude::*;
use crate::protocol::{decode_message, read_message, readable_message, ProtocolMessageHeader};
use crate::text::str_equal;

verus! {

/// The client's commands.
#[derive(Debug, Clone, Copy, PartialEq, Eq, Structural)]
pub enum ClientCommand {
    /// Ask the daemon for proxies and save them.
    Find,
    /// Print the previously saved proxies.
    Read,
}

/// The command named by the chosen subcommand: `find` or `read`; anything
/// else, or no subcommand, is an error.
pub fn subcommand(name: Option<&str>) -> (r: Result<ClientCommand, &'static str>)
    ensures
        name matches Some(n) && n@ == "find"@ ==> r == Ok::<_, &'static str>(ClientCommand::Find),
        name matches Some(n) && n@ == "read"@ ==> r == Ok::<_, &'static str>(ClientCommand::Read),
        !(name matches Some(n) && (n@ == "find"@ || n@ == "read"@)) ==> (r matches Err(e)
            && e@ == "No subcommand was used"@),
{
    proof {
        reveal_strlit("find");
        reveal_strlit("read");
        assert("find"@[0] != "read"@[0]);
    }
    match name {
        Some(n) => {
            if str_equal(n, "find") {
                Ok(ClientCommand::Find)
            } else if str_equal(n, "read") {
                Ok(ClientCommand::Read)
            } else {
                Err("No subcommand was used")
            }
        },
        None => Err("No subcommand was used"),
    }
}

/// What the client reports once `command` has run with `outcome`: a failed
/// read is reported as such, a find's outcome is passed on.
pub fn subcommand_outcome(command: ClientCommand, outcome: Result<(), &'static str>) -> (r: Result<
    (),
    &'static str,
>)
    ensures
        outcome is Ok ==> r is Ok,
        command == ClientCommand::Find ==> r == outcome,
        command == ClientCommand::Read && outcome is Err ==> (r matches Err(e) && e@
            == "Could not read proxies"@),
{
    match command {
        ClientCommand::Find => outcome,
        ClientCommand::Read => match outcome {
            Ok(()) => Ok(()),
            Err(_) => Err("Could not read proxies"),
        },
    }
}

/// The proxies to save from a message of the daemon: the body of a
/// `PROXIES` message, nothing for any other message.
pub fn proxies_to_write(msg: &str) -> (r: Option<String>)
    requires
        readable_message(msg@),
    ensures
        r is Some <==> (decode_message(msg@) matches Ok((h, b)) && h
            == ProtocolMessageHeader::Proxies),
        r matches Some(body) ==> decode_message(msg@) == Ok::<_, Seq<char>>(
            (ProtocolMessageHeader::Proxies, body@),
        ),
{
    match read_message(msg) {
        Ok((ProtocolMessageHeader::Proxies, body)) => Some(body),
        _ => None,
    }
}

/// The check made before the saved proxies are read: a path that exists
/// but is not a file is refused.
pub fn check_proxies_file(path_exists: bool, is_file: bool) -> (r: Result<(), &'static str>)
    ensures
        r is Ok <==> (!path_exists || is_file),
        r matches Err(e) ==> e@ == "proxies file path should be a file and not a directory"@,
{
    if path_exists && !is_file {
        Err("proxies file path should be a file and not a directory")
    } else {
        Ok(())
    }
}

} // verus!
