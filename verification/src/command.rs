//! Command selection: which of the two verification modes a set of parsed
//! command-line arguments requests.

use vstd::prelude::*;

verus! {

/// The parsed command-line arguments the checker understands.
pub struct Args {
    pub cmd_file: bool,
    pub cmd_manifest: bool,
    pub arg_expected_checksum: String,
    pub arg_file_path: String,
    pub arg_checksum_path: String,
}

/// The two commands: verify one file against one expected digest, or verify
/// every record of a manifest.
#[derive(Clone, Copy, Debug, PartialEq, Eq, Structural)]
pub enum Command {
    File,
    Manifest,
}

/// Which command the arguments request: the `file` flag wins, then the
/// `manifest` flag; with neither there is no command to run.
pub fn get_command(args: &Args) -> (r: Option<Command>)
    ensures
        r == (if args.cmd_file {
            Some(Command::File)
        } else if args.cmd_manifest {
            Some(Command::Manifest)
        } else {
            None::<Command>
        }),
{
    if args.cmd_file {
        Some(Command::File)
    } else if args.cmd_manifest {
        Some(Command::Manifest)
    } else {
        None
    }
}

} // verus!
