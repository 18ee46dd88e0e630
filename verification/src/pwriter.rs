//! The checks that stand before a command is written to the serial line.

use vstd::prelude::*;
use crate::preader::PortStatus;

verus! {

/// Why a command is not written.
#[derive(Clone, Copy, Debug, PartialEq, Eq, Structural)]
pub enum WriteError {
    /// The command has no bytes.
    EmptyCommand,
    /// The serial line is held by another user.
    PortBusy,
    /// The serial line is not open.
    PortNotOpen,
}

/// What `write_command` returns for a command and the state of the line.
/// The command is looked at first, then the line.
pub open spec fn write_verdict(command: Seq<u8>, port: PortStatus) -> Result<(), WriteError> {
    if command.len() == 0 {
        Err(WriteError::EmptyCommand)
    } else {
        match port {
            PortStatus::Busy => Err(WriteError::PortBusy),
            PortStatus::Closed => Err(WriteError::PortNotOpen),
            PortStatus::Open => Ok(()),
        }
    }
}

/// Writer of commands to the serial line.
pub struct PWriter {}

impl PWriter {
    /// A writer.
    pub fn new() -> (writer: Self) {
        Self {  }
    }

    /// Decides whether a command may be written, given what a try to take
    /// the serial line found. `Ok` means that the command's bytes are to
    /// be written as they are.
    pub fn write_command(&self, command: &[u8], port: PortStatus) -> (checked: Result<
        (),
        WriteError,
    >)
        ensures
            checked == write_verdict(command@, port),
    {
        if command.len() == 0 {
            return Err(WriteError::EmptyCommand);
        }
        match port {
            PortStatus::Busy => Err(WriteError::PortBusy),
            PortStatus::Closed => Err(WriteError::PortNotOpen),
            PortStatus::Open => Ok(()),
        }
    }
}

} // verus!
