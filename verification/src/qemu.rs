//! QEMU's debug devices: the `0xe9` debug console and the `isa-debug-exit`
//! port.

use vstd::prelude::*;
use crate::port::{Port, PortWidth};

verus! {

/// The port of QEMU's debug console; each byte written is printed.
pub const DEBUG_CON_PORT: u16 = 0xe9;

/// The port of QEMU's `isa-debug-exit` device.
pub const DEBUG_EXIT_PORT: u16 = 0xf4;

/// How a test run ended.
#[derive(Debug, Clone, Copy, PartialEq, Eq, Structural)]
pub enum ExitStatus {
    Success,
    Failure,
}

/// The value to write to the exit port for `status`. QEMU exits with
/// `(value << 1) | 1`, so success is reported as 33 and failure as 1.
pub fn exit_value(status: ExitStatus) -> (value: u32)
    ensures
        status == ExitStatus::Success ==> value == 0x10,
        status == ExitStatus::Failure ==> value == 0,
{
    match status {
        ExitStatus::Success => 0x10,
        ExitStatus::Failure => 0,
    }
}

/// The byte-wide port of the debug console.
pub fn debug_con_port() -> (port: Port<u8>)
    ensures
        port.spec_addr() == DEBUG_CON_PORT,
{
    Port::new(DEBUG_CON_PORT)
}

/// The 32-bit port of the exit device.
pub fn debug_exit_port() -> (port: Port<u32>)
    ensures
        port.spec_addr() == DEBUG_EXIT_PORT,
{
    Port::new(DEBUG_EXIT_PORT)
}

} // verus!
