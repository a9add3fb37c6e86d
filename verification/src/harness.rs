//! Exit-code signalling for the hosting emulator's test-exit device, and the
//! driver that runs a batch of test routines.

use vstd::prelude::*;

verus! {

/// Status reported to the hosting emulator when a run ends. The numeric
/// tags are a stable ABI with the harness and are never renumbered.
#[derive(Debug, Clone, Copy, PartialEq, Eq, Structural)]
pub enum QemuExitcode {
    Success,
    Fail,
}

/// The 32-bit tag the exit device expects for each status.
pub open spec fn exit_code_tag(code: QemuExitcode) -> u32 {
    match code {
        QemuExitcode::Success => 0x10,
        QemuExitcode::Fail => 0x11,
    }
}

impl QemuExitcode {
    /// The value written to the exit port for this status.
    pub fn tag(self) -> (r: u32)
        ensures
            r == exit_code_tag(self),
    {
        match self {
            QemuExitcode::Success => 0x10,
            QemuExitcode::Fail => 0x11,
        }
    }
}

/// A zero-argument test routine. A routine that fails does not return to
/// the driver: it diverts to the panic path, which signals `Fail` itself.
pub trait Testable {
    fn run(&self);
}

/// Runs every routine in order. Reaching the result at all means every
/// routine ran to completion, so the status to signal is always `Success`.
pub fn test_runner<T: Testable>(tests: &[T]) -> (r: QemuExitcode)
    ensures
        r == QemuExitcode::Success,
{
    let mut i: usize = 0;
    while i < tests.len()
        invariant
            i <= tests.len(),
        decreases tests.len() - i,
    {
        tests[i].run();
        i = i + 1;
    }
    QemuExitcode::Success
}

} // verus!
