//! The monitor of the serial port.
use vstd::prelude::*;

verus! {

/// How long the monitor sleeps between two looks at the port, in milliseconds.
pub const SERIAL_INTERVAL_MS: u64 = 20;

/// What the monitor asks for.
#[derive(Debug, Copy, Clone, PartialEq, Eq)]
pub enum SerialStep {
    /// Test whether the port hears itself.
    LoopbackTest,
    /// Read what has come, and show it.
    Read,
    /// Sleep.
    Sleep { millis: u64 },
    /// Nothing more: this is what went wrong.
    Failed(&'static str),
}

impl SerialStep {
    /// What follows: a port that does not hear itself is not monitored; any other is read
    /// again and again, with a pause in between.
    pub open spec fn after(self, passed: bool) -> Self {
        match self {
            SerialStep::LoopbackTest => if passed {
                SerialStep::Read
            } else {
                SerialStep::Failed("serial loopback test failed")
            },
            SerialStep::Read => SerialStep::Sleep { millis: SERIAL_INTERVAL_MS },
            SerialStep::Sleep { millis } => SerialStep::Read,
            SerialStep::Failed(_) => self,
        }
    }

    /// What follows once this is done; `passed` says how a test went.
    pub fn next(self, passed: bool) -> (r: Self)
        ensures
            r == self.after(passed),
    {
        match self {
            SerialStep::LoopbackTest => {
                if passed {
                    SerialStep::Read
                } else {
                    SerialStep::Failed("serial loopback test failed")
                }
            },
            SerialStep::Read => SerialStep::Sleep { millis: SERIAL_INTERVAL_MS },
            SerialStep::Sleep { .. } => SerialStep::Read,
            SerialStep::Failed(_) => self,
        }
    }
}

/// The monitor after `n` steps, the test having gone as `passed` says.
pub open spec fn monitored(passed: bool, n: nat) -> SerialStep
    decreases n,
{
    if n == 0 {
        SerialStep::LoopbackTest
    } else {
        monitored(passed, (n - 1) as nat).after(passed)
    }
}

/// A port that passes the test is read every other step, for ever; one that does not is
/// never read.
pub proof fn law_serial_monitor(passed: bool, n: nat)
    requires
        n > 0,
    ensures
        passed && n % 2 == 1 ==> monitored(passed, n) == SerialStep::Read,
        passed && n % 2 == 0 ==> monitored(passed, n) == (SerialStep::Sleep { millis: 20 }),
        !passed ==> monitored(passed, n) == SerialStep::Failed("serial loopback test failed"),
    decreases n,
{
    if n > 1 {
        law_serial_monitor(passed, (n - 1) as nat);
    } else {
        assert(monitored(passed, 0) == SerialStep::LoopbackTest);
    }
}

/// Whatever was slept, the port is read next; whatever went wrong stays wrong. Only the test
/// depends on how it went.
pub proof fn law_serial_steps(passed: bool, millis: u64, e: &'static str)
    ensures
        SerialStep::LoopbackTest.after(true) == SerialStep::Read,
        SerialStep::LoopbackTest.after(false) is Failed,
        SerialStep::Read.after(passed) == (SerialStep::Sleep { millis: 20 }),
        (SerialStep::Sleep { millis }).after(passed) == SerialStep::Read,
        SerialStep::Failed(e).after(passed) == SerialStep::Failed(e),
{
}

} // verus!
