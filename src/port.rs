use vstd::prelude::*;
use crate::config::DEFAULT_PORT;

verus! {

/// What one attempt to bind a loop-back port gave.
#[derive(Clone, Copy, Debug, PartialEq, Eq, Structural)]
pub enum BindOutcome {
    Bound,
    AddrInUse,
    Failed,
}

/// Why no port could be had.
#[derive(Clone, Copy, Debug, PartialEq, Eq, Structural)]
pub enum BindError {
    /// Every port from the requested one up to the last was in use.
    Exhausted,
    /// The bind failed in a way that allows no other port.
    Refused,
}

/// What to do after an attempt to bind.
#[derive(Clone, Copy, Debug, PartialEq, Eq, Structural)]
pub enum BindStep {
    /// Serve on this port.
    Listen(u16),
    /// Try this port next.
    Retry(u16),
    /// Give up.
    Fail(BindError),
}

/// Only the default port may fall back to the ports above it.
pub fn allows_fallback(requested: u16) -> (r: bool)
    ensures
        r == (requested == DEFAULT_PORT),
{
    requested == DEFAULT_PORT
}

pub open spec fn bind_step(port: u16, allow_fallback: bool, outcome: BindOutcome) -> BindStep {
    match outcome {
        BindOutcome::Bound => BindStep::Listen(port),
        BindOutcome::AddrInUse => if !allow_fallback {
            BindStep::Fail(BindError::Refused)
        } else if port == u16::MAX {
            BindStep::Fail(BindError::Exhausted)
        } else {
            BindStep::Retry((port + 1) as u16)
        },
        BindOutcome::Failed => BindStep::Fail(BindError::Refused),
    }
}

/// The step after binding `port` gave `outcome`: a port in use leads to the
/// next one only where fallback is allowed and a next port exists.
pub fn next_bind_step(port: u16, allow_fallback: bool, outcome: BindOutcome) -> (r: BindStep)
    ensures
        r == bind_step(port, allow_fallback, outcome),
{
    match outcome {
        BindOutcome::Bound => BindStep::Listen(port),
        BindOutcome::AddrInUse => if !allow_fallback {
            BindStep::Fail(BindError::Refused)
        } else if port == u16::MAX {
            BindStep::Fail(BindError::Exhausted)
        } else {
            BindStep::Retry(port + 1)
        },
        BindOutcome::Failed => BindStep::Fail(BindError::Refused),
    }
}

/// The default port, found in use, leads to the port above it; any other
/// requested port, found in use, fails at once.
pub proof fn law_port_fallback(requested: u16)
    ensures
        requested == DEFAULT_PORT ==> bind_step(
            requested,
            requested == DEFAULT_PORT,
            BindOutcome::AddrInUse,
        ) == BindStep::Retry((DEFAULT_PORT + 1) as u16),
        requested != DEFAULT_PORT ==> bind_step(
            requested,
            requested == DEFAULT_PORT,
            BindOutcome::AddrInUse,
        ) == BindStep::Fail(BindError::Refused),
{
}

} // verus!
