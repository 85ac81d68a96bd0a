//! The process roles named in structured logs.
use vstd::prelude::*;

verus! {

/// The process role attached to every structured log line.
#[derive(Debug, Clone, Copy, PartialEq, Eq, Structural)]
pub enum ProcessRole {
    /// The HTTP API process.
    Server,
    /// The durable observation-worker process.
    ObserverWorker,
}

impl ProcessRole {
    /// The stable machine label of the role.
    pub fn label(self) -> (l: &'static str)
        ensures
            l@ == match self {
                ProcessRole::Server => "server"@,
                ProcessRole::ObserverWorker => "observer-worker"@,
            },
    {
        match self {
            ProcessRole::Server => "server",
            ProcessRole::ObserverWorker => "observer-worker",
        }
    }
}

} // verus!
