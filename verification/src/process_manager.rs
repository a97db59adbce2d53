//! The processes of the development server and the order they start in.
use vstd::prelude::*;
use crate::config::ServerConfig;
use crate::source_builder::{decimal, decimal_string};
use crate::text::{owned, concat_str};

verus! {

/// The processes that the development server runs beside itself.
#[derive(Debug, Clone, Copy, PartialEq, Eq, Hash, Structural)]
pub enum ProcessId {
    WatchReactSrc,
    RunRustDevServer,
    BuildRustSrc,
    BuildReactSSRSrc,
}

/// A step of the development server's start.
#[derive(Debug, Clone, Copy, PartialEq, Eq, Structural)]
pub enum StartStep {
    /// Start the process.
    Start(ProcessId),
    /// Wait for the process to finish.
    Wait(ProcessId),
}

/// The start of the development server: the client watcher and both builds
/// start; once both builds are done the Rust server starts.
pub open spec fn dev_start_steps() -> Seq<StartStep> {
    seq![
        StartStep::Start(ProcessId::WatchReactSrc),
        StartStep::Start(ProcessId::BuildRustSrc),
        StartStep::Start(ProcessId::BuildReactSSRSrc),
        StartStep::Wait(ProcessId::BuildRustSrc),
        StartStep::Wait(ProcessId::BuildReactSSRSrc),
        StartStep::Start(ProcessId::RunRustDevServer),
    ]
}

/// The steps that start the development processes, in order.
pub fn start_dev_processes() -> (res: Vec<StartStep>)
    ensures
        res@ == dev_start_steps(),
{
    let res = vec![
        StartStep::Start(ProcessId::WatchReactSrc),
        StartStep::Start(ProcessId::BuildRustSrc),
        StartStep::Start(ProcessId::BuildReactSSRSrc),
        StartStep::Wait(ProcessId::BuildRustSrc),
        StartStep::Wait(ProcessId::BuildReactSSRSrc),
        StartStep::Start(ProcessId::RunRustDevServer),
    ];
    assert(res@ =~= dev_start_steps());
    res
}

/// The clickable address of the development server: `http://host:port`.
pub fn server_base_url(server: &ServerConfig) -> (res: String)
    ensures
        res@ == "http://"@ + server.host@ + ":"@ + decimal(server.port as nat),
{
    let mut res = concat_str("http://", server.host.as_str());
    res.append(":");
    let port = decimal_string(server.port);
    res.append(port.as_str());
    res
}

} // verus!
