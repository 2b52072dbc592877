use crate::manifest::SimulationConfig;
use vstd::prelude::*;

verus! {

/// The version of the plugin interface that this engine speaks.
pub const SIMENGINE_API_VERSION: u32 = 2;

/// The level of a message that a plugin logs.
#[derive(Debug, Clone, Copy, PartialEq, Eq, Structural)]
pub enum SimLogLevel {
    Error,
    Warn,
    Info,
    Debug,
    Trace,
}

/// The name under which a log level is printed.
pub open spec fn level_label(level: SimLogLevel) -> Seq<char> {
    match level {
        SimLogLevel::Error => "Error"@,
        SimLogLevel::Warn => "Warn"@,
        SimLogLevel::Info => "Info"@,
        SimLogLevel::Debug => "Debug"@,
        SimLogLevel::Trace => "Trace"@,
    }
}

/// The line printed for a message that a plugin logs:
/// `[level] [simulation] message`.
pub open spec fn log_line_view(level: SimLogLevel, sim_name: Seq<char>, message: Seq<char>) -> Seq<
    char,
> {
    "["@ + level_label(level) + "] ["@ + sim_name + "] "@ + message
}

/// The line printed for a message that a plugin logs; a message from an
/// unknown simulation is attributed to `unknown`, and a missing message is
/// shown as `<null message>`.
pub fn log_line(level: SimLogLevel, sim_name: Option<&str>, message: Option<&str>) -> (line:
    String)
    ensures
        line@ == log_line_view(
            level,
            match sim_name {
                Some(n) => n@,
                None => "unknown"@,
            },
            match message {
                Some(m) => m@,
                None => "<null message>"@,
            },
        ),
{
    let label = match level {
        SimLogLevel::Error => "Error",
        SimLogLevel::Warn => "Warn",
        SimLogLevel::Info => "Info",
        SimLogLevel::Debug => "Debug",
        SimLogLevel::Trace => "Trace",
    };
    let name = match sim_name {
        Some(n) => n,
        None => "unknown",
    };
    let text = match message {
        Some(m) => m,
        None => "<null message>",
    };
    let mut line = "[".to_owned();
    line.append(label);
    line.append("] [");
    line.append(name);
    line.append("] ");
    line.append(text);
    assert(label@ == level_label(level));
    line
}

/// What a read of an input gave: the number of bytes read, or `None` when
/// no value was there.
pub fn read_result(bytes_read: usize) -> (r: Option<usize>)
    ensures
        r == if bytes_read == 0 { None } else { Some(bytes_read) },
{
    if bytes_read == 0 {
        None
    } else {
        Some(bytes_read)
    }
}

/// A fixed-size input is read only when it filled the whole buffer.
pub fn complete_input<const N: usize>(buffer: [u8; N], read: Option<usize>) -> (r: Option<[u8; N]>)
    ensures
        r == if read == Some(N) { Some(buffer) } else { None::<[u8; N]> },
{
    match read {
        Some(bytes_read) if bytes_read == N => Some(buffer),
        _ => None,
    }
}

/// A plugin built against another version of the interface.
#[derive(Debug)]
pub struct ApiVersionMismatch {
    pub plugin: String,
    pub found: u32,
    pub expected: u32,
}

/// Accepts a plugin only when it speaks this engine's interface version.
pub fn ensure_api_version(sim: &SimulationConfig, api_version: u32) -> (r: Result<
    (),
    ApiVersionMismatch,
>)
    ensures
        r is Ok <==> api_version == SIMENGINE_API_VERSION,
        r matches Err(e) ==> e.plugin@ == sim.name@ && e.found == api_version && e.expected
            == SIMENGINE_API_VERSION,
{
    if api_version == SIMENGINE_API_VERSION {
        Ok(())
    } else {
        Err(ApiVersionMismatch { plugin: sim.name.clone(), found: api_version, expected: SIMENGINE_API_VERSION })
    }
}

} // verus!
