use vstd::prelude::*;

verus! {

/// Options of `init`: scaffold a new project.
pub struct InitOpts {}

/// Options of `build`: bundle the project in the current directory.
pub struct BuildOpts {}

/// Options of `run`: serve the project.
pub struct RunOpts {
    /// The port to listen on.
    pub port: u16,
    /// Whether to export traces.
    pub otlp: bool,
}

impl RunOpts {
    /// The port served when none is given.
    pub const DEFAULT_PORT: u16 = 5000;

    pub fn new(port: u16, otlp: bool) -> (r: RunOpts)
        ensures
            r.port == port,
            r.otlp == otlp,
    {
        RunOpts { port, otlp }
    }
}

/// The command to execute.
pub enum SubCommand {
    Init(InitOpts),
    Build(BuildOpts),
    Run(RunOpts),
}

/// The parsed command line.
pub struct Opts {
    pub cmd: SubCommand,
}

} // verus!
