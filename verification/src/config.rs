use vstd::prelude::*;

verus! {

/// Configuration settings for a server instance.
pub struct Config {
    /// Number of threads for the blocking-work pool.  Handler code runs on the
    /// dispatch thread; blocking work must be scheduled on the shared pool.
    /// Defaults to 4.
    pub num_threads: usize,
    /// Enable or disable keep-alive.  Default is true.
    pub keep_alive: bool,
    /// How long, in milliseconds, a shutdown waits for in-flight
    /// requests before they are forcibly abandoned.  Default is one
    /// second.
    pub shutdown_grace_millis: u64,
}

impl Default for Config {
    /// The default configuration: four pool threads, keep-alive on, one
    /// second of shutdown grace.
    fn default() -> (c: Config)
        ensures
            c.num_threads == 4,
            c.keep_alive == true,
            c.shutdown_grace_millis == 1000,
    {
        Config { num_threads: 4, keep_alive: true, shutdown_grace_millis: 1000 }
    }
}

} // verus!
