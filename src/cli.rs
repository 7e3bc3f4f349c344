//! The command line: `<program> <parent_pid> <interval>`.
use vstd::prelude::*;

use crate::text::{parse_i32, parse_i32_spec, parse_u64, parse_u64_spec};

verus! {

/// What the sampling loop runs with.
#[derive(Clone, Copy, Debug, PartialEq, Eq, Structural)]
pub struct Config {
    /// The root of the process tree to watch.
    pub parent_pid: i32,
    /// Seconds between the two samples of each interval.
    pub interval: u64,
}

/// Why the command line was refused.
#[derive(Clone, Copy, Debug, PartialEq, Eq, Structural)]
pub enum ArgError {
    /// Fewer than two arguments after the program name.
    Usage,
    /// The parent pid is no `i32`.
    InvalidPid,
    /// The interval is no `u64`.
    InvalidInterval,
}

/// What `parse_args` gives for the argument list `args` (the program name first).
pub open spec fn args_result(args: Seq<Seq<char>>) -> Result<Config, ArgError> {
    if args.len() < 3 {
        Err(ArgError::Usage)
    } else {
        match parse_i32_spec(args[1]) {
            None => Err(ArgError::InvalidPid),
            Some(pid) => match parse_u64_spec(args[2]) {
                None => Err(ArgError::InvalidInterval),
                Some(iv) => Ok(Config { parent_pid: pid, interval: iv }),
            },
        }
    }
}

/// Reads the parent pid and the interval from the argument list (the program name
/// first); arguments past the second are ignored.
pub fn parse_args(args: &Vec<String>) -> (r: Result<Config, ArgError>)
    ensures
        r == args_result(args@.map_values(|a: String| a@)),
        args@.len() < 3 ==> r == Err::<Config, ArgError>(ArgError::Usage),
{
    let ghost views = args@.map_values(|a: String| a@);
    if args.len() < 3 {
        return Err(ArgError::Usage);
    }
    assert(views[1] == args@[1]@ && views[2] == args@[2]@);
    let pid = match parse_i32(args[1].as_str()) {
        None => return Err(ArgError::InvalidPid),
        Some(p) => p,
    };
    let interval = match parse_u64(args[2].as_str()) {
        None => return Err(ArgError::InvalidInterval),
        Some(v) => v,
    };
    Ok(Config { parent_pid: pid, interval })
}

} // verus!
