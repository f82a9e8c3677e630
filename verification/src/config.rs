//! The run's configuration, read from the command-line arguments.

use vstd::prelude::*;

use crate::decimal::{parse_count, parse_count_spec, reads_as, digits_value, all_digits, unsigned_digits};

verus! {

/// How many worker threads to start, and for how long to run.
#[derive(Debug, Clone, Copy, PartialEq, Eq)]
pub struct Config {
    /// Number of busy-loop worker threads.
    pub nthreads: usize,
    /// Seconds to run before reporting and stopping; `0` runs until interrupted.
    pub sleep_time: usize,
}

/// Why the arguments do not describe a run.
#[derive(Debug, Clone, Copy, PartialEq, Eq)]
pub enum ConfigError {
    /// No thread count was given.
    MissingThreadCount,
    /// The thread count is not a decimal count.
    InvalidThreadCount,
    /// The run time is not a decimal count.
    InvalidSleepTime,
}

/// The configuration that the arguments `args` describe, `args[0]` being the
/// program's name, `args[1]` the thread count and the optional `args[2]` the
/// run time in seconds; arguments after these are ignored.
pub open spec fn config_spec(args: Seq<Seq<char>>) -> Result<Config, ConfigError> {
    if args.len() < 2 {
        Err(ConfigError::MissingThreadCount)
    } else if parse_count_spec(args[1]) is None {
        Err(ConfigError::InvalidThreadCount)
    } else if args.len() > 2 && parse_count_spec(args[2]) is None {
        Err(ConfigError::InvalidSleepTime)
    } else {
        Ok(
            Config {
                nthreads: parse_count_spec(args[1])->0,
                sleep_time: if args.len() > 2 {
                    parse_count_spec(args[2])->0
                } else {
                    0
                },
            },
        )
    }
}

/// Reads the configuration from the program's arguments.
pub fn parse_args(args: &Vec<String>) -> (r: Result<Config, ConfigError>)
    ensures
        r == config_spec(args@.map_values(|a: String| a@)),
{
    let ghost views = args@.map_values(|a: String| a@);
    if args.len() < 2 {
        return Err(ConfigError::MissingThreadCount);
    }
    let nthreads = match parse_count(args[1].as_str()) {
        Some(n) => n,
        None => {
            return Err(ConfigError::InvalidThreadCount);
        },
    };
    let sleep_time = if args.len() > 2 {
        match parse_count(args[2].as_str()) {
            Some(t) => t,
            None => {
                return Err(ConfigError::InvalidSleepTime);
            },
        }
    } else {
        0
    };
    Ok(Config { nthreads, sleep_time })
}

/// Whenever the thread count and the optional run time are written as plain
/// digit runs that read as counts `n` and `m` fitting in a `usize`, the run has
/// exactly `n` threads and runs `m` seconds (`0`, until interrupted, when no
/// run time is given), whatever the program's name and the arguments after them.
pub proof fn lemma_config_takes_counts_as_given(args: Seq<Seq<char>>, n: nat, m: nat)
    requires
        args.len() >= 2,
        reads_as(args[1], n),
        n <= usize::MAX,
        args.len() > 2 ==> reads_as(args[2], m) && m <= usize::MAX,
    ensures
        config_spec(args) == Ok::<Config, ConfigError>(
            Config { nthreads: n as usize, sleep_time: if args.len() > 2 { m as usize } else { 0 } },
        ),
{
    assert(args[1][0] != '+') by {
        assert(all_digits(args[1]));
        assert(crate::decimal::is_digit(args[1][0]));
    }
    assert(unsigned_digits(args[1]) == args[1]);
    if args.len() > 2 {
        assert(all_digits(args[2]));
        assert(crate::decimal::is_digit(args[2][0]));
        assert(unsigned_digits(args[2]) == args[2]);
    }
}

/// The arguments `[name, decimal(n)]` ask for exactly `n` threads and an
/// untimed run, for every count `n` that fits in a `usize`.
pub proof fn lemma_config_decimal_thread_count(name: Seq<char>, n: nat)
    requires
        n <= usize::MAX,
    ensures
        config_spec(seq![name, crate::decimal::decimal(n)]) == Ok::<Config, ConfigError>(
            Config { nthreads: n as usize, sleep_time: 0 },
        ),
{
    crate::decimal::lemma_decimal_reads_as(n);
    lemma_config_takes_counts_as_given(seq![name, crate::decimal::decimal(n)], n, 0);
}

/// A thread count written with a leading `+` counts the same.
pub proof fn lemma_config_plus_sign(args: Seq<Seq<char>>, n: nat)
    requires
        args.len() == 2,
        args[1].len() > 0,
        args[1][0] == '+',
        reads_as(args[1].drop_first(), n),
        n <= usize::MAX,
    ensures
        config_spec(args) == Ok::<Config, ConfigError>(
            Config { nthreads: n as usize, sleep_time: 0 },
        ),
{
}

impl Config {
    /// How long the run lasts before the report: `Some(seconds)` for a timed
    /// run, `None` for a run that lasts until it is interrupted.
    pub fn stop_after(&self) -> (r: Option<u64>)
        ensures
            self.sleep_time > 0 ==> r == Some(self.sleep_time as u64),
            self.sleep_time == 0 ==> r is None,
    {
        if self.sleep_time > 0 {
            Some(self.sleep_time as u64)
        } else {
            None
        }
    }
}

} // verus!
