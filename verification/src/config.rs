//! The configuration of one run, built from the command line.

use vstd::prelude::*;
use vstd::std_specs::iter::IteratorSpec;

verus! {

/// The error given when the command line names no file.
pub const MISSING_PATH: &'static str = "Didn't get a path to file";

/// The name of the file that a run writes: it is created in the current
/// directory, in place of any file of that name.
pub const OUTPUT_PATH: &'static str = "converted.txt";

/// The configuration of one run.
pub struct Config {
    /// The path of the file to convert.
    pub file_path: String,
}

impl Config {
    /// Builds the configuration from the arguments of the command line. The
    /// first item of `args` is the program's name and is passed over; the
    /// second is the path of the file to convert, and without it there is no
    /// configuration.
    ///
    /// Whatever `args` yields, the result is that of
    /// [`Config::from_argument`] on the second item that `args` gave. Where
    /// `args` is known to yield a fixed sequence of items, the result is
    /// stated over that sequence.
    pub fn build(mut args: impl Iterator<Item = String>) -> (built: Result<Config, &'static str>)
        ensures
            built matches Err(message) ==> message@ == MISSING_PATH@,
            args.obeys_prophetic_iter_laws() ==> match built {
                Ok(config) => args.remaining().len() >= 2 && config.file_path
                    == args.remaining()[1],
                Err(_) => args.remaining().len() < 2,
            },
    {
        args.next();
        Config::from_argument(args.next())
    }

    /// Builds the configuration from the argument that may hold the path:
    /// with a path the configuration that holds it, without one the error
    /// [`MISSING_PATH`].
    pub fn from_argument(argument: Option<String>) -> (built: Result<Config, &'static str>)
        ensures
            match argument {
                Some(path) => built matches Ok(config) && config.file_path == path,
                None => built matches Err(message) && message@ == MISSING_PATH@,
            },
    {
        match argument {
            Some(path) => Ok(Config { file_path: path }),
            None => Err(MISSING_PATH),
        }
    }
}

} // verus!
