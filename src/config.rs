use vstd::prelude::*;
use crate::matcher::{
    folded_matching_lines, matching_lines, search, search_case_insensitive, strings,
};

verus! {

/// Why a configuration could not be built: a positional argument is missing.
#[derive(Clone, Copy, Debug, PartialEq, Eq, Structural)]
pub enum ConfigError {
    /// No token followed the program name.
    MissingPattern,
    /// A pattern was given but no file path followed it.
    MissingFilepath,
}

impl ConfigError {
    /// A short diagnostic for the user.
    pub fn message(&self) -> (r: &'static str)
        ensures
            r@ == (match self {
                ConfigError::MissingPattern => "Didn't get a pattern"@,
                ConfigError::MissingFilepath => "Didn't get a filepath"@,
            }),
    {
        match self {
            ConfigError::MissingPattern => "Didn't get a pattern",
            ConfigError::MissingFilepath => "Didn't get a filepath",
        }
    }
}

/// The parameters of one search: what to look for, where, and whether letter
/// case is ignored.
pub struct Config {
    pub pattern: String,
    pub filepath: String,
    pub ignore_case: bool,
}

/// The error that `build` reports for an argument list of `n` tokens (the
/// program name included), if any.
pub open spec fn build_error(n: nat) -> Option<ConfigError> {
    if n <= 1 {
        Some(ConfigError::MissingPattern)
    } else if n == 2 {
        Some(ConfigError::MissingFilepath)
    } else {
        None
    }
}

impl Config {
    /// Builds a configuration from the invocation tokens: the first (the
    /// program name) is skipped, the next two are the pattern and the file
    /// path, and any further tokens are ignored. `ignore_case` is taken as is.
    pub fn build(args: Vec<String>, ignore_case: bool) -> (r: Result<Config, ConfigError>)
        ensures
            match r {
                Ok(c) => {
                    &&& build_error(args@.len()) is None
                    &&& c.pattern@ == args@[1]@
                    &&& c.filepath@ == args@[2]@
                    &&& c.ignore_case == ignore_case
                },
                Err(e) => build_error(args@.len()) == Some(e),
            },
    {
        if args.len() < 2 {
            return Err(ConfigError::MissingPattern);
        }
        if args.len() < 3 {
            return Err(ConfigError::MissingFilepath);
        }
        let pattern = args[1].clone();
        let filepath = args[2].clone();
        Ok(Config { pattern, filepath, ignore_case })
    }

    /// The lines of `content` that this configuration selects: those holding
    /// the pattern, compared without regard to case when `ignore_case` is set.
    pub fn select_lines(&self, content: &str) -> (r: Vec<String>)
        ensures
            strings(r@) == if self.ignore_case {
                folded_matching_lines(self.pattern@, content@)
            } else {
                matching_lines(self.pattern@, content@)
            },
    {
        if self.ignore_case {
            search_case_insensitive(self.pattern.as_str(), content)
        } else {
            search(self.pattern.as_str(), content)
        }
    }
}

} // verus!
