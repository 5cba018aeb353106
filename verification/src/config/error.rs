//! What can be wrong with the settings.
use vstd::prelude::*;
use crate::text::{concat2, concat4, copy_str};

verus! {

/// A setting and what is wrong with it.
pub type Problem = (Seq<char>, Seq<char>);

/// Why there are no settings to run with.
#[derive(Clone, Debug, Eq, PartialEq)]
pub enum ConfigError {
    Environment { name: String, reason: String },
    File { name: String, path: String, reason: String },
    Invalid { name: String, reason: String },
}

impl ConfigError {
    /// Whether this says that a setting is invalid.
    pub open spec fn is_invalid(self, problem: Problem) -> bool {
        self matches ConfigError::Invalid { name, reason } && name@ == problem.0 && reason@
            == problem.1
    }

    /// Whether this says that a setting could not be read from the environment.
    pub open spec fn is_environment(self, setting: Seq<char>, why: Seq<char>) -> bool {
        self matches ConfigError::Environment { name, reason } && name@ == setting && reason@ == why
    }

    /// Whether this says that a setting could not be taken from a file.
    pub open spec fn is_file(self, setting: Seq<char>, at: Seq<char>, why: Seq<char>) -> bool {
        self matches ConfigError::File { name, path, reason } && name@ == setting && path@ == at
            && reason@ == why
    }

    /// An invalid setting.
    pub fn invalid(name: &str, reason: &str) -> (e: ConfigError)
        ensures
            e.is_invalid((name@, reason@)),
    {
        ConfigError::Invalid { name: copy_str(name), reason: copy_str(reason) }
    }

    /// A setting that could not be read from the environment.
    pub fn environment(name: &str, reason: &str) -> (e: ConfigError)
        ensures
            e.is_environment(name@, reason@),
    {
        ConfigError::Environment { name: copy_str(name), reason: copy_str(reason) }
    }

    /// A setting that could not be taken from a file.
    pub fn file(name: &str, path: &str, reason: &str) -> (e: ConfigError)
        ensures
            e.is_file(name@, path@, reason@),
    {
        ConfigError::File {
            name: copy_str(name),
            path: copy_str(path),
            reason: copy_str(reason),
        }
    }

    /// The error in words.
    pub open spec fn words(self) -> Seq<char> {
        match self {
            ConfigError::Environment { name, reason } => "failed to read environment setting "@
                + name@ + ": "@ + reason@,
            ConfigError::File { name, path, reason } => "failed to load "@ + name@ + " from '"@
                + path@ + ("': "@ + reason@),
            ConfigError::Invalid { name, reason } => "invalid configuration for "@ + name@ + ": "@
                + reason@,
        }
    }

    /// The error in words.
    pub fn message(&self) -> (s: String)
        ensures
            s@ == self.words(),
    {
        match self {
            ConfigError::Environment { name, reason } => concat4(
                "failed to read environment setting ",
                name,
                ": ",
                reason,
            ),
            ConfigError::File { name, path, reason } => {
                let head = concat4("failed to load ", name, " from '", path);
                let tail = concat2("': ", reason);
                concat2(&head, &tail)
            },
            ConfigError::Invalid { name, reason } => concat4(
                "invalid configuration for ",
                name,
                ": ",
                reason,
            ),
        }
    }
}

/// The first of two problems, where there is one.
pub open spec fn first(a: Option<Problem>, b: Option<Problem>) -> Option<Problem> {
    if a is Some {
        a
    } else {
        b
    }
}

/// Whether an outcome reports a problem exactly where there is one.
pub open spec fn reports<T>(r: Result<T, ConfigError>, problem: Option<Problem>) -> bool {
    match r {
        Ok(_) => problem is None,
        Err(e) => problem matches Some(p) && e.is_invalid(p),
    }
}

} // verus!
