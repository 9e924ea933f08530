//! Configuration values that a front end hands the library's embedder. Only
//! the log-format choice is interpreted here; flag parsing and the logging
//! itself are the front end's work.

use vstd::prelude::*;
use vstd::string::StringExecFns;

verus! {

/// How log output is formatted.
#[derive(Debug, Copy, Clone, Eq, PartialEq, Hash)]
pub enum LogFormat {
    Compact,
    Full,
    Pretty,
    Json,
}

impl LogFormat {
    /// The name of the format.
    pub open spec fn spec_name(self) -> Seq<char> {
        match self {
            LogFormat::Compact => "compact"@,
            LogFormat::Full => "full"@,
            LogFormat::Pretty => "pretty"@,
            LogFormat::Json => "json"@,
        }
    }

    /// The name of the format.
    pub fn name(&self) -> (r: String)
        ensures
            r@ == self.spec_name(),
    {
        match self {
            LogFormat::Compact => String::new().concat("compact"),
            LogFormat::Full => String::new().concat("full"),
            LogFormat::Pretty => String::new().concat("pretty"),
            LogFormat::Json => String::new().concat("json"),
        }
    }

    /// The format a name chooses, when one does.
    pub fn from_name(s: &String) -> (r: Option<LogFormat>)
        ensures
            match r {
                Some(f) => s@ == f.spec_name(),
                None => s@ != LogFormat::Compact.spec_name() && s@ != LogFormat::Full.spec_name()
                    && s@ != LogFormat::Pretty.spec_name() && s@ != LogFormat::Json.spec_name(),
            },
    {
        if s.eq(&String::new().concat("compact")) {
            Some(LogFormat::Compact)
        } else if s.eq(&String::new().concat("full")) {
            Some(LogFormat::Full)
        } else if s.eq(&String::new().concat("pretty")) {
            Some(LogFormat::Pretty)
        } else if s.eq(&String::new().concat("json")) {
            Some(LogFormat::Json)
        } else {
            None
        }
    }
}

} // verus!
