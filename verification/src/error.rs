use vstd::prelude::*;
use vstd::string::*;

verus! {

/// The terminal failures of a monitoring run. Every one aborts the run;
/// none is retried.
#[derive(Clone, Copy, Debug, PartialEq, Eq, Structural)]
pub enum Error {
    /// The pid token is not a decimal 32-bit integer.
    Argument,
    /// The config file could not be read.
    ConfigRead,
    /// The config file could not be parsed.
    ConfigParse,
    /// The destination key is absent from the config file's lookup table.
    ConfigLookup,
    /// No process with the watched pid exists at verification time.
    ProcessNotFound,
    /// A webhook post failed at the transport level.
    Network,
}

impl Error {
    /// The single error line printed for this failure.
    pub open spec fn spec_message(self) -> Seq<char> {
        match self {
            Error::Argument => "failed to cast pid to number"@,
            Error::ConfigRead => "failed to read config file"@,
            Error::ConfigParse => "failed to parse config file"@,
            Error::ConfigLookup => "failed to resolve destination"@,
            Error::ProcessNotFound => "no exists process"@,
            Error::Network => "failed to send webhook"@,
        }
    }

    pub fn message(&self) -> (r: String)
        ensures
            r@ == self.spec_message(),
    {
        match self {
            Error::Argument => String::from_str("failed to cast pid to number"),
            Error::ConfigRead => String::from_str("failed to read config file"),
            Error::ConfigParse => String::from_str("failed to parse config file"),
            Error::ConfigLookup => String::from_str("failed to resolve destination"),
            Error::ProcessNotFound => String::from_str("no exists process"),
            Error::Network => String::from_str("failed to send webhook"),
        }
    }
}

} // verus!
