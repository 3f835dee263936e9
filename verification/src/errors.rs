//! The errors the client can report.

use vstd::prelude::*;
use vstd::string::StringExecFns;

verus! {

/// Everything that can go wrong in a session.
///
/// The configuration errors are fatal at startup; an empty token or a failed
/// transmission only aborts the one command; an input failure ends the
/// session.
#[derive(Clone, Copy, Debug, PartialEq, Eq, Structural)]
pub enum ClientError {
    /// The configuration file cannot be read, or the default cannot be written.
    ConfigIo,
    /// The configuration file is not the expected JSON document.
    ConfigParse,
    /// An interactively entered token is empty after trimming.
    EmptyToken,
    /// The request could not be transmitted end to end.
    Transport,
    /// Reading from the terminal failed other than by interrupt or end of file.
    Input,
}

impl ClientError {
    /// The diagnostic text of this error.
    pub open spec fn spec_message(self) -> Seq<char> {
        match self {
            ClientError::ConfigIo => "can't read or write the config file"@,
            ClientError::ConfigParse => "config file is not a valid config"@,
            ClientError::EmptyToken => "token can't be empty"@,
            ClientError::Transport => "request could not be sent"@,
            ClientError::Input => "can't read input"@,
        }
    }

    /// The diagnostic text of this error.
    pub fn message(&self) -> (r: String)
        ensures
            r@ == self.spec_message(),
    {
        match self {
            ClientError::ConfigIo => String::from_str("can't read or write the config file"),
            ClientError::ConfigParse => String::from_str("config file is not a valid config"),
            ClientError::EmptyToken => String::from_str("token can't be empty"),
            ClientError::Transport => String::from_str("request could not be sent"),
            ClientError::Input => String::from_str("can't read input"),
        }
    }
}

/// One line of diagnostic output: `Error <context>: <message>`.
pub fn error_line(context: &str, message: &str) -> (r: String)
    ensures
        r@ == "Error "@ + context@ + ": "@ + message@,
{
    let mut out = String::from_str("Error ");
    out.append(context);
    out.append(": ");
    out.append(message);
    proof {
        assert(out@ =~= "Error "@ + context@ + ": "@ + message@);
    }
    out
}

} // verus!
