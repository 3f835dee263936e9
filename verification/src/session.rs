//! The interactive session: one step per line of operator input.
//!
//! The loop around this module reads a line, hands it in, and carries out the
//! step it is told: run a command, ignore an empty line, or end the session.
//! Command failures never end the loop; only `exit`, an interrupt, end of
//! file, or a failure to read input do.

use vstd::prelude::*;
use vstd::string::StringExecFns;
use crate::config::Config;
use crate::errors::ClientError;
use crate::request::AdminOp;
use crate::text::{str_eq, trim_spec, trim_string};

verus! {

/// The recognized commands, and `Unknown` for every other input.
#[derive(Clone, Copy, Debug, PartialEq, Eq, Structural)]
pub enum Command {
    Exit,
    Clear,
    SetToken,
    Admin,
    ClearUploads,
    ListUploads,
    Log,
    Unknown,
}

/// The command a trimmed input line names.
pub open spec fn spec_command(s: Seq<char>) -> Command {
    if s == "exit"@ {
        Command::Exit
    } else if s == "clear"@ {
        Command::Clear
    } else if s == "set_token"@ {
        Command::SetToken
    } else if s == "admin"@ {
        Command::Admin
    } else if s == "clear_uploads"@ {
        Command::ClearUploads
    } else if s == "list_uploads"@ {
        Command::ListUploads
    } else if s == "log"@ {
        Command::Log
    } else {
        Command::Unknown
    }
}

/// The operation a command dispatches to, if it is one of the four requests.
pub open spec fn spec_op_of(c: Command) -> Option<AdminOp> {
    match c {
        Command::Admin => Some(AdminOp::Admin),
        Command::ClearUploads => Some(AdminOp::ClearUploads),
        Command::ListUploads => Some(AdminOp::ListUploads),
        Command::Log => Some(AdminOp::Log),
        _ => None,
    }
}

/// Names the command a trimmed input line stands for.
pub fn parse_command(input: &str) -> (r: Command)
    ensures
        r == spec_command(input@),
{
    if str_eq(input, "exit") {
        Command::Exit
    } else if str_eq(input, "clear") {
        Command::Clear
    } else if str_eq(input, "set_token") {
        Command::SetToken
    } else if str_eq(input, "admin") {
        Command::Admin
    } else if str_eq(input, "clear_uploads") {
        Command::ClearUploads
    } else if str_eq(input, "list_uploads") {
        Command::ListUploads
    } else if str_eq(input, "log") {
        Command::Log
    } else {
        Command::Unknown
    }
}

/// The operation a command dispatches to.
pub fn op_of(c: Command) -> (r: Option<AdminOp>)
    ensures
        r == spec_op_of(c),
{
    match c {
        Command::Admin => Some(AdminOp::Admin),
        Command::ClearUploads => Some(AdminOp::ClearUploads),
        Command::ListUploads => Some(AdminOp::ListUploads),
        Command::Log => Some(AdminOp::Log),
        _ => None,
    }
}

/// What reading one line of input came to.
pub enum ReadEvent {
    /// A line was read.
    Line(String),
    /// The interrupt signal, typically Ctrl-C.
    Interrupted,
    /// End of input, typically Ctrl-D.
    Eof,
    /// Reading failed some other way.
    Failed,
}

/// What the session does next.
pub enum SessionStep {
    /// The line was empty: prompt again, record nothing.
    Ignore,
    /// Run this command; the trimmed line goes into the history.
    Execute(Command, String),
    /// Print this line and end the session normally.
    Quit(String),
    /// Input failed: end the session.
    Abort,
}

/// Decides one step of the session from one read event: a non-empty line is
/// trimmed, recorded and dispatched as a command; an empty line is ignored;
/// interrupt and end of file end the session cleanly with their farewell
/// line; any other read failure ends it.
pub fn session_step(ev: ReadEvent) -> (r: SessionStep)
    ensures
        match ev {
            ReadEvent::Line(s) => {
                if trim_spec(s@).len() == 0 {
                    r is Ignore
                } else {
                    r matches SessionStep::Execute(c, t) && c == spec_command(trim_spec(s@)) && t@
                        == trim_spec(s@)
                }
            },
            ReadEvent::Interrupted => r matches SessionStep::Quit(m) && m@ == "Ctrl-C - exit"@,
            ReadEvent::Eof => r matches SessionStep::Quit(m) && m@ == "Ctrl-D - exit"@,
            ReadEvent::Failed => r is Abort,
        },
{
    match ev {
        ReadEvent::Line(s) => {
            let t = trim_string(s.as_str());
            if t.as_str().is_empty() {
                SessionStep::Ignore
            } else {
                let c = parse_command(t.as_str());
                SessionStep::Execute(c, t)
            }
        },
        ReadEvent::Interrupted => SessionStep::Quit(String::from_str("Ctrl-C - exit")),
        ReadEvent::Eof => SessionStep::Quit(String::from_str("Ctrl-D - exit")),
        ReadEvent::Failed => SessionStep::Abort,
    }
}

/// The diagnostic for an unrecognized input line.
pub fn unknown_command_message(input: &str) -> (r: String)
    ensures
        r@ == "Unknown command "@ + input@,
{
    let mut out = String::from_str("Unknown command ");
    out.append(input);
    out
}

/// Checks an interactively entered token: trimmed it must be non-empty, and
/// trimmed it is returned.
pub fn validated_token(line: &str) -> (r: Result<String, ClientError>)
    ensures
        trim_spec(line@).len() == 0 ==> (r matches Err(e) && e == ClientError::EmptyToken),
        trim_spec(line@).len() > 0 ==> (r matches Ok(t) && t@ == trim_spec(line@)),
{
    let t = trim_string(line);
    if t.as_str().is_empty() {
        Err(ClientError::EmptyToken)
    } else {
        Ok(t)
    }
}

/// Replaces the configuration's token with the entered one, trimmed. Input
/// that is empty after trimming is refused and changes nothing; the URL is
/// never touched. The change is not written back to disk.
pub fn set_token(config: &mut Config, new_token: String) -> (r: Result<(), ClientError>)
    ensures
        final(config).url == old(config).url,
        trim_spec(new_token@).len() == 0 ==> (r matches Err(e) && e == ClientError::EmptyToken
            && final(config).token == old(config).token),
        trim_spec(new_token@).len() > 0 ==> r is Ok && final(config).token@ == trim_spec(
            new_token@,
        ),
        old(config).wf() ==> final(config).wf(),
{
    let t = trim_string(new_token.as_str());
    if t.as_str().is_empty() {
        Err(ClientError::EmptyToken)
    } else {
        proof {
            crate::text::lemma_trim_idempotent(new_token@);
        }
        config.set_token(t);
        Ok(())
    }
}

} // verus!
