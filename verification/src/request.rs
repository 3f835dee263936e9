//! Planning the administrative requests.
//!
//! Every command becomes one HTTP POST whose URL is the configured base URL
//! followed by the operation's suffix, and whose body is the token envelope.
//! The library plans the request — URL, body, and which token goes in it —
//! and the caller transmits it; whatever response comes back, the operation
//! has succeeded, and only a failure to transmit is an error.

use vstd::prelude::*;
use vstd::string::StringExecFns;
use crate::errors::ClientError;
use crate::json::token_envelope;
use crate::text::{trim_spec, trim_string};

verus! {

/// The four administrative operations.
#[derive(Clone, Copy, Debug, PartialEq, Eq, Structural)]
pub enum AdminOp {
    Admin,
    ClearUploads,
    ListUploads,
    Log,
}

/// The endpoint suffix of an operation; the general admin ping posts to the
/// base URL itself.
pub open spec fn spec_suffix(op: AdminOp) -> Seq<char> {
    match op {
        AdminOp::Admin => Seq::<char>::empty(),
        AdminOp::ClearUploads => "/clear_uploads"@,
        AdminOp::ListUploads => "/list_uploads"@,
        AdminOp::Log => "/log"@,
    }
}

/// One planned request: where to POST, and the body to carry.
pub struct PreparedRequest {
    pub url: String,
    pub body: String,
}

/// What a planned request must look like, given the base URL, the
/// operation's suffix, the configuration's current token, and the line the
/// operator entered if one was asked for: the URL is the base URL with the
/// suffix appended, and the body carries the current token if it is
/// non-empty, else the entered line trimmed. An empty entered token or a
/// missing line is the matching error.
pub open spec fn plan_spec(
    base: Seq<char>,
    suffix: Seq<char>,
    current: Seq<char>,
    entered: Option<Seq<char>>,
    r: Result<PreparedRequest, ClientError>,
) -> bool {
    &&& (r matches Ok(p) ==> p.url@ == base + suffix)
    &&& match entered {
        Some(l) => {
            if current.len() > 0 {
                r matches Ok(p) && p.body@ == token_envelope(current)
            } else if trim_spec(l).len() == 0 {
                r matches Err(e) && e == ClientError::EmptyToken
            } else {
                r matches Ok(p) && p.body@ == token_envelope(trim_spec(l))
            }
        },
        None => {
            if current.len() > 0 {
                r matches Ok(p) && p.body@ == token_envelope(current)
            } else {
                r matches Err(e) && e == ClientError::Input
            }
        },
    }
}

/// The view of an optionally entered line.
pub open spec fn view_opt(o: Option<&str>) -> Option<Seq<char>> {
    match o {
        Some(l) => Some(l@),
        None => None,
    }
}

/// The client of the administration endpoint: it keeps the base URL the
/// session was started with.
pub struct RequestSite {
    url: String,
}

impl RequestSite {
    /// The base URL every request is posted to.
    pub closed spec fn base_url(self) -> Seq<char> {
        self.url@
    }

    /// A client for the given base URL.
    pub fn new(url: String) -> (r: RequestSite)
        ensures
            r.base_url() == url@,
    {
        RequestSite { url }
    }

    /// The URL an operation posts to: the base URL with the suffix appended.
    pub fn endpoint_url(&self, op: AdminOp) -> (r: String)
        ensures
            r@ == self.base_url() + spec_suffix(op),
    {
        let r = match op {
            AdminOp::Admin => self.url.clone(),
            AdminOp::ClearUploads => self.url.clone().concat("/clear_uploads"),
            AdminOp::ListUploads => self.url.clone().concat("/list_uploads"),
            AdminOp::Log => self.url.clone().concat("/log"),
        };
        proof {
            assert(self.url@ + Seq::<char>::empty() =~= self.url@);
        }
        r
    }

    /// Settles which token a request carries: the current one if non-empty,
    /// else the entered line trimmed. `entered` is `None` when no line could
    /// be read.
    pub fn resolve_token(current: &str, entered: Option<&str>) -> (r: Result<String, ClientError>)
        ensures
            match view_opt(entered) {
                Some(l) => {
                    if current@.len() > 0 {
                        r matches Ok(t) && t@ == current@
                    } else if trim_spec(l).len() == 0 {
                        r matches Err(e) && e == ClientError::EmptyToken
                    } else {
                        r matches Ok(t) && t@ == trim_spec(l)
                    }
                },
                None => {
                    if current@.len() > 0 {
                        r matches Ok(t) && t@ == current@
                    } else {
                        r matches Err(e) && e == ClientError::Input
                    }
                },
            },
    {
        if !current.is_empty() {
            return Ok(current.to_owned());
        }
        match entered {
            Some(line) => {
                let t = trim_string(line);
                if t.as_str().is_empty() {
                    Err(ClientError::EmptyToken)
                } else {
                    Ok(t)
                }
            },
            None => Err(ClientError::Input),
        }
    }

    /// Plans one operation: the URL it posts to and the body it carries.
    pub fn plan_request(&self, op: AdminOp, current: &str, entered: Option<&str>) -> (r: Result<
        PreparedRequest,
        ClientError,
    >)
        ensures
            plan_spec(self.base_url(), spec_suffix(op), current@, view_opt(entered), r),
    {
        let token = match Self::resolve_token(current, entered) {
            Ok(t) => t,
            Err(e) => {
                return Err(e);
            },
        };
        let url = self.endpoint_url(op);
        let body = crate::json::encode_token_body(token.as_str());
        Ok(PreparedRequest { url, body })
    }

    /// Plans the general admin ping.
    pub fn admin(&self, current: &str, entered: Option<&str>) -> (r: Result<
        PreparedRequest,
        ClientError,
    >)
        ensures
            plan_spec(self.base_url(), spec_suffix(AdminOp::Admin), current@, view_opt(entered), r),
    {
        self.plan_request(AdminOp::Admin, current, entered)
    }

    /// Plans the clearing of the uploaded artifacts.
    pub fn clear_upload(&self, current: &str, entered: Option<&str>) -> (r: Result<
        PreparedRequest,
        ClientError,
    >)
        ensures
            plan_spec(
                self.base_url(),
                spec_suffix(AdminOp::ClearUploads),
                current@,
                view_opt(entered),
                r,
            ),
    {
        self.plan_request(AdminOp::ClearUploads, current, entered)
    }

    /// Plans the listing of the uploaded artifacts.
    pub fn list_uploads(&self, current: &str, entered: Option<&str>) -> (r: Result<
        PreparedRequest,
        ClientError,
    >)
        ensures
            plan_spec(
                self.base_url(),
                spec_suffix(AdminOp::ListUploads),
                current@,
                view_opt(entered),
                r,
            ),
    {
        self.plan_request(AdminOp::ListUploads, current, entered)
    }

    /// Plans the fetch of the log.
    pub fn log(&self, current: &str, entered: Option<&str>) -> (r: Result<
        PreparedRequest,
        ClientError,
    >)
        ensures
            plan_spec(self.base_url(), spec_suffix(AdminOp::Log), current@, view_opt(entered), r),
    {
        self.plan_request(AdminOp::Log, current, entered)
    }
}

/// What came of transmitting a planned request: a response with its status
/// text and body text, or no response at all.
pub enum TransportOutcome {
    Response(String, String),
    Failure,
}

/// Turns a transmission's outcome into the command's result. Every response
/// succeeds, whatever its status — the two lines show the status and the body
/// verbatim; only a failure to transmit is an error.
pub fn finish_request(outcome: TransportOutcome) -> (r: Result<(String, String), ClientError>)
    ensures
        outcome matches TransportOutcome::Response(status, body) ==> (r matches Ok(lines)
            && lines.0@ == "response status: "@ + status@ && lines.1@ == "response body: "@
            + body@),
        outcome is Failure ==> (r matches Err(e) && e == ClientError::Transport),
{
    match outcome {
        TransportOutcome::Response(status, body) => {
            let mut l1 = String::from_str("response status: ");
            l1.append(status.as_str());
            let mut l2 = String::from_str("response body: ");
            l2.append(body.as_str());
            Ok((l1, l2))
        },
        TransportOutcome::Failure => Err(ClientError::Transport),
    }
}

} // verus!
