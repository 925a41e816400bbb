//! A profiling session: the attempts made so far, and what comes next.

use vstd::prelude::*;
use crate::text::lossy_text;
use crate::request::{Scheme, Target, request_text, get_formatted_request, DEFAULT_USER_AGENT};
use crate::response::{ResponseProperties, parsed_response, has_status_marker, parse_status_code_and_page};
use crate::stats::{Report, describes, summarize};

verus! {

/// No address of the target's host accepted a connection.
#[derive(PartialEq, Eq, Structural, Clone, Copy, Debug)]
pub struct NotReachableError;

impl NotReachableError {
    /// The message that explains the error.
    pub fn description(&self) -> (r: &'static str)
        ensures
            r@ == "Could not connect to URL: no host was reachable"@,
    {
        "Could not connect to URL: no host was reachable"
    }
}

/// What made one attempt fail.
#[derive(PartialEq, Eq, Structural, Clone, Copy, Debug)]
pub enum FailureKind {
    ConnectTimeout,
    HandshakeFailure,
    ParseFailure,
    IoFailure,
}

/// One failed attempt.
pub struct FailureRecord {
    pub kind: FailureKind,
    pub description: String,
}

/// A condition that makes every further attempt meaningless.
#[derive(PartialEq, Eq, Structural, Clone, Copy, Debug)]
pub enum FatalError {
    /// No address of the host was reachable.
    NotReachable(NotReachableError),
    /// The TLS subsystem could not be set up.
    TlsUnavailable,
}

/// What one attempt came to.
pub enum Outcome {
    /// The full response was read, in `elapsed` nanoseconds.
    Response { raw: Vec<u8>, elapsed: u64 },
    /// The attempt failed; the session goes on.
    Failed(FailureRecord),
    /// The session cannot go on.
    Fatal(FatalError),
}

/// What the session does next.
#[derive(PartialEq, Eq, Structural, Clone, Copy, Debug)]
pub enum Step {
    /// Open a plain connection and fetch.
    OpenPlain,
    /// Open a TLS connection and fetch.
    OpenTls,
    /// No attempt is left, or a fatal error ended the session.
    Finished,
}

/// The description of a failure to parse a response.
pub open spec fn parse_failure_text() -> Seq<char> {
    "response does not start with an HTTP/1.1 status line"@
}

/// The state of a profiling session.
pub struct Profiler {
    pub target: Target,
    pub number_of_requests: i64,
    /// The request sent on every attempt.
    pub formatted_request: String,
    /// The successful attempts, in the order they completed.
    pub successful_responses: Vec<ResponseProperties>,
    /// The failed attempts, in the order they completed.
    pub failed_responses: Vec<FailureRecord>,
    /// The error that ended the session early, if any.
    pub fatal: Option<FatalError>,
}

impl Profiler {
    /// The attempts recorded so far.
    pub open spec fn attempts(&self) -> int {
        self.successful_responses@.len() + self.failed_responses@.len() as int
    }

    pub open spec fn finished(&self) -> bool {
        self.fatal is Some || self.attempts() >= self.number_of_requests
    }

    /// A session that has recorded nothing yet.
    pub open spec fn is_fresh(&self) -> bool {
        &&& self.successful_responses@.len() == 0
        &&& self.failed_responses@.len() == 0
        &&& self.fatal is None
    }

    /// The status the process ends with after the session.
    pub open spec fn exit_status(&self) -> i32 {
        if self.fatal is Some {
            1
        } else {
            0
        }
    }

    /// `q` is this session after outcome `o` was recorded.
    pub open spec fn records(&self, q: Profiler, o: Outcome) -> bool {
        let p = *self;
        &&& q.target == p.target
        &&& q.number_of_requests == p.number_of_requests
        &&& q.formatted_request == p.formatted_request
        &&& match o {
            Outcome::Response { raw, elapsed } => match parsed_response(lossy_text(raw@)) {
                Some((code, body)) => {
                    &&& q.successful_responses@.len() == p.successful_responses@.len() + 1
                    &&& q.successful_responses@.drop_last() == p.successful_responses@
                    &&& q.successful_responses@.last().time_taken == elapsed
                    &&& q.successful_responses@.last().status_code == code
                    &&& q.successful_responses@.last().document@ == body
                    &&& q.failed_responses@ == p.failed_responses@
                    &&& q.fatal == p.fatal
                },
                None => {
                    &&& q.successful_responses@ == p.successful_responses@
                    &&& q.failed_responses@.len() == p.failed_responses@.len() + 1
                    &&& q.failed_responses@.drop_last() == p.failed_responses@
                    &&& q.failed_responses@.last().kind == FailureKind::ParseFailure
                    &&& q.failed_responses@.last().description@ == parse_failure_text()
                    &&& q.fatal == p.fatal
                },
            },
            Outcome::Failed(f) => {
                &&& q.successful_responses@ == p.successful_responses@
                &&& q.failed_responses@ == p.failed_responses@.push(f)
                &&& q.fatal == p.fatal
            },
            Outcome::Fatal(e) => {
                &&& q.successful_responses@ == p.successful_responses@
                &&& q.failed_responses@ == p.failed_responses@
                &&& q.fatal == Some(e)
            },
        }
    }

    /// A session for `number_of_requests` attempts on the target, sending the
    /// default user agent.
    pub fn new(target: Target, number_of_requests: i64) -> (r: Profiler)
        ensures
            r.target == target,
            r.number_of_requests == number_of_requests,
            r.formatted_request@ == request_text(
                target.path_and_query@,
                target.host@,
                DEFAULT_USER_AGENT@,
            ),
            r.is_fresh(),
    {
        Profiler::with_user_agent(target, number_of_requests, DEFAULT_USER_AGENT)
    }

    /// A session for `number_of_requests` attempts on the target, sending
    /// `user_agent`.
    pub fn with_user_agent(target: Target, number_of_requests: i64, user_agent: &str) -> (r:
        Profiler)
        ensures
            r.target == target,
            r.number_of_requests == number_of_requests,
            r.formatted_request@ == request_text(
                target.path_and_query@,
                target.host@,
                user_agent@,
            ),
            r.is_fresh(),
    {
        let formatted_request = get_formatted_request(&target, user_agent);
        Profiler {
            target,
            number_of_requests,
            formatted_request,
            successful_responses: Vec::new(),
            failed_responses: Vec::new(),
            fatal: None,
        }
    }

    /// Whether the session is over: a fatal error ended it, or every
    /// requested attempt was recorded.
    pub fn is_finished(&self) -> (r: bool)
        ensures
            r == self.finished(),
    {
        self.fatal.is_some() || (self.successful_responses.len() as i128)
            + (self.failed_responses.len() as i128) >= self.number_of_requests as i128
    }

    /// The next thing to do: open a fresh connection of the target's
    /// scheme, or nothing.
    pub fn next_step(&self) -> (r: Step)
        ensures
            self.finished() ==> r == Step::Finished,
            !self.finished() && self.target.scheme == Scheme::Http ==> r == Step::OpenPlain,
            !self.finished() && self.target.scheme == Scheme::Https ==> r == Step::OpenTls,
    {
        if self.is_finished() {
            Step::Finished
        } else {
            match self.target.scheme {
                Scheme::Http => Step::OpenPlain,
                Scheme::Https => Step::OpenTls,
            }
        }
    }

    /// Records what one attempt came to. A response is parsed: one that
    /// parses is a success, one that does not is a parse failure.
    pub fn record(&mut self, outcome: Outcome)
        requires
            !old(self).finished(),
        ensures
            old(self).records(*final(self), outcome),
            outcome matches Outcome::Response { raw, elapsed } && raw@.len() == 0 ==> {
                &&& final(self).successful_responses@.len() == old(
                    self,
                ).successful_responses@.len() + 1
                &&& final(self).successful_responses@.last().status_code == 0
                &&& final(self).successful_responses@.last().document@.len() == 0
            },
    {
        match outcome {
            Outcome::Response { raw, elapsed } => {
                match parse_status_code_and_page(&raw) {
                    Some((code, body)) => {
                        self.successful_responses.push(
                            ResponseProperties { time_taken: elapsed, status_code: code, document: body },
                        );
                        assert(self.successful_responses@.drop_last() =~= old(
                            self,
                        ).successful_responses@);
                    },
                    None => {
                        let description = String::from_str(
                            "response does not start with an HTTP/1.1 status line",
                        );
                        self.failed_responses.push(
                            FailureRecord { kind: FailureKind::ParseFailure, description },
                        );
                        assert(self.failed_responses@.drop_last() =~= old(
                            self,
                        ).failed_responses@);
                    },
                }
            },
            Outcome::Failed(f) => {
                self.failed_responses.push(f);
            },
            Outcome::Fatal(e) => {
                self.fatal = Some(e);
            },
        }
    }

    /// The status to end the process with: 1 where a fatal error ended the
    /// session, else 0.
    pub fn exit_code(&self) -> (r: i32)
        ensures
            r == self.exit_status(),
    {
        if self.fatal.is_some() {
            1
        } else {
            0
        }
    }

    /// The statistics of the attempts recorded.
    pub fn report(&self) -> (r: Report)
        requires
            self.attempts() <= usize::MAX,
        ensures
            describes(r, self.successful_responses@, self.failed_responses@.len() as int),
    {
        summarize(&self.successful_responses, self.failed_responses.len())
    }
}

/// A session whose first attempt finds no reachable host ends there: it
/// holds no success and no failure, and the process exits with a non-zero
/// status.
pub proof fn lemma_unreachable_host_ends_session(p: Profiler, q: Profiler)
    requires
        p.is_fresh(),
        p.records(q, Outcome::Fatal(FatalError::NotReachable(NotReachableError))),
    ensures
        q.successful_responses@.len() == 0,
        q.failed_responses@.len() == 0,
        q.finished(),
        q.exit_status() != 0,
{
}

/// A response whose text does not start with a status line is recorded as
/// one parse failure, and the session goes on.
pub proof fn lemma_malformed_response_is_failure(p: Profiler, q: Profiler, raw: Vec<u8>, elapsed: u64)
    requires
        p.records(q, Outcome::Response { raw, elapsed }),
        lossy_text(raw@).len() > 0,
        !has_status_marker(lossy_text(raw@)),
    ensures
        q.successful_responses@ == p.successful_responses@,
        q.failed_responses@.len() == p.failed_responses@.len() + 1,
        q.failed_responses@.last().kind == FailureKind::ParseFailure,
        q.fatal == p.fatal,
{
}

} // verus!
