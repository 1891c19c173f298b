//! The decisions a client connection makes between its reads and writes:
//! when to retry a request on a new connection, and when to give up.
use vstd::prelude::*;

use crate::error::{PaperClientError, PaperClientResult};

verus! {

/// How many times in a row a client reconnects before it gives up.
pub const RECONNECT_MAX_ATTEMPTS: u8 = 3;

/// The state a client keeps besides its stream: the server's address, the
/// auth token to present again after reconnecting, and the number of
/// reconnects since the last good response.
pub struct Session {
    addr: String,
    auth_token: Option<String>,
    reconnect_attempts: u8,
}

/// The mathematical model of a session.
pub struct SessionView {
    pub addr: Seq<char>,
    pub auth_token: Option<Seq<char>>,
    pub reconnect_attempts: u8,
}

impl View for Session {
    type V = SessionView;

    closed spec fn view(&self) -> SessionView {
        SessionView {
            addr: self.addr@,
            auth_token: match self.auth_token {
                Some(t) => Some(t@),
                None => None,
            },
            reconnect_attempts: self.reconnect_attempts,
        }
    }
}

/// What a client does after a request's outcome: finish with a result, or
/// reconnect and send the request again.
pub enum Step<T> {
    Finish(PaperClientResult<T>),
    Reconnect,
}

/// How a write to the stream failed.
#[derive(Debug, Clone, Copy, PartialEq, Eq, Structural)]
pub enum StreamFailure {
    /// The stream could not be written to.
    InvalidStream,
    /// The stream closed unexpectedly.
    ClosedStream,
    /// The data was not valid.
    InvalidData,
}

/// The error that a failed write of a request makes: `Disconnected` when the
/// stream could not be written to, `InvalidCommand` otherwise.
pub open spec fn spec_send_error(f: StreamFailure) -> PaperClientError {
    if f == StreamFailure::InvalidStream {
        PaperClientError::Disconnected
    } else {
        PaperClientError::InvalidCommand
    }
}

/// The error that a failed write of a request makes.
pub fn send_error(f: StreamFailure) -> (e: PaperClientError)
    ensures
        e == spec_send_error(f),
{
    match f {
        StreamFailure::InvalidStream => PaperClientError::Disconnected,
        _ => PaperClientError::InvalidCommand,
    }
}

/// The session after one more reconnect is counted.
pub open spec fn counted_retry(s: SessionView) -> SessionView {
    SessionView { reconnect_attempts: (s.reconnect_attempts + 1) as u8, ..s }
}

/// A reconnect is still allowed after this many reconnects in a row.
pub open spec fn reconnect_permitted(attempts: int) -> bool {
    attempts <= RECONNECT_MAX_ATTEMPTS
}

impl Session {
    /// A session for the server at `addr`, with no auth token and no
    /// reconnects.
    pub fn new(addr: String) -> (s: Self)
        ensures
            s@ == (SessionView { addr: addr@, auth_token: None, reconnect_attempts: 0 }),
    {
        Session { addr, auth_token: None, reconnect_attempts: 0 }
    }

    /// The address to connect to.
    pub fn addr(&self) -> (a: &str)
        ensures
            a@ == self@.addr,
    {
        self.addr.as_str()
    }

    /// The number of reconnects since the last good response.
    pub fn reconnect_attempts(&self) -> (n: u8)
        ensures
            n == self@.reconnect_attempts,
    {
        self.reconnect_attempts
    }

    /// Remembers the token of an auth request, whatever its outcome, so that
    /// it is presented again on every new connection.
    pub fn record_auth(&mut self, token: &str)
        ensures
            final(self)@ == (SessionView { auth_token: Some(token@), ..old(self)@ }),
    {
        self.auth_token = Some(token.to_owned());
    }

    /// Decides what follows a response: a good one resets the reconnect
    /// count and finishes; an `InvalidResponse` counts one more reconnect and
    /// retries; any other error finishes with it.
    pub fn on_response<T>(&mut self, result: PaperClientResult<T>) -> (step: Step<T>)
        requires
            result matches Err(PaperClientError::InvalidResponse) ==> old(self)@.reconnect_attempts
                < u8::MAX,
        ensures
            match result {
                Ok(_) => step == Step::Finish(result) && final(self)@ == (SessionView {
                    reconnect_attempts: 0,
                    ..old(self)@
                }),
                Err(PaperClientError::InvalidResponse) => step is Reconnect && final(self)@ == counted_retry(old(self)@),
                Err(_) => step == Step::Finish(result) && final(self)@ == old(self)@,
            },
    {
        match result {
            Ok(v) => {
                self.reconnect_attempts = 0;
                Step::Finish(Ok(v))
            },
            Err(PaperClientError::InvalidResponse) => {
                self.reconnect_attempts = self.reconnect_attempts + 1;
                Step::Reconnect
            },
            Err(e) => Step::Finish(Err(e)),
        }
    }

    /// Decides what follows a request that could not be written: an
    /// `InvalidResponse` counts one more reconnect and retries; any other
    /// error finishes with it.
    pub fn on_send_failure<T>(&mut self, e: PaperClientError) -> (step: Step<T>)
        requires
            e == PaperClientError::InvalidResponse ==> old(self)@.reconnect_attempts < u8::MAX,
        ensures
            e == PaperClientError::InvalidResponse ==> step is Reconnect && final(self)@ == counted_retry(old(self)@),
            e != PaperClientError::InvalidResponse ==> step == Step::<T>::Finish(Err(e))
                && final(self)@ == old(self)@,
    {
        if e == PaperClientError::InvalidResponse {
            self.reconnect_attempts = self.reconnect_attempts + 1;
            Step::Reconnect
        } else {
            Step::Finish(Err(e))
        }
    }

    /// Decides what follows a request that could not be written, for a
    /// client that reads the response even so: an `InvalidResponse` counts
    /// one more reconnect and retries; after any other error the client goes
    /// on to read (`None`).
    pub fn on_send_failure_then_read<T>(&mut self, e: PaperClientError) -> (step: Option<Step<T>>)
        requires
            e == PaperClientError::InvalidResponse ==> old(self)@.reconnect_attempts < u8::MAX,
        ensures
            e == PaperClientError::InvalidResponse ==> (step matches Some(Step::Reconnect))
                && final(self)@ == counted_retry(old(self)@),
            e != PaperClientError::InvalidResponse ==> step is None && final(self)@ == old(self)@,
    {
        if e == PaperClientError::InvalidResponse {
            self.reconnect_attempts = self.reconnect_attempts + 1;
            Some(Step::Reconnect)
        } else {
            None
        }
    }

    /// Decides whether to reconnect: after more than `RECONNECT_MAX_ATTEMPTS`
    /// reconnects in a row the client gives up with `Disconnected`; otherwise
    /// it reconnects and presents the recorded auth token, if any, again.
    pub fn begin_reconnect(&self) -> (r: PaperClientResult<Option<String>>)
        ensures
            r is Ok <==> reconnect_permitted(self@.reconnect_attempts as int),
            r matches Err(e) ==> e == PaperClientError::Disconnected,
            r matches Ok(t) ==> match t {
                Some(t) => self@.auth_token == Some(t@),
                None => self@.auth_token is None,
            },
    {
        if self.reconnect_attempts > RECONNECT_MAX_ATTEMPTS {
            return Err(PaperClientError::Disconnected);
        }
        match &self.auth_token {
            Some(t) => Ok(Some(t.clone())),
            None => Ok(None),
        }
    }
}

/// The session after `n` invalid responses in a row, each counting one
/// more reconnect, as `on_response` and `on_send_failure` do.
pub open spec fn after_retries(s: SessionView, n: nat) -> SessionView
    decreases n,
{
    if n == 0 {
        s
    } else {
        counted_retry(after_retries(s, (n - 1) as nat))
    }
}

/// A client reconnects at most `RECONNECT_MAX_ATTEMPTS` times in a row:
/// after a good response (which resets the count), the `n`-th invalid
/// response in a row leads to a reconnect exactly when `n` is at most the
/// maximum; the `n + 1`-th after that makes `begin_reconnect` give up.
pub proof fn law_reconnects_are_bounded(s: SessionView, n: nat)
    requires
        s.reconnect_attempts == 0,
        n < u8::MAX,
    ensures
        after_retries(s, n).reconnect_attempts == n,
        reconnect_permitted(after_retries(s, n).reconnect_attempts as int) <==> n
            <= RECONNECT_MAX_ATTEMPTS,
    decreases n,
{
    if n > 0 {
        law_reconnects_are_bounded(s, (n - 1) as nat);
    }
}

} // verus!
