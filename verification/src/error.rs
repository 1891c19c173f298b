use vstd::prelude::*;

use crate::response::error_body;
use crate::wire::{Cursor, ReadFailure};

verus! {

/// Errors that the cache itself reports for a request.
#[derive(Debug, Clone, Copy, PartialEq, Eq, Structural)]
pub enum PaperCacheError {
    Internal,
    KeyNotFound,
    ZeroValueSize,
    ExceedingValueSize,
    ZeroCacheSize,
    UnconfiguredPolicy,
    InvalidPolicy,
}

/// Errors that the server reports for a connection.
#[derive(Debug, Clone, Copy, PartialEq, Eq, Structural)]
pub enum PaperServerError {
    Internal,
    MaxConnectionsExceeded,
    Unauthorized,
}

/// Every error a client operation can end in.
#[derive(Debug, Clone, Copy, PartialEq, Eq, Structural)]
pub enum PaperClientError {
    ServerError(PaperServerError),
    CacheError(PaperCacheError),
    InvalidAddress,
    UnreachableServer,
    InvalidCommand,
    InvalidValue,
    InvalidResponse,
    Internal,
    Disconnected,
}

pub type PaperClientResult<T> = Result<T, PaperClientError>;

/// The server error that a wire code stands for.
pub open spec fn server_error_of(code: u8) -> PaperServerError {
    if code == 2 {
        PaperServerError::MaxConnectionsExceeded
    } else if code == 3 {
        PaperServerError::Unauthorized
    } else {
        PaperServerError::Internal
    }
}

/// The cache error that a wire code stands for.
pub open spec fn cache_error_of(code: u8) -> PaperCacheError {
    if code == 1 {
        PaperCacheError::KeyNotFound
    } else if code == 2 {
        PaperCacheError::ZeroValueSize
    } else if code == 3 {
        PaperCacheError::ExceedingValueSize
    } else if code == 4 {
        PaperCacheError::ZeroCacheSize
    } else if code == 5 {
        PaperCacheError::UnconfiguredPolicy
    } else if code == 6 {
        PaperCacheError::InvalidPolicy
    } else {
        PaperCacheError::Internal
    }
}

impl PaperServerError {
    /// Decodes a server error code; unknown codes are internal errors.
    pub fn from_code(code: u8) -> (err: Self)
        ensures
            err == server_error_of(code),
    {
        match code {
            2 => PaperServerError::MaxConnectionsExceeded,
            3 => PaperServerError::Unauthorized,
            _ => PaperServerError::Internal,
        }
    }
}

impl PaperCacheError {
    /// Decodes a cache error code; unknown codes are internal errors.
    pub fn from_code(code: u8) -> (err: Self)
        ensures
            err == cache_error_of(code),
    {
        match code {
            1 => PaperCacheError::KeyNotFound,
            2 => PaperCacheError::ZeroValueSize,
            3 => PaperCacheError::ExceedingValueSize,
            4 => PaperCacheError::ZeroCacheSize,
            5 => PaperCacheError::UnconfiguredPolicy,
            6 => PaperCacheError::InvalidPolicy,
            _ => PaperCacheError::Internal,
        }
    }
}

impl PaperClientError {
    /// Reads the error that a failed response reports: `0` and a cache
    /// error code, or a server error code. `None` while bytes are missing
    /// and more may come; at the end of the stream, missing bytes are an
    /// `InvalidResponse` that takes all the bytes.
    pub fn from_reader(reader: &mut Cursor, at_end: bool) -> (r: Option<Self>)
        requires
            old(reader).pos <= old(reader).buf@.len(),
        ensures
            final(reader).buf == old(reader).buf,
            final(reader).pos <= final(reader).buf@.len(),
            r is None <==> error_body(old(reader).buf@, old(reader).pos as int, at_end) is None,
            r matches Some(e) ==> error_body(old(reader).buf@, old(reader).pos as int, at_end)
                == Some((e, final(reader).pos as int)),
    {
        let code = match reader.read_u8() {
            Ok(code) => code,
            Err(_) => return Self::cut_short(reader, at_end),
        };
        if code == 0 {
            let cache_code = match reader.read_u8() {
                Ok(c) => c,
                Err(_) => return Self::cut_short(reader, at_end),
            };
            return Some(PaperClientError::CacheError(PaperCacheError::from_code(cache_code)));
        }
        Some(PaperClientError::ServerError(PaperServerError::from_code(code)))
    }

    /// The error when the bytes ran out inside an error report.
    fn cut_short(reader: &mut Cursor, at_end: bool) -> (r: Option<Self>)
        requires
            old(reader).pos <= old(reader).buf@.len(),
        ensures
            final(reader).buf == old(reader).buf,
            final(reader).pos <= final(reader).buf@.len(),
            at_end ==> r == Some(PaperClientError::InvalidResponse) && final(reader).pos
                == old(reader).buf@.len(),
            !at_end ==> r is None,
    {
        if at_end {
            reader.pos = reader.buf.len();
            Some(PaperClientError::InvalidResponse)
        } else {
            None
        }
    }
}

impl From<PaperServerError> for PaperClientError {
    fn from(err: PaperServerError) -> (res: Self) {
        PaperClientError::ServerError(err)
    }
}

impl vstd::std_specs::convert::FromSpecImpl<PaperServerError> for PaperClientError {
    open spec fn obeys_from_spec() -> bool {
        true
    }

    open spec fn from_spec(err: PaperServerError) -> Self {
        PaperClientError::ServerError(err)
    }
}

impl From<PaperCacheError> for PaperClientError {
    fn from(err: PaperCacheError) -> (res: Self) {
        PaperClientError::CacheError(err)
    }
}

impl vstd::std_specs::convert::FromSpecImpl<PaperCacheError> for PaperClientError {
    open spec fn obeys_from_spec() -> bool {
        true
    }

    open spec fn from_spec(err: PaperCacheError) -> Self {
        PaperClientError::CacheError(err)
    }
}

} // verus!
