//! Turning what the remote service answered into outcomes and errors.

use vstd::prelude::*;
use vstd::string::*;

use crate::error::SkillsError;

verus! {

/// One answer of the remote service: a decoded body, an unsuccessful
/// status, or a failure of the transport itself (with its description).
pub enum RemoteReply<T> {
    Body(T),
    Status(u16),
    Transport(String),
}

/// The error for an unsuccessful status of a request made to `url`.
pub open spec fn status_error_model(status: u16, url: String) -> SkillsError {
    if status == 404 {
        SkillsError::NotFound { url }
    } else if status == 403 {
        SkillsError::Forbidden
    } else if status == 429 {
        SkillsError::RateLimited
    } else {
        SkillsError::HttpError { status, message: url }
    }
}

/// The error for an unsuccessful status of a request made to `url`:
/// not found, forbidden, rate limited, or any other status.
pub fn status_error(status: u16, url: String) -> (r: SkillsError)
    ensures
        r == status_error_model(status, url),
{
    if status == 404 {
        SkillsError::NotFound { url }
    } else if status == 403 {
        SkillsError::Forbidden
    } else if status == 429 {
        SkillsError::RateLimited
    } else {
        SkillsError::HttpError { status, message: url }
    }
}

/// What the listing request for `path` gives: the entries, `PathNotFound`
/// for a missing path, the status error for any other status, and a network
/// error for a failed transport.
pub fn listing_result<T>(reply: RemoteReply<T>, path: String, url: String) -> (r: Result<
    T,
    SkillsError,
>)
    ensures
        match reply {
            RemoteReply::Body(b) => r == Ok::<T, SkillsError>(b),
            RemoteReply::Status(s) => s == 404 ==> r == Err::<T, SkillsError>(
                SkillsError::PathNotFound(path),
            ),
            RemoteReply::Transport(m) => r == Err::<T, SkillsError>(SkillsError::NetworkError(m)),
        },
        reply matches RemoteReply::Status(s) ==> (s != 404 ==> r == Err::<T, SkillsError>(
            status_error_model(s, url),
        )),
{
    match reply {
        RemoteReply::Body(b) => Ok(b),
        RemoteReply::Status(s) => {
            if s == 404 {
                Err(SkillsError::PathNotFound(path))
            } else {
                Err(status_error(s, url))
            }
        },
        RemoteReply::Transport(m) => Err(SkillsError::NetworkError(m)),
    }
}

/// What the archive request gives: the body, the status error for an
/// unsuccessful status, and a network error for a failed transport.
pub fn archive_result<T>(reply: RemoteReply<T>, url: String) -> (r: Result<T, SkillsError>)
    ensures
        match reply {
            RemoteReply::Body(b) => r == Ok::<T, SkillsError>(b),
            RemoteReply::Status(s) => r == Err::<T, SkillsError>(status_error_model(s, url)),
            RemoteReply::Transport(m) => r == Err::<T, SkillsError>(SkillsError::NetworkError(m)),
        },
{
    match reply {
        RemoteReply::Body(b) => Ok(b),
        RemoteReply::Status(s) => Err(status_error(s, url)),
        RemoteReply::Transport(m) => Err(SkillsError::NetworkError(m)),
    }
}

} // verus!
