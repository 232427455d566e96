//! Status taxonomy of a call.

use vstd::prelude::*;

verus! {

/// Why a call was aborted.
#[derive(Clone, Copy, Debug, PartialEq, Eq, Structural)]
pub enum ServiceError {
    /// The request broke the protocol or named media that cannot be processed.
    InvalidArgument,
    /// Staging storage, the response channel or the media engine failed.
    Internal,
    /// The response stream ended before any metadata frame arrived.
    IncompleteResponse,
    /// Either party canceled the call before it completed.
    Canceled,
}

/// Why the media engine could not serve a staged file.
#[derive(Clone, Copy, Debug, PartialEq, Eq, Structural)]
pub enum EngineFailure {
    /// The file holds no video stream.
    StreamNotFound,
    /// No frame at or after the seek target was decoded before the stream's end.
    ThumbnailUnavailable,
    /// Anything else that went wrong inside the engine.
    Unexpected,
}

/// The status under which an engine failure aborts the call.
pub open spec fn status_of(failure: EngineFailure) -> ServiceError {
    match failure {
        EngineFailure::StreamNotFound => ServiceError::InvalidArgument,
        EngineFailure::ThumbnailUnavailable => ServiceError::InvalidArgument,
        EngineFailure::Unexpected => ServiceError::Internal,
    }
}

impl EngineFailure {
    /// The status under which this failure aborts the call: the request is
    /// at fault where its media cannot be processed, the service otherwise.
    pub fn status(self) -> (status: ServiceError)
        ensures
            status == status_of(self),
    {
        match self {
            EngineFailure::StreamNotFound => ServiceError::InvalidArgument,
            EngineFailure::ThumbnailUnavailable => ServiceError::InvalidArgument,
            EngineFailure::Unexpected => ServiceError::Internal,
        }
    }
}

} // verus!
