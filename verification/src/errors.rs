//! Errors of the client wire protocol.

use vstd::prelude::*;
use crate::publish;

verus! {

/// Why a consumer could not be created or encoded.
#[allow(inconsistent_fields)]
#[derive(Debug, Clone, Copy, PartialEq, Eq)]
pub enum CreateConsumerError {
    UnsupportedConsumerType { got: u8 },
    SubjectTooLong { expected: usize, got: usize },
}

/// Why a framed client message could not be read.
#[derive(Debug, Clone, Copy, PartialEq, Eq)]
pub enum MessageSerdeError {
    SubjectTooLong { expected: usize, got: usize },
    MessageTooLong { expected: usize, got: usize },
    IncompleteMessage { expected: usize, got: usize },
    UnknownOpCode { got: usize },
}

/// Any error of the client wire protocol.
#[derive(Debug, Clone, Copy, PartialEq, Eq)]
pub enum WireError {
    CreateConsumerError(CreateConsumerError),
    MessageSerdeError(MessageSerdeError),
    IncompleteMessage,
}

/// The protocol error that stands for an error of the publish codec: the same
/// variant with the same fields.
pub open spec fn wire_error_of_publish(err: publish::MessageSerdeError) -> WireError {
    match err {
        publish::MessageSerdeError::SubjectTooLong { expected, got } => WireError::MessageSerdeError(
            MessageSerdeError::SubjectTooLong { expected, got },
        ),
        publish::MessageSerdeError::MessageTooLong { expected, got } => WireError::MessageSerdeError(
            MessageSerdeError::MessageTooLong { expected, got },
        ),
        publish::MessageSerdeError::IncompleteMessage { expected, got } => WireError::MessageSerdeError(
            MessageSerdeError::IncompleteMessage { expected, got },
        ),
    }
}

impl From<CreateConsumerError> for WireError {
    fn from(err: CreateConsumerError) -> (r: Self) {
        WireError::CreateConsumerError(err)
    }
}

impl vstd::std_specs::convert::FromSpecImpl<CreateConsumerError> for WireError {
    open spec fn obeys_from_spec() -> bool {
        true
    }

    open spec fn from_spec(err: CreateConsumerError) -> Self {
        WireError::CreateConsumerError(err)
    }
}

impl From<MessageSerdeError> for WireError {
    fn from(err: MessageSerdeError) -> (r: Self) {
        WireError::MessageSerdeError(err)
    }
}

impl vstd::std_specs::convert::FromSpecImpl<MessageSerdeError> for WireError {
    open spec fn obeys_from_spec() -> bool {
        true
    }

    open spec fn from_spec(err: MessageSerdeError) -> Self {
        WireError::MessageSerdeError(err)
    }
}

impl From<publish::MessageSerdeError> for WireError {
    fn from(err: publish::MessageSerdeError) -> (r: Self) {
        match err {
            publish::MessageSerdeError::SubjectTooLong { expected, got } => {
                WireError::MessageSerdeError(MessageSerdeError::SubjectTooLong { expected, got })
            },
            publish::MessageSerdeError::MessageTooLong { expected, got } => {
                WireError::MessageSerdeError(MessageSerdeError::MessageTooLong { expected, got })
            },
            publish::MessageSerdeError::IncompleteMessage { expected, got } => {
                WireError::MessageSerdeError(MessageSerdeError::IncompleteMessage { expected, got })
            },
        }
    }
}

impl vstd::std_specs::convert::FromSpecImpl<publish::MessageSerdeError> for WireError {
    open spec fn obeys_from_spec() -> bool {
        true
    }

    open spec fn from_spec(err: publish::MessageSerdeError) -> Self {
        wire_error_of_publish(err)
    }
}

} // verus!
