//! The errors of receiving, delivering and corresponding.

use std::sync::Arc;
use vstd::prelude::*;

verus! {

/// The error that the standard library reports for a failed read or write.
#[verifier::external_type_specification]
#[verifier::external_body]
pub struct ExStdIoError(std::io::Error);

/// The error that postcard reports for a failed encoding or decoding.
#[verifier::external_type_specification]
#[verifier::external_body]
pub struct ExPostcardError(postcard::Error);

/// `Clone::clone` of `postcard::Error`, which postcard derives on an enum whose variants carry
/// no data: the copy is the same variant.
pub assume_specification[<postcard::Error as Clone>::clone](err: &postcard::Error) -> (res:
    postcard::Error)
    ensures
        res == *err,
;

/// Receiving a message failed.
#[derive(Debug, Clone)]
pub enum ReceiveError {
    /// Reading from the incoming transport failed.
    ReadError(Arc<std::io::Error>),
    /// The payload was not a valid encoding of a message.
    DeserializeError(postcard::Error),
}

impl From<std::io::Error> for ReceiveError {
    fn from(err: std::io::Error) -> (res: Self) {
        ReceiveError::ReadError(Arc::new(err))
    }
}

impl vstd::std_specs::convert::FromSpecImpl<std::io::Error> for ReceiveError {
    open spec fn obeys_from_spec() -> bool {
        true
    }

    open spec fn from_spec(err: std::io::Error) -> Self {
        ReceiveError::ReadError(Arc::new(err))
    }
}

impl From<postcard::Error> for ReceiveError {
    fn from(err: postcard::Error) -> (res: Self) {
        ReceiveError::DeserializeError(err)
    }
}

impl vstd::std_specs::convert::FromSpecImpl<postcard::Error> for ReceiveError {
    open spec fn obeys_from_spec() -> bool {
        true
    }

    open spec fn from_spec(err: postcard::Error) -> Self {
        ReceiveError::DeserializeError(err)
    }
}

/// Delivering a message failed.
#[derive(Debug, Clone)]
pub enum DeliveryError {
    /// The message could not be encoded.
    SerializeError(postcard::Error),
    /// Writing to the outgoing transport failed.
    WriteError(Arc<std::io::Error>),
}

impl From<postcard::Error> for DeliveryError {
    fn from(err: postcard::Error) -> (res: Self) {
        DeliveryError::SerializeError(err)
    }
}

impl vstd::std_specs::convert::FromSpecImpl<postcard::Error> for DeliveryError {
    open spec fn obeys_from_spec() -> bool {
        true
    }

    open spec fn from_spec(err: postcard::Error) -> Self {
        DeliveryError::SerializeError(err)
    }
}

impl From<std::io::Error> for DeliveryError {
    fn from(err: std::io::Error) -> (res: Self) {
        DeliveryError::WriteError(Arc::new(err))
    }
}

impl vstd::std_specs::convert::FromSpecImpl<std::io::Error> for DeliveryError {
    open spec fn obeys_from_spec() -> bool {
        true
    }

    open spec fn from_spec(err: std::io::Error) -> Self {
        DeliveryError::WriteError(Arc::new(err))
    }
}

/// Handing a message to a collection box failed.
#[derive(Debug, Clone)]
pub enum CollectionBoxError {
    /// The post office stopped because delivering an earlier message failed.
    DeliveryError(DeliveryError),
    /// The post office stopped because the farewell was already delivered.
    FarewellAlreadySent,
}

impl From<DeliveryError> for CollectionBoxError {
    fn from(err: DeliveryError) -> (res: Self) {
        CollectionBoxError::DeliveryError(err)
    }
}

impl vstd::std_specs::convert::FromSpecImpl<DeliveryError> for CollectionBoxError {
    open spec fn obeys_from_spec() -> bool {
        true
    }

    open spec fn from_spec(err: DeliveryError) -> Self {
        CollectionBoxError::DeliveryError(err)
    }
}

/// A correspondence ended in failure.
#[derive(Debug, Clone)]
pub enum CorrespondenceError {
    /// Receiving a message failed.
    ReceiveError(ReceiveError),
    /// Sending a message failed.
    CollectionBoxError(CollectionBoxError),
}

impl From<ReceiveError> for CorrespondenceError {
    fn from(err: ReceiveError) -> (res: Self) {
        CorrespondenceError::ReceiveError(err)
    }
}

impl vstd::std_specs::convert::FromSpecImpl<ReceiveError> for CorrespondenceError {
    open spec fn obeys_from_spec() -> bool {
        true
    }

    open spec fn from_spec(err: ReceiveError) -> Self {
        CorrespondenceError::ReceiveError(err)
    }
}

impl From<CollectionBoxError> for CorrespondenceError {
    fn from(err: CollectionBoxError) -> (res: Self) {
        CorrespondenceError::CollectionBoxError(err)
    }
}

impl vstd::std_specs::convert::FromSpecImpl<CollectionBoxError> for CorrespondenceError {
    open spec fn obeys_from_spec() -> bool {
        true
    }

    open spec fn from_spec(err: CollectionBoxError) -> Self {
        CorrespondenceError::CollectionBoxError(err)
    }
}

} // verus!
