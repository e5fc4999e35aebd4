use vstd::prelude::*;

use crate::handler_error::HandlerError;
use crate::TypeKey;

verus! {

/// Everything that can go wrong on the bus. `E` is the type of the
/// handlers' domain errors.
#[derive(Debug, Clone, PartialEq)]
pub enum Error<E> {
    /// No command handler is registered for the request's type.
    HandlerNotFound,
    /// An erased value did not have the type that was expected of it.
    CastError(TypeKey),
    /// The handler itself failed with a domain error.
    Handler(HandlerError<E>),
    /// A handler needed a resource of this type and none was inserted.
    ResourceNotFound(TypeKey),
    /// An event was delivered for a type that has no handler.
    NoEventHandlerRegistered,
    /// Delivering an event failed.
    EventProcessingError,
    /// The event queue no longer accepts events.
    EventPublishingError,
}

impl<E> Error<E> {
    /// The domain error under `key`, if this is a handler error whose value
    /// was stored under `key`.
    pub open spec fn handler_error_spec(&self, key: TypeKey) -> Option<E> {
        match self {
            Error::Handler(he) => he.lookup(key),
            _ => None,
        }
    }

    /// Gets the handler's domain error if this is a handler error stored
    /// under `key`.
    pub fn get_handler_error(&self, key: TypeKey) -> (r: Option<&E>)
        ensures
            match r {
                Some(v) => self.handler_error_spec(key) == Some(*v),
                None => self.handler_error_spec(key) is None,
            },
    {
        match self {
            Error::Handler(he) => he.get(key),
            _ => None,
        }
    }
}

/// A domain error wrapped under `key` and carried by [`Error::Handler`] is
/// given back unchanged when retrieved under `key`, and is absent under any
/// other key.
pub proof fn lemma_error_retrieval<E>(key: TypeKey, other: TypeKey, value: E, he: HandlerError<E>)
    requires
        he.stored_key() == key,
        he.stored_value() == value,
        other != key,
    ensures
        Error::Handler(he).handler_error_spec(key) == Some(value),
        Error::Handler(he).handler_error_spec(other) is None,
        he.lookup(key) == Some(value),
        he.lookup(other) is None,
{
}

} // verus!
