use vstd::prelude::*;

use crate::handler::Keyed;
use crate::TypeKey;

verus! {

/// A handler's domain error, kept together with the identity of its type.
///
/// The value can be read back only under the key it was stored with; under
/// any other key it is absent.
#[derive(Debug, Clone, PartialEq)]
pub struct HandlerError<E> {
    key: TypeKey,
    value: E,
}

impl<E> HandlerError<E> {
    /// The type key the error was stored under.
    pub closed spec fn stored_key(&self) -> TypeKey {
        self.key
    }

    /// The error value itself.
    pub closed spec fn stored_value(&self) -> E {
        self.value
    }

    /// What a lookup under `key` yields.
    pub open spec fn lookup(&self, key: TypeKey) -> Option<E> {
        if key == self.stored_key() {
            Some(self.stored_value())
        } else {
            None
        }
    }

    /// The error that holds `value` under `key`.
    pub closed spec fn wrap(key: TypeKey, value: E) -> Self {
        HandlerError { key, value }
    }

    /// Wraps `value`, whose type is identified by `key`.
    pub fn new(key: TypeKey, value: E) -> (r: Self)
        ensures
            r.stored_key() == key,
            r.stored_value() == value,
            r == Self::wrap(key, value),
    {
        HandlerError { key, value }
    }

    /// The stored value if `key` is the key it was stored with, else `None`.
    pub fn get(&self, key: TypeKey) -> (r: Option<&E>)
        ensures
            match r {
                Some(v) => self.lookup(key) == Some(*v),
                None => self.lookup(key) is None,
            },
    {
        if key == self.key {
            Some(&self.value)
        } else {
            None
        }
    }

    /// The type key the error was stored under.
    pub fn key(&self) -> (r: TypeKey)
        ensures
            r == self.stored_key(),
    {
        self.key
    }
}

/// What a wrapped error holds: the value, under the key it was given.
pub proof fn lemma_wrap_holds<E>(key: TypeKey, value: E)
    ensures
        HandlerError::<E>::wrap(key, value).stored_key() == key,
        HandlerError::<E>::wrap(key, value).stored_value() == value,
{
}

/// Conversion of a domain error into a [`HandlerError`].
pub trait IntoHandlerError<E>: Sized {
    /// The handler error this value becomes.
    spec fn converted(self) -> HandlerError<E>;

    fn into_handler_error(self) -> (r: HandlerError<E>)
        ensures
            r == self.converted(),
    ;
}

/// A handler error is already in its final form: it is handed back as it
/// is, not wrapped a second time.
impl<E> IntoHandlerError<E> for HandlerError<E> {
    open spec fn converted(self) -> HandlerError<E> {
        self
    }

    fn into_handler_error(self) -> (r: HandlerError<E>) {
        self
    }
}

/// Any keyed value becomes a handler error under the key of its type.
impl<E: Keyed> IntoHandlerError<E> for E {
    open spec fn converted(self) -> HandlerError<E> {
        HandlerError::wrap(self.key_of(), self)
    }

    fn into_handler_error(self) -> (r: HandlerError<E>) {
        let key = self.type_key();
        HandlerError::new(key, self)
    }
}

} // verus!
