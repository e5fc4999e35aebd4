use vstd::prelude::*;

use crate::bus::{Bus, Envelope};
use crate::handler_error::HandlerError;
use crate::TypeKey;

verus! {

/// The most resources one handler may ask for.
pub const MAX_DEPENDENCIES: usize = 7;

/// A value that knows the key of its own concrete type.
pub trait Keyed {
    /// The key of the value's type.
    spec fn key_of(&self) -> TypeKey;

    fn type_key(&self) -> (r: TypeKey)
        ensures
            r == self.key_of(),
    ;
}

/// A host function that the bus can invoke.
///
/// `deps` holds the handler's resources, resolved from the container in the
/// order they were declared at registration; `value` is the request or
/// event. The bus is handed in so that a handler can send further requests,
/// and `outbox` collects the events it publishes.
pub trait Handler<V, E>: Sized {
    /// Which outcomes the handler may give for these resources and this
    /// value. A verified implementation narrows it down; by default any
    /// outcome is allowed.
    open spec fn handled(
        &self,
        bus: Bus<V, E, Self>,
        deps: Seq<V>,
        value: V,
        out: Result<V, HandlerError<E>>,
    ) -> bool {
        true
    }

    fn handle(
        &self,
        bus: &Bus<V, E, Self>,
        outbox: &mut Vec<Envelope<V>>,
        deps: Vec<&V>,
        value: V,
    ) -> (out: Result<V, HandlerError<E>>)
        ensures
            self.handled(*bus, deps@.map_values(|d: &V| *d), value, out),
            final(outbox)@.len() >= old(outbox)@.len(),
            final(outbox)@.subrange(0, old(outbox)@.len() as int) == old(outbox)@,
    ;
}

/// Marks a value type as a command whose response is `Res`.
pub trait IntoCommand<Res> {}

/// Marks a value type as an event.
pub trait IntoEvent {}

/// Marks a value type as a resource that handlers may depend on.
pub trait FromResources {}

/// A handler, the key of the type it serves, and the resource keys it
/// depends on.
#[derive(Debug, Clone)]
pub struct Registration<H> {
    key: TypeKey,
    deps: Vec<TypeKey>,
    handler: H,
}

impl<H> Registration<H> {
    /// The key of the request or event type the handler serves.
    pub closed spec fn served(&self) -> TypeKey {
        self.key
    }

    /// The keys of the handler's resources, in declaration order.
    pub closed spec fn dependencies(&self) -> Seq<TypeKey> {
        self.deps@
    }

    /// The handler itself.
    pub closed spec fn target(&self) -> H {
        self.handler
    }

    /// At most [`MAX_DEPENDENCIES`] resources.
    pub open spec fn wf(&self) -> bool {
        self.dependencies().len() <= MAX_DEPENDENCIES
    }

    /// Pairs `handler`, serving the type `key`, with the keys of its
    /// resources.
    pub fn new(key: TypeKey, deps: Vec<TypeKey>, handler: H) -> (r: Self)
        requires
            deps@.len() <= MAX_DEPENDENCIES,
        ensures
            r.served() == key,
            r.dependencies() == deps@,
            r.target() == handler,
            r.wf(),
    {
        Registration { key, deps, handler }
    }

    /// The key of the type the handler serves.
    pub fn key(&self) -> (r: TypeKey)
        ensures
            r == self.served(),
    {
        self.key
    }

    /// The keys of the handler's resources, in declaration order.
    pub fn deps(&self) -> (r: &Vec<TypeKey>)
        ensures
            r@ == self.dependencies(),
    {
        &self.deps
    }

    /// The handler itself.
    pub fn handler(&self) -> (r: &H)
        ensures
            *r == self.target(),
    {
        &self.handler
    }
}

} // verus!
