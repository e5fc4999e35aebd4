use vstd::prelude::*;

use std::collections::HashMap;
use std::marker::PhantomData;

use crate::error::Error;
use crate::handler::{Handler, Keyed, Registration, MAX_DEPENDENCIES};
use crate::handler_error::HandlerError;
use crate::resources::{first_missing, lemma_absent_key_is_missing, Resources, ResourcesBuilder};
use crate::TypeKey;

verus! {

broadcast use vstd::std_specs::hash::group_hash_axioms;

/// The bus's result for a handler's outcome: a value passes through, a
/// domain error becomes [`Error::Handler`].
pub open spec fn lift<T, E>(outcome: Result<T, HandlerError<E>>) -> Result<T, Error<E>> {
    match outcome {
        Ok(v) => Ok(v),
        Err(he) => Err(Error::Handler(he)),
    }
}

/// A result with its value dropped, as event delivery reports it.
pub open spec fn without_value<T, E>(r: Result<T, Error<E>>) -> Result<(), Error<E>> {
    match r {
        Ok(_) => Ok(()),
        Err(e) => Err(e),
    }
}

/// `after` is `before` with zero or more items appended.
pub open spec fn extends<T>(before: Seq<T>, after: Seq<T>) -> bool {
    after.len() >= before.len() && after.subrange(0, before.len() as int) == before
}

proof fn lemma_extends_refl<T>(s: Seq<T>)
    ensures
        extends(s, s),
{
    assert(s.subrange(0, s.len() as int) =~= s);
}

proof fn lemma_extends_trans<T>(a: Seq<T>, b: Seq<T>, c: Seq<T>)
    requires
        extends(a, b),
        extends(b, c),
    ensures
        extends(a, c),
{
    assert(c.subrange(0, a.len() as int) =~= b.subrange(0, a.len() as int));
}

/// Turns a handler's outcome into the bus's result.
pub fn complete<T, E>(outcome: Result<T, HandlerError<E>>) -> (r: Result<T, Error<E>>)
    ensures
        r == lift(outcome),
{
    match outcome {
        Ok(v) => Ok(v),
        Err(he) => Err(Error::Handler(he)),
    }
}

/// A published event waiting for delivery, with the key of its type.
#[derive(Debug, Clone)]
pub struct Envelope<V> {
    key: TypeKey,
    event: V,
}

impl<V> Envelope<V> {
    pub closed spec fn key_view(&self) -> TypeKey {
        self.key
    }

    pub closed spec fn event_view(&self) -> V {
        self.event
    }

    /// The key of the event's type.
    pub fn key(&self) -> (r: TypeKey)
        ensures
            r == self.key_view(),
    {
        self.key
    }

    /// The event.
    pub fn event(&self) -> (r: &V)
        ensures
            *r == self.event_view(),
    {
        &self.event
    }
}

impl<V: Keyed> Envelope<V> {
    /// Wraps `event` under the key of its own type.
    pub fn new(event: V) -> (r: Self)
        ensures
            r.key_view() == event.key_of(),
            r.event_view() == event,
    {
        Envelope { key: event.type_key(), event }
    }
}

/// The handlers that `table` holds for `key`, in registration order.
pub open spec fn handlers_in<H>(table: Map<TypeKey, Vec<Registration<H>>>, key: TypeKey) -> Seq<
    Registration<H>,
> {
    if table.contains_key(key) {
        table[key]@
    } else {
        Seq::empty()
    }
}

/// Every registration is filed under the key of the type it serves, and
/// asks for at most [`MAX_DEPENDENCIES`] resources.
pub open spec fn tables_wf<H>(
    commands: Map<TypeKey, Registration<H>>,
    events: Map<TypeKey, Vec<Registration<H>>>,
) -> bool {
    &&& forall|k: TypeKey| #[trigger]
        commands.contains_key(k) ==> commands[k].served() == k && commands[k].wf()
    &&& forall|k: TypeKey, i: int|
        0 <= i < handlers_in(events, k).len() ==> (#[trigger] handlers_in(events, k)[i]).served()
            == k && handlers_in(events, k)[i].wf()
}

/// The bus: one handler per command type, any number per event type, and
/// the resources handed to them. It is read-only once built.
pub struct Bus<V, E, H> {
    commands: HashMap<TypeKey, Registration<H>>,
    events: HashMap<TypeKey, Vec<Registration<H>>>,
    resources: Resources<V>,
    errors: PhantomData<E>,
}

impl<V, E, H> Bus<V, E, H> {
    #[verifier::type_invariant]
    closed spec fn inv(&self) -> bool {
        tables_wf(self.commands@, self.events@)
    }

    pub closed spec fn command_table(&self) -> Map<TypeKey, Registration<H>> {
        self.commands@
    }

    pub closed spec fn event_table(&self) -> Map<TypeKey, Vec<Registration<H>>> {
        self.events@
    }

    pub closed spec fn resource_view(&self) -> Map<TypeKey, V> {
        self.resources@
    }

    /// The event handlers registered for `key`, in registration order.
    pub open spec fn event_handlers(&self, key: TypeKey) -> Seq<Registration<H>> {
        handlers_in(self.event_table(), key)
    }

    /// The values a registration's resources resolve to.
    pub open spec fn resolved(&self, reg: Registration<H>) -> Seq<V> {
        reg.dependencies().map_values(|k: TypeKey| self.resource_view()[k])
    }

    /// A builder with nothing registered.
    pub fn builder() -> (r: BusBuilder<V, E, H>)
        ensures
            r.command_table() == Map::<TypeKey, Registration<H>>::empty(),
            r.event_table() == Map::<TypeKey, Vec<Registration<H>>>::empty(),
            r.resource_view() == Map::<TypeKey, V>::empty(),
    {
        BusBuilder::new()
    }

    /// The resource container shared by every handler invocation.
    pub fn resources(&self) -> (r: &Resources<V>)
        ensures
            r@ == self.resource_view(),
    {
        &self.resources
    }

    /// The one command handler registered for `key`.
    pub fn route(&self, key: TypeKey) -> (r: Result<&Registration<H>, Error<E>>)
        ensures
            match r {
                Ok(reg) => self.command_table().contains_key(key) && *reg
                    == self.command_table()[key] && reg.served() == key,
                Err(e) => !self.command_table().contains_key(key) && e == Error::<
                    E,
                >::HandlerNotFound,
            },
    {
        proof {
            use_type_invariant(self);
        }
        match self.commands.get(&key) {
            None => Err(Error::HandlerNotFound),
            Some(reg) => Ok(reg),
        }
    }

    /// Whether a command handler is registered for `key`.
    pub fn has_handler(&self, key: TypeKey) -> (r: bool)
        ensures
            r == self.command_table().contains_key(key),
    {
        self.commands.contains_key(&key)
    }

    /// The number of handlers registered for the event type `key`.
    pub fn event_handler_count(&self, key: TypeKey) -> (r: usize)
        ensures
            r == self.event_handlers(key).len(),
    {
        match self.events.get(&key) {
            None => 0,
            Some(hs) => hs.len(),
        }
    }
}

impl<V: Keyed, E, H: Handler<V, E>> Bus<V, E, H> {
    /// What running the handler of `reg` on `value` gives once the type is
    /// known to match: the first missing resource is reported before the
    /// handler runs; otherwise the handler's own outcome comes back, lifted.
    pub open spec fn ran(&self, reg: Registration<H>, value: V, r: Result<V, Error<E>>) -> bool {
        match first_missing(self.resource_view(), reg.dependencies()) {
            Some(k) => r == Err::<V, Error<E>>(Error::ResourceNotFound(k)),
            None => exists|out: Result<V, HandlerError<E>>|
                #[trigger] reg.target().handled(*self, self.resolved(reg), value, out) && r == lift(
                    out,
                ),
        }
    }

    /// What running the registration `reg` on `value` gives: a value of
    /// another type than the one `reg` serves is a cast error; otherwise
    /// see [`Bus::ran`].
    pub open spec fn invoked(&self, reg: Registration<H>, value: V, r: Result<V, Error<E>>) -> bool {
        if value.key_of() != reg.served() {
            r == Err::<V, Error<E>>(Error::CastError(reg.served()))
        } else {
            self.ran(reg, value, r)
        }
    }

    /// What sending `req` gives: no handler for its type, or what running
    /// that type's handler on it gives.
    pub open spec fn sent(&self, req: V, r: Result<V, Error<E>>) -> bool {
        if !self.command_table().contains_key(req.key_of()) {
            r == Err::<V, Error<E>>(Error::HandlerNotFound)
        } else {
            self.ran(self.command_table()[req.key_of()], req, r)
        }
    }

    /// Runs the registration's handler on `value`: checks that `value` is of
    /// the type it serves, resolves its resources in declaration order, and
    /// calls it with this bus. Nothing runs when a check fails.
    pub fn invoke(&self, outbox: &mut Vec<Envelope<V>>, reg: &Registration<H>, value: V) -> (r:
        Result<V, Error<E>>)
        ensures
            self.invoked(*reg, value, r),
            extends(old(outbox)@, final(outbox)@),
    {
        proof {
            lemma_extends_refl(outbox@);
        }
        if value.type_key() != reg.key() {
            return Err(Error::CastError(reg.key()));
        }
        match self.resources.resolve::<E>(reg.deps()) {
            Err(e) => Err(e),
            Ok(deps) => {
                let ghost dv = deps@.map_values(|d: &V| *d);
                let outcome = reg.handler().handle(self, outbox, deps, value);
                assert(dv =~= self.resolved(*reg));
                assert(reg.target().handled(*self, self.resolved(*reg), value, outcome));
                complete(outcome)
            },
        }
    }

    /// Sends the request `req` to the one handler registered for its type
    /// and returns what that handler gives. Events the handler publishes
    /// are appended to `outbox`.
    pub fn send(&self, outbox: &mut Vec<Envelope<V>>, req: V) -> (r: Result<V, Error<E>>)
        ensures
            self.sent(req, r),
            extends(old(outbox)@, final(outbox)@),
    {
        proof {
            lemma_extends_refl(outbox@);
        }
        let key = req.type_key();
        match self.route(key) {
            Err(e) => Err(e),
            Ok(reg) => self.invoke(outbox, reg, req),
        }
    }

    /// Publishes `event`: appends its envelope to `outbox`, for delivery
    /// once the current call returns.
    pub fn publish(&self, outbox: &mut Vec<Envelope<V>>, event: V)
        ensures
            final(outbox)@.len() == old(outbox)@.len() + 1,
            extends(old(outbox)@, final(outbox)@),
            final(outbox)@.last().key_view() == event.key_of(),
            final(outbox)@.last().event_view() == event,
    {
        let envelope = Envelope::new(event);
        outbox.push(envelope);
        assert(final(outbox)@.subrange(0, old(outbox)@.len() as int) =~= old(outbox)@);
    }

    fn deliver_at(&self, outbox: &mut Vec<Envelope<V>>, key: TypeKey, event: V, index: usize) -> (r:
        Result<(), Error<E>>)
        requires
            index < self.event_handlers(key).len(),
        ensures
            exists|full: Result<V, Error<E>>|
                #![trigger self.invoked(self.event_handlers(key)[index as int], event, full)]
                self.invoked(self.event_handlers(key)[index as int], event, full) && r
                    == without_value(full),
            extends(old(outbox)@, final(outbox)@),
    {
        let handlers = self.events.get(&key).unwrap();
        let full = self.invoke(outbox, &handlers[index], event);
        match full {
            Ok(_) => Ok(()),
            Err(e) => Err(e),
        }
    }

    /// Delivers `event` to the `index`-th handler of its type, counting in
    /// registration order.
    pub fn deliver_to(&self, outbox: &mut Vec<Envelope<V>>, event: V, index: usize) -> (r: Result<
        (),
        Error<E>,
    >)
        requires
            index < self.event_handlers(event.key_of()).len(),
        ensures
            exists|full: Result<V, Error<E>>|
                #![trigger self.invoked(self.event_handlers(event.key_of())[index as int], event, full)]
                self.invoked(self.event_handlers(event.key_of())[index as int], event, full) && r
                    == without_value(full),
            !(r matches Err(Error::CastError(_))),
            extends(old(outbox)@, final(outbox)@),
    {
        proof {
            use_type_invariant(self);
            assert(self.event_handlers(event.key_of())[index as int].served() == event.key_of());
        }
        let key = event.type_key();
        self.deliver_at(outbox, key, event, index)
    }
}

impl<V: Keyed + Clone, E, H: Handler<V, E>> Bus<V, E, H> {
    /// `out` is what the `i`-th handler of the event type `key` reports
    /// when run on a copy of `event`.
    pub open spec fn delivered(&self, key: TypeKey, event: V, i: int, out: Result<(), Error<E>>) -> bool {
        exists|copy: V, full: Result<V, Error<E>>|
            cloned(event, copy) && #[trigger] self.invoked(self.event_handlers(key)[i], copy, full)
                && out == without_value(full)
    }

    /// Delivers one envelope to every handler registered for its type, each
    /// with its own copy of the event, and reports each handler's outcome in
    /// registration order. A type without handlers gets an empty report.
    pub fn deliver(&self, outbox: &mut Vec<Envelope<V>>, envelope: &Envelope<V>) -> (r: Vec<
        Result<(), Error<E>>,
    >)
        ensures
            r@.len() == self.event_handlers(envelope.key_view()).len(),
            forall|i: int|
                0 <= i < r@.len() ==> self.delivered(
                    envelope.key_view(),
                    envelope.event_view(),
                    i,
                    #[trigger] r@[i],
                ),
            extends(old(outbox)@, final(outbox)@),
    {
        proof {
            lemma_extends_refl(outbox@);
        }
        let key = envelope.key();
        let count = self.event_handler_count(key);
        let mut outs: Vec<Result<(), Error<E>>> = Vec::new();
        let mut i: usize = 0;
        while i < count
            invariant
                count == self.event_handlers(key).len(),
                key == envelope.key_view(),
                i <= count,
                outs@.len() == i,
                extends(old(outbox)@, outbox@),
                forall|j: int|
                    0 <= j < i ==> self.delivered(
                        key,
                        envelope.event_view(),
                        j,
                        #[trigger] outs@[j],
                    ),
            decreases count - i,
        {
            let copy = envelope.event().clone();
            let ghost before = outbox@;
            let out = self.deliver_at(outbox, key, copy, i);
            proof {
                lemma_extends_trans(old(outbox)@, before, outbox@);
            }
            proof {
                let full = choose|full: Result<V, Error<E>>|
                    self.invoked(self.event_handlers(key)[i as int], copy, full) && out
                        == without_value(full);
                assert(cloned(envelope.event_view(), copy));
                assert(self.delivered(key, envelope.event_view(), i as int, out));
            }
            outs.push(out);
            i = i + 1;
        }
        outs
    }
}

/// A registered command whose resources are all present gives exactly its
/// handler's outcome, lifted: when the handler's relation admits only
/// `expected`, `send` returns `lift(expected)`.
pub proof fn lemma_send_returns_handler_result<V: Keyed, E, H: Handler<V, E>>(
    bus: Bus<V, E, H>,
    req: V,
    expected: Result<V, HandlerError<E>>,
    r: Result<V, Error<E>>,
)
    requires
        bus.sent(req, r),
        bus.command_table().contains_key(req.key_of()),
        first_missing(bus.resource_view(), bus.command_table()[req.key_of()].dependencies()) is None,
        forall|out: Result<V, HandlerError<E>>|
            #[trigger] bus.command_table()[req.key_of()].target().handled(
                bus,
                bus.resolved(bus.command_table()[req.key_of()]),
                req,
                out,
            ) ==> out == expected,
    ensures
        r == lift(expected),
        expected matches Err(he) ==> r->Err_0.handler_error_spec(he.stored_key()) == Some(
            he.stored_value(),
        ),
{
}

/// A request of a type without a handler always gets
/// [`Error::HandlerNotFound`], never another error.
pub proof fn lemma_unregistered_request<V: Keyed, E, H: Handler<V, E>>(
    bus: Bus<V, E, H>,
    req: V,
    r: Result<V, Error<E>>,
)
    requires
        bus.sent(req, r),
        !bus.command_table().contains_key(req.key_of()),
    ensures
        r == Err::<V, Error<E>>(Error::HandlerNotFound),
{
}

/// A handler that needs a resource the container never received fails with
/// [`Error::ResourceNotFound`], however many other resources are present.
pub proof fn lemma_missing_resource_reported<V: Keyed, E, H: Handler<V, E>>(
    bus: Bus<V, E, H>,
    req: V,
    missing: TypeKey,
    r: Result<V, Error<E>>,
)
    requires
        bus.sent(req, r),
        bus.command_table().contains_key(req.key_of()),
        bus.command_table()[req.key_of()].dependencies().contains(missing),
        !bus.resource_view().contains_key(missing),
    ensures
        r matches Err(Error::ResourceNotFound(_)),
{
    lemma_absent_key_is_missing(
        bus.resource_view(),
        bus.command_table()[req.key_of()].dependencies(),
        missing,
    );
}

/// Collects handler registrations and resources, then freezes them into a
/// [`Bus`].
pub struct BusBuilder<V, E, H> {
    commands: HashMap<TypeKey, Registration<H>>,
    events: HashMap<TypeKey, Vec<Registration<H>>>,
    resources: ResourcesBuilder<V>,
    errors: PhantomData<E>,
}

impl<V, E, H> BusBuilder<V, E, H> {
    #[verifier::type_invariant]
    closed spec fn inv(&self) -> bool {
        tables_wf(self.commands@, self.events@)
    }

    pub closed spec fn command_table(&self) -> Map<TypeKey, Registration<H>> {
        self.commands@
    }

    pub closed spec fn event_table(&self) -> Map<TypeKey, Vec<Registration<H>>> {
        self.events@
    }

    pub closed spec fn resource_view(&self) -> Map<TypeKey, V> {
        self.resources@
    }

    /// The event handlers registered so far for `key`, in registration order.
    pub open spec fn event_handlers(&self, key: TypeKey) -> Seq<Registration<H>> {
        handlers_in(self.event_table(), key)
    }

    /// A builder with nothing registered.
    pub fn new() -> (r: Self)
        ensures
            r.command_table() == Map::<TypeKey, Registration<H>>::empty(),
            r.event_table() == Map::<TypeKey, Vec<Registration<H>>>::empty(),
            r.resource_view() == Map::<TypeKey, V>::empty(),
    {
        BusBuilder {
            commands: HashMap::new(),
            events: HashMap::new(),
            resources: ResourcesBuilder::new(),
            errors: PhantomData,
        }
    }

    /// Whether a command handler is already registered for `key`.
    pub fn has_req_handler(&self, key: TypeKey) -> (r: bool)
        ensures
            r == self.command_table().contains_key(key),
    {
        self.commands.contains_key(&key)
    }

    /// Registers `h` as the handler of the command type `key`, with the
    /// resources it depends on. A command type has one handler only: a
    /// second registration is a wiring bug and is not admitted.
    pub fn add_req_handler(self, key: TypeKey, deps: Vec<TypeKey>, h: H) -> (r: Self)
        requires
            !self.command_table().contains_key(key),
            deps@.len() <= MAX_DEPENDENCIES,
        ensures
            r.command_table().dom() == self.command_table().dom().insert(key),
            forall|k: TypeKey| k != key && #[trigger] self.command_table().contains_key(k)
                ==> r.command_table()[k] == self.command_table()[k],
            r.command_table()[key].served() == key,
            r.command_table()[key].dependencies() == deps@,
            r.command_table()[key].target() == h,
            r.event_table() == self.event_table(),
            r.resource_view() == self.resource_view(),
    {
        proof {
            use_type_invariant(&self);
        }
        let BusBuilder { mut commands, events, resources, errors } = self;
        commands.insert(key, Registration::new(key, deps, h));
        BusBuilder { commands, events, resources, errors }
    }

    /// Adds `h` to the handlers of the event type `key`, after those
    /// already there.
    pub fn add_event_handler(self, key: TypeKey, deps: Vec<TypeKey>, h: H) -> (r: Self)
        requires
            deps@.len() <= MAX_DEPENDENCIES,
        ensures
            r.event_table().dom() == self.event_table().dom().insert(key),
            forall|k: TypeKey| k != key ==> #[trigger] r.event_handlers(k) == self.event_handlers(k),
            r.event_handlers(key).len() == self.event_handlers(key).len() + 1,
            r.event_handlers(key).drop_last() == self.event_handlers(key),
            r.event_handlers(key).last().served() == key,
            r.event_handlers(key).last().dependencies() == deps@,
            r.event_handlers(key).last().target() == h,
            r.command_table() == self.command_table(),
            r.resource_view() == self.resource_view(),
    {
        proof {
            use_type_invariant(&self);
        }
        let BusBuilder { commands, mut events, resources, errors } = self;
        let mut list = match events.remove(&key) {
            Some(list) => list,
            None => Vec::new(),
        };
        list.push(Registration::new(key, deps, h));
        events.insert(key, list);
        proof {
            assert forall|k: TypeKey, i: int|
                0 <= i < handlers_in(events@, k).len() implies (#[trigger] handlers_in(
                events@,
                k,
            )[i]).served() == k && handlers_in(events@, k)[i].wf() by {
                if k != key {
                    assert(handlers_in(events@, k) == handlers_in(self.events@, k));
                } else if i < handlers_in(self.events@, k).len() {
                    assert(handlers_in(events@, k)[i] == handlers_in(self.events@, k)[i]);
                }
            }
        }
        BusBuilder { commands, events, resources, errors }
    }

    /// Adds a resource under `key`; a later one under the same key wins.
    fn append_resource_at(self, key: TypeKey, value: V) -> (r: Self)
        ensures
            r.resource_view() == self.resource_view().insert(key, value),
            r.command_table() == self.command_table(),
            r.event_table() == self.event_table(),
    {
        proof {
            use_type_invariant(&self);
        }
        let BusBuilder { commands, events, mut resources, errors } = self;
        resources.insert(key, value);
        BusBuilder { commands, events, resources, errors }
    }

    /// Adds a resource under the key of its own type; a later one of the
    /// same type wins.
    pub fn append_resources(self, value: V) -> (r: Self)
        where
            V: Keyed,
        ensures
            r.resource_view() == self.resource_view().insert(value.key_of(), value),
            r.command_table() == self.command_table(),
            r.event_table() == self.event_table(),
    {
        let key = value.type_key();
        self.append_resource_at(key, value)
    }

    /// Freezes the registrations and resources into a bus.
    pub fn build(self) -> (r: Result<Bus<V, E, H>, Error<E>>)
        ensures
            r matches Ok(bus) && bus.command_table() == self.command_table() && bus.event_table()
                == self.event_table() && bus.resource_view() == self.resource_view(),
    {
        proof {
            use_type_invariant(&self);
        }
        let BusBuilder { commands, events, resources, errors } = self;
        Ok(Bus { commands, events, resources: resources.build(), errors: PhantomData })
    }
}

} // verus!
