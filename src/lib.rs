//! An in-process mediator: a command/event dispatch bus over type-erased
//! values, with a resource container that supplies handler dependencies.
//!
//! Every concrete type that crosses the bus is identified by a [`TypeKey`],
//! a process-stable token chosen by the host. Registries, resources and
//! typed handler errors are all keyed by it.
use vstd::prelude::*;

mod bus;
mod error;
mod handler;
mod handler_error;
mod resources;

pub use bus::{
    complete, extends, handlers_in, lemma_missing_resource_reported,
    lemma_send_returns_handler_result, lemma_unregistered_request, lift, tables_wf,
    without_value, Bus, BusBuilder, Envelope,
};
pub use error::{lemma_error_retrieval, Error};
pub use handler::{
    FromResources, Handler, IntoCommand, IntoEvent, Keyed, Registration, MAX_DEPENDENCIES,
};
pub use handler_error::{lemma_wrap_holds, HandlerError, IntoHandlerError};
pub use resources::{
    first_missing, lemma_absent_key_is_missing, lemma_insert_last_wins, Resources,
    ResourcesBuilder,
};

verus! {

/// The identity of a concrete type: the sole key of every registry.
pub type TypeKey = u64;

} // verus!
