//! The worker's answers to the router's requests.
pub use crate::services::remote::RemoteInfo;

use crate::entity::{component_models, ComponentRef};
use crate::services::worker::State;
use crate::services::{Status, StatusError};
use vstd::prelude::*;

verus! {

/// A request to the worker failed.
#[derive(Debug, Clone, Copy, PartialEq, Eq, Structural)]
pub struct WorkerError;

/// The worker's answer to a status request: it is healthy.
pub fn status() -> (r: Status)
    ensures
        r == Ok::<(), StatusError>(()),
{
    Ok(())
}

/// The worker's answer to an assignment of components: they are added after
/// the ones it already holds, and the assignment succeeds.
pub fn assign_components<T>(state: &mut State<T>, ids: Vec<ComponentRef>) -> (r: Result<(), WorkerError>)
    ensures
        r == Ok::<(), WorkerError>(()),
        final(state).router_remote == old(state).router_remote,
        final(state).id == old(state).id,
        final(state).consumer == old(state).consumer,
        component_models(final(state).local_components@) == component_models(
            old(state).local_components@,
        ) + component_models(ids@),
{
    state.assign_components(ids);
    Ok(())
}

} // verus!
