//! The worker service's state: its connection to the router, the id the
//! router gave it, the consumer it serves, and the components assigned to it.
pub mod consumer;
pub mod rpc;

use crate::entity::{component_models, ComponentRef};
use crate::services::remote::RemoteInfo;
use crate::services::router::rpc::{WorkerRegisterError, WorkerRegisterResponse};
use vstd::prelude::*;

verus! {

/// The worker service's state.
pub struct State<T> {
    pub router_remote: Option<RemoteInfo>,
    pub id: u64,
    pub consumer: T,
    pub local_components: Vec<ComponentRef>,
}

impl<T> State<T> {
    /// The state of a worker that serves `consumer` and has not registered:
    /// no router, id 0, no components.
    pub fn new(consumer: T) -> (r: Self)
        ensures
            r.router_remote is None,
            r.id == 0,
            r.consumer == consumer,
            r.local_components@ == Seq::<ComponentRef>::empty(),
    {
        State { consumer, id: 0, router_remote: None, local_components: Vec::new() }
    }

    /// The router's answer to this worker's registration: on success its id
    /// becomes the worker's id and is returned, otherwise the refusal is
    /// returned and the id stays.
    pub fn registered(&mut self, response: Result<WorkerRegisterResponse, WorkerRegisterError>) -> (r:
        Result<u64, WorkerRegisterError>)
        ensures
            final(self).router_remote == old(self).router_remote,
            final(self).consumer == old(self).consumer,
            final(self).local_components == old(self).local_components,
            match response {
                Ok(res) => r == Ok::<u64, WorkerRegisterError>(res.id) && final(self).id == res.id,
                Err(e) => r == Err::<u64, WorkerRegisterError>(e) && final(self).id == old(self).id,
            },
    {
        let id = response?.id;
        self.id = id;
        Ok(id)
    }

    /// Components assigned to this worker: they are added, in order, after
    /// the ones it already holds.
    pub fn assign_components(&mut self, ids: Vec<ComponentRef>)
        ensures
            final(self).router_remote == old(self).router_remote,
            final(self).id == old(self).id,
            final(self).consumer == old(self).consumer,
            component_models(final(self).local_components@) == component_models(
                old(self).local_components@,
            ) + component_models(ids@),
    {
        let mut ids = ids;
        let ghost old_local = self.local_components@;
        let ghost added = ids@;
        self.local_components.append(&mut ids);
        assert(component_models(self.local_components@) =~= component_models(old_local)
            + component_models(added));
    }
}

/// The worker's configuration: the address of the router to register with.
pub struct Config {
    pub router_address: String,
}

impl Default for Config {
    /// An empty router address.
    fn default() -> (r: Self)
        ensures
            r.router_address@ == Seq::<char>::empty(),
    {
        Config { router_address: String::new() }
    }
}

} // verus!
