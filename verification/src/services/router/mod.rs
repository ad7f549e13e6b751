//! The router service's state: the workers that completed registration and
//! the counter from which worker ids are drawn.
pub mod rpc;

use crate::services::remote::RemoteInfo;
use vstd::prelude::*;

verus! {

/// A worker known to the router: its id and where it listens.
pub struct WorkerInfo {
    id: u64,
    remote: RemoteInfo,
}

/// The model of a worker's record: its id and its remote's description.
pub type WorkerInfoModel = (u64, (u64, Seq<char>));

impl View for WorkerInfo {
    type V = WorkerInfoModel;

    closed spec fn view(&self) -> WorkerInfoModel {
        (self.id, self.remote@)
    }
}

impl WorkerInfo {
    /// The record of worker `id`, reached through `remote`.
    pub fn new(id: u64, remote: RemoteInfo) -> (r: Self)
        ensures
            r@ == (id, remote@),
    {
        Self { id, remote }
    }

    /// The worker's id.
    pub fn id(&self) -> (r: u64)
        ensures
            r == self@.0,
    {
        self.id
    }

    /// Where the worker listens.
    pub fn remote(&self) -> (r: &RemoteInfo)
        ensures
            r@ == self@.1,
    {
        &self.remote
    }
}

/// The models of a sequence of worker records.
pub open spec fn worker_models(ws: Seq<WorkerInfo>) -> Seq<WorkerInfoModel> {
    ws.map_values(|w: WorkerInfo| w@)
}

/// The model of the router's state: its registered workers, in order, and
/// the last worker id handed out (0 before the first).
pub struct StateModel {
    pub workers: Seq<WorkerInfoModel>,
    pub id_increment: u64,
}

/// The router service's state.
pub struct State {
    workers: Vec<WorkerInfo>,
    id_increment: u64,
}

impl View for State {
    type V = StateModel;

    closed spec fn view(&self) -> StateModel {
        StateModel { workers: worker_models(self.workers@), id_increment: self.id_increment }
    }
}

impl State {
    /// No workers, and no id handed out yet.
    pub fn new() -> (r: Self)
        ensures
            r@.workers == Seq::<WorkerInfoModel>::empty(),
            r@.id_increment == 0,
    {
        let r = Self { workers: Vec::new(), id_increment: 0 };
        assert(worker_models(r.workers@) =~= Seq::<WorkerInfoModel>::empty());
        r
    }

    /// The last worker id handed out (0 before the first).
    pub fn last_worker_id(&self) -> (r: u64)
        ensures
            r == self@.id_increment,
    {
        self.id_increment
    }

    /// The registered workers, in order of registration.
    pub fn workers(&self) -> (r: &Vec<WorkerInfo>)
        ensures
            worker_models(r@) == self@.workers,
    {
        &self.workers
    }
}

/// The router's configuration: the address it listens at.
pub struct Config {
    pub listen_address: String,
}

impl Default for Config {
    /// An empty listen address.
    fn default() -> (r: Self)
        ensures
            r.listen_address@ == Seq::<char>::empty(),
    {
        Config { listen_address: String::new() }
    }
}

} // verus!
