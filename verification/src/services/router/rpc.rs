//! The router's answers to a worker that registers: a fresh id at once, and,
//! once the worker has answered a status request, whether it is kept.
pub use crate::services::remote::RemoteInfo;

use crate::services::router::{worker_models, State, StateModel, WorkerInfo};
use crate::services::Status;
use vstd::prelude::*;

verus! {

/// A worker's registration was refused.
#[derive(Debug, Clone, Copy, PartialEq, Eq, Structural)]
pub struct WorkerRegisterError;

/// The router's answer to a registration: the id given to the worker.
#[derive(Debug, Clone, Copy, PartialEq, Eq, Structural)]
pub struct WorkerRegisterResponse {
    pub id: u64,
}

/// What becomes of a worker after its first status reply.
#[derive(Debug, Clone, Copy, PartialEq, Eq, Structural)]
pub enum RegistrationOutcome {
    /// The worker reported healthy and is now registered.
    Registered,
    /// The worker reported a failure; it is told to terminate and not kept.
    Terminate,
}

/// The state after a worker id is handed out: the counter moves on by one.
pub open spec fn after_id_handed_out(m: StateModel) -> StateModel {
    StateModel { workers: m.workers, id_increment: (m.id_increment + 1) as u64 }
}

/// The state after worker `id`, reached through `remote`, answered its first
/// status request with `status`, and what becomes of it.
pub open spec fn after_status_reply(
    m: StateModel,
    id: u64,
    remote: (u64, Seq<char>),
    status: Status,
) -> (RegistrationOutcome, StateModel) {
    match status {
        Ok(()) => (
            RegistrationOutcome::Registered,
            StateModel { workers: m.workers.push((id, remote)), id_increment: m.id_increment },
        ),
        Err(_) => (RegistrationOutcome::Terminate, m),
    }
}

/// The state after `n` registrations, one after another, starting from `m`.
pub open spec fn after_ids_handed_out(m: StateModel, n: nat) -> StateModel
    decreases n,
{
    if n == 0 {
        m
    } else {
        after_id_handed_out(after_ids_handed_out(m, (n - 1) as nat))
    }
}

impl State {
    /// The immediate answer to a worker that registers: the next worker id,
    /// one more than the last one handed out. The counter must not be at its
    /// maximum.
    pub fn register_worker(&mut self) -> (r: Result<WorkerRegisterResponse, WorkerRegisterError>)
        requires
            old(self)@.id_increment < u64::MAX,
        ensures
            r == Ok::<WorkerRegisterResponse, WorkerRegisterError>(
                WorkerRegisterResponse { id: (old(self)@.id_increment + 1) as u64 },
            ),
            final(self)@ == after_id_handed_out(old(self)@),
    {
        let prev_id = self.id_increment;
        self.id_increment = prev_id + 1;
        let id = prev_id + 1;
        Ok(WorkerRegisterResponse { id })
    }

    /// Worker `id`, reached through `remote`, answered its first status
    /// request with `status`: when healthy it is added after the registered
    /// workers, otherwise it is to be terminated and the state stays.
    pub fn status_reply(&mut self, id: u64, remote: RemoteInfo, status: Status) -> (r:
        RegistrationOutcome)
        ensures
            (r, final(self)@) == after_status_reply(old(self)@, id, remote@, status),
    {
        match status {
            Ok(()) => {
                let ghost old_workers = self.workers@;
                let info = WorkerInfo::new(id, remote);
                self.workers.push(info);
                assert(worker_models(self.workers@) =~= worker_models(old_workers).push(
                    (id, remote@),
                ));
                RegistrationOutcome::Registered
            },
            Err(_) => RegistrationOutcome::Terminate,
        }
    }
}

/// The ids the router hands out increase: each registration gets one more
/// than the one before, so no two registrations get the same id.
pub proof fn lemma_worker_ids_increase(m: StateModel)
    requires
        m.id_increment < u64::MAX - 1,
    ensures
        after_id_handed_out(m).id_increment == m.id_increment + 1,
        after_id_handed_out(after_id_handed_out(m)).id_increment == m.id_increment + 2,
        after_id_handed_out(m).workers == m.workers,
{
}

/// The ids of `n` registrations, one after another, from a router whose last
/// id handed out is `k`: the `i`-th of them (counted from 1) gets `k + i`, so
/// they are exactly `k + 1` to `k + n`, each larger than every one before it
/// and no two alike; afterwards the last id handed out is `k + n` and the
/// registered workers are as they were. The ids must not pass `u64::MAX`.
pub proof fn lemma_registration_ids(m: StateModel, n: nat)
    requires
        m.id_increment + n <= u64::MAX,
    ensures
        after_ids_handed_out(m, n).id_increment == m.id_increment + n,
        after_ids_handed_out(m, n).workers == m.workers,
        forall|i: nat| 1 <= i <= n ==> #[trigger] after_ids_handed_out(m, i).id_increment == m.id_increment + i,
        forall|i: nat, j: nat|
            1 <= i < j <= n ==> #[trigger] after_ids_handed_out(m, i).id_increment
                < #[trigger] after_ids_handed_out(m, j).id_increment,
    decreases n,
{
    if n > 0 {
        lemma_registration_ids(m, (n - 1) as nat);
        assert forall|i: nat| 1 <= i <= n implies #[trigger] after_ids_handed_out(m, i).id_increment
            == m.id_increment + i by {
            if i < n {
                lemma_registration_ids(m, i);
            }
        }
        assert forall|i: nat, j: nat| 1 <= i < j <= n implies #[trigger] after_ids_handed_out(
            m,
            i,
        ).id_increment < #[trigger] after_ids_handed_out(m, j).id_increment by {
            assert(after_ids_handed_out(m, i).id_increment == m.id_increment + i);
            assert(after_ids_handed_out(m, j).id_increment == m.id_increment + j);
        }
    }
}

/// A worker that answers its first status request healthy is added after the
/// registered workers and nothing else changes; one that answers with a
/// failure is told to terminate and the state does not change.
pub proof fn lemma_status_reply(m: StateModel, id: u64, remote: (u64, Seq<char>), status: Status)
    ensures
        status is Ok ==> after_status_reply(m, id, remote, status) == (
            RegistrationOutcome::Registered,
            StateModel { workers: m.workers.push((id, remote)), id_increment: m.id_increment },
        ),
        status is Err ==> after_status_reply(m, id, remote, status) == (
            RegistrationOutcome::Terminate,
            m,
        ),
{
}

} // verus!
