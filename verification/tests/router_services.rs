use dist::entity::{ComponentRef, Id};
use dist::router::{Interval, RouterService, WorkerHandle, KEEPALIVE_NANOS};
use dist::services::remote::RemoteInfo;
use dist::services::router::rpc::{RegistrationOutcome, WorkerRegisterError, WorkerRegisterResponse};
use dist::services::router::{Config as RouterConfig, State as RouterState, WorkerInfo};
use dist::services::schedule::IntervalSchedule;
use dist::services::worker::consumer::{ComponentStatus, Worker, WorkerError as ConsumerError};
use dist::services::worker::rpc::{assign_components, status, WorkerError};
use dist::services::worker::{Config as WorkerConfig, State as WorkerState};
use dist::services::StatusError;

#[test]
fn interval_fires_once_per_length() {
    let mut interval = Interval::new(100);
    assert!(!interval.tick_at(50));
    assert!(!interval.tick_at(99));
    assert!(interval.tick_at(100));
    assert!(!interval.tick_at(150));
    assert!(!interval.tick_at(199));
    assert!(interval.tick_at(205));
    assert!(!interval.tick_at(10));
    assert!(interval.tick_at(305));
}

#[test]
fn zero_interval_always_fires() {
    let mut interval = Interval::new(0);
    assert!(interval.tick_at(0));
    assert!(interval.tick_at(0));
    assert!(interval.tick());
}

#[test]
fn keepalive_asks_every_worker_each_second() {
    let mut router = RouterService::new();
    router.register_worker(WorkerHandle::new(1));
    router.register_worker(WorkerHandle::new(2));
    router.register_worker(WorkerHandle::new(3));
    assert_eq!(router.workers(), &[WorkerHandle::new(1), WorkerHandle::new(2), WorkerHandle::new(3)]);
    assert!(router.tick_at(KEEPALIVE_NANOS - 1).is_empty());
    let asked = router.tick_at(KEEPALIVE_NANOS);
    assert_eq!(asked, vec![WorkerHandle::new(1), WorkerHandle::new(2), WorkerHandle::new(3)]);
    assert!(router.tick_at(KEEPALIVE_NANOS + 5).is_empty());
    assert_eq!(router.workers().len(), 3);
}

#[test]
fn failed_worker_is_dropped() {
    let mut router = RouterService::new();
    router.register_worker(WorkerHandle::new(1));
    router.register_worker(WorkerHandle::new(2));
    router.register_worker(WorkerHandle::new(1));
    router.status_failed(WorkerHandle::new(1));
    assert_eq!(router.workers(), &[WorkerHandle::new(2), WorkerHandle::new(1)]);
    router.status_failed(WorkerHandle::new(9));
    assert_eq!(router.workers(), &[WorkerHandle::new(2), WorkerHandle::new(1)]);
    let asked = router.tick_at(2 * KEEPALIVE_NANOS);
    assert_eq!(asked, vec![WorkerHandle::new(2), WorkerHandle::new(1)]);
    assert!(router.tick().len() <= 2);
}

#[test]
fn router_hands_out_increasing_ids() {
    let mut state = RouterState::new();
    assert!(state.workers().is_empty());
    assert_eq!(state.register_worker(), Ok(WorkerRegisterResponse { id: 1 }));
    assert_eq!(state.register_worker(), Ok(WorkerRegisterResponse { id: 2 }));
    assert_eq!(state.register_worker(), Ok::<_, WorkerRegisterError>(WorkerRegisterResponse { id: 3 }));
}

#[test]
fn healthy_worker_is_kept_and_failed_one_terminated() {
    let mut state = RouterState::new();
    let id = state.register_worker().unwrap().id;
    let outcome = state.status_reply(id, RemoteInfo::new(id, "127.0.0.1:4000"), Ok(()));
    assert_eq!(outcome, RegistrationOutcome::Registered);
    assert_eq!(state.workers().len(), 1);
    assert_eq!(state.workers()[0].id(), 1);
    assert_eq!(state.workers()[0].remote().connection_string(), "127.0.0.1:4000");
    let id2 = state.register_worker().unwrap().id;
    assert_eq!(id2, 2);
    let outcome = state.status_reply(id2, RemoteInfo::new(id2, "127.0.0.1:4001"), Err(StatusError::Died));
    assert_eq!(outcome, RegistrationOutcome::Terminate);
    assert_eq!(state.workers().len(), 1);
    let info = WorkerInfo::new(5, RemoteInfo::new(5, "x"));
    assert_eq!(info.id(), 5);
    assert_eq!(info.remote().id(), 5);
}

#[test]
fn configs_default_to_empty() {
    assert_eq!(RouterConfig::default().listen_address, "");
    assert_eq!(WorkerConfig::default().router_address, "");
}

#[test]
fn worker_records_registration_and_components() {
    let mut state = WorkerState::new(0u8);
    assert_eq!(state.id, 0);
    assert!(state.router_remote.is_none());
    assert!(state.local_components.is_empty());
    assert_eq!(state.registered(Err(WorkerRegisterError)), Err(WorkerRegisterError));
    assert_eq!(state.id, 0);
    assert_eq!(state.registered(Ok(WorkerRegisterResponse { id: 42 })), Ok(42));
    assert_eq!(state.id, 42);
    let c = |i: u64| ComponentRef::new(Id::new(i), Id::new(100), Id::new(1));
    assert_eq!(assign_components(&mut state, vec![c(1), c(2)]), Ok::<(), WorkerError>(()));
    state.assign_components(vec![c(3)]);
    let ids: Vec<u64> = state.local_components.iter().map(|x| x.component_id().raw).collect();
    assert_eq!(ids, vec![1, 2, 3]);
    assert_eq!(status(), Ok(()));
}

#[derive(Clone)]
struct Quiet;
impl Worker for Quiet {
    fn tick(&mut self) -> Result<(), ConsumerError> {
        Ok(())
    }
}

#[test]
fn consumer_callbacks_default_to_unimplemented() {
    let mut w = Quiet;
    assert_eq!(w.initialize(), Err(ConsumerError::Unimplemented));
    assert_eq!(w.shutdown(), Err(ConsumerError::Unimplemented));
    assert_eq!(w.tick(), Ok(()));
    let _ = ComponentStatus::Arriving;
}

#[test]
fn interval_schedule_runs_only_when_due() {
    let mut s = IntervalSchedule::new(10, 100);
    assert!(!s.poll_at(105));
    assert!(!s.poll_at(500));
    let mut z = IntervalSchedule::new(0, 100);
    assert!(z.poll_at(105));
    assert!(z.poll_at(106));
}

#[test]
fn test_router() {
    let mut router = RouterService::new();
    let worker = router.fresh_handle().unwrap();
    router.register_worker(worker);
    assert_eq!(router.workers(), &[worker]);
    let second = router.fresh_handle().unwrap();
    assert_ne!(second, worker);
    router.register_worker(second);
    assert!(router.tick_at(KEEPALIVE_NANOS / 2).is_empty());
    assert_eq!(router.tick_at(KEEPALIVE_NANOS), vec![worker, second]);
    router.status_failed(worker);
    assert_eq!(router.workers(), &[second]);
}

#[test]
fn fresh_handle_is_above_every_registered_one() {
    let mut router = RouterService::new();
    assert_eq!(router.fresh_handle(), Some(WorkerHandle::new(0)));
    router.register_worker(WorkerHandle::new(7));
    router.register_worker(WorkerHandle::new(3));
    assert_eq!(router.fresh_handle(), Some(WorkerHandle::new(8)));
    router.register_worker(WorkerHandle::new(u64::MAX));
    assert_eq!(router.fresh_handle(), None);
}

#[test]
fn schedule_is_due_only_when_it_has_reached_its_time() {
    let zero = IntervalSchedule::new(0, 5);
    assert!(zero.is_due());
    let positive = IntervalSchedule::new(10, 5);
    assert!(!positive.is_due());
}

#[test]
fn registrations_get_ids_one_to_m_in_order() {
    let mut state = RouterState::new();
    let m: u64 = 50;
    let ids: Vec<u64> = (0..m).map(|_| state.register_worker().unwrap().id).collect();
    assert_eq!(ids, (1..=m).collect::<Vec<u64>>());
    assert_eq!(state.last_worker_id(), m);
    assert!(state.workers().is_empty());
}
