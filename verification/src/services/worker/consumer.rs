//! What a worker's consumer implements: the callbacks the worker makes as
//! components arrive, change and leave. Each callback answers `Unimplemented`
//! unless the consumer provides it.
use vstd::prelude::*;

verus! {

/// A callback of the consumer failed.
#[derive(Debug, Clone, Copy, PartialEq, Eq, Structural)]
pub enum WorkerError {
    Unimplemented,
}

/// The result of a consumer's callback.
pub type WorkerResult<T> = Result<T, WorkerError>;

/// Where a component stands relative to this worker.
#[derive(Debug, Clone, Copy, PartialEq, Eq, Structural)]
pub enum ComponentStatus {
    Stationary,
    Arriving,
    Leaving,
}

/// A component handed to the consumer.
pub struct Component<T> {
    inner: T,
}

/// The consumer of a worker: the callbacks it answers.
///
/// A callback that the consumer does not provide answers `Unimplemented`.
pub trait Worker: Clone {
    fn initialize(&mut self) -> (r: WorkerResult<()>)
        default_ensures
            r == Err::<(), WorkerError>(WorkerError::Unimplemented),
            *final(self) == *old(self),
    {
        Err(WorkerError::Unimplemented)
    }

    fn shutdown(&mut self) -> (r: WorkerResult<()>)
        default_ensures
            r == Err::<(), WorkerError>(WorkerError::Unimplemented),
            *final(self) == *old(self),
    {
        Err(WorkerError::Unimplemented)
    }

    fn on_component_arrived<T>(&mut self, component: Component<T>) -> (r: WorkerResult<()>)
        default_ensures
            r == Err::<(), WorkerError>(WorkerError::Unimplemented),
            *final(self) == *old(self),
    {
        Err(WorkerError::Unimplemented)
    }

    fn on_component_pending<T>(&mut self, component: Component<T>, status: ComponentStatus) -> (r: WorkerResult<()>)
        default_ensures
            r == Err::<(), WorkerError>(WorkerError::Unimplemented),
            *final(self) == *old(self),
    {
        Err(WorkerError::Unimplemented)
    }

    fn on_component_left<T>(&mut self, component: Component<T>) -> (r: WorkerResult<()>)
        default_ensures
            r == Err::<(), WorkerError>(WorkerError::Unimplemented),
            *final(self) == *old(self),
    {
        Err(WorkerError::Unimplemented)
    }

    fn on_component_updated<T>(&mut self, component: Component<T>, status: ComponentStatus) -> (r: WorkerResult<()>)
        default_ensures
            r == Err::<(), WorkerError>(WorkerError::Unimplemented),
            *final(self) == *old(self),
    {
        Err(WorkerError::Unimplemented)
    }

    fn tick(&mut self) -> (r: WorkerResult<()>)
        default_ensures
            r == Err::<(), WorkerError>(WorkerError::Unimplemented),
            *final(self) == *old(self),
    {
        Err(WorkerError::Unimplemented)
    }
}

} // verus!
