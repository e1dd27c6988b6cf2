//! A service whose managed operation runs until a stop is requested, and
//! the runtime that drives it. The service's state moves one way: idle,
//! running once started, stopped once its operation has been joined after
//! a stop request.
use vstd::prelude::*;

verus! {

/// Where a service is in its life.
#[derive(Debug, Clone, Copy, PartialEq, Eq, Structural)]
pub enum Phase {
    Idle,
    Running,
    Stopped,
}

/// Drives the managed operations of services.
pub struct Runtime;

/// The managed operation of a started service, waiting to be joined.
pub struct Task {
    started: bool,
}

/// A service with one managed operation at a time.
pub struct Service {
    phase: Phase,
    completed_operations: usize,
    stop_requested: bool,
}

impl Service {
    pub closed spec fn phase_of(self) -> Phase {
        self.phase
    }

    pub closed spec fn completed(self) -> nat {
        self.completed_operations as nat
    }

    pub closed spec fn stop_is_requested(self) -> bool {
        self.stop_requested
    }

    pub fn new() -> (r: Self)
        ensures
            r.phase_of() == Phase::Idle,
            r.completed() == 0,
            !r.stop_is_requested(),
    {
        Service { phase: Phase::Idle, completed_operations: 0, stop_requested: false }
    }

    /// Starts the service; its managed operation is handed back to be
    /// joined on `runtime`.
    pub fn start(&mut self, runtime: &Runtime) -> (task: Task)
        ensures
            final(self).phase_of() == Phase::Running,
            final(self).completed() == old(self).completed(),
            final(self).stop_is_requested() == old(self).stop_is_requested(),
    {
        self.phase = Phase::Running;
        Task { started: true }
    }

    /// Asks the managed operation to finish.
    pub fn request_stop(&mut self)
        ensures
            final(self).stop_is_requested(),
            final(self).phase_of() == old(self).phase_of(),
            final(self).completed() == old(self).completed(),
    {
        self.stop_requested = true;
    }

    pub fn phase(&self) -> (r: Phase)
        ensures
            r == self.phase_of(),
    {
        self.phase
    }

    pub fn completed_operations(&self) -> (r: usize)
        ensures
            r == self.completed(),
    {
        self.completed_operations
    }
}

impl Runtime {
    /// Runs `task`, the managed operation of `service`, to its end. The
    /// operation waits for a stop request, so it ends only once one was
    /// made; it then stops the service and counts itself as completed.
    pub fn join(&self, service: &mut Service, task: Task)
        requires
            old(service).stop_is_requested(),
            old(service).completed() < usize::MAX,
        ensures
            final(service).phase_of() == Phase::Stopped,
            final(service).completed() == old(service).completed() + 1,
            final(service).stop_is_requested(),
    {
        service.phase = Phase::Stopped;
        service.completed_operations = service.completed_operations + 1;
    }
}

} // verus!
