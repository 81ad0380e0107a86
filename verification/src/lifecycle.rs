//! The mount/unmount lifecycle: a forward-only state machine from
//! initialization to stopped, with at most one readiness and one stopping
//! notification to an optional process supervisor, in that order.

use vstd::prelude::*;

verus! {

/// The phases of a mounted disk's life, in order. No phase is revisited.
#[derive(Clone, Copy, Debug, PartialEq, Eq, Structural)]
pub enum LifecycleState {
    /// Devices are being selected and the buffer allocated.
    Initializing,
    /// The disk is registered and serving requests.
    Mounted,
    /// A termination signal arrived or the service loop returned.
    Unmounting,
    /// The unmount completed.
    Stopped,
}

/// Drives the mount/unmount lifecycle and decides when the optional
/// process supervisor is notified. The caller performs the actual
/// notification exactly when a method asks for it.
pub struct Lifecycle {
    state: LifecycleState,
    notify: bool,
    ready_sent: bool,
    stopping_sent: bool,
}

impl Lifecycle {
    /// The current phase.
    pub closed spec fn spec_state(&self) -> LifecycleState {
        self.state
    }

    /// Whether a supervisor is listening for notifications.
    pub closed spec fn spec_notify(&self) -> bool {
        self.notify
    }

    /// Whether the readiness notification has gone out.
    pub closed spec fn spec_ready_sent(&self) -> bool {
        self.ready_sent
    }

    /// Whether the stopping notification has gone out.
    pub closed spec fn spec_stopping_sent(&self) -> bool {
        self.stopping_sent
    }

    /// The readiness notification goes out exactly on mounting and the
    /// stopping one exactly on stopping, each only when a supervisor
    /// listens; so neither is ever sent twice and the stopping one never
    /// precedes the readiness one.
    pub open spec fn wf(&self) -> bool {
        &&& self.spec_ready_sent() == (self.spec_notify() && self.spec_state()
            != LifecycleState::Initializing)
        &&& self.spec_stopping_sent() == (self.spec_notify() && self.spec_state()
            == LifecycleState::Stopped)
    }

    /// A fresh lifecycle: initializing, nothing notified yet.
    pub fn new(notify: bool) -> (r: Lifecycle)
        ensures
            r.wf(),
            r.spec_state() == LifecycleState::Initializing,
            r.spec_notify() == notify,
            !r.spec_ready_sent(),
            !r.spec_stopping_sent(),
    {
        Lifecycle { state: LifecycleState::Initializing, notify, ready_sent: false, stopping_sent: false }
    }

    /// Mount registration succeeded: the disk is now mounted. Returns
    /// whether the caller must send the one readiness notification now.
    pub fn mounted(&mut self) -> (send_ready: bool)
        requires
            old(self).wf(),
            old(self).spec_state() == LifecycleState::Initializing,
        ensures
            final(self).wf(),
            final(self).spec_state() == LifecycleState::Mounted,
            final(self).spec_notify() == old(self).spec_notify(),
            send_ready == old(self).spec_notify(),
            final(self).spec_ready_sent() == old(self).spec_notify(),
            !final(self).spec_stopping_sent(),
    {
        self.state = LifecycleState::Mounted;
        self.ready_sent = self.notify;
        self.notify
    }

    /// A termination signal arrived or the service loop returned:
    /// unmounting begins. Nothing is notified here.
    pub fn begin_unmount(&mut self)
        requires
            old(self).wf(),
            old(self).spec_state() == LifecycleState::Mounted,
        ensures
            final(self).wf(),
            final(self).spec_state() == LifecycleState::Unmounting,
            final(self).spec_notify() == old(self).spec_notify(),
            final(self).spec_ready_sent() == old(self).spec_ready_sent(),
            final(self).spec_stopping_sent() == old(self).spec_stopping_sent(),
    {
        self.state = LifecycleState::Unmounting;
    }

    /// The unmount completed: the disk is stopped. Returns whether the
    /// caller must send the one stopping notification now.
    pub fn stopped(&mut self) -> (send_stopping: bool)
        requires
            old(self).wf(),
            old(self).spec_state() == LifecycleState::Unmounting,
        ensures
            final(self).wf(),
            final(self).spec_state() == LifecycleState::Stopped,
            final(self).spec_notify() == old(self).spec_notify(),
            final(self).spec_ready_sent() == old(self).spec_ready_sent(),
            send_stopping == old(self).spec_notify(),
            final(self).spec_stopping_sent() == old(self).spec_notify(),
    {
        self.state = LifecycleState::Stopped;
        self.stopping_sent = self.notify;
        self.notify
    }

    /// The current phase, for the caller's dispatching.
    pub fn state(&self) -> (r: LifecycleState)
        ensures
            r == self.spec_state(),
    {
        self.state
    }

    /// Whether the readiness notification has gone out.
    pub fn ready_sent(&self) -> (r: bool)
        ensures
            r == self.spec_ready_sent(),
    {
        self.ready_sent
    }

    /// Whether the stopping notification has gone out.
    pub fn stopping_sent(&self) -> (r: bool)
        ensures
            r == self.spec_stopping_sent(),
    {
        self.stopping_sent
    }
}

/// Notifications are ordered: whenever the stopping notification has gone
/// out, the disk has stopped and the readiness notification went out
/// before it.
pub proof fn lemma_notification_order(l: Lifecycle)
    requires
        l.wf(),
        l.spec_stopping_sent(),
    ensures
        l.spec_ready_sent(),
        l.spec_state() == LifecycleState::Stopped,
{
}

} // verus!
