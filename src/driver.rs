//! The driver: bootstraps a snapshot, then turns a stream of messages into a
//! deduplicated stream of connectivity values.
//!
//! The driver decides; whoever runs it performs the queries, receives the
//! messages, sends the values and unsubscribes, and reports back.

use crate::netlink::{apply_message, message_applied, Message};
use crate::state::{connectivity_of, InterfaceModel, InterfacesState, InternetConnectivity};
use vstd::prelude::*;

verus! {

/// Where the driver stands.
#[derive(PartialEq, Eq, Structural, Clone, Copy, Debug)]
pub enum Phase {
    /// The snapshot queries are being applied.
    Bootstrapping,
    /// Messages are being applied and changes reported.
    Streaming,
    /// The receiver is gone; the subscription is being cancelled.
    Draining,
    /// Final.
    Terminated,
}

/// Why the driver terminated with an error.
#[derive(PartialEq, Eq, Structural, Clone, Copy, Debug)]
pub enum Failure {
    /// A snapshot query failed.
    Snapshot,
    /// The kernel reported an error.
    Protocol,
    /// Messages were lost.
    Overrun,
    /// A value could not be sent.
    Send,
}

/// What the runner must do after a message.
#[derive(PartialEq, Eq, Structural, Clone, Copy, Debug)]
pub enum Step {
    /// Nothing to report.
    Quiet,
    /// Send this value.
    Emit(InternetConnectivity),
    /// Stop with this error.
    Fail(Failure),
}

/// The abstract state of a driver.
pub struct DriverModel {
    pub phase: Phase,
    pub records: Map<u32, InterfaceModel>,
    pub last: InternetConnectivity,
    pub failure: Option<Failure>,
}

/// The connectivity state machine.
pub struct Driver {
    phase: Phase,
    state: InterfacesState,
    last: InternetConnectivity,
    failure: Option<Failure>,
}

impl View for Driver {
    type V = DriverModel;

    closed spec fn view(&self) -> DriverModel {
        DriverModel { phase: self.phase, records: self.state@, last: self.last, failure: self.failure }
    }
}

impl Driver {
    pub closed spec fn wf(&self) -> bool {
        self.state.wf()
    }

    /// A driver about to bootstrap, with no interface known.
    pub fn new() -> (r: Driver)
        ensures
            r.wf(),
            r@ == (DriverModel {
                phase: Phase::Bootstrapping,
                records: Map::empty(),
                last: InternetConnectivity::Disconnected,
                failure: None,
            }),
    {
        Driver {
            phase: Phase::Bootstrapping,
            state: InterfacesState::new(),
            last: InternetConnectivity::Disconnected,
            failure: None,
        }
    }

    pub fn phase(&self) -> (r: Phase)
        ensures
            r == self@.phase,
    {
        self.phase
    }

    pub fn failure(&self) -> (r: Option<Failure>)
        ensures
            r == self@.failure,
    {
        self.failure
    }

    /// The value reported last.
    pub fn last(&self) -> (r: InternetConnectivity)
        ensures
            r == self@.last,
    {
        self.last
    }

    /// Applies one item of a snapshot query while bootstrapping; in any other
    /// phase nothing changes.
    pub fn snapshot_item(&mut self, item: &Message)
        requires
            old(self).wf(),
        ensures
            final(self).wf(),
            final(self)@ == (if old(self)@.phase == Phase::Bootstrapping {
                DriverModel { records: message_applied(old(self)@.records, item), ..old(self)@ }
            } else {
                old(self)@
            }),
    {
        if self.phase == Phase::Bootstrapping {
            apply_message(&mut self.state, item);
        }
    }

    /// Ends bootstrapping: the current connectivity is reported whatever it is.
    /// Outside bootstrapping nothing changes and nothing is reported.
    pub fn finish_bootstrap(&mut self) -> (r: Option<InternetConnectivity>)
        requires
            old(self).wf(),
        ensures
            final(self).wf(),
            old(self)@.phase == Phase::Bootstrapping ==> {
                &&& r == Some(connectivity_of(old(self)@.records))
                &&& final(self)@ == (DriverModel {
                    phase: Phase::Streaming,
                    last: connectivity_of(old(self)@.records),
                    ..old(self)@
                })
            },
            old(self)@.phase != Phase::Bootstrapping ==> r is None && final(self)@ == old(self)@,
    {
        if self.phase == Phase::Bootstrapping {
            self.phase = Phase::Streaming;
            self.last = self.state.internet_connectivity();
            Some(self.last)
        } else {
            None
        }
    }

    /// Handles a message while streaming: a fatal message terminates the
    /// driver; any other is applied, and the new connectivity is reported only
    /// where it differs from the last value reported. Outside streaming nothing
    /// changes and nothing is reported.
    pub fn on_message(&mut self, msg: &Message) -> (r: Step)
        requires
            old(self).wf(),
        ensures
            final(self).wf(),
            old(self)@.phase != Phase::Streaming ==> r == Step::Quiet && final(self)@ == old(self)@,
            old(self)@.phase == Phase::Streaming && msg is ProtocolError ==> r == Step::Fail(Failure::Protocol)
                && final(self)@ == (DriverModel {
                    phase: Phase::Terminated,
                    failure: Some(Failure::Protocol),
                    ..old(self)@
                }),
            old(self)@.phase == Phase::Streaming && msg is Overrun ==> r == Step::Fail(Failure::Overrun)
                && final(self)@ == (DriverModel {
                    phase: Phase::Terminated,
                    failure: Some(Failure::Overrun),
                    ..old(self)@
                }),
            old(self)@.phase == Phase::Streaming && !(msg is ProtocolError) && !(msg is Overrun) ==> {
                let records = message_applied(old(self)@.records, msg);
                let c = connectivity_of(records);
                &&& final(self)@ == (DriverModel { records, last: c, ..old(self)@ })
                &&& r == (if c != old(self)@.last {
                    Step::Emit(c)
                } else {
                    Step::Quiet
                })
            },
    {
        if self.phase != Phase::Streaming {
            return Step::Quiet;
        }
        match msg {
            Message::ProtocolError => {
                self.phase = Phase::Terminated;
                self.failure = Some(Failure::Protocol);
                Step::Fail(Failure::Protocol)
            },
            Message::Overrun => {
                self.phase = Phase::Terminated;
                self.failure = Some(Failure::Overrun);
                Step::Fail(Failure::Overrun)
            },
            _ => {
                apply_message(&mut self.state, msg);
                let c = self.state.internet_connectivity();
                if c != self.last {
                    self.last = c;
                    Step::Emit(c)
                } else {
                    Step::Quiet
                }
            },
        }
    }

    /// The receiver is gone: a streaming driver moves on to cancel its
    /// subscription. In any other phase nothing changes.
    pub fn receiver_closed(&mut self)
        ensures
            final(self)@ == (if old(self)@.phase == Phase::Streaming {
                DriverModel { phase: Phase::Draining, ..old(self)@ }
            } else {
                old(self)@
            }),
            final(self).wf() == old(self).wf(),
    {
        if self.phase == Phase::Streaming {
            self.phase = Phase::Draining;
        }
    }

    /// The subscription is cancelled: a draining driver terminates without
    /// error. In any other phase nothing changes.
    pub fn unsubscribed(&mut self)
        ensures
            final(self)@ == (if old(self)@.phase == Phase::Draining {
                DriverModel { phase: Phase::Terminated, ..old(self)@ }
            } else {
                old(self)@
            }),
            final(self).wf() == old(self).wf(),
    {
        if self.phase == Phase::Draining {
            self.phase = Phase::Terminated;
        }
    }

    /// A query or a send failed: the driver terminates with that error, unless
    /// it had terminated already.
    pub fn fail(&mut self, failure: Failure)
        ensures
            final(self)@ == (if old(self)@.phase != Phase::Terminated {
                DriverModel { phase: Phase::Terminated, failure: Some(failure), ..old(self)@ }
            } else {
                old(self)@
            }),
            final(self).wf() == old(self).wf(),
    {
        if self.phase != Phase::Terminated {
            self.phase = Phase::Terminated;
            self.failure = Some(failure);
        }
    }
}

} // verus!
