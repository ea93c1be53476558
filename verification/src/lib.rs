//! PCI configuration-space driver support: function addressing, capability
//! lists, base-address registers, MSI-X control and bus enumeration, together
//! with the life-cycle tag shared by every driver built on top of it.
//!
//! All hardware access goes through [`pci::PciInterface`]; every routine that
//! touches configuration space states which registers it reads and writes as
//! a function of the accessor's ghost state.

use vstd::prelude::*;

pub mod pci;

verus! {

/// Life-cycle tag of a driver instance.
#[derive(Debug, Eq, PartialEq, Clone, Copy, Structural)]
pub enum DriverState {
    Uninitialized,
    Initialized,
    /// Attached to the device; the payload is the current sleep level.
    Attached(usize),
    Detached,
    Destroyed,
}

/// A request to move a driver from one life-cycle state to another.
#[derive(Debug, Eq, PartialEq, Clone, Copy, Structural)]
pub enum DriverEvent {
    Init,
    Attach,
    Detach,
    SetSleepLevel(usize),
    Destroy,
}

/// A life-cycle request that the current state does not permit.
#[derive(Debug, Eq, PartialEq, Clone, Copy, Structural)]
pub struct InvalidTransition {
    pub from: DriverState,
    pub event: DriverEvent,
}

impl DriverState {
    /// Whether `event` may be applied in this state.
    pub open spec fn permits(self, event: DriverEvent) -> bool {
        match event {
            DriverEvent::Init => self == DriverState::Uninitialized,
            DriverEvent::Attach => self == DriverState::Initialized || self == DriverState::Detached
                || self is Attached,
            DriverEvent::Detach => self is Attached,
            DriverEvent::SetSleepLevel(_) => self is Attached,
            DriverEvent::Destroy => self is Attached,
        }
    }

    /// The state that `event` leads to.
    pub open spec fn after(event: DriverEvent) -> DriverState {
        match event {
            DriverEvent::Init => DriverState::Initialized,
            DriverEvent::Attach => DriverState::Attached(0),
            DriverEvent::Detach => DriverState::Detached,
            DriverEvent::SetSleepLevel(level) => DriverState::Attached(level),
            DriverEvent::Destroy => DriverState::Destroyed,
        }
    }

    /// Applies `event`, or reports that this state does not permit it.
    pub fn transition(self, event: DriverEvent) -> (next: Result<DriverState, InvalidTransition>)
        ensures
            self.permits(event) ==> next == Ok::<DriverState, InvalidTransition>(
                Self::after(event),
            ),
            !self.permits(event) ==> next == Err::<DriverState, InvalidTransition>(
                InvalidTransition { from: self, event },
            ),
    {
        let attached = match self {
            DriverState::Attached(_) => true,
            _ => false,
        };
        match event {
            DriverEvent::Init => match self {
                DriverState::Uninitialized => Ok(DriverState::Initialized),
                _ => Err(InvalidTransition { from: self, event }),
            },
            DriverEvent::Attach => match self {
                DriverState::Initialized | DriverState::Detached | DriverState::Attached(_) => Ok(
                    DriverState::Attached(0),
                ),
                _ => Err(InvalidTransition { from: self, event }),
            },
            DriverEvent::Detach => if attached {
                Ok(DriverState::Detached)
            } else {
                Err(InvalidTransition { from: self, event })
            },
            DriverEvent::SetSleepLevel(level) => if attached {
                Ok(DriverState::Attached(level))
            } else {
                Err(InvalidTransition { from: self, event })
            },
            DriverEvent::Destroy => if attached {
                Ok(DriverState::Destroyed)
            } else {
                Err(InvalidTransition { from: self, event })
            },
        }
    }
}

/// Driver life-cycle management.
///
/// An implementor stores a [`DriverState`] and exposes it through `state` and
/// `set_state`; the transition methods are provided and may only be called in
/// the states that permit them.
pub trait DriverControl: Sized {
    /// The life-cycle state currently stored in `self`.
    spec fn driver_state(&self) -> DriverState;

    /// Initialize the device. The driver must be `Uninitialized`.
    fn init(&mut self)
        requires
            old(self).driver_state().permits(DriverEvent::Init),
        ensures
            final(self).driver_state() == DriverState::Initialized,
    {
        self.set_state(DriverState::Initialized);
    }

    /// Attach the driver to the device (claim ownership). The driver must be
    /// `Initialized`, `Detached` or `Attached`.
    fn attach(&mut self)
        requires
            old(self).driver_state().permits(DriverEvent::Attach),
        ensures
            final(self).driver_state() == DriverState::Attached(0),
    {
        self.set_state(DriverState::Attached(0));
    }

    /// Detach the driver from the device. The driver must be `Attached`.
    fn detach(&mut self)
        requires
            old(self).driver_state().permits(DriverEvent::Detach),
        ensures
            final(self).driver_state() == DriverState::Detached,
    {
        self.set_state(DriverState::Detached);
    }

    /// Change the sleep level of an `Attached` driver.
    fn set_sleep_level(&mut self, level: usize)
        requires
            old(self).driver_state().permits(DriverEvent::SetSleepLevel(level)),
        ensures
            final(self).driver_state() == DriverState::Attached(level),
    {
        self.set_state(DriverState::Attached(level));
    }

    /// Destroy an `Attached` driver; the tag passes through `Destroyed` and
    /// the owner is consumed.
    fn destroy(self)
        requires
            self.driver_state().permits(DriverEvent::Destroy),
    {
        let mut owner = self;
        owner.set_state(DriverState::Destroyed);
    }

    fn state(&self) -> (ds: DriverState)
        ensures
            ds == self.driver_state(),
    ;

    fn set_state(&mut self, ds: DriverState)
        ensures
            final(self).driver_state() == ds,
    ;
}

/// The bare tag is the smallest owner of a life cycle.
impl DriverControl for DriverState {
    open spec fn driver_state(&self) -> DriverState {
        *self
    }

    fn state(&self) -> (ds: DriverState) {
        *self
    }

    fn set_state(&mut self, ds: DriverState) {
        *self = ds;
    }
}

/// `Destroyed` is terminal: no event is permitted in it.
pub proof fn lemma_destroyed_is_terminal(event: DriverEvent)
    ensures
        !DriverState::Destroyed.permits(event),
{
}

/// Only an `Attached` driver can be detached, destroyed or sent to another
/// sleep level.
pub proof fn lemma_detach_and_destroy_need_attached(state: DriverState)
    ensures
        state.permits(DriverEvent::Detach) <==> state is Attached,
        state.permits(DriverEvent::Destroy) <==> state is Attached,
        forall|level: usize|
            state.permits(DriverEvent::SetSleepLevel(level)) <==> state is Attached,
{
}

} // verus!
