//! Scoped ownership of retained foreign objects. Every handle the bridge
//! retains is wrapped right after acquisition; the wrapper hands the raw
//! handle out for foreign calls and allows its release exactly once.

use vstd::prelude::*;

use crate::errors::BridgeError;
use crate::errors::FailedObject;

verus! {

/// The lifecycle of one retained foreign object.
#[derive(Debug, Clone, Copy, PartialEq, Eq, Structural)]
pub enum HandleState {
    Retained,
    Released,
}

/// An owned foreign object reference: the raw handle value (an address only
/// the platform shell can dereference) with its lifecycle state. `release`
/// runs only while the object is retained and moves it to released, so a
/// second release cannot be requested through the wrapper.
#[derive(Debug)]
pub struct BridgeObject {
    handle: usize,
    state: HandleState,
}

impl BridgeObject {
    /// The wrapped raw handle value.
    pub closed spec fn handle_id(&self) -> usize {
        self.handle
    }

    /// Whether the object still awaits its one release.
    pub closed spec fn is_retained(&self) -> bool {
        self.state == HandleState::Retained
    }

    /// Wraps a handle the bridge now owns. A null handle means the foreign
    /// constructor failed; the error says which object could not be made.
    pub fn wrap_created(handle: usize, object: FailedObject) -> (r: Result<BridgeObject, BridgeError>)
        ensures
            handle != 0 ==> (r matches Result::Ok(o) && o.handle_id() == handle
                && o.is_retained()),
            handle == 0 ==> r == Result::<BridgeObject, BridgeError>::Err(
                BridgeError::ObjectCreation(object),
            ),
    {
        if handle == 0 {
            Result::Err(BridgeError::ObjectCreation(object))
        } else {
            Result::Ok(BridgeObject { handle, state: HandleState::Retained })
        }
    }

    /// Whether the object still awaits its one release.
    pub fn retained(&self) -> (r: bool)
        ensures
            r == self.is_retained(),
    {
        match self.state {
            HandleState::Retained => true,
            HandleState::Released => false,
        }
    }

    /// The raw handle, for the shell to pass into foreign calls.
    pub fn as_handle(&self) -> (h: usize)
        ensures
            h == self.handle_id(),
    {
        self.handle
    }

    /// The single release: marks the object released and hands the raw
    /// handle back for the shell's one release call.
    pub fn release(&mut self) -> (h: usize)
        requires
            old(self).is_retained(),
        ensures
            !final(self).is_retained(),
            h == old(self).handle_id(),
            final(self).handle_id() == old(self).handle_id(),
    {
        self.state = HandleState::Released;
        self.handle
    }
}

} // verus!
