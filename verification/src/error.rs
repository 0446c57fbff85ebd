use vstd::prelude::*;

verus! {

/// Why a call into the guest was abandoned. Every failure ends the call at the
/// step that met it; nothing is retried.
#[derive(Clone, Copy, Debug, PartialEq, Eq, Structural)]
pub enum CallError {
    /// The guest exports no linear memory under the agreed name.
    MemoryNotFound,
    /// The guest lacks the export that hands out the input buffer's address.
    BufferFunctionMissing,
    /// The guest lacks the entry point of the requested operation.
    ShimFunctionMissing,
    /// An export exists but does not take or return what the protocol fixes.
    SignatureMismatch,
    /// The argument at this position could not be encoded.
    SerializationFailure(usize),
    /// An argument's bytes would not fit the accessible memory region.
    PayloadWriteOutOfBounds,
    /// The guest faulted while one of its exports ran.
    CallTrap,
    /// The bytes at the returned address are no locator.
    LocatorDecodeFailure,
    /// The locator names bytes outside the accessible memory region.
    PayloadReadOutOfBounds,
    /// The payload does not decode to the declared result shape.
    ResultDecodeFailure,
}

impl CallError {
    /// True for the failures that point at a badly linked guest: an export is
    /// absent or has another signature.
    pub open spec fn spec_is_linkage(self) -> bool {
        self is MemoryNotFound || self is BufferFunctionMissing || self is ShimFunctionMissing
            || self is SignatureMismatch
    }

    /// True for the failures that come from bytes: encoding, decoding, a
    /// locator or a payload out of bounds.
    pub open spec fn spec_is_data(self) -> bool {
        !self.spec_is_linkage() && !(self is CallTrap)
    }

    /// Tells a guest linkage problem from the others.
    pub fn is_linkage(&self) -> (result: bool)
        ensures
            result == self.spec_is_linkage(),
    {
        match self {
            CallError::MemoryNotFound => true,
            CallError::BufferFunctionMissing => true,
            CallError::ShimFunctionMissing => true,
            CallError::SignatureMismatch => true,
            _ => false,
        }
    }

    /// Tells a guest execution problem from the others.
    pub fn is_trap(&self) -> (result: bool)
        ensures
            result == (*self is CallTrap),
    {
        match self {
            CallError::CallTrap => true,
            _ => false,
        }
    }

    /// Tells a data problem from the others.
    pub fn is_data(&self) -> (result: bool)
        ensures
            result == self.spec_is_data(),
    {
        !self.is_linkage() && !self.is_trap()
    }
}

} // verus!
