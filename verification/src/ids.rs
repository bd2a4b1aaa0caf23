//! Handles to buffers, windows and modes.

use vstd::prelude::*;

verus! {

/// Whether `bits` can be the handle of a slot: the slot's index in the lower
/// half and an odd version in the upper half.
pub open spec fn is_handle(bits: u64) -> bool {
    (bits / 0x1_0000_0000) % 2 == 1
}

/// The handle that no slot has.
pub const NULL_HANDLE: u64 = 0x1_ffff_ffff;

/// Names a buffer.
#[derive(Debug, Clone, Copy, PartialEq, Eq, Structural, Hash)]
pub struct BufferId {
    bits: u64,
}

impl BufferId {
    #[verifier::type_invariant]
    spec fn valid(self) -> bool {
        is_handle(self.bits)
    }

    pub closed spec fn view(&self) -> u64 {
        self.bits
    }

    /// The handle with the given bits, where they are those of a handle.
    pub fn from_bits(bits: u64) -> (r: Option<BufferId>)
        ensures
            r is Some <==> is_handle(bits),
            r matches Some(id) ==> id@ == bits,
    {
        if (bits / 0x1_0000_0000) % 2 == 1 {
            Some(BufferId { bits })
        } else {
            None
        }
    }

    pub fn bits(&self) -> (r: u64)
        ensures
            r == self@,
            is_handle(r),
    {
        proof {
            use_type_invariant(self);
        }
        self.bits
    }

    /// The handle with the given bits.
    pub(crate) fn from_slot_bits(bits: u64) -> (r: BufferId)
        requires
            is_handle(bits),
        ensures
            r@ == bits,
    {
        BufferId { bits }
    }

    /// The handle of no buffer.
    pub fn null() -> (r: BufferId)
        ensures
            r@ == NULL_HANDLE,
    {
        BufferId { bits: NULL_HANDLE }
    }

    /// Handles with the same bits are the same.
    pub broadcast proof fn same_bits(a: BufferId, b: BufferId)
        ensures
            #![trigger a@, b@]
            a@ == b@ ==> a == b,
    {
    }
}

/// Names a window.
#[derive(Debug, Clone, Copy, PartialEq, Eq, Structural, Hash)]
pub struct WindowId {
    bits: u64,
}

impl WindowId {
    #[verifier::type_invariant]
    spec fn valid(self) -> bool {
        is_handle(self.bits)
    }

    pub closed spec fn view(&self) -> u64 {
        self.bits
    }

    /// The handle with the given bits, where they are those of a handle.
    pub fn from_bits(bits: u64) -> (r: Option<WindowId>)
        ensures
            r is Some <==> is_handle(bits),
            r matches Some(id) ==> id@ == bits,
    {
        if (bits / 0x1_0000_0000) % 2 == 1 {
            Some(WindowId { bits })
        } else {
            None
        }
    }

    pub fn bits(&self) -> (r: u64)
        ensures
            r == self@,
            is_handle(r),
    {
        proof {
            use_type_invariant(self);
        }
        self.bits
    }

    /// The handle with the given bits.
    pub(crate) fn from_slot_bits(bits: u64) -> (r: WindowId)
        requires
            is_handle(bits),
        ensures
            r@ == bits,
    {
        WindowId { bits }
    }

    /// The handle of no window.
    pub fn null() -> (r: WindowId)
        ensures
            r@ == NULL_HANDLE,
    {
        WindowId { bits: NULL_HANDLE }
    }

    /// Handles with the same bits are the same.
    pub broadcast proof fn same_bits(a: WindowId, b: WindowId)
        ensures
            #![trigger a@, b@]
            a@ == b@ ==> a == b,
    {
    }
}

/// Names a mode.
#[derive(Debug, Clone, Copy, PartialEq, Eq, Structural, Hash)]
pub struct ModeId {
    pub bits: u64,
}

} // verus!
