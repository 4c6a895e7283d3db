//! The patch engine: checking a target, choosing its trampoline, keeping the bytes it
//! overwrites, and the guard that hands them back exactly once.
use crate::jump::{capacity, trampoline, Width};
use crate::trampoline::{encode, is_address};
use vstd::prelude::*;

verus! {

/// `ret` (near).
pub const RET_NEAR: u8 = 0xC3;

/// `ret` (far).
pub const RET_FAR: u8 = 0xCB;

/// `ret imm16` (near).
pub const RET_NEAR_IMM: u8 = 0xC2;

/// `ret imm16` (far).
pub const RET_FAR_IMM: u8 = 0xCA;

/// Whether `b` opens a return instruction: a function whose first byte is one is too small to
/// hold even the shortest trampoline.
pub open spec fn is_return_opcode(b: u8) -> bool {
    b == RET_NEAR || b == RET_FAR || b == RET_NEAR_IMM || b == RET_FAR_IMM
}

pub fn leading_byte_is_return(b: u8) -> (r: bool)
    ensures
        r == is_return_opcode(b),
{
    b == RET_NEAR || b == RET_FAR || b == RET_NEAR_IMM || b == RET_FAR_IMM
}

/// Why a patch could not be installed or released.
#[derive(Clone, Copy, Debug, PartialEq, Eq, Structural)]
pub enum PatchError {
    /// The target starts with a return instruction: it is too small to patch. Nothing was written.
    TooSmall,
    /// The bytes to read or write lie outside the code at hand. Nothing was written.
    OutOfRange,
}

/// What each error says.
pub open spec fn error_message(e: PatchError) -> Seq<char> {
    match e {
        PatchError::TooSmall => "target function is too small (1 byte) to patch"@,
        PatchError::OutOfRange => "patch lies outside the code region"@,
    }
}

impl PatchError {
    pub fn message(&self) -> (r: String)
        ensures
            r@ == error_message(*self),
    {
        match self {
            PatchError::TooSmall => String::from_str("target function is too small (1 byte) to patch"),
            PatchError::OutOfRange => String::from_str("patch lies outside the code region"),
        }
    }
}

/// Bytes to copy into executable memory at `address`.
pub struct Write {
    pub address: u64,
    pub bytes: Vec<u8>,
}

/// An installed patch: the target and the bytes that the trampoline overwrote. Releasing it hands
/// back those bytes once; after that, or after `forget`, it hands back nothing.
pub struct PatchGuard {
    target: u64,
    saved: Vec<u8>,
    active: bool,
}

impl PatchGuard {
    /// The address of the patched function.
    pub closed spec fn spec_target(&self) -> u64 {
        self.target
    }

    /// The original bytes at the target, as many as the trampoline took.
    pub closed spec fn spec_saved(&self) -> Seq<u8> {
        self.saved@
    }

    /// Whether the reversion is still pending.
    pub closed spec fn spec_active(&self) -> bool {
        self.active
    }

    /// Checks the target and chooses its trampoline. `original` holds the first bytes at
    /// `target`, as many as the longest trampoline takes. On success the caller copies the
    /// returned write into memory, and the guard holds the bytes that it overwrites.
    pub fn prepare(width: Width, target: u64, replacement: u64, original: &[u8]) -> (r: Result<
        (PatchGuard, Write),
        PatchError,
    >)
        requires
            is_address(width, target as int),
            is_address(width, replacement as int),
            original@.len() == capacity(width),
        ensures
            r is Err <==> is_return_opcode(original@[0]),
            r is Err ==> r == Err::<(PatchGuard, Write), PatchError>(PatchError::TooSmall),
            r matches Ok((g, w)) ==> {
                &&& w.address == target
                &&& w.bytes@ == trampoline(width, target as nat, replacement as nat)
                &&& g.spec_target() == target
                &&& g.spec_saved() == original@.subrange(0, w.bytes@.len() as int)
                &&& g.spec_active()
            },
    {
        if leading_byte_is_return(original[0]) {
            return Err(PatchError::TooSmall);
        }
        let bytes = encode(width, target, replacement);
        let mut saved: Vec<u8> = Vec::new();
        let mut i: usize = 0;
        while i < bytes.len()
            invariant
                bytes@.len() <= original@.len(),
                i <= bytes@.len(),
                saved@ == original@.subrange(0, i as int),
            decreases bytes@.len() - i,
        {
            saved.push(original[i]);
            i = i + 1;
            assert(saved@ =~= original@.subrange(0, i as int));
        }
        Ok((PatchGuard { target, saved, active: true }, Write { address: target, bytes }))
    }

    /// The write that reverts the patch, the first time; `None` ever after.
    pub fn release(&mut self) -> (r: Option<Write>)
        ensures
            !final(self).spec_active(),
            final(self).spec_target() == old(self).spec_target(),
            final(self).spec_saved() == old(self).spec_saved(),
            old(self).spec_active() ==> (r matches Some(w) && w.address == old(self).spec_target()
                && w.bytes@ == old(self).spec_saved()),
            !old(self).spec_active() ==> r is None,
    {
        if self.active {
            self.active = false;
            Some(Write { address: self.target, bytes: self.saved.clone() })
        } else {
            None
        }
    }

    /// Gives up the reversion: the patch stays for good.
    pub fn forget(&mut self)
        ensures
            !final(self).spec_active(),
            final(self).spec_target() == old(self).spec_target(),
            final(self).spec_saved() == old(self).spec_saved(),
    {
        self.active = false;
    }

    pub fn target(&self) -> (r: u64)
        ensures
            r == self.spec_target(),
    {
        self.target
    }

    /// How many bytes the patch overwrote.
    pub fn len(&self) -> (r: usize)
        ensures
            r == self.spec_saved().len(),
    {
        self.saved.len()
    }

    pub fn saved_bytes(&self) -> (r: &[u8])
        ensures
            r@ == self.spec_saved(),
    {
        self.saved.as_slice()
    }

    pub fn is_active(&self) -> (r: bool)
        ensures
            r == self.spec_active(),
    {
        self.active
    }
}

} // verus!
