//! A region of machine code held as bytes at a base address: the memory that patches are
//! written into, with the copy that stands for a write into executable memory.
use crate::jump::{capacity, jump_destination, lemma_trampoline_len, trampoline, Width};
use crate::patch::{is_return_opcode, PatchError, PatchGuard, Write};
use crate::trampoline::{decode, is_address};
use vstd::prelude::*;

verus! {

/// `mem` with `data` copied in at offset `off`; every other byte as it was.
pub open spec fn overwrite(mem: Seq<u8>, off: int, data: Seq<u8>) -> Seq<u8> {
    Seq::new(mem.len(), |i: int| if off <= i < off + data.len() { data[i - off] } else { mem[i] })
}

/// The number of bytes the longest trampoline of width `w` takes.
pub fn max_trampoline_len(w: Width) -> (r: usize)
    ensures
        r == capacity(w),
{
    match w {
        Width::Bits32 => 7,
        Width::Bits64 => 12,
    }
}

/// Code bytes starting at a base address.
pub struct CodeImage {
    base: u64,
    bytes: Vec<u8>,
}

impl CodeImage {
    pub closed spec fn spec_base(&self) -> int {
        self.base as int
    }

    pub closed spec fn spec_bytes(&self) -> Seq<u8> {
        self.bytes@
    }

    /// The image ends within the 64-bit address space.
    pub open spec fn wf(&self) -> bool {
        self.spec_base() + self.spec_bytes().len() <= 0x1_0000_0000_0000_0000
    }

    /// Whether the `len` bytes from `address` on lie in the image.
    pub open spec fn holds(&self, address: int, len: int) -> bool {
        self.spec_base() <= address && 0 <= len && address + len <= self.spec_base()
            + self.spec_bytes().len()
    }

    /// The code from `address` to the end of the image.
    pub open spec fn code_at(&self, address: int) -> Seq<u8> {
        self.spec_bytes().subrange(address - self.spec_base(), self.spec_bytes().len() as int)
    }

    /// The image of `bytes` placed at `base`; `None` where it would run past the address space.
    pub fn new(base: u64, bytes: Vec<u8>) -> (r: Option<CodeImage>)
        ensures
            r is Some <==> base + bytes@.len() <= 0x1_0000_0000_0000_0000,
            r matches Some(c) ==> c.wf() && c.spec_base() == base && c.spec_bytes() == bytes@,
    {
        if bytes.len() as u128 <= 0x1_0000_0000_0000_0000u128 - base as u128 {
            Some(CodeImage { base, bytes })
        } else {
            None
        }
    }

    pub fn base(&self) -> (r: u64)
        ensures
            r == self.spec_base(),
    {
        self.base
    }

    pub fn bytes(&self) -> (r: &[u8])
        ensures
            r@ == self.spec_bytes(),
    {
        self.bytes.as_slice()
    }

    /// Whether the `len` bytes from `address` on lie in the image, and if so their offset.
    fn offset_of(&self, address: u64, len: usize) -> (r: Option<usize>)
        ensures
            r is Some <==> self.holds(address as int, len as int),
            r matches Some(o) ==> o == address - self.spec_base(),
    {
        if address < self.base {
            return None;
        }
        let off = address - self.base;
        if off as u128 > self.bytes.len() as u128 {
            return None;
        }
        let off = off as usize;
        if len <= self.bytes.len() - off {
            Some(off)
        } else {
            None
        }
    }

    /// The `len` bytes from `address` on; `None` where they do not all lie in the image.
    pub fn read(&self, address: u64, len: usize) -> (r: Option<Vec<u8>>)
        ensures
            r is Some <==> self.holds(address as int, len as int),
            r matches Some(v) ==> v@ == self.spec_bytes().subrange(
                address - self.spec_base(),
                address - self.spec_base() + len,
            ),
    {
        let off = match self.offset_of(address, len) {
            Some(o) => o,
            None => return None,
        };
        let mut v: Vec<u8> = Vec::new();
        let mut i: usize = 0;
        let total = self.bytes.len();
        while i < len
            invariant
                total == self.bytes@.len(),
                off + len <= self.bytes@.len(),
                i <= len,
                v@ == self.bytes@.subrange(off as int, off + i),
            decreases len - i,
        {
            v.push(self.bytes[off + i]);
            i = i + 1;
            assert(v@ =~= self.bytes@.subrange(off as int, off + i));
        }
        Some(v)
    }

    /// Copies `w.bytes` in at `w.address`, and changes nothing else; `OutOfRange`, with nothing
    /// written, where they do not all lie in the image.
    pub fn write(&mut self, w: &Write) -> (r: Result<(), PatchError>)
        ensures
            r is Ok <==> old(self).holds(w.address as int, w.bytes@.len() as int),
            r is Err ==> r == Err::<(), PatchError>(PatchError::OutOfRange) && *final(self)
                == *old(self),
            r is Ok ==> final(self).spec_base() == old(self).spec_base() && final(self).spec_bytes()
                == overwrite(old(self).spec_bytes(), w.address - old(self).spec_base(), w.bytes@),
    {
        let off = match self.offset_of(w.address, w.bytes.len()) {
            Some(o) => o,
            None => return Err(PatchError::OutOfRange),
        };
        let ghost before = self.bytes@;
        let n = w.bytes.len();
        let mut i: usize = 0;
        let total = self.bytes.len();
        while i < n
            invariant
                total == before.len(),
                n == w.bytes@.len(),
                off + n <= before.len(),
                i <= n,
                self.base == old(self).base,
                self.bytes@ == overwrite(before, off as int, w.bytes@.subrange(0, i as int)),
            decreases n - i,
        {
            self.bytes.set(off + i, w.bytes[i]);
            i = i + 1;
            assert(self.bytes@ =~= overwrite(before, off as int, w.bytes@.subrange(0, i as int)));
        }
        assert(w.bytes@.subrange(0, n as int) =~= w.bytes@);
        Ok(())
    }

    /// Patches the function at `target` to jump to `replacement`, and returns the guard that
    /// reverts it. The target must start within the image with as many bytes as the longest
    /// trampoline takes (`OutOfRange`), and must not start with a return instruction
    /// (`TooSmall`). On either error nothing is written.
    pub fn install(&mut self, width: Width, target: u64, replacement: u64) -> (r: Result<
        PatchGuard,
        PatchError,
    >)
        requires
            old(self).wf(),
            is_address(width, target as int),
            is_address(width, replacement as int),
        ensures
            r is Ok <==> old(self).holds(target as int, capacity(width) as int) && !is_return_opcode(
                old(self).spec_bytes()[target - old(self).spec_base()],
            ),
            !old(self).holds(target as int, capacity(width) as int) ==> r == Err::<
                PatchGuard,
                PatchError,
            >(PatchError::OutOfRange),
            old(self).holds(target as int, capacity(width) as int) && is_return_opcode(
                old(self).spec_bytes()[target - old(self).spec_base()],
            ) ==> r == Err::<PatchGuard, PatchError>(PatchError::TooSmall),
            r is Err ==> *final(self) == *old(self),
            r matches Ok(g) ==> {
                let off = target - old(self).spec_base();
                let t = trampoline(width, target as nat, replacement as nat);
                &&& final(self).spec_base() == old(self).spec_base()
                &&& final(self).spec_bytes() == overwrite(old(self).spec_bytes(), off, t)
                &&& g.spec_target() == target
                &&& g.spec_saved() == old(self).spec_bytes().subrange(off, off + t.len())
                &&& g.spec_active()
            },
    {
        let cap = max_trampoline_len(width);
        let head = match self.read(target, cap) {
            Some(h) => h,
            None => return Err(PatchError::OutOfRange),
        };
        let ghost off = target - self.spec_base();
        assert(head@[0] == self.bytes@[off]);
        proof {
            lemma_trampoline_len(width, target as nat, replacement as nat);
        }
        match PatchGuard::prepare(width, target, replacement, head.as_slice()) {
            Err(e) => Err(e),
            Ok((guard, w)) => {
                assert(guard.spec_saved() =~= self.bytes@.subrange(off, off + w.bytes@.len()));
                let _ = self.write(&w);
                Ok(guard)
            },
        }
    }

    /// Reverts the patch that `guard` holds, if it is still pending: its saved bytes go back to
    /// its target and the guard is spent. A spent guard changes nothing. `OutOfRange`, with
    /// nothing changed, where the saved bytes do not fit back into the image.
    pub fn release(&mut self, guard: &mut PatchGuard) -> (r: Result<(), PatchError>)
        ensures
            !old(guard).spec_active() ==> r is Ok && *final(self) == *old(self) && *final(guard)
                == *old(guard),
            old(guard).spec_active() && !old(self).holds(
                old(guard).spec_target() as int,
                old(guard).spec_saved().len() as int,
            ) ==> r == Err::<(), PatchError>(PatchError::OutOfRange) && *final(self) == *old(self)
                && *final(guard) == *old(guard),
            old(guard).spec_active() && old(self).holds(
                old(guard).spec_target() as int,
                old(guard).spec_saved().len() as int,
            ) ==> {
                &&& r is Ok
                &&& !final(guard).spec_active()
                &&& final(guard).spec_target() == old(guard).spec_target()
                &&& final(guard).spec_saved() == old(guard).spec_saved()
                &&& final(self).spec_base() == old(self).spec_base()
                &&& final(self).spec_bytes() == overwrite(
                    old(self).spec_bytes(),
                    old(guard).spec_target() - old(self).spec_base(),
                    old(guard).spec_saved(),
                )
            },
    {
        if !guard.is_active() {
            return Ok(());
        }
        if self.offset_of(guard.target(), guard.len()).is_none() {
            return Err(PatchError::OutOfRange);
        }
        match guard.release() {
            Some(w) => self.write(&w),
            None => Ok(()),
        }
    }

    /// Where the jump at `at` leads; `None` where no jump of a trampoline starts there.
    pub fn jump_target(&self, width: Width, at: u64) -> (r: Option<u64>)
        requires
            self.wf(),
            is_address(width, at as int),
        ensures
            r is Some <==> self.holds(at as int, 0) && jump_destination(
                width,
                self.code_at(at as int),
                at as int,
            ) is Some && is_address(
                width,
                jump_destination(width, self.code_at(at as int), at as int).unwrap(),
            ),
            r is Some ==> r.unwrap() as int == jump_destination(
                width,
                self.code_at(at as int),
                at as int,
            ).unwrap(),
    {
        let off = match self.offset_of(at, 0) {
            Some(o) => o,
            None => return None,
        };
        let rest = match self.read(at, self.bytes.len() - off) {
            Some(v) => v,
            None => return None,
        };
        decode(width, rest.as_slice(), at)
    }
}

} // verus!
