//! What holds of patches over the memory they are written into.
use crate::image::overwrite;
use crate::jump::{
    address_limit, capacity, jump_destination, lemma_trampoline_len, lemma_trampoline_reaches,
    trampoline, Width,
};
use vstd::prelude::*;

verus! {

/// A trampoline written at offset `off` of `mem` leads, from `target`, to `to`.
proof fn lemma_written_trampoline_reaches(
    w: Width,
    mem: Seq<u8>,
    off: int,
    target: nat,
    to: nat,
    t_mem: Seq<u8>,
)
    requires
        target < address_limit(w),
        to < address_limit(w),
        0 <= off,
        off + capacity(w) <= mem.len(),
        t_mem.len() == mem.len(),
        t_mem.subrange(off, off + trampoline(w, target, to).len()) == trampoline(w, target, to),
    ensures
        jump_destination(w, t_mem.subrange(off, t_mem.len() as int), target as int) == Some(
            to as int,
        ),
{
    let t = trampoline(w, target, to);
    lemma_trampoline_len(w, target, to);
    let code = t_mem.subrange(off, t_mem.len() as int);
    assert(code.subrange(0, t.len() as int) =~= t_mem.subrange(off, off + t.len()));
    lemma_trampoline_reaches(w, target, to, code);
}

/// Installing a patch and then releasing it: while the patch is in place, control entering the
/// target is sent to the replacement; once the saved bytes are written back, every byte is as
/// it was before the patch.
pub proof fn lemma_patch_round_trip(
    w: Width,
    mem: Seq<u8>,
    off: int,
    target: nat,
    replacement: nat,
)
    requires
        target < address_limit(w),
        replacement < address_limit(w),
        0 <= off,
        off + capacity(w) <= mem.len(),
    ensures
        ({
            let t = trampoline(w, target, replacement);
            let patched = overwrite(mem, off, t);
            &&& jump_destination(w, patched.subrange(off, patched.len() as int), target as int)
                == Some(replacement as int)
            &&& overwrite(patched, off, mem.subrange(off, off + t.len())) == mem
        }),
{
    let t = trampoline(w, target, replacement);
    lemma_trampoline_len(w, target, replacement);
    let patched = overwrite(mem, off, t);
    assert(patched.subrange(off, off + t.len()) =~= t);
    lemma_written_trampoline_reaches(w, mem, off, target, replacement, patched);
    assert(overwrite(patched, off, mem.subrange(off, off + t.len())) =~= mem);
}

/// A patch leaves alone every byte outside its own trampoline: code that does not overlap
/// the trampoline reads the same while the patch is in place.
pub proof fn lemma_patch_isolated(
    w: Width,
    mem: Seq<u8>,
    off: int,
    target: nat,
    replacement: nat,
    other: int,
    len: int,
)
    requires
        target < address_limit(w),
        replacement < address_limit(w),
        0 <= off,
        off + capacity(w) <= mem.len(),
        0 <= other,
        0 <= len,
        other + len <= mem.len(),
        other + len <= off || off + trampoline(w, target, replacement).len() <= other,
    ensures
        overwrite(mem, off, trampoline(w, target, replacement)).subrange(other, other + len)
            == mem.subrange(other, other + len),
{
    assert(overwrite(mem, off, trampoline(w, target, replacement)).subrange(other, other + len)
        =~= mem.subrange(other, other + len));
}

/// Two patches on one target, released in the order they were made: releasing the first
/// writes back the original bytes it saved, and releasing the second then writes back what it
/// saved, which is the first patch's trampoline. Where the second trampoline is no longer than
/// the first, the first release restores the original exactly; where it is no shorter, the
/// code ends up jumping to the first replacement again.
pub proof fn lemma_out_of_order_release(
    w: Width,
    mem: Seq<u8>,
    off: int,
    target: nat,
    first: nat,
    second: nat,
)
    requires
        target < address_limit(w),
        first < address_limit(w),
        second < address_limit(w),
        0 <= off,
        off + capacity(w) <= mem.len(),
    ensures
        ({
            let ta = trampoline(w, target, first);
            let tb = trampoline(w, target, second);
            let after_a = overwrite(mem, off, ta);
            let saved_a = mem.subrange(off, off + ta.len());
            let after_b = overwrite(after_a, off, tb);
            let saved_b = after_a.subrange(off, off + tb.len());
            let released_a = overwrite(after_b, off, saved_a);
            let released_b = overwrite(released_a, off, saved_b);
            &&& tb.len() <= ta.len() ==> released_a == mem
            &&& released_b.subrange(off, off + tb.len()) == after_a.subrange(off, off + tb.len())
            &&& ta.len() <= tb.len() ==> jump_destination(
                w,
                released_b.subrange(off, released_b.len() as int),
                target as int,
            ) == Some(first as int)
        }),
{
    let ta = trampoline(w, target, first);
    let tb = trampoline(w, target, second);
    lemma_trampoline_len(w, target, first);
    lemma_trampoline_len(w, target, second);
    let after_a = overwrite(mem, off, ta);
    let saved_a = mem.subrange(off, off + ta.len());
    let after_b = overwrite(after_a, off, tb);
    let saved_b = after_a.subrange(off, off + tb.len());
    let released_a = overwrite(after_b, off, saved_a);
    let released_b = overwrite(released_a, off, saved_b);
    if tb.len() <= ta.len() {
        assert(released_a =~= mem);
    }
    assert(released_b.subrange(off, off + tb.len()) =~= after_a.subrange(off, off + tb.len()));
    if ta.len() <= tb.len() {
        assert(released_b.subrange(off, off + ta.len()) =~= ta);
        lemma_written_trampoline_reaches(w, mem, off, target, first, released_b);
    }
}

} // verus!
