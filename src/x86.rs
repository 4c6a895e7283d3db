//! Trampolines for 32-bit addresses.
use crate::jump::{
    displacement32, displacement8, fits_i32, fits_i8, jump_sequence, lemma_jump_sequence_len,
    Width, JMP_INDIRECT, JMP_REL32, JMP_REL8, MODRM_EDX, MOV_EDX_IMM,
};
use crate::le::{le_u32, lemma_le_bytes_len, twos};
use vstd::prelude::*;

verus! {

/// The longest jump on this width: `mov edx, imm32; jmp edx`.
pub const JMP_MAX_SIZE: usize = 7;

/// The shortest jump to `address`, which lies `relative` bytes past the jump's own first byte
/// (modulo `2^32`). The jump takes the first `r.1` bytes of `r.0`; the rest are zero. Every
/// displacement but the five lowest has a relative form.
pub fn assemble_jmp_to_address(address: u32, relative: i32) -> (r: ([u8; JMP_MAX_SIZE], usize))
    ensures
        r.1 <= JMP_MAX_SIZE,
        r.0@.subrange(0, r.1 as int) == jump_sequence(Width::Bits32, address as nat, relative as int),
        forall|i: int| r.1 <= i < JMP_MAX_SIZE ==> r.0@[i] == 0,
        (r.1 == 2) == fits_i8(relative - 2),
        (r.1 == 5) == (!fits_i8(relative - 2) && fits_i32(relative - 5)),
        (r.1 == JMP_MAX_SIZE) == (!fits_i8(relative - 2) && !fits_i32(relative - 5)),
{
    proof {
        lemma_jump_sequence_len(Width::Bits32, address as nat, relative as int);
    }
    if -126 <= relative && relative <= 129 {
        let d = displacement8(relative as i128 - 2);
        let r = [JMP_REL8, d, 0, 0, 0, 0, 0];
        proof {
            lemma_le_bytes_len(twos(relative - 2, 1), 1);
            assert(r@.subrange(0, 2) =~= seq![JMP_REL8] + seq![d]);
        }
        (r, 2)
    } else if -0x7fff_fffb <= relative {
        let d = displacement32(relative as i128 - 5);
        let r = [JMP_REL32, d[0], d[1], d[2], d[3], 0, 0];
        proof {
            assert(r@.subrange(0, 5) =~= seq![JMP_REL32] + d@);
        }
        (r, 5)
    } else {
        let a = le_u32(address);
        let r = [MOV_EDX_IMM, a[0], a[1], a[2], a[3], JMP_INDIRECT, MODRM_EDX];
        proof {
            assert(r@.subrange(0, 7) =~= seq![MOV_EDX_IMM] + a@ + seq![JMP_INDIRECT, MODRM_EDX]);
        }
        (r, JMP_MAX_SIZE)
    }
}

} // verus!
