//! The jump instructions that a trampoline is made of, what they encode, and where they lead.
use crate::le::{
    le_bytes, le_signed, le_u32, le_value, lemma_le_bytes_len, lemma_le_round_trip,
    lemma_signed_round_trip, pow256, twos,
};
use vstd::prelude::*;

verus! {

/// `jmp rel8`: a jump by a signed 8-bit displacement.
pub const JMP_REL8: u8 = 0xEB;

/// `jmp rel32`: a jump by a signed 32-bit displacement.
pub const JMP_REL32: u8 = 0xE9;

/// `mov edx, imm` (with `REX_W` in front: `movabs rdx, imm64`).
pub const MOV_EDX_IMM: u8 = 0xBA;

/// The prefix that widens the following move to 64 bits.
pub const REX_W: u8 = 0x48;

/// First byte of `jmp edx` / `jmp rdx`.
pub const JMP_INDIRECT: u8 = 0xFF;

/// Second byte of `jmp edx` / `jmp rdx`: the register operand.
pub const MODRM_EDX: u8 = 0xE2;

/// The address width of the machine whose code is patched.
#[derive(Clone, Copy, Debug, PartialEq, Eq, Structural)]
pub enum Width {
    /// 32-bit addresses (x86).
    Bits32,
    /// 64-bit addresses (x86-64).
    Bits64,
}

/// One past the largest address.
pub open spec fn address_limit(w: Width) -> nat {
    match w {
        Width::Bits32 => 0x1_0000_0000,
        Width::Bits64 => 0x1_0000_0000_0000_0000,
    }
}

/// The longest trampoline: the absolute form.
pub open spec fn capacity(w: Width) -> nat {
    match w {
        Width::Bits32 => 7,
        Width::Bits64 => 12,
    }
}

pub open spec fn fits_i8(v: int) -> bool {
    -128 <= v <= 127
}

pub open spec fn fits_i32(v: int) -> bool {
    -0x8000_0000 <= v <= 0x7fff_ffff
}

/// `jmp rel8` by the displacement `d`, counted from the end of the instruction.
pub open spec fn short_jump(d: int) -> Seq<u8> {
    seq![JMP_REL8] + le_bytes(twos(d, 1), 1)
}

/// `jmp rel32` by the displacement `d`, counted from the end of the instruction.
pub open spec fn near_jump(d: int) -> Seq<u8> {
    seq![JMP_REL32] + le_bytes(twos(d, 4), 4)
}

/// Load `address` into the scratch register and jump through it.
pub open spec fn absolute_jump(w: Width, address: nat) -> Seq<u8> {
    match w {
        Width::Bits32 => seq![MOV_EDX_IMM] + le_bytes(address, 4) + seq![JMP_INDIRECT, MODRM_EDX],
        Width::Bits64 => seq![REX_W, MOV_EDX_IMM] + le_bytes(address, 8) + seq![
            JMP_INDIRECT,
            MODRM_EDX,
        ],
    }
}

/// The shortest jump to `address`, which lies `relative` bytes from the jump's own start.
pub open spec fn jump_sequence(w: Width, address: nat, relative: int) -> Seq<u8> {
    if fits_i8(relative - 2) {
        short_jump(relative - 2)
    } else if fits_i32(relative - 5) {
        near_jump(relative - 5)
    } else {
        absolute_jump(w, address)
    }
}

/// An address as the machine reaches it: on 32 bits addresses wrap around.
pub open spec fn wrap(w: Width, a: int) -> int {
    match w {
        Width::Bits32 => a % 0x1_0000_0000,
        Width::Bits64 => a,
    }
}

/// How far `to` lies from `from` for a relative jump: the plain difference on 64 bits; on 32
/// bits the difference modulo `2^32`, taken into the signed 32-bit range.
pub open spec fn displacement(w: Width, from: nat, to: nat) -> int {
    match w {
        Width::Bits32 => {
            let d = (to - from) % 0x1_0000_0000;
            if d < 0x8000_0000 {
                d
            } else {
                d - 0x1_0000_0000
            }
        },
        Width::Bits64 => to - from,
    }
}

/// The trampoline that, placed at `from`, sends control to `to`.
pub open spec fn trampoline(w: Width, from: nat, to: nat) -> Seq<u8> {
    jump_sequence(w, to, displacement(w, from, to))
}

/// Where the jump that `code` starts with, placed at address `at`, sends control; `None` where
/// `code` does not start with one of the jumps above.
pub open spec fn jump_destination(w: Width, code: Seq<u8>, at: int) -> Option<int> {
    if code.len() >= 2 && code[0] == JMP_REL8 {
        Some(wrap(w, at + 2 + le_signed(code.subrange(1, 2))))
    } else if code.len() >= 5 && code[0] == JMP_REL32 {
        Some(wrap(w, at + 5 + le_signed(code.subrange(1, 5))))
    } else {
        match w {
            Width::Bits32 => if code.len() >= 7 && code[0] == MOV_EDX_IMM && code[5] == JMP_INDIRECT
                && code[6] == MODRM_EDX {
                Some(le_value(code.subrange(1, 5)) as int)
            } else {
                None
            },
            Width::Bits64 => if code.len() >= 12 && code[0] == REX_W && code[1] == MOV_EDX_IMM
                && code[10] == JMP_INDIRECT && code[11] == MODRM_EDX {
                Some(le_value(code.subrange(2, 10)) as int)
            } else {
                None
            },
        }
    }
}

/// The byte of a displacement that fits in 8 signed bits.
pub fn displacement8(d: i128) -> (r: u8)
    requires
        fits_i8(d as int),
    ensures
        seq![r] == le_bytes(twos(d as int, 1), 1),
{
    proof {
        lemma_pow256_values();
        reveal_with_fuel(le_bytes, 2);
    }
    let r = if d >= 0 {
        d as u8
    } else {
        (d + 256) as u8
    };
    assert(seq![r] =~= le_bytes(twos(d as int, 1), 1));
    r
}

/// The four bytes of a displacement that fits in 32 signed bits.
pub fn displacement32(d: i128) -> (r: [u8; 4])
    requires
        fits_i32(d as int),
    ensures
        r@ == le_bytes(twos(d as int, 4), 4),
{
    proof {
        lemma_pow256_values();
    }
    let u: u32 = if d >= 0 {
        d as u32
    } else {
        (d + 0x1_0000_0000) as u32
    };
    le_u32(u)
}

pub proof fn lemma_pow256_values()
    ensures
        pow256(1) == 256,
        pow256(4) == 0x1_0000_0000,
        pow256(8) == 0x1_0000_0000_0000_0000,
{
    reveal_with_fuel(pow256, 9);
}

/// The length of each jump form.
pub proof fn lemma_jump_sequence_len(w: Width, address: nat, relative: int)
    ensures
        jump_sequence(w, address, relative).len() == if fits_i8(relative - 2) {
            2
        } else if fits_i32(relative - 5) {
            5
        } else {
            capacity(w) as int
        },
        jump_sequence(w, address, relative).len() <= capacity(w),
{
    lemma_le_bytes_len(twos(relative - 2, 1), 1);
    lemma_le_bytes_len(twos(relative - 5, 4), 4);
    lemma_le_bytes_len(address, 4);
    lemma_le_bytes_len(address, 8);
}

pub proof fn lemma_trampoline_len(w: Width, from: nat, to: nat)
    ensures
        trampoline(w, from, to).len() <= capacity(w),
{
    lemma_jump_sequence_len(w, to, displacement(w, from, to));
}

/// A trampoline leads where it was made to lead, whatever bytes follow it.
pub proof fn lemma_trampoline_reaches(w: Width, from: nat, to: nat, code: Seq<u8>)
    requires
        from < address_limit(w),
        to < address_limit(w),
        trampoline(w, from, to).len() <= code.len(),
        code.subrange(0, trampoline(w, from, to).len() as int) == trampoline(w, from, to),
    ensures
        jump_destination(w, code, from as int) == Some(to as int),
{
    let t = trampoline(w, from, to);
    let rel = displacement(w, from, to);
    lemma_pow256_values();
    lemma_jump_sequence_len(w, to, rel);
    assert(code[0] == t[0]);
    if fits_i8(rel - 2) {
        lemma_le_bytes_len(twos(rel - 2, 1), 1);
        lemma_signed_round_trip(rel - 2, 1);
        assert(code.subrange(1, 2) =~= t.subrange(1, 2));
        assert(t.subrange(1, 2) =~= le_bytes(twos(rel - 2, 1), 1));
    } else if fits_i32(rel - 5) {
        lemma_le_bytes_len(twos(rel - 5, 4), 4);
        lemma_signed_round_trip(rel - 5, 4);
        assert(code.subrange(1, 5) =~= t.subrange(1, 5));
        assert(t.subrange(1, 5) =~= le_bytes(twos(rel - 5, 4), 4));
    } else {
        match w {
            Width::Bits32 => {
                lemma_le_bytes_len(to, 4);
                lemma_le_round_trip(to, 4);
                assert(code[5] == t[5] && code[6] == t[6]);
                assert(t.subrange(1, 5) =~= le_bytes(to, 4));
                assert(code.subrange(1, 5) =~= t.subrange(1, 5));
            },
            Width::Bits64 => {
                lemma_le_bytes_len(to, 8);
                lemma_le_round_trip(to, 8);
                assert(code[1] == t[1] && code[10] == t[10] && code[11] == t[11]);
                assert(t.subrange(2, 10) =~= le_bytes(to, 8));
                assert(code.subrange(2, 10) =~= t.subrange(2, 10));
            },
        }
    }
}

} // verus!
