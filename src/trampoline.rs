//! Building the trampoline between two addresses, and reading back where a jump leads.
use crate::jump::{
    address_limit, capacity, displacement, fits_i32, fits_i8, jump_destination,
    lemma_jump_sequence_len, lemma_pow256_values, trampoline, wrap, Width, JMP_INDIRECT,
    JMP_REL32, JMP_REL8, MODRM_EDX, MOV_EDX_IMM, REX_W,
};
use crate::le::{le_signed, le_value, lemma_pow256_monotone, pow256};
use crate::{x86, x86_64};
use vstd::prelude::*;

verus! {

/// Whether `a` is an address on a machine of width `w`.
pub open spec fn is_address(w: Width, a: int) -> bool {
    0 <= a < address_limit(w)
}

/// The first `n` bytes of `b`.
fn take_prefix<const N: usize>(b: &[u8; N], n: usize) -> (r: Vec<u8>)
    requires
        n <= N,
    ensures
        r@ == b@.subrange(0, n as int),
{
    let mut r: Vec<u8> = Vec::new();
    let mut i: usize = 0;
    while i < n
        invariant
            n <= N,
            i <= n,
            r@ == b@.subrange(0, i as int),
        decreases n - i,
    {
        r.push(b[i]);
        i = i + 1;
        assert(r@ =~= b@.subrange(0, i as int));
    }
    r
}

/// The trampoline that, written at `from`, sends control to `to`: the shortest jump that reaches.
pub fn encode(width: Width, from: u64, to: u64) -> (r: Vec<u8>)
    requires
        is_address(width, from as int),
        is_address(width, to as int),
    ensures
        r@ == trampoline(width, from as nat, to as nat),
        r@.len() <= capacity(width),
        (r@.len() == 2) == fits_i8(displacement(width, from as nat, to as nat) - 2),
        (r@.len() == capacity(width)) == (!fits_i8(displacement(width, from as nat, to as nat) - 2)
            && !fits_i32(displacement(width, from as nat, to as nat) - 5)),
{
    proof {
        lemma_pow256_values();
        lemma_jump_sequence_len(width, to as nat, displacement(width, from as nat, to as nat));
    }
    let relative: i128 = to as i128 - from as i128;
    match width {
        Width::Bits32 => {
            let wrapped: i128 = if relative >= 0x8000_0000 {
                relative - 0x1_0000_0000
            } else if relative < -0x8000_0000 {
                relative + 0x1_0000_0000
            } else {
                relative
            };
            assert(wrapped == displacement(width, from as nat, to as nat));
            let (b, n) = x86::assemble_jmp_to_address(to as u32, wrapped as i32);
            take_prefix(&b, n)
        },
        Width::Bits64 => {
            let (b, n) = x86_64::assemble_jmp_to_address(to, relative);
            take_prefix(&b, n)
        },
    }
}

/// The number spelled by `code[start..start + n]`, least significant byte first.
fn read_le(code: &[u8], start: usize, n: usize) -> (r: u64)
    requires
        n <= 8,
        start <= 2,
        start + n <= code@.len(),
    ensures
        r as int == le_value(code@.subrange(start as int, start + n)),
        r < pow256(n as nat),
{
    proof {
        lemma_pow256_values();
        reveal_with_fuel(pow256, 9);
    }
    let mut acc: u64 = 0;
    let mut i: usize = n;
    assert(code@.subrange(start + n, start + n).len() == 0);
    while i > 0
        invariant
            n <= 8,
            start <= 2,
            start + n <= code@.len(),
            i <= n,
            acc as int == le_value(code@.subrange(start + i, start + n)),
            acc < pow256((n - i) as nat),
            pow256(8) == 0x1_0000_0000_0000_0000,
        decreases i,
    {
        i = i - 1;
        let b = code[start + i];
        let ghost p = pow256((n - i - 1) as nat);
        assert(pow256((n - i) as nat) == 256 * p);
        proof {
            lemma_pow256_monotone((n - i) as nat, 8);
        }
        assert(acc * 256 + b < 256 * p) by (nonlinear_arith)
            requires
                acc < p,
                b < 256,
        ;
        proof {
            let s = code@.subrange(start + i, start + n);
            assert(s.drop_first() =~= code@.subrange(start + i + 1, start + n));
            assert(s[0] == b);
        }
        acc = acc * 256 + b as u64;
    }
    acc
}

/// `a` as the machine reaches it; on 32 bits `a` lies at most `2^32` outside the address range.
fn wrap_address(width: Width, a: i128) -> (r: i128)
    requires
        width == Width::Bits32 ==> -0x1_0000_0000 <= a < 0x2_0000_0000,
    ensures
        r == wrap(width, a as int),
{
    match width {
        Width::Bits32 => if a < 0 {
            a + 0x1_0000_0000
        } else if a >= 0x1_0000_0000 {
            a - 0x1_0000_0000
        } else {
            a
        },
        Width::Bits64 => a,
    }
}

/// Where the jump at the start of `code`, placed at address `at`, sends control: `None` where
/// `code` starts with no jump of a trampoline, or where the destination is no address.
pub fn decode(width: Width, code: &[u8], at: u64) -> (r: Option<u64>)
    requires
        is_address(width, at as int),
    ensures
        r.is_some() <==> (jump_destination(width, code@, at as int).is_some() && is_address(
            width,
            jump_destination(width, code@, at as int).unwrap(),
        )),
        r.is_some() ==> r.unwrap() as int == jump_destination(width, code@, at as int).unwrap(),
{
    proof {
        lemma_pow256_values();
    }
    let limit: i128 = match width {
        Width::Bits32 => 0x1_0000_0000,
        Width::Bits64 => 0x1_0000_0000_0000_0000,
    };
    let len = code.len();
    let dest: Option<i128> = if len >= 2 && code[0] == JMP_REL8 {
        let v = read_le(code, 1, 1);
        let s: i128 = if v < 128 {
            v as i128
        } else {
            v as i128 - 256
        };
        assert(s == le_signed(code@.subrange(1, 2)));
        Some(wrap_address(width, at as i128 + 2 + s))
    } else if len >= 5 && code[0] == JMP_REL32 {
        let v = read_le(code, 1, 4);
        let s: i128 = if v < 0x8000_0000 {
            v as i128
        } else {
            v as i128 - 0x1_0000_0000
        };
        assert(s == le_signed(code@.subrange(1, 5)));
        Some(wrap_address(width, at as i128 + 5 + s))
    } else {
        match width {
            Width::Bits32 => if len >= 7 && code[0] == MOV_EDX_IMM && code[5] == JMP_INDIRECT
                && code[6] == MODRM_EDX {
                Some(read_le(code, 1, 4) as i128)
            } else {
                None
            },
            Width::Bits64 => if len >= 12 && code[0] == REX_W && code[1] == MOV_EDX_IMM && code[10]
                == JMP_INDIRECT && code[11] == MODRM_EDX {
                Some(read_le(code, 2, 8) as i128)
            } else {
                None
            },
        }
    };
    assert(dest.is_some() == jump_destination(width, code@, at as int).is_some());
    assert(dest.is_some() ==> dest.unwrap() == jump_destination(width, code@, at as int).unwrap());
    match dest {
        Some(d) => if 0 <= d && d < limit {
            Some(d as u64)
        } else {
            None
        },
        None => None,
    }
}

} // verus!
