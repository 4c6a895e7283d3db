use guerrilla::page::page_start;
use guerrilla::trampoline::{decode, encode};
use guerrilla::{x86, x86_64, Width};

#[test]
fn short_jump_at_the_edges_of_eight_bits() {
    assert_eq!(x86_64::assemble_jmp_to_address(0, 2), ([0xEB, 0x00, 0, 0, 0, 0, 0, 0, 0, 0, 0, 0], 2));
    assert_eq!(x86_64::assemble_jmp_to_address(0, 129).1, 2);
    assert_eq!(x86_64::assemble_jmp_to_address(0, 129).0[1], 0x7F);
    assert_eq!(x86_64::assemble_jmp_to_address(0, -126).0[..2], [0xEB, 0x80]);
    assert_eq!(x86_64::assemble_jmp_to_address(0, 0).0[..2], [0xEB, 0xFE]);
}

#[test]
fn near_jump_just_past_eight_bits() {
    let (b, n) = x86_64::assemble_jmp_to_address(0, 130);
    assert_eq!(n, 5);
    assert_eq!(b[..5], [0xE9, 0x7D, 0x00, 0x00, 0x00]);
    assert!(b[5..].iter().all(|&x| x == 0));
    let (b, n) = x86_64::assemble_jmp_to_address(0, -127);
    assert_eq!(n, 5);
    assert_eq!(b[..5], [0xE9, 0x7C, 0xFF, 0xFF, 0xFF]);
}

#[test]
fn absolute_jump_only_past_thirty_two_bits() {
    let (b, n) = x86_64::assemble_jmp_to_address(0, 0x8000_0004);
    assert_eq!(n, 5);
    assert_eq!(b[..5], [0xE9, 0xFF, 0xFF, 0xFF, 0x7F]);
    let (b, n) = x86_64::assemble_jmp_to_address(0x1122_3344_5566_7788, 0x8000_0005);
    assert_eq!(n, x86_64::JMP_MAX_SIZE);
    assert_eq!(b, [0x48, 0xBA, 0x88, 0x77, 0x66, 0x55, 0x44, 0x33, 0x22, 0x11, 0xFF, 0xE2]);
    let (b, n) = x86_64::assemble_jmp_to_address(0, -0x7fff_fffb);
    assert_eq!(n, 5);
    assert_eq!(b[..5], [0xE9, 0x00, 0x00, 0x00, 0x80]);
    assert_eq!(x86_64::assemble_jmp_to_address(0, -0x7fff_fffc).1, 12);
}

#[test]
fn thirty_two_bit_forms() {
    assert_eq!(x86::assemble_jmp_to_address(0, 10), ([0xEB, 0x08, 0, 0, 0, 0, 0], 2));
    assert_eq!(x86::assemble_jmp_to_address(0, 1000), ([0xE9, 0xE3, 0x03, 0, 0, 0, 0], 5));
    assert_eq!(
        x86::assemble_jmp_to_address(0xDEAD_BEEF, i32::MIN),
        ([0xBA, 0xEF, 0xBE, 0xAD, 0xDE, 0xFF, 0xE2], x86::JMP_MAX_SIZE)
    );
    assert_eq!(
        x86::assemble_jmp_to_address(0, i32::MIN + 5),
        ([0xE9, 0x00, 0x00, 0x00, 0x80, 0, 0], 5)
    );
    assert_eq!(x86::assemble_jmp_to_address(0, i32::MAX).1, 5);
}

#[test]
fn encode_then_decode_reaches_the_replacement() {
    for (from, to) in [
        (0x1000u64, 0x1010u64),
        (0x1010, 0x1000),
        (0x1000, 0x9000),
        (0x9000, 0x1000),
        (0x10, 0x7000_0000_0000),
        (0x7000_0000_0000, 0x10),
    ] {
        let t = encode(Width::Bits64, from, to);
        assert_eq!(decode(Width::Bits64, &t, from), Some(to));
    }
    // On 32 bits a relative jump reaches across the wrap of the address space.
    let t = encode(Width::Bits32, 0x10, 0xF000_0000);
    assert_eq!(t, vec![0xE9, 0xEB, 0xFF, 0xFF, 0xEF]);
    assert_eq!(decode(Width::Bits32, &t, 0x10), Some(0xF000_0000));
    let t = encode(Width::Bits32, 0xFFFF_FFF0, 0x10);
    assert_eq!(t, vec![0xEB, 0x1E]);
    assert_eq!(decode(Width::Bits32, &t, 0xFFFF_FFF0), Some(0x10));
    let t = encode(Width::Bits32, 0x10, 0x8000_0011);
    assert_eq!(t.len(), 7);
    assert_eq!(decode(Width::Bits32, &t, 0x10), Some(0x8000_0011));
    assert_eq!(encode(Width::Bits64, 0x1000, 0x1010), vec![0xEB, 0x0E]);
}

#[test]
fn decode_refuses_what_is_no_jump() {
    assert_eq!(decode(Width::Bits64, &[0x90, 0x90], 0x100), None);
    assert_eq!(decode(Width::Bits64, &[0xEB], 0x100), None);
    assert_eq!(decode(Width::Bits64, &[0xE9, 0, 0], 0x100), None);
    // A jump that would leave the address space.
    assert_eq!(decode(Width::Bits64, &[0xEB, 0x80], 0x10), None);
    // A 64-bit absolute jump is not one on 32 bits.
    let abs = [0x48, 0xBA, 1, 0, 0, 0, 0, 0, 0, 0, 0xFF, 0xE2];
    assert_eq!(decode(Width::Bits64, &abs, 0), Some(1));
    assert_eq!(decode(Width::Bits32, &abs, 0), None);
}

#[test]
fn page_start_clears_the_low_bits() {
    assert_eq!(page_start(0x1234_5678, 0x1000), 0x1234_5000);
    assert_eq!(page_start(0x1000, 0x1000), 0x1000);
    assert_eq!(page_start(0xFFF, 0x1000), 0);
}
