use guerrilla::samples::{other_question, the_ultimate_question, tiny};
use guerrilla::{CodeImage, PatchError, PatchGuard, Width};

const BASE: u64 = 0x1000;
const THE_ULTIMATE_QUESTION: u64 = 0x1000;
const OTHER_QUESTION: u64 = 0x1040;
const TINY: u64 = 0x1080;
const DEFAULT_I32: u64 = 0x10c0;
const NEAR_24: u64 = 0x1010;
const ANSWER_24: u64 = 0x1100;
const ANSWER_23: u64 = 0x1140;
const ANSWER_32: u64 = 0x1180;
const ANSWER_1: u64 = 0x11c0;
const ANSWER_42: u64 = 0x1200;

/// `mov eax, v; ret`
fn returning(v: u32) -> Vec<u8> {
    let b = v.to_le_bytes();
    vec![0xB8, b[0], b[1], b[2], b[3], 0xC3]
}

fn place(bytes: &mut [u8], at: u64, code: &[u8]) {
    let off = (at - BASE) as usize;
    bytes[off..off + code.len()].copy_from_slice(code);
}

/// A small program: each function sits in its own slot, the gaps filled with `int3`.
fn program() -> CodeImage {
    let mut bytes = vec![0xCC; 0x400];
    place(&mut bytes, THE_ULTIMATE_QUESTION, &returning(the_ultimate_question()));
    place(&mut bytes, NEAR_24, &returning(24));
    place(&mut bytes, OTHER_QUESTION, &returning(other_question()));
    place(&mut bytes, TINY, &[0xC3]);
    // xor eax, eax; ret
    place(&mut bytes, DEFAULT_I32, &[0x31, 0xC0, 0xC3]);
    assert_eq!(guerrilla::samples::default::<i32>(), 0);
    assert_eq!(tiny(), ());
    place(&mut bytes, ANSWER_24, &returning(24));
    place(&mut bytes, ANSWER_23, &returning(23));
    place(&mut bytes, ANSWER_32, &returning(32));
    place(&mut bytes, ANSWER_1, &returning(1));
    place(&mut bytes, ANSWER_42, &returning(42));
    CodeImage::new(BASE, bytes).unwrap()
}

/// What a call of the function at `entry` returns: follows the jumps the patches wrote, then
/// runs the body it lands on.
fn call(code: &CodeImage, entry: u64) -> u32 {
    let mut at = entry;
    for _ in 0..8 {
        match code.jump_target(Width::Bits64, at) {
            Some(d) => at = d,
            None => break,
        }
    }
    let body = code.read(at, 1).unwrap();
    match body[0] {
        0xB8 => {
            let v = code.read(at, 6).unwrap();
            assert_eq!(v[5], 0xC3);
            u32::from_le_bytes([v[1], v[2], v[3], v[4]])
        }
        0x31 | 0xC3 => 0,
        other => panic!("no function starts with {:#x}", other),
    }
}

fn install(code: &mut CodeImage, target: u64, replacement: u64) -> PatchGuard {
    code.install(Width::Bits64, target, replacement).unwrap()
}

#[test]
fn test_patch() {
    assert_eq!(the_ultimate_question(), 42);
    let mut code = program();
    assert_eq!(call(&code, THE_ULTIMATE_QUESTION), 42);

    {
        let mut guard = install(&mut code, THE_ULTIMATE_QUESTION, ANSWER_24);

        assert_eq!(call(&code, THE_ULTIMATE_QUESTION), 24);
        code.release(&mut guard).unwrap();
    }

    assert_eq!(call(&code, THE_ULTIMATE_QUESTION), 42);
}

#[test]
fn test_tiny() {
    let mut code = program();
    let before = code.bytes().to_vec();
    assert_eq!(call(&code, TINY), 0);

    match code.install(Width::Bits64, TINY, ANSWER_1) {
        Ok(_) => panic!("a one-byte function was patched"),
        Err(err) => {
            assert_eq!(err, PatchError::TooSmall);
            assert_eq!(err.message(), "target function is too small (1 byte) to patch");
        }
    }

    assert_eq!(call(&code, TINY), 0);
    assert_eq!(call(&code, THE_ULTIMATE_QUESTION), 42);
    assert_eq!(call(&code, OTHER_QUESTION), 23);
    assert_eq!(code.bytes(), &before[..]);
}

#[test]
fn test_out_of_order_drop() {
    let mut code = program();
    assert_eq!(call(&code, THE_ULTIMATE_QUESTION), 42);

    let mut guard_a = install(&mut code, THE_ULTIMATE_QUESTION, ANSWER_24);
    let mut guard_b = install(&mut code, THE_ULTIMATE_QUESTION, ANSWER_23);
    assert_eq!(call(&code, THE_ULTIMATE_QUESTION), 23);

    code.release(&mut guard_a).unwrap();
    assert_eq!(call(&code, THE_ULTIMATE_QUESTION), 42);

    code.release(&mut guard_b).unwrap();
    // The second guard put back what it saw: the first patch.
    assert_eq!(call(&code, THE_ULTIMATE_QUESTION), 24);

    // Mend it for good, as a forgotten patch does.
    let mut fix = install(&mut code, THE_ULTIMATE_QUESTION, ANSWER_42);
    fix.forget();
    code.release(&mut fix).unwrap();
    assert_eq!(call(&code, THE_ULTIMATE_QUESTION), 42);
}

#[test]
fn test_functions_independent() {
    assert_eq!(other_question(), 23);
    let mut code = program();
    assert_eq!(call(&code, THE_ULTIMATE_QUESTION), 42);
    assert_eq!(call(&code, OTHER_QUESTION), 23);

    {
        let mut guard = install(&mut code, THE_ULTIMATE_QUESTION, ANSWER_32);

        assert_eq!(call(&code, THE_ULTIMATE_QUESTION), 32);
        assert_eq!(call(&code, OTHER_QUESTION), 23);
        code.release(&mut guard).unwrap();
    }

    assert_eq!(call(&code, THE_ULTIMATE_QUESTION), 42);
    assert_eq!(call(&code, OTHER_QUESTION), 23);
}

#[test]
fn test_patch_generic() {
    assert_eq!(guerrilla::samples::default::<i32>(), 0);
    let mut code = program();
    assert_eq!(call(&code, DEFAULT_I32), 0);

    {
        let mut guard = install(&mut code, DEFAULT_I32, ANSWER_1);

        assert_eq!(call(&code, DEFAULT_I32), 1);
        code.release(&mut guard).unwrap();
    }

    assert_eq!(call(&code, DEFAULT_I32), 0);
}

#[test]
fn test_patch_existing_local() {
    let mut code = program();
    assert_eq!(call(&code, THE_ULTIMATE_QUESTION), 42);
    assert_eq!(call(&code, OTHER_QUESTION), 23);

    {
        let mut guard = install(&mut code, THE_ULTIMATE_QUESTION, OTHER_QUESTION);

        assert_eq!(call(&code, THE_ULTIMATE_QUESTION), 23);
        assert_eq!(call(&code, OTHER_QUESTION), 23);
        code.release(&mut guard).unwrap();
    }

    assert_eq!(call(&code, THE_ULTIMATE_QUESTION), 42);
    assert_eq!(call(&code, OTHER_QUESTION), 23);
}

#[test]
fn round_trip_restores_every_byte() {
    let mut code = program();
    let before = code.bytes().to_vec();
    let mut guard = install(&mut code, THE_ULTIMATE_QUESTION, ANSWER_24);
    assert_ne!(code.bytes(), &before[..]);
    assert_eq!(code.jump_target(Width::Bits64, THE_ULTIMATE_QUESTION), Some(ANSWER_24));
    code.release(&mut guard).unwrap();
    assert_eq!(code.bytes(), &before[..]);
    assert_eq!(code.jump_target(Width::Bits64, THE_ULTIMATE_QUESTION), None);
}

#[test]
fn patch_touches_only_its_trampoline() {
    let mut code = program();
    let before = code.bytes().to_vec();
    let guard = install(&mut code, THE_ULTIMATE_QUESTION, ANSWER_24);
    assert_eq!(guard.len(), 5);
    let after = code.bytes();
    for i in 0..before.len() {
        if i >= guard.len() {
            assert_eq!(after[i], before[i]);
        }
    }
    assert_eq!(&after[..5], &[0xE9, 0xFB, 0x00, 0x00, 0x00]);
}

#[test]
fn short_jump_to_a_near_neighbour() {
    let mut code = program();
    let mut guard = install(&mut code, THE_ULTIMATE_QUESTION, NEAR_24);
    assert_eq!(guard.len(), 2);
    assert_eq!(&code.bytes()[..2], &[0xEB, 0x0E]);
    assert_eq!(guard.saved_bytes(), &[0xB8, 0x2A]);
    assert_eq!(call(&code, THE_ULTIMATE_QUESTION), 24);
    code.release(&mut guard).unwrap();
    assert_eq!(call(&code, THE_ULTIMATE_QUESTION), 42);
}

#[test]
fn releasing_twice_reverts_once() {
    let mut code = program();
    let mut guard_a = install(&mut code, THE_ULTIMATE_QUESTION, ANSWER_24);
    let mut guard_b = install(&mut code, THE_ULTIMATE_QUESTION, ANSWER_23);
    code.release(&mut guard_b).unwrap();
    assert_eq!(call(&code, THE_ULTIMATE_QUESTION), 24);
    assert!(!guard_b.is_active());
    // A second release of the spent guard must not write its bytes again.
    code.install(Width::Bits64, THE_ULTIMATE_QUESTION, ANSWER_32).unwrap().forget();
    code.release(&mut guard_b).unwrap();
    assert_eq!(call(&code, THE_ULTIMATE_QUESTION), 32);
    assert_eq!(guard_a.release().is_some(), true);
    assert!(guard_a.release().is_none());
}

#[test]
fn every_return_opcode_is_refused() {
    for op in [0xC3u8, 0xCB, 0xC2, 0xCA] {
        let mut bytes = vec![0xCC; 0x40];
        bytes[0] = op;
        let mut code = CodeImage::new(BASE, bytes.clone()).unwrap();
        assert_eq!(code.install(Width::Bits64, BASE, BASE + 0x20).err(), Some(PatchError::TooSmall));
        assert_eq!(code.bytes(), &bytes[..]);
    }
}

#[test]
fn target_too_close_to_the_end_is_out_of_range() {
    let mut code = CodeImage::new(BASE, vec![0x90; 16]).unwrap();
    assert_eq!(code.install(Width::Bits64, BASE + 5, BASE).err(), Some(PatchError::OutOfRange));
    assert_eq!(code.install(Width::Bits64, BASE - 1, BASE).err(), Some(PatchError::OutOfRange));
    assert!(code.install(Width::Bits64, BASE + 4, BASE).is_ok());
    assert_eq!(code.install(Width::Bits32, BASE + 10, BASE).err(), Some(PatchError::OutOfRange));
    assert_eq!(PatchError::OutOfRange.message(), "patch lies outside the code region");
}

#[test]
fn image_must_fit_the_address_space() {
    assert!(CodeImage::new(u64::MAX - 3, vec![0; 4]).is_some());
    assert!(CodeImage::new(u64::MAX - 3, vec![0; 5]).is_none());
    let code = CodeImage::new(0x10, vec![1, 2, 3]).unwrap();
    assert_eq!(code.base(), 0x10);
    assert_eq!(code.read(0x11, 2), Some(vec![2, 3]));
    assert_eq!(code.read(0x11, 3), None);
    assert_eq!(code.read(0x0f, 1), None);
}

#[test]
fn write_copies_in_place() {
    let mut code = CodeImage::new(0x10, vec![0; 6]).unwrap();
    let w = guerrilla::Write { address: 0x12, bytes: vec![7, 8] };
    assert!(code.write(&w).is_ok());
    assert_eq!(code.bytes(), &[0, 0, 7, 8, 0, 0]);
    let far = guerrilla::Write { address: 0x15, bytes: vec![1, 1] };
    assert_eq!(code.write(&far), Err(PatchError::OutOfRange));
    assert_eq!(code.bytes(), &[0, 0, 7, 8, 0, 0]);
}

#[test]
fn patch_at_32_bits() {
    let mut code = program();
    let mut guard = code.install(Width::Bits32, THE_ULTIMATE_QUESTION, ANSWER_24).unwrap();
    assert_eq!(guard.len(), 5);
    assert_eq!(code.jump_target(Width::Bits32, THE_ULTIMATE_QUESTION), Some(ANSWER_24));
    code.release(&mut guard).unwrap();
    assert_eq!(code.jump_target(Width::Bits32, THE_ULTIMATE_QUESTION), None);
}

#[test]
fn prepare_saves_what_it_overwrites() {
    let original = [0x55, 0x48, 0x89, 0xE5, 0x8B, 0x05, 1, 2, 3, 4, 5, 6];
    let (guard, write) = PatchGuard::prepare(Width::Bits64, 0x4000, 0x4100, &original).unwrap();
    assert_eq!(write.address, 0x4000);
    assert_eq!(write.bytes, vec![0xE9, 0xFB, 0x00, 0x00, 0x00]);
    assert_eq!(guard.target(), 0x4000);
    assert_eq!(guard.saved_bytes(), &original[..5]);
    assert!(guard.is_active());

    let far = 0x7fff_0000_1234_5678u64;
    let (guard, write) = PatchGuard::prepare(Width::Bits64, 0x4000, far, &original).unwrap();
    assert_eq!(
        write.bytes,
        vec![0x48, 0xBA, 0x78, 0x56, 0x34, 0x12, 0x00, 0x00, 0xff, 0x7f, 0xFF, 0xE2]
    );
    assert_eq!(guard.saved_bytes(), &original[..]);

    let ret = [0xC3, 0, 0, 0, 0, 0, 0];
    assert!(matches!(
        PatchGuard::prepare(Width::Bits32, 0x4000, 0x4100, &ret),
        Err(PatchError::TooSmall)
    ));
}
