use stackwalk::context::{MinidumpContext, MinidumpMemory};
use stackwalk::frame::{Declined, StackFrame, Trust};
use stackwalk::modules::{MinidumpModule, MinidumpModuleList};
use stackwalk::pointer::pread_ptr;
use stackwalk::stackwalk::{
    get_next_frame_via_cfi, get_next_frame_via_frame_pointer, get_next_frame_via_scan,
    instruction_is_valid, walkies,
};

const STACK_BASE: u64 = 0x1000;
const CODE_BASE: u64 = 0x40_0000;
const CODE_SIZE: u64 = 0x10_0000;

fn code_modules() -> MinidumpModuleList {
    MinidumpModuleList::new(vec![MinidumpModule::new(
        CODE_BASE,
        CODE_SIZE,
        "libfoo.so".to_string(),
    )])
}

fn put64(bytes: &mut [u8], offset: usize, v: u64) {
    bytes[offset..offset + 8].copy_from_slice(&v.to_le_bytes());
}

fn put32(bytes: &mut [u8], offset: usize, v: u32) {
    bytes[offset..offset + 4].copy_from_slice(&v.to_le_bytes());
}

fn memory(bytes: Vec<u8>) -> MinidumpMemory {
    MinidumpMemory::new(STACK_BASE, bytes).unwrap()
}

fn ctx64(fp: u64, sp: u64, ip: u64) -> MinidumpContext {
    MinidumpContext::new(fp, sp, ip, true)
}

#[test]
fn pread_round_trips_both_widths() {
    for offset in 0..9usize {
        let mut bytes = vec![0xAAu8; 24];
        put64(&mut bytes, offset, 0x1122_3344_5566_7788);
        assert_eq!(pread_ptr(&bytes, offset as u64, true), Ok(0x1122_3344_5566_7788));
        let mut bytes = vec![0x55u8; 24];
        put32(&mut bytes, offset, 0xDEAD_BEEF);
        assert_eq!(pread_ptr(&bytes, offset as u64, false), Ok(0xDEAD_BEEF));
    }
}

#[test]
fn pread_decodes_little_endian_not_the_offset() {
    let bytes = vec![0u8, 0, 0x01, 0x02, 0x03, 0x04, 0x05, 0x06, 0x07, 0x08];
    assert_eq!(pread_ptr(&bytes, 2, true), Ok(0x0807_0605_0403_0201));
    assert_eq!(pread_ptr(&bytes, 2, false), Ok(0x0403_0201));
}

#[test]
fn pread_fails_past_the_end() {
    let bytes = vec![0u8; 16];
    assert_eq!(pread_ptr(&bytes, 8, true), Ok(0));
    assert_eq!(pread_ptr(&bytes, 9, true), Err(Declined::OutOfBounds));
    assert_eq!(pread_ptr(&bytes, 12, false), Ok(0));
    assert_eq!(pread_ptr(&bytes, 13, false), Err(Declined::OutOfBounds));
    assert_eq!(pread_ptr(&bytes, 16, false), Err(Declined::OutOfBounds));
    assert_eq!(pread_ptr(&bytes, u64::MAX, true), Err(Declined::OutOfBounds));
    assert_eq!(pread_ptr(&[], 0, false), Err(Declined::OutOfBounds));
}

#[test]
fn module_lookup_takes_first_covering() {
    let mods = MinidumpModuleList::new(vec![
        MinidumpModule::new(0x100, 0x10, "a".to_string()),
        MinidumpModule::new(0x108, 0x10, "b".to_string()),
    ]);
    assert_eq!(mods.module_at_address(0x100).unwrap().code_file(), "a");
    assert_eq!(mods.module_at_address(0x10c).unwrap().code_file(), "a");
    assert_eq!(mods.module_at_address(0x110).unwrap().code_file(), "b");
    assert!(mods.module_at_address(0x118).is_none());
    assert!(mods.module_at_address(0xff).is_none());
    assert!(instruction_is_valid(0x117, &mods));
    assert!(!instruction_is_valid(0x118, &mods));
}

#[test]
fn memory_range_must_fit_address_space() {
    assert!(MinidumpMemory::new(u64::MAX - 3, vec![0u8; 4]).is_none());
    let m = MinidumpMemory::new(u64::MAX - 4, vec![0u8; 4]).unwrap();
    assert_eq!(m.size, 4);
}

#[test]
fn cfi_always_declines() {
    let mem = memory(vec![0u8; 64]);
    let frame = StackFrame::new(STACK_BASE, STACK_BASE, 0, Trust::Context);
    let r = get_next_frame_via_cfi(&frame, &ctx64(0, 0, 0), &mem, &code_modules());
    assert_eq!(r.err(), Some(Declined::Unsupported));
}

#[test]
fn frame_pointer_follows_saved_base() {
    let mut bytes = vec![0u8; 64];
    put64(&mut bytes, 16, STACK_BASE + 48);
    put64(&mut bytes, 24, CODE_BASE + 0x20);
    let mem = memory(bytes);
    let frame = StackFrame::new(STACK_BASE + 16, STACK_BASE + 8, 7, Trust::Context);
    let f = get_next_frame_via_frame_pointer(&frame, &ctx64(0, 0, 0), &mem, &code_modules()).unwrap();
    assert_eq!(f.start_of_frame, STACK_BASE + 48);
    assert_eq!(f.end_of_frame, STACK_BASE + 64);
    assert_eq!(f.instruction, CODE_BASE + 0x20);
    assert_eq!(f.trust, Trust::FramePointer);
    assert_eq!(f.module_name, "");
}

#[test]
fn frame_pointer_32bit_uses_four_byte_slots() {
    let mut bytes = vec![0u8; 32];
    put32(&mut bytes, 8, (STACK_BASE + 20) as u32);
    put32(&mut bytes, 12, 0x1234);
    let mem = memory(bytes);
    let frame = StackFrame::new(STACK_BASE + 8, STACK_BASE + 4, 0, Trust::Context);
    let ctx = MinidumpContext::new(0, 0, 0, false);
    let f = get_next_frame_via_frame_pointer(&frame, &ctx, &mem, &code_modules()).unwrap();
    assert_eq!(f.start_of_frame, STACK_BASE + 20);
    assert_eq!(f.end_of_frame, STACK_BASE + 28);
    assert_eq!(f.instruction, 0x1234);
}

#[test]
fn frame_pointer_rejects_bad_bases() {
    let mods = code_modules();
    let frame = StackFrame::new(STACK_BASE + 16, STACK_BASE + 8, 0, Trust::Context);
    let cases: [(u64, Declined); 3] = [
        (STACK_BASE + 8, Declined::Unvalidated),
        (STACK_BASE + 72, Declined::Unvalidated),
        (STACK_BASE + 20, Declined::Misaligned),
    ];
    for (saved, expected) in cases {
        let mut bytes = vec![0u8; 64];
        put64(&mut bytes, 16, saved);
        let r = get_next_frame_via_frame_pointer(&frame, &ctx64(0, 0, 0), &memory(bytes), &mods);
        assert_eq!(r.err(), Some(expected));
    }
    let mut bytes = vec![0u8; 64];
    put64(&mut bytes, 16, STACK_BASE + 64);
    let f = get_next_frame_via_frame_pointer(&frame, &ctx64(0, 0, 0), &memory(bytes), &mods).unwrap();
    assert_eq!(f.start_of_frame, STACK_BASE + 64);
}

#[test]
fn frame_pointer_out_of_bounds() {
    let mods = code_modules();
    let mem = memory(vec![0u8; 64]);
    for start in [STACK_BASE - 8, STACK_BASE + 56, STACK_BASE + 64, u64::MAX] {
        let frame = StackFrame::new(start, 0, 0, Trust::Context);
        let r = get_next_frame_via_frame_pointer(&frame, &ctx64(0, 0, 0), &mem, &mods);
        assert_eq!(r.err(), Some(Declined::OutOfBounds));
    }
}

#[test]
fn frame_pointer_results_stay_valid_on_noise() {
    let mods = code_modules();
    let mut seed: u64 = 0x9E37_79B9_7F4A_7C15;
    for round in 0..2000u64 {
        let mut bytes = vec![0u8; 64];
        for b in bytes.iter_mut() {
            seed = seed.wrapping_mul(6364136223846793005).wrapping_add(1442695040888963407);
            *b = (seed >> 56) as u8;
        }
        // Some rounds plant a plausible base so that successes occur.
        if round % 3 == 0 {
            let at = ((seed >> 8) % 7) as usize * 8;
            put64(&mut bytes, at, STACK_BASE + ((seed >> 20) % 72));
        }
        let is_64bit = round % 2 == 0;
        let width = if is_64bit { 8 } else { 4 };
        let mem = memory(bytes);
        let top = STACK_BASE + 64;
        let start = STACK_BASE + (seed >> 32) % 72;
        let frame = StackFrame::new(start, start, 0, Trust::Context);
        let ctx = MinidumpContext::new(0, 0, 0, is_64bit);
        if let Ok(f) = get_next_frame_via_frame_pointer(&frame, &ctx, &mem, &mods) {
            assert!(f.start_of_frame >= start);
            assert!(f.start_of_frame <= top);
            assert_eq!(f.start_of_frame % width, 0);
        }
    }
}

#[test]
fn scan_window_is_forty_slots() {
    let mods = code_modules();
    let mut bytes = vec![0u8; 64 * 8];
    put64(&mut bytes, 40 * 8, CODE_BASE + 1);
    let mem = memory(bytes);
    let ctx = ctx64(0, 0, 0);
    let derived = StackFrame::new(0, STACK_BASE, 0, Trust::FramePointer);
    let r = get_next_frame_via_scan(&derived, &ctx, &mem, &mods);
    assert_eq!(r.err(), Some(Declined::Exhausted));
    let seed = StackFrame::new(0, STACK_BASE, 0, Trust::Context);
    let f = get_next_frame_via_scan(&seed, &ctx, &mem, &mods).unwrap();
    assert_eq!(f.end_of_frame, STACK_BASE + 41 * 8);
    assert_eq!(f.instruction, CODE_BASE + 1);
    assert_eq!(f.trust, Trust::Scan);
    // The base is unknown: it is the top of the captured region.
    assert_eq!(f.start_of_frame, STACK_BASE + 64 * 8);
}

#[test]
fn scan_last_slot_of_default_window() {
    let mods = code_modules();
    let mut bytes = vec![0u8; 64 * 8];
    put64(&mut bytes, 39 * 8, CODE_BASE + 2);
    let mem = memory(bytes);
    let derived = StackFrame::new(0, STACK_BASE, 0, Trust::Scan);
    let f = get_next_frame_via_scan(&derived, &ctx64(0, 0, 0), &mem, &mods).unwrap();
    assert_eq!(f.end_of_frame, STACK_BASE + 40 * 8);
}

#[test]
fn scan_window_is_one_hundred_sixty_slots_for_context() {
    let mods = code_modules();
    let mut bytes = vec![0u8; 200 * 4];
    put32(&mut bytes, 159 * 4, (CODE_BASE + 3) as u32);
    put32(&mut bytes, 160 * 4, (CODE_BASE + 4) as u32);
    let ctx = MinidumpContext::new(0, 0, 0, false);
    let seed = StackFrame::new(0, STACK_BASE, 0, Trust::Context);
    let f = get_next_frame_via_scan(&seed, &ctx, &memory(bytes.clone()), &mods).unwrap();
    assert_eq!(f.instruction, CODE_BASE + 3);
    assert_eq!(f.end_of_frame, STACK_BASE + 160 * 4);
    put32(&mut bytes, 159 * 4, 0);
    let r = get_next_frame_via_scan(&seed, &ctx, &memory(bytes), &mods);
    assert_eq!(r.err(), Some(Declined::Exhausted));
}

#[test]
fn scan_stops_at_end_of_memory() {
    let mods = code_modules();
    let mem = memory(vec![0u8; 10 * 8]);
    let seed = StackFrame::new(0, STACK_BASE, 0, Trust::Context);
    let r = get_next_frame_via_scan(&seed, &ctx64(0, 0, 0), &mem, &mods);
    assert_eq!(r.err(), Some(Declined::OutOfBounds));
    let below = StackFrame::new(0, STACK_BASE - 8, 0, Trust::Context);
    let r = get_next_frame_via_scan(&below, &ctx64(0, 0, 0), &mem, &mods);
    assert_eq!(r.err(), Some(Declined::OutOfBounds));
}

#[test]
fn scan_recovers_base_from_standard_prologue() {
    let mods = code_modules();
    let mut bytes = vec![0u8; 16 * 8];
    put64(&mut bytes, 2 * 8, STACK_BASE + 12 * 8);
    put64(&mut bytes, 3 * 8, CODE_BASE + 5);
    let mem = memory(bytes);
    let frame = StackFrame::new(STACK_BASE + 2 * 8, STACK_BASE + 3 * 8, 0, Trust::Scan);
    let f = get_next_frame_via_scan(&frame, &ctx64(0, 0, 0), &mem, &mods).unwrap();
    assert_eq!(f.start_of_frame, STACK_BASE + 12 * 8);
    assert_eq!(f.end_of_frame, STACK_BASE + 4 * 8);

    // A saved base at or below the return address is not trusted.
    let mut bytes = vec![0u8; 16 * 8];
    put64(&mut bytes, 2 * 8, STACK_BASE + 3 * 8);
    put64(&mut bytes, 3 * 8, CODE_BASE + 5);
    let f = get_next_frame_via_scan(&frame, &ctx64(0, 0, 0), &memory(bytes), &mods).unwrap();
    assert_eq!(f.start_of_frame, STACK_BASE + 16 * 8);
}

#[test]
fn scan_keeps_base_the_callee_left_alone() {
    let mods = code_modules();
    let mut bytes = vec![0u8; 16 * 8];
    put64(&mut bytes, 3 * 8, CODE_BASE + 5);
    let mem = memory(bytes);
    let frame = StackFrame::new(STACK_BASE + 4 * 8, STACK_BASE, 0, Trust::Scan);
    let f = get_next_frame_via_scan(&frame, &ctx64(0, 0, 0), &mem, &mods).unwrap();
    assert_eq!(f.start_of_frame, STACK_BASE + 4 * 8);
    assert_eq!(f.end_of_frame, STACK_BASE + 4 * 8);
}

#[test]
fn walk_follows_frame_pointer_into_module() {
    let mut bytes = vec![0u8; 64];
    put64(&mut bytes, 16, STACK_BASE + 64 - 16);
    put64(&mut bytes, 24, CODE_BASE + 0x40);
    let mem = memory(bytes);
    let ctx = ctx64(STACK_BASE + 16, STACK_BASE + 8, 0x77);
    let frames = walkies(&ctx, &mem, &code_modules());
    assert_eq!(frames.len(), 2);
    assert_eq!(frames[0].trust, Trust::Context);
    assert_eq!(frames[0].start_of_frame, STACK_BASE + 16);
    assert_eq!(frames[0].end_of_frame, STACK_BASE + 8);
    assert_eq!(frames[0].instruction, 0x77);
    assert_eq!(frames[0].module_name, "");
    assert_eq!(frames[1].trust, Trust::FramePointer);
    assert_eq!(frames[1].start_of_frame, STACK_BASE + 48);
    assert_eq!(frames[1].instruction, CODE_BASE + 0x40);
    assert_eq!(frames[1].module_name, "libfoo.so");
}

#[test]
fn walk_without_chain_or_code_yields_seed() {
    let mem = memory(vec![0u8; 64]);
    let ctx = ctx64(STACK_BASE + 16, STACK_BASE + 8, 0x77);
    let frames = walkies(&ctx, &mem, &code_modules());
    assert_eq!(frames.len(), 1);
    assert_eq!(frames[0].trust, Trust::Context);
    assert_eq!(frames[0].module_name, "");

    let ctx = ctx64(STACK_BASE + 16, STACK_BASE + 8, CODE_BASE + 9);
    let frames = walkies(&ctx, &mem, &code_modules());
    assert_eq!(frames.len(), 1);
    assert_eq!(frames[0].module_name, "libfoo.so");
}

#[test]
fn walk_over_empty_memory_yields_seed() {
    let mem = memory(Vec::new());
    let ctx = ctx64(STACK_BASE, STACK_BASE, 0x10);
    let frames = walkies(&ctx, &mem, &code_modules());
    assert_eq!(frames.len(), 1);
    assert_eq!(frames[0].trust, Trust::Context);
    assert_eq!(frames[0].start_of_frame, STACK_BASE);
    assert_eq!(frames[0].instruction, 0x10);
}

#[test]
fn walk_stops_on_self_pointing_frame_pointer() {
    let mut bytes = vec![0u8; 64];
    put64(&mut bytes, 16, STACK_BASE + 16);
    put64(&mut bytes, 24, CODE_BASE + 0x40);
    let mem = memory(bytes);
    let ctx = ctx64(STACK_BASE + 16, STACK_BASE + 8, 0x77);
    let frames = walkies(&ctx, &mem, &code_modules());
    assert_eq!(frames.len(), 2);
    assert_eq!(frames[1].start_of_frame, STACK_BASE + 16);
    assert_eq!(frames[1].end_of_frame, STACK_BASE + 32);
    assert_eq!(frames[1].trust, Trust::FramePointer);
}

#[test]
fn walk_mixes_strategies_with_nondecreasing_bases() {
    // The seed's saved base is misaligned, so the frame pointer declines and
    // scanning takes it; from that base the frame pointer leads on.
    let mut bytes = vec![0u8; 32 * 8];
    put64(&mut bytes, 3 * 8, STACK_BASE + 81);
    put64(&mut bytes, 4 * 8, CODE_BASE + 1);
    put64(&mut bytes, 81, STACK_BASE + 20 * 8);
    put64(&mut bytes, 89, CODE_BASE + 2);
    let mem = memory(bytes);
    let ctx = ctx64(STACK_BASE + 3 * 8, STACK_BASE + 4 * 8, 0x5);
    let frames = walkies(&ctx, &mem, &code_modules());
    assert_eq!(frames.len(), 3);
    assert_eq!(frames[1].trust, Trust::Scan);
    assert_eq!(frames[1].start_of_frame, STACK_BASE + 81);
    assert_eq!(frames[1].end_of_frame, STACK_BASE + 5 * 8);
    assert_eq!(frames[1].module_name, "libfoo.so");
    assert_eq!(frames[2].trust, Trust::FramePointer);
    assert_eq!(frames[2].start_of_frame, STACK_BASE + 20 * 8);
    assert_eq!(frames[2].end_of_frame, STACK_BASE + 22 * 8);
    assert_eq!(frames[2].instruction, CODE_BASE + 2);
    for pair in frames.windows(2) {
        assert!(pair[0].start_of_frame <= pair[1].start_of_frame);
    }
}
