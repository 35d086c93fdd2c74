use dsvita::action_replay::{ArAction, ArInterpreter};
use std::collections::HashMap;

fn read(mem: &HashMap<u32, u8>, addr: u32, len: u32) -> u32 {
    let mut v = 0u32;
    for i in 0..len {
        v |= (*mem.get(&addr.wrapping_add(i)).unwrap_or(&0) as u32) << (8 * i);
    }
    v
}

fn write(mem: &mut HashMap<u32, u8>, addr: u32, value: u32, len: u32) {
    for i in 0..len {
        mem.insert(addr.wrapping_add(i), (value >> (8 * i)) as u8);
    }
}

fn run(code: &[u32], mem: &mut HashMap<u32, u8>) -> ArInterpreter {
    let mut ar = ArInterpreter::new();
    let mut response = 0u32;
    for _ in 0..100_000 {
        match ar.step(code, response) {
            ArAction::Done => return ar,
            ArAction::Idle => response = 0,
            ArAction::Read8(a) => response = read(mem, a, 1),
            ArAction::Read16(a) => response = read(mem, a, 2),
            ArAction::Read32(a) => response = read(mem, a, 4),
            ArAction::Write8(a, v) => {
                write(mem, a, v as u32, 1);
                response = 0;
            }
            ArAction::Write16(a, v) => {
                write(mem, a, v as u32, 2);
                response = 0;
            }
            ArAction::Write32(a, v) => {
                write(mem, a, v, 4);
                response = 0;
            }
        }
    }
    panic!("code did not finish");
}

#[test]
fn writes_word_half_and_byte() {
    let mut mem = HashMap::new();
    run(&[0x02000000, 0x12345678, 0x12000010, 0xAAAABBBB, 0x22000020, 0x000000CC], &mut mem);
    assert_eq!(read(&mem, 0x02000000, 4), 0x12345678);
    assert_eq!(read(&mem, 0x02000010, 4), 0x0000BBBB);
    assert_eq!(read(&mem, 0x02000020, 4), 0x000000CC);
}

#[test]
fn equal_condition_guards_the_block() {
    let code = [0x52000100, 0x00000005, 0x02000200, 0x11111111, 0xD2000000, 0x00000000, 0x02000300, 0x22222222];
    let mut mem = HashMap::new();
    write(&mut mem, 0x02000100, 5, 4);
    run(&code, &mut mem);
    assert_eq!(read(&mem, 0x02000200, 4), 0x11111111);
    assert_eq!(read(&mem, 0x02000300, 4), 0x22222222);

    let mut mem = HashMap::new();
    write(&mut mem, 0x02000100, 6, 4);
    run(&code, &mut mem);
    assert_eq!(read(&mem, 0x02000200, 4), 0);
    assert_eq!(read(&mem, 0x02000300, 4), 0x22222222);
}

#[test]
fn half_condition_masks_the_value() {
    // If equal to half 0x0034, with the upper byte of the value read masked out.
    let code = [0x92000100, 0xFF000034, 0x02000200, 0x00000001, 0xD2000000, 0x00000000];
    let mut mem = HashMap::new();
    write(&mut mem, 0x02000100, 0x5634, 2);
    run(&code, &mut mem);
    assert_eq!(read(&mem, 0x02000200, 4), 1);
}

#[test]
fn loop_writes_data_with_post_increment() {
    let code = [
        0xD5000000, 0xAABBCCDD, 0xC0000000, 0x00000002, 0xD6000000, 0x02000300, 0xD2000000, 0x00000000,
    ];
    let mut mem = HashMap::new();
    let ar = run(&code, &mut mem);
    assert_eq!(read(&mem, 0x02000300, 4), 0xAABBCCDD);
    assert_eq!(read(&mem, 0x02000304, 4), 0xAABBCCDD);
    assert_eq!(read(&mem, 0x02000308, 4), 0xAABBCCDD);
    assert_eq!(read(&mem, 0x0200030C, 4), 0);
    assert_eq!(ar.offset, 0);
    assert_eq!(ar.data_reg, 0);
}

#[test]
fn parameter_copy_and_memory_copy() {
    let code = [
        0xE2000400, 0x00000005, 0x44332211, 0x00000055, 0xD3000000, 0x02000400, 0xF2000600, 0x00000004,
    ];
    let mut mem = HashMap::new();
    run(&code, &mut mem);
    assert_eq!(read(&mem, 0x02000400, 4), 0x44332211);
    assert_eq!(read(&mem, 0x02000404, 1), 0x55);
    assert_eq!(read(&mem, 0x02000600, 4), 0x44332211);
}

#[test]
fn load_offset_and_read_data() {
    let code = [0xB2000000, 0x00000000, 0xD9000000, 0x00000010, 0x02000000, 0x00000000, 0xD6000000, 0x00000020];
    let mut mem = HashMap::new();
    write(&mut mem, 0x02000000, 0x02000100, 4);
    write(&mut mem, 0x02000110, 0xCAFEBABE, 4);
    run(&code, &mut mem);
    assert_eq!(read(&mem, 0x02000120, 4), 0xCAFEBABE);
}

#[test]
fn odd_trailing_word_is_ignored() {
    let mut mem = HashMap::new();
    run(&[0x02000000, 0x00000001, 0x02000004], &mut mem);
    assert_eq!(read(&mem, 0x02000000, 4), 1);
    assert_eq!(read(&mem, 0x02000004, 4), 0);
}
