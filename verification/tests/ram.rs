use chip8rs::ram::{FONT_SIZE, PROGRAM_START, RAM_SIZE};
use chip8rs::Ram;

const FONT: [u8; 80] = [
    0xF0, 0x90, 0x90, 0x90, 0xF0, // 0
    0x20, 0x60, 0x20, 0x20, 0x70, // 1
    0xF0, 0x10, 0xF0, 0x80, 0xF0, // 2
    0xF0, 0x10, 0xF0, 0x10, 0xF0, // 3
    0x90, 0x90, 0xF0, 0x10, 0x10, // 4
    0xF0, 0x80, 0xF0, 0x10, 0xF0, // 5
    0xF0, 0x80, 0xF0, 0x90, 0xF0, // 6
    0xF0, 0x10, 0x20, 0x40, 0x40, // 7
    0xF0, 0x90, 0xF0, 0x90, 0xF0, // 8
    0xF0, 0x90, 0xF0, 0x10, 0xF0, // 9
    0xF0, 0x90, 0xF0, 0x90, 0x90, // A
    0xE0, 0x90, 0xE0, 0x90, 0xE0, // B
    0xF0, 0x80, 0x80, 0x80, 0xF0, // C
    0xE0, 0x90, 0x90, 0x90, 0xE0, // D
    0xF0, 0x80, 0xF0, 0x80, 0xF0, // E
    0xF0, 0x80, 0xF0, 0x80, 0x80, // F
];

#[test]
fn sizes_are_those_of_the_machine() {
    assert_eq!(RAM_SIZE, 4096);
    assert_eq!(PROGRAM_START, 0x200);
    assert_eq!(FONT_SIZE, 80);
}

#[test]
fn new_burns_the_font_in() {
    let ram = Ram::new(&[]);
    assert_eq!(ram.read_bytes(0, 80), &FONT[..]);
    assert_eq!(*ram.read_byte(0), 0xF0);
    assert_eq!(*ram.read_byte(79), 0x80);
}

#[test]
fn new_places_the_rom_at_0x200() {
    let rom = [0x12, 0x34, 0x56, 0x78, 0x9A];
    let ram = Ram::new(&rom);
    assert_eq!(ram.read_bytes(0x200, rom.len()), &rom[..]);
}

#[test]
fn new_leaves_every_other_byte_zero() {
    let rom = [0xAA, 0xBB, 0xCC];
    let ram = Ram::new(&rom);
    for address in 0..RAM_SIZE {
        let byte = *ram.read_byte(address);
        if address < 80 {
            assert_eq!(byte, FONT[address]);
        } else if (0x200..0x203).contains(&address) {
            assert_eq!(byte, rom[address - 0x200]);
        } else {
            assert_eq!(byte, 0, "address {:#05X}", address);
        }
    }
}

#[test]
fn new_takes_a_rom_that_fills_memory() {
    let rom = vec![0x5A; RAM_SIZE - PROGRAM_START];
    let ram = Ram::new(&rom);
    assert_eq!(*ram.read_byte(0x200), 0x5A);
    assert_eq!(*ram.read_byte(4095), 0x5A);
    assert_eq!(*ram.read_byte(0x1FF), 0);
}

#[test]
fn new_takes_an_empty_rom() {
    let ram = Ram::new(&[]);
    assert_eq!(*ram.read_byte(0x200), 0);
    assert_eq!(ram.read_word(0x200), 0);
}

#[test]
fn write_then_read_gives_the_bytes_back() {
    let data = [1, 2, 3, 4, 5, 6, 7];
    for address in [0usize, 1, 79, 80, 0x1FF, 0x200, 0x7FF, 4088, 4089] {
        let mut ram = Ram::new(&[]);
        ram.write_data(address, &data);
        assert_eq!(ram.read_bytes(address, data.len()), &data[..]);
    }
}

#[test]
fn write_then_read_at_every_address() {
    let mut ram = Ram::new(&[]);
    for address in 0..RAM_SIZE {
        let byte = (address % 251) as u8;
        ram.write_data(address, &[byte]);
        assert_eq!(ram.read_bytes(address, 1), &[byte][..]);
        assert_eq!(*ram.read_byte(address), byte);
    }
}

#[test]
fn write_leaves_the_rest_alone() {
    let mut ram = Ram::new(&[9, 9, 9, 9]);
    ram.write_data(0x201, &[7, 8]);
    assert_eq!(ram.read_bytes(0x200, 4), &[9, 7, 8, 9][..]);
    assert_eq!(*ram.read_byte(0x1FF), 0);
    assert_eq!(*ram.read_byte(0x204), 0);
    assert_eq!(ram.read_bytes(0, 80), &FONT[..]);
}

#[test]
fn write_of_nothing_changes_nothing() {
    let mut ram = Ram::new(&[1, 2]);
    ram.write_data(0x200, &[]);
    ram.write_data(4096, &[]);
    assert_eq!(ram.read_bytes(0x200, 2), &[1, 2][..]);
}

#[test]
fn write_reaches_the_last_byte() {
    let mut ram = Ram::new(&[]);
    ram.write_data(4094, &[0xDE, 0xAD]);
    assert_eq!(*ram.read_byte(4094), 0xDE);
    assert_eq!(*ram.read_byte(4095), 0xAD);
    assert_eq!(ram.read_word(4094), 0xDEAD);
}

#[test]
fn read_word_is_big_endian() {
    let ram = Ram::new(&[0x12, 0x34, 0xFF, 0x00, 0x00, 0xFF]);
    assert_eq!(ram.read_word(0x200), 0x1234);
    assert_eq!(ram.read_word(0x201), 0x34FF);
    assert_eq!(ram.read_word(0x202), 0xFF00);
    assert_eq!(ram.read_word(0x204), 0x00FF);
}

#[test]
fn read_word_of_the_font() {
    let ram = Ram::new(&[]);
    assert_eq!(ram.read_word(0), 0xF090);
    assert_eq!(ram.read_word(5), 0x2060);
}

#[test]
fn read_bytes_of_length_zero_is_empty() {
    let ram = Ram::new(&[1]);
    assert!(ram.read_bytes(0x200, 0).is_empty());
    assert!(ram.read_bytes(4096, 0).is_empty());
}

#[test]
fn read_bytes_takes_the_whole_memory() {
    let ram = Ram::new(&[1, 2, 3]);
    let all = ram.read_bytes(0, RAM_SIZE);
    assert_eq!(all.len(), 4096);
    assert_eq!(&all[..80], &FONT[..]);
    assert_eq!(&all[0x200..0x203], &[1, 2, 3][..]);
}
