use armemu::memory::{Endianness, Registers, RAM};

#[test]
fn test_read_word() {
    let mut mem = RAM::default();

    mem.memory_array[0] = 0x05;
    mem.memory_array[1] = 0xFF;
    mem.memory_array[2] = 0x06;
    mem.memory_array[3] = 0xA0;

    let be = mem.read_word(0);
    assert_eq!(be, 0x05FF06A0);

    mem.endianness = Endianness::Little;
    assert_eq!(mem.read_word(0), 0xA006FF05);
}

#[test]
fn test_read_word_alignment_error() {
    let mut mem = RAM::default();

    mem.memory_array[3] = 0xFF;

    assert_eq!(mem.read_word(3), 0);
}

#[test]
#[should_panic]
fn test_read_word_bounds_error() {
    let mem = RAM::default();

    mem.read_word(32768);
}

#[test]
fn test_write_word() {
    let mut mem = RAM::default();

    mem.write_word(0, 0x05FF06A0);

    assert_eq!(mem.memory_array[0], 0x05);
    assert_eq!(mem.memory_array[1], 0xFF);
    assert_eq!(mem.memory_array[2], 0x06);
    assert_eq!(mem.memory_array[3], 0xA0);

    mem.endianness = Endianness::Little;
    mem.write_word(0, 0x05FF06A0);

    assert_eq!(mem.memory_array[0], 0xA0);
    assert_eq!(mem.memory_array[1], 0x06);
    assert_eq!(mem.memory_array[2], 0xFF);
    assert_eq!(mem.memory_array[3], 0x05);
}

#[test]
fn test_write_word_alignment_error() {
    let mut mem = RAM::default();

    mem.write_word(3, 1);

    assert_ne!(6, 1);
}

#[test]
#[should_panic]
fn test_write_word_bounds_error() {
    let mut mem = RAM::default();

    mem.write_word(32768, 0);
}

#[test]
fn test_read_half_word() {
    let mut mem = RAM::default();

    mem.memory_array[0] = 0x05;
    mem.memory_array[1] = 0xFF;

    assert_eq!(mem.read_half_word(0), 0x05FF);

    mem.endianness = Endianness::Little;
    assert_eq!(mem.read_half_word(0), 0xFF05);
}

#[test]
fn test_read_half_word_alignment_error() {
    let mut mem = RAM::default();

    mem.memory_array[1] = 0xFF;

    assert_eq!(mem.read_half_word(1), 0);
}

#[test]
#[should_panic]
fn test_read_half_word_bounds_error() {
    let mem = RAM::default();

    mem.read_half_word(32768);
}

#[test]
fn test_write_half_word() {
    let mut mem = RAM::default();

    mem.write_half_word(0, 0x05FF);

    assert_eq!(mem.memory_array[0], 0x05);
    assert_eq!(mem.memory_array[1], 0xFF);

    mem.endianness = Endianness::Little;
    mem.write_half_word(0, 0x05FF);

    assert_eq!(mem.memory_array[0], 0xFF);
    assert_eq!(mem.memory_array[1], 0x05);
}

#[test]
fn test_write_half_word_alignment_error() {
    let mut mem = RAM::default();

    mem.write_half_word(3, 1);

    assert_ne!(4, 1);
}

#[test]
#[should_panic]
fn test_write_half_word_bounds_error() {
    let mut mem = RAM::default();

    mem.write_half_word(32768, 0);
}

#[test]
fn test_read_byte() {
    let mut mem = RAM::default();

    mem.memory_array[0] = 0x05;

    assert_eq!(mem.read_byte(0), 0x05);

    mem.endianness = Endianness::Little;
    assert_eq!(mem.read_byte(0), 0x05);
}

#[test]
#[should_panic]
fn test_read_byte_bounds_error() {
    let mem = RAM::default();

    mem.read_byte(32768);
}

#[test]
fn test_write_byte() {
    let mut mem = RAM::default();

    mem.write_byte(0, 0x05);

    assert_eq!(mem.memory_array[0], 0x05);

    mem.endianness = Endianness::Little;
    mem.write_byte(0, 0x05);

    assert_eq!(mem.memory_array[0], 0x05);
}

#[test]
#[should_panic]
fn test_write_byte_bounds_error() {
    let mut mem = RAM::default();

    mem.write_half_word(32768, 0);
}

#[test]
fn test_calculate_checksum() {
    let mut mem = RAM::default();

    mem.memory_array[0] = 0x01;
    mem.memory_array[1] = 0x82;
    mem.memory_array[2] = 0x03;
    mem.memory_array[3] = 0x84;

    assert_eq!(mem.calculate_checksum(), 536854790);
}

#[test]
fn test_test_flag() {
    let mut mem = RAM::default();

    mem.memory_array[0] = 0x1C;
    mem.memory_array[1] = 0xCB;
    mem.memory_array[2] = 0x1D;
    mem.memory_array[3] = 0x1A;

    assert_eq!(mem.test_flag(0, 11), true);
    assert_eq!(mem.test_flag(0, 13), false);
}

#[test]
#[should_panic]
fn test_test_flag_bit_range_error() {
    let mem = RAM::default();

    mem.test_flag(0, 32);
}

#[test]
fn test_set_flag() {
    let mut mem = RAM::default();

    mem.set_flag(0, 12, true);
    assert_eq!(mem.memory_array[2], 0x10);

    mem.set_flag(0, 12, false);
    assert_eq!(mem.memory_array[2], 0x00);
}

#[test]
#[should_panic]
fn test_set_flag_bit_range_error() {
    let mut mem = RAM::default();

    mem.set_flag(0, 32, true);
}

#[test]
fn test_extract_bits() {
    let w = RAM::extract_bits(0xC7A2511E, 5, 20);
    assert_eq!(w, 0x25100);
}

#[test]
#[should_panic]
fn test_extract_bits_invalid_start_bit() {
    RAM::extract_bits(0x0, 32, 0);
}

#[test]
#[should_panic]
fn test_extract_bits_invalid_end_bit() {
    RAM::extract_bits(0x0, 0, 32);
}

#[test]
fn test_get_as_word() {
    let mut regs = Registers::default();

    // little-endian
    regs.memory_array[4] = 0x45;
    regs.memory_array[5] = 0x55;
    regs.memory_array[6] = 0xAE;
    regs.memory_array[7] = 0xFF;

    assert_eq!(0xFFAE5545, regs.get_register(1));
}

#[test]
fn test_get_register() {
    let mut regs = Registers::default();

    regs.write_word(4, 0xAEBD056D);
    assert_eq!(0xAEBD056D, regs.get_register(1));
}

#[test]
fn test_set_register() {
    let mut regs = Registers::default();
    regs.set_register(1, 5);

    assert_eq!(5, regs.read_word(4));
}

#[test]
fn test_get_all() {
    let mut regs = Registers::default();

    regs.set_register(0, 0xAEB);
    regs.set_register(1, 5);
    regs.set_register(13, 0x11FF11FF);

    let rs = regs.get_all();
    assert_eq!(0xAEB, rs[0]);
    assert_eq!(5, rs[1]);
    assert_eq!(0x11FF11FF, rs[13]);
}

#[test]
fn test_set_pc() {
    let mut regs = Registers::default();

    regs.set_pc(0x106);
    assert_eq!(0x106, regs.get_register(15));
}

#[test]
fn test_get_pc() {
    let mut regs = Registers::default();

    regs.set_register(15, 0x106);
    assert_eq!(0x106, regs.get_pc());
}

#[test]
fn test_inc_pc() {
    let mut regs = Registers::default();

    regs.set_pc(0x106);
    regs.inc_pc();
    assert_eq!(0x10a, regs.get_pc());
}

#[test]
fn test_get_cpsr() {
    let mut regs = Registers::default();

    regs.write_word(64, 0xFF11FF11);
    assert_eq!(0xFF11FF11, regs.get_cpsr());
}

#[test]
fn test_get_cpsr_control_byte() {
    let mut regs = Registers::default();

    regs.write_word(64, 0xAA000000);
    assert_eq!(0xAA, regs.get_cpsr_control_byte());
}
