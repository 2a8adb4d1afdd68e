use boards::busicom141pf::{
    convert_ram_index, decode_bank, decode_shifter_lines, decode_signal_levels, rom_index, Board,
    DesignatedIndex, Diagnostics, RomAddress, ShifterLines, SignalLevels,
};
use boards::image::Oversized;

const CLEAN: Diagnostics = Diagnostics { invalid_control: false, missing_chip: false };

fn index(chip_index: u8, reg_index: u8, char_index: u8) -> DesignatedIndex {
    DesignatedIndex { chip_index, reg_index, char_index }
}

fn board() -> Board {
    let mut images: Vec<Vec<u8>> = Vec::new();
    for chip in 0..5u8 {
        images.push((0..256u32).map(|i| (i as u8) ^ (chip << 4)).collect());
    }
    let b4 = images.pop().unwrap();
    let b3 = images.pop().unwrap();
    let b2 = images.pop().unwrap();
    let b1 = images.pop().unwrap();
    let b0 = images.pop().unwrap();
    match Board::new(b0, b1, b2, b3, b4) {
        Ok(b) => b,
        Err(_) => panic!("images fit"),
    }
}

#[test]
fn valid_encodings_select_their_bank() {
    assert_eq!(decode_bank(0b000), Some(0));
    assert_eq!(decode_bank(0b001), Some(1));
    assert_eq!(decode_bank(0b010), Some(2));
    assert_eq!(decode_bank(0b100), Some(3));
}

#[test]
fn other_encodings_select_no_bank() {
    for cc in [0b011u8, 0b101, 0b110, 0b111, 0b1000, 0b1111] {
        assert_eq!(decode_bank(cc), None);
    }
}

#[test]
fn ram_index_is_chip_select_below_bank_code() {
    let encodings = [(0b000u8, 0usize), (0b001, 1), (0b010, 2), (0b100, 3)];
    for (cc, bank) in encodings {
        for chip in 0..4u8 {
            assert_eq!(convert_ram_index(cc, index(chip, 3, 9)), chip as usize | (bank << 2));
        }
    }
    assert_eq!(convert_ram_index(0b100, index(1, 0, 0)), 13);
    assert_eq!(convert_ram_index(0b010, index(3, 0, 0)), 11);
}

#[test]
fn invalid_encodings_resolve_to_bank_zero() {
    for cc in [0b011u8, 0b101, 0b110, 0b111, 0b1000, 0b1010, 0b1111] {
        for chip in 0..4u8 {
            assert_eq!(convert_ram_index(cc, index(chip, 0, 0)), chip as usize);
        }
    }
}

#[test]
fn new_board_is_zeroed_apart_from_rom() {
    let b = board();
    assert_eq!(b.i4001s.len(), 5);
    assert_eq!(b.i4002s.len(), 2);
    assert_eq!(b.i4003s.len(), 3);
    assert_eq!(b.printer_shift_bits(), 0);
    assert!(!b.advance_paper.level);
    assert!(!b.hammering.level);
    assert_eq!(b.read_rom_ports(index(0, 0, 0)), 0);
    assert_eq!(b.read_ram_character(0, index(1, 2, 3)), (0, CLEAN));
    assert_eq!(b.read_ram_status(0, index(1, 2, 3), 3), (0, CLEAN));
}

#[test]
fn new_pads_short_images_and_refuses_long_ones() {
    let b = match Board::new(vec![7, 8], Vec::new(), Vec::new(), Vec::new(), vec![1; 256]) {
        Ok(b) => b,
        Err(_) => panic!("images fit"),
    };
    assert_eq!(b.read_rom_byte(RomAddress { chip_index: 0, offset: 0 }), 7);
    assert_eq!(b.read_rom_byte(RomAddress { chip_index: 0, offset: 1 }), 8);
    assert_eq!(b.read_rom_byte(RomAddress { chip_index: 0, offset: 2 }), 0);
    assert_eq!(b.read_rom_byte(RomAddress { chip_index: 0, offset: 255 }), 0);
    assert_eq!(b.read_rom_byte(RomAddress { chip_index: 4, offset: 255 }), 1);
    match Board::new(Vec::new(), Vec::new(), Vec::new(), vec![0; 257], vec![0; 300]) {
        Err(e) => assert_eq!(e, Oversized { chip: 3, len: 257 }),
        Ok(_) => panic!("image 3 is too long"),
    }
}

#[test]
fn rom_chip_index_wraps_around() {
    let b = board();
    for chip in 0..16u8 {
        for offset in [0u8, 1, 0x7F, 0xFF] {
            let expected = offset ^ ((chip % 5) << 4);
            assert_eq!(b.read_rom_byte(RomAddress { chip_index: chip, offset }), expected);
        }
    }
}

#[test]
fn rom_ports_wrap_around() {
    let mut b = board();
    b.write_rom_ports(index(0, 3, 0), 0xA);
    assert_eq!(b.i4001s[3].port, 0xA);
    b.write_rom_ports(index(1, 2, 0), 0x5);
    assert_eq!(b.i4001s[1].port, 0x5);
    assert_eq!(b.read_rom_ports(index(1, 2, 0)), 0x5);
    assert_eq!(b.read_rom_ports(index(0, 1, 0)), 0x5);
    assert_eq!(b.read_rom_ports(index(2, 3, 0)), 0x5);
    assert_eq!(b.read_rom_ports(index(0, 3, 7)), 0xA);
    assert_eq!(b.read_rom_ports(index(3, 1, 0)), 0xA);
    assert_eq!(b.read_rom_ports(index(0, 0, 0)), 0);
}

#[test]
fn ram_characters_round_trip_on_populated_chips() {
    let mut b = board();
    for chip in 0..2u8 {
        for reg in 0..4u8 {
            for ch in 0..16u8 {
                let value = (chip + reg * 3 + ch * 5) % 16;
                assert_eq!(b.write_ram_character(0, index(chip, reg, ch), value), CLEAN);
                assert_eq!(b.read_ram_character(0, index(chip, reg, ch)), (value, CLEAN));
            }
        }
    }
    for chip in 0..2u8 {
        for reg in 0..4u8 {
            for ch in 0..16u8 {
                let value = (chip + reg * 3 + ch * 5) % 16;
                assert_eq!(b.read_ram_character(0, index(chip, reg, ch)).0, value);
            }
        }
    }
}

#[test]
fn ram_status_round_trips_and_is_apart_from_characters() {
    let mut b = board();
    for reg in 0..4u8 {
        for st in 0..4u8 {
            let value = (reg * 4 + st + 1) % 16;
            assert_eq!(b.write_ram_status(0, index(1, reg, 0), st, value), CLEAN);
        }
    }
    for reg in 0..4u8 {
        for st in 0..4u8 {
            assert_eq!(b.read_ram_status(0, index(1, reg, 5), st), ((reg * 4 + st + 1) % 16, CLEAN));
            assert_eq!(b.read_ram_status(0, index(0, reg, 5), st).0, 0);
        }
    }
    assert_eq!(b.read_ram_character(0, index(1, 0, 0)).0, 0);
}

#[test]
fn access_to_an_unpopulated_slot_is_dropped() {
    let mut b = board();
    let missing = Diagnostics { invalid_control: false, missing_chip: true };
    assert_eq!(b.write_ram_character(0, index(2, 0, 0), 9), missing);
    assert_eq!(b.read_ram_character(0, index(2, 0, 0)), (0, missing));
    assert_eq!(b.write_ram_character(0b001, index(0, 0, 0), 9), missing);
    assert_eq!(b.read_ram_character(0b001, index(0, 0, 0)), (0, missing));
    assert_eq!(b.write_ram_status(0b100, index(1, 1, 0), 2, 9), missing);
    assert_eq!(b.read_ram_status(0b100, index(1, 1, 0), 2), (0, missing));
    assert_eq!(b.write_ram_ports(0b010, index(0, 0, 0), 0xF), missing);
    assert_eq!(b.i4002s[0].port, 0);
    assert_eq!(b.i4002s[1].port, 0);
    assert_eq!(b.read_ram_character(0, index(0, 0, 0)), (0, CLEAN));
}

#[test]
fn invalid_control_is_flagged_and_lands_in_bank_zero() {
    let mut b = board();
    let flagged = Diagnostics { invalid_control: true, missing_chip: false };
    assert_eq!(b.write_ram_character(0b011, index(1, 2, 3), 0xC), flagged);
    assert_eq!(b.read_ram_character(0, index(1, 2, 3)), (0xC, CLEAN));
    assert_eq!(b.read_ram_character(0b111, index(1, 2, 3)), (0xC, flagged));
    let both = Diagnostics { invalid_control: true, missing_chip: true };
    assert_eq!(b.read_ram_character(0b110, index(3, 0, 0)), (0, both));
}

#[test]
fn ram_port_write_reaches_the_addressed_chip() {
    let mut b = board();
    assert_eq!(b.write_ram_ports(0, index(1, 0, 0), 0x6), CLEAN);
    assert_eq!(b.i4002s[0].port, 0);
    assert_eq!(b.i4002s[1].port, 0x6);
}

#[test]
fn paper_advance_pulses_once_per_activation() {
    let mut b = board();
    let levels = [0u8, 0, 0b1000, 0b1000, 0b1010, 0b0111, 0b1000];
    let mut pulses = Vec::new();
    for ports in levels {
        b.write_ram_ports(0, index(0, 0, 0), ports);
        pulses.push(b.new_advance_paper_signal());
    }
    assert_eq!(pulses, vec![false, false, true, false, false, false, true]);
}

#[test]
fn hammer_pulses_once_per_activation() {
    let mut b = board();
    let levels = [0u8, 0b1101, 0b0010, 0b0010, 0b1111, 0b1000, 0b0011];
    let mut pulses = Vec::new();
    for ports in levels {
        b.write_ram_ports(0, index(0, 0, 0), ports);
        pulses.push(b.new_hammer_signal());
    }
    assert_eq!(pulses, vec![false, false, true, false, false, false, true]);
    assert!(b.hammering.level);
    assert!(!b.advance_paper.level);
}

#[test]
fn signals_follow_ram_zero_only() {
    let mut b = board();
    b.write_ram_ports(0, index(1, 0, 0), 0b1010);
    assert!(!b.new_hammer_signal());
    assert!(!b.new_advance_paper_signal());
}

#[test]
fn shifter_lines_have_their_wired_polarity() {
    let mut b = board();
    // Port 0b000: both clocks asserted, keyboard data high, printer data low.
    b.run_cycle();
    assert_eq!(b.i4003s[0].bits, 0b1);
    assert_eq!(b.i4003s[1].bits, 0b0);
    // Port 0b010: both clocks asserted, keyboard data low, printer data high.
    b.write_rom_ports(index(0, 0, 0), 0b010);
    b.run_cycle();
    assert_eq!(b.i4003s[0].bits, 0b10);
    assert_eq!(b.i4003s[1].bits, 0b1);
    // Port 0b011: keyboard clock idle, printer clock asserted.
    b.write_rom_ports(index(0, 0, 0), 0b011);
    b.run_cycle();
    assert_eq!(b.i4003s[0].bits, 0b10);
    assert_eq!(b.i4003s[1].bits, 0b11);
    // Port 0b110: keyboard clock asserted, printer clock idle.
    b.write_rom_ports(index(0, 0, 0), 0b110);
    b.run_cycle();
    assert_eq!(b.i4003s[0].bits, 0b100);
    assert_eq!(b.i4003s[1].bits, 0b11);
    // Port 0b1111: nothing moves.
    b.write_rom_ports(index(0, 0, 0), 0b1111);
    b.run_cycle();
    assert_eq!(b.i4003s[0].bits, 0b100);
    assert_eq!(b.i4003s[1].bits, 0b11);
    assert_eq!(b.i4003s[2].bits, 0);
}

#[test]
fn printer_bits_combine_the_cascade() {
    let mut b = board();
    let a_bits: u32 = 0b11_0101_1001;
    let b_bits: u32 = 0b10_0000_0111;
    let stream = (b_bits << 10) | a_bits;
    for i in (0..20).rev() {
        let data = stream >> i & 1 == 1;
        b.write_rom_ports(index(0, 0, 0), if data { 0b011 } else { 0b001 });
        b.run_cycle();
    }
    assert_eq!(b.i4003s[1].bits as u32, a_bits);
    assert_eq!(b.i4003s[2].bits as u32, b_bits);
    assert_eq!(b.printer_shift_bits(), a_bits | (b_bits << 10));
    assert_eq!(b.i4003s[0].bits, 0);
}

#[test]
fn peripheral_tick_leaves_memory_alone() {
    let mut b = board();
    b.write_ram_character(0, index(1, 1, 1), 0xB);
    b.write_ram_ports(0, index(0, 0, 0), 0x9);
    b.write_rom_ports(index(0, 2, 0), 0x3);
    b.run_cycle();
    assert_eq!(b.read_ram_character(0, index(1, 1, 1)), (0xB, CLEAN));
    assert_eq!(b.i4002s[0].port, 0x9);
    assert_eq!(b.read_rom_ports(index(0, 2, 0)), 0x3);
    assert_eq!(b.read_rom_byte(RomAddress { chip_index: 1, offset: 4 }), 0x14);
}

#[test]
fn rom_index_wraps_at_five() {
    let expected = [0usize, 1, 2, 3, 4, 0, 1, 2, 3, 4, 0, 1, 2, 3, 4, 0];
    for number in 0..16u8 {
        assert_eq!(rom_index(number), expected[number as usize]);
    }
}

#[test]
fn shifter_lines_are_decoded_with_their_polarity() {
    assert_eq!(
        decode_shifter_lines(0b000),
        ShifterLines {
            keyboard_data: true,
            keyboard_clock: true,
            printer_data: false,
            printer_clock: true
        }
    );
    assert_eq!(
        decode_shifter_lines(0b111),
        ShifterLines {
            keyboard_data: false,
            keyboard_clock: false,
            printer_data: true,
            printer_clock: false
        }
    );
    assert_eq!(
        decode_shifter_lines(0b1010),
        ShifterLines {
            keyboard_data: false,
            keyboard_clock: true,
            printer_data: true,
            printer_clock: true
        }
    );
    for ports in 0..16u8 {
        let lines = decode_shifter_lines(ports);
        assert_ne!(lines.keyboard_data, lines.printer_data);
    }
}

#[test]
fn signal_levels_are_read_from_their_bits() {
    assert_eq!(decode_signal_levels(0b0000), SignalLevels { advance_paper: false, hammer: false });
    assert_eq!(decode_signal_levels(0b1000), SignalLevels { advance_paper: true, hammer: false });
    assert_eq!(decode_signal_levels(0b0010), SignalLevels { advance_paper: false, hammer: true });
    assert_eq!(decode_signal_levels(0b1111), SignalLevels { advance_paper: true, hammer: true });
    assert_eq!(decode_signal_levels(0b0101), SignalLevels { advance_paper: false, hammer: false });
}
