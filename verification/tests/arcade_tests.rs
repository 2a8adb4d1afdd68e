use boards::arcade::{decode, Board, BusFault, Target, WriteOutcome};
use boards::image::Oversized;

fn board() -> Board {
    let image0: Vec<u8> = (0..2048u32).map(|i| (i % 251) as u8).collect();
    let image1 = vec![0x11u8; 2048];
    let image2 = vec![0x22u8; 100];
    let image3 = Vec::new();
    match Board::new(image0, image1, image2, image3) {
        Ok(b) => b,
        Err(_) => panic!("images fit"),
    }
}

#[test]
fn decode_cuts_the_rom_region_into_four_chips() {
    assert_eq!(decode(0x0000), Target::Rom { chip: 0, offset: 0 });
    assert_eq!(decode(0x07FF), Target::Rom { chip: 0, offset: 2047 });
    assert_eq!(decode(0x0800), Target::Rom { chip: 1, offset: 0 });
    assert_eq!(decode(0x1234), Target::Rom { chip: 2, offset: 0x234 });
    assert_eq!(decode(0x1FFF), Target::Rom { chip: 3, offset: 2047 });
}

#[test]
fn decode_cuts_the_ram_region_into_sixteen_chips() {
    assert_eq!(decode(0x2000), Target::Ram { chip: 0, offset: 0 });
    assert_eq!(decode(0x21FF), Target::Ram { chip: 0, offset: 511 });
    assert_eq!(decode(0x2200), Target::Ram { chip: 1, offset: 0 });
    assert_eq!(decode(0x2ABC), Target::Ram { chip: 5, offset: 0xBC });
    assert_eq!(decode(0x3FFF), Target::Ram { chip: 15, offset: 511 });
}

#[test]
fn decode_rejects_addresses_above_the_space() {
    assert_eq!(decode(0x4000), Target::Unmapped);
    assert_eq!(decode(0x8000), Target::Unmapped);
    assert_eq!(decode(0xFFFF), Target::Unmapped);
}

#[test]
fn every_address_has_its_own_target() {
    let mut seen = std::collections::HashSet::new();
    for address in 0..0x4000u16 {
        let key = match decode(address) {
            Target::Rom { chip, offset } => (0, chip, offset),
            Target::Ram { chip, offset } => (1, chip, offset),
            Target::Unmapped => panic!("address {address} is mapped"),
        };
        assert!(seen.insert(key));
    }
    assert_eq!(seen.len(), 0x4000);
}

#[test]
fn new_loads_and_pads_the_images() {
    let b = board();
    assert_eq!(b.rom.len(), 4);
    assert_eq!(b.ram.len(), 16);
    assert_eq!(b.read_mem(0x0000), Ok(0));
    assert_eq!(b.read_mem(0x00FB), Ok(0));
    assert_eq!(b.read_mem(0x00FA), Ok(250));
    assert_eq!(b.read_mem(0x0800), Ok(0x11));
    assert_eq!(b.read_mem(0x1000), Ok(0x22));
    assert_eq!(b.read_mem(0x1063), Ok(0x22));
    assert_eq!(b.read_mem(0x1064), Ok(0));
    assert_eq!(b.read_mem(0x1800), Ok(0));
    assert_eq!(b.read_mem(0x2000), Ok(0));
    assert_eq!(b.read_mem(0x3FFF), Ok(0));
}

#[test]
fn new_refuses_an_oversized_image() {
    let r = Board::new(vec![0; 2048], vec![0; 2049], vec![0; 5000], Vec::new());
    match r {
        Err(e) => assert_eq!(e, Oversized { chip: 1, len: 2049 }),
        Ok(_) => panic!("image 1 is too long"),
    }
    assert!(Board::new(vec![0; 2048], vec![0; 2048], vec![0; 2048], vec![0; 2048]).is_ok());
    assert!(Board::new(Vec::new(), Vec::new(), Vec::new(), vec![0; 2049]).is_err());
}

#[test]
fn ram_round_trips_at_every_address() {
    let mut b = board();
    for address in 0x2000..0x4000u16 {
        let value = (address as u32 * 7 % 256) as u8;
        assert_eq!(b.write_mem(address, value), Ok(WriteOutcome::Stored));
        assert_eq!(b.read_mem(address), Ok(value));
    }
    for address in 0x2000..0x4000u16 {
        assert_eq!(b.read_mem(address), Ok((address as u32 * 7 % 256) as u8));
    }
}

#[test]
fn rom_writes_are_discarded() {
    let mut b = board();
    for address in [0x0000u16, 0x00FA, 0x0800, 0x1FFF] {
        let before = b.read_mem(address);
        assert_eq!(b.write_mem(address, 0xEE), Ok(WriteOutcome::DiscardedRom));
        assert_eq!(b.read_mem(address), before);
    }
    assert_eq!(b.read_mem(0x00FA), Ok(250));
}

#[test]
fn accesses_outside_the_space_fault() {
    let mut b = board();
    assert_eq!(b.read_mem(0x4000), Err(BusFault { address: 0x4000 }));
    assert_eq!(b.read_mem(0xFFFF), Err(BusFault { address: 0xFFFF }));
    assert_eq!(b.write_mem(0x4000, 1), Err(BusFault { address: 0x4000 }));
    assert_eq!(b.read_mem(0x3FFF), Ok(0));
}

#[test]
fn a_write_touches_one_cell_only() {
    let mut b = board();
    assert_eq!(b.write_mem(0x2200, 0x5A), Ok(WriteOutcome::Stored));
    assert_eq!(b.read_mem(0x21FF), Ok(0));
    assert_eq!(b.read_mem(0x2200), Ok(0x5A));
    assert_eq!(b.read_mem(0x2201), Ok(0));
    assert_eq!(b.read_mem(0x2000), Ok(0));
    assert_eq!(b.read_mem(0x0200), Ok((0x200 % 251) as u8));
}
