//! The 4004 desktop calculator board: five ROM chips with I/O ports, two
//! RAM chips out of a possible sixteen, a keyboard shift register and a
//! cascade of two shift registers that feeds the printer.

use vstd::prelude::*;
use crate::image::{pad_bytes, padded, Oversized};
use crate::latch::{rising, Latch};
use crate::shifter::{
    combine_parallel, combined, far_bit, shift_cascade, shifted, wide_shifted, Shifter,
};

verus! {

/// Number of ROM chips on the board.
pub const ROM_CHIPS: usize = 5;

/// Bytes held by one ROM chip.
pub const ROM_CHIP_LEN: usize = 256;

/// Number of RAM chips on the board.
pub const RAM_CHIPS: usize = 2;

/// The register pair that the processor sends ahead of a RAM or port
/// access: which chip, which register within it, which character.
#[derive(Clone, Copy, Debug, PartialEq, Eq, Structural)]
pub struct DesignatedIndex {
    /// Chip within the bank, two bits.
    pub chip_index: u8,
    /// Register within the chip, two bits.
    pub reg_index: u8,
    /// Character within the register, four bits.
    pub char_index: u8,
}

impl DesignatedIndex {
    /// Every field fits its bit width.
    pub open spec fn wf(&self) -> bool {
        self.chip_index < 4 && self.reg_index < 4 && self.char_index < 16
    }

    /// The four-bit chip number that a ROM port access addresses: the chip
    /// index above the register index.
    pub open spec fn rom_number(&self) -> int {
        self.chip_index * 4 + self.reg_index
    }
}

/// A twelve-bit program address: the ROM chip and the byte within it.
#[derive(Clone, Copy, Debug, PartialEq, Eq, Structural)]
pub struct RomAddress {
    /// ROM chip, four bits.
    pub chip_index: u8,
    /// Byte within the chip.
    pub offset: u8,
}

/// What the bus had to report about a RAM access that it handled.
#[derive(Clone, Copy, Debug, PartialEq, Eq, Structural)]
pub struct Diagnostics {
    /// The command-control register held none of the four bank encodings,
    /// and bank 0 was taken.
    pub invalid_control: bool,
    /// No chip is populated at the addressed slot, and the access was
    /// dropped.
    pub missing_chip: bool,
}

/// The bank that a command-control encoding selects, if it is one of the
/// four valid encodings.
pub open spec fn bank_of(command_control: u8) -> Option<u8> {
    if command_control == 0b000 {
        Some(0u8)
    } else if command_control == 0b001 {
        Some(1u8)
    } else if command_control == 0b010 {
        Some(2u8)
    } else if command_control == 0b100 {
        Some(3u8)
    } else {
        None
    }
}

/// The bank that is taken for a command-control encoding: bank 0 for an
/// invalid one.
pub open spec fn bank_taken(command_control: u8) -> u8 {
    match bank_of(command_control) {
        Some(bank) => bank,
        None => 0u8,
    }
}

/// The physical RAM slot of a chip select within a bank: four slots per
/// bank, the chip select counting within the bank.
pub open spec fn ram_slot(command_control: u8, chip_index: u8) -> usize {
    (chip_index + 4 * bank_taken(command_control)) as usize
}

/// Decodes the command-control register into a bank.
pub fn decode_bank(command_control: u8) -> (bank: Option<u8>)
    ensures
        bank == bank_of(command_control),
{
    if command_control == 0b000 {
        Some(0)
    } else if command_control == 0b001 {
        Some(1)
    } else if command_control == 0b010 {
        Some(2)
    } else if command_control == 0b100 {
        Some(3)
    } else {
        None
    }
}

/// Resolves bank and chip select to the physical RAM slot: the bank in the
/// upper two bits, the chip select in the lower two. An invalid
/// command-control encoding resolves as bank 0.
pub fn convert_ram_index(command_control: u8, designated_index: DesignatedIndex) -> (slot: usize)
    requires
        designated_index.wf(),
    ensures
        slot == ram_slot(command_control, designated_index.chip_index),
        slot == (designated_index.chip_index | (bank_taken(command_control) << 2)),
        slot < 16,
{
    let bank: u8 = match decode_bank(command_control) {
        Some(bank) => bank,
        None => 0,
    };
    let chip: u8 = designated_index.chip_index;
    assert((chip | (bank << 2)) == chip + 4 * bank) by (bit_vector)
        requires
            chip < 4,
            bank < 4,
    ;
    (chip | (bank << 2)) as usize
}

/// Bank resolution law: each valid encoding with each chip select resolves
/// to the chip select ORed with the bank code shifted up by two, and an
/// invalid encoding lands in bank 0.
pub proof fn lemma_ram_slot(command_control: u8, chip_index: u8)
    requires
        chip_index < 4,
    ensures
        ram_slot(command_control, chip_index) == (chip_index | (bank_taken(command_control)
            << 2)),
        command_control == 0b000 ==> ram_slot(command_control, chip_index) == (chip_index | (0u8
            << 2)),
        command_control == 0b001 ==> ram_slot(command_control, chip_index) == (chip_index | (1u8
            << 2)),
        command_control == 0b010 ==> ram_slot(command_control, chip_index) == (chip_index | (2u8
            << 2)),
        command_control == 0b100 ==> ram_slot(command_control, chip_index) == (chip_index | (3u8
            << 2)),
        bank_of(command_control).is_none() ==> ram_slot(command_control, chip_index)
            == chip_index,
        ram_slot(command_control, chip_index) < 16,
{
    let bank = bank_taken(command_control);
    assert((chip_index | (bank << 2)) == chip_index + 4 * bank) by (bit_vector)
        requires
            chip_index < 4,
            bank < 4,
    ;
}

/// Two accesses through valid encodings reach the same slot only if they
/// name the same bank and the same chip.
pub proof fn lemma_ram_slot_injective(control_a: u8, chip_a: u8, control_b: u8, chip_b: u8)
    requires
        chip_a < 4,
        chip_b < 4,
        bank_of(control_a).is_some(),
        bank_of(control_b).is_some(),
        ram_slot(control_a, chip_a) == ram_slot(control_b, chip_b),
    ensures
        control_a == control_b,
        chip_a == chip_b,
{
}

/// The ROM chip that answers for a four-bit chip number: numbers beyond
/// the populated chips wrap around.
pub open spec fn rom_slot(chip_number: int) -> int {
    chip_number % 5
}

/// Resolves a four-bit chip number to the ROM chip that answers for it.
pub fn rom_index(chip_number: u8) -> (slot: usize)
    ensures
        slot == rom_slot(chip_number as int),
        slot < 5,
{
    chip_number as usize % ROM_CHIPS
}

/// A ROM chip: 256 program bytes and a four-bit I/O port.
pub struct Rom {
    pub data: Vec<u8>,
    pub port: u8,
}

impl Rom {
    pub open spec fn wf(&self) -> bool {
        self.data@.len() == 256 && self.port < 16
    }
}

/// A RAM chip: four registers of sixteen main characters and four status
/// characters each, all four bits wide, and a four-bit output port.
pub struct Ram {
    pub characters: Vec<u8>,
    pub status: Vec<u8>,
    pub port: u8,
}

impl Ram {
    pub open spec fn wf(&self) -> bool {
        &&& self.characters@.len() == 64
        &&& self.status@.len() == 16
        &&& self.port < 16
        &&& forall|i: int| 0 <= i < 64 ==> #[trigger] self.characters@[i] < 16
        &&& forall|i: int| 0 <= i < 16 ==> #[trigger] self.status@[i] < 16
    }

    /// A chip with every character and the port at zero.
    pub fn new() -> (ram: Ram)
        ensures
            ram.wf(),
            ram.characters@ == Seq::new(64, |i: int| 0u8),
            ram.status@ == Seq::new(16, |i: int| 0u8),
            ram.port == 0,
    {
        let mut characters: Vec<u8> = Vec::new();
        let mut status: Vec<u8> = Vec::new();
        let mut i: usize = 0;
        while i < 64
            invariant
                i <= 64,
                characters@.len() == i,
                forall|k: int| 0 <= k < i ==> characters@[k] == 0u8,
            decreases 64 - i,
        {
            characters.push(0);
            i += 1;
        }
        let mut j: usize = 0;
        while j < 16
            invariant
                j <= 16,
                status@.len() == j,
                forall|k: int| 0 <= k < j ==> status@[k] == 0u8,
            decreases 16 - j,
        {
            status.push(0);
            j += 1;
        }
        proof {
            assert(characters@ =~= Seq::new(64, |i: int| 0u8));
            assert(status@ =~= Seq::new(16, |i: int| 0u8));
        }
        Ram { characters, status, port: 0 }
    }
}

/// Position of a main character within a RAM chip.
pub open spec fn character_cell(designated_index: DesignatedIndex) -> int {
    designated_index.reg_index * 16 + designated_index.char_index
}

/// Position of a status character within a RAM chip.
pub open spec fn status_cell(designated_index: DesignatedIndex, status_index: u8) -> int {
    designated_index.reg_index * 4 + status_index
}

/// Whether bit `index` of a four-bit port value is set.
pub open spec fn port_bit(ports: u8, index: int) -> bool {
    if index == 0 {
        ports % 2 == 1
    } else if index == 1 {
        (ports / 2) % 2 == 1
    } else if index == 2 {
        (ports / 4) % 2 == 1
    } else {
        (ports / 8) % 2 == 1
    }
}

/// Data line of the keyboard shift register, wired active low to bit 1 of
/// the port of ROM 0.
pub open spec fn keyboard_data(ports: u8) -> bool {
    !port_bit(ports, 1)
}

/// Clock line of the keyboard shift register, wired active low to bit 0.
pub open spec fn keyboard_clock(ports: u8) -> bool {
    !port_bit(ports, 0)
}

/// Data line of the printer cascade, wired active high to bit 1.
pub open spec fn printer_data(ports: u8) -> bool {
    port_bit(ports, 1)
}

/// Clock line of the printer cascade, wired active low to bit 2.
pub open spec fn printer_clock(ports: u8) -> bool {
    !port_bit(ports, 2)
}

/// The four serial lines that the port of ROM 0 drives, each as its
/// logical level.
#[derive(Clone, Copy, Debug, PartialEq, Eq, Structural)]
pub struct ShifterLines {
    pub keyboard_data: bool,
    pub keyboard_clock: bool,
    pub printer_data: bool,
    pub printer_clock: bool,
}

/// Extracts the serial lines from the port of ROM 0, each with the
/// polarity it is wired with.
pub fn decode_shifter_lines(ports: u8) -> (lines: ShifterLines)
    ensures
        lines.keyboard_data == keyboard_data(ports),
        lines.keyboard_clock == keyboard_clock(ports),
        lines.printer_data == printer_data(ports),
        lines.printer_clock == printer_clock(ports),
{
    assert((ports & 0b1 == 0) == (ports % 2 != 1) && (ports & 0b10 == 0) == ((ports / 2) % 2 != 1)
        && (ports & 0b10 == 0b10) == ((ports / 2) % 2 == 1) && (ports & 0b100 == 0) == ((ports / 4)
        % 2 != 1)) by (bit_vector);
    ShifterLines {
        keyboard_data: ports & 0b10 == 0,
        keyboard_clock: ports & 0b1 == 0,
        printer_data: ports & 0b10 == 0b10,
        printer_clock: ports & 0b100 == 0,
    }
}

/// The two mechanical signal lines that the port of RAM 0 drives.
#[derive(Clone, Copy, Debug, PartialEq, Eq, Structural)]
pub struct SignalLevels {
    pub advance_paper: bool,
    pub hammer: bool,
}

/// Extracts the mechanical signal lines from the port of RAM 0.
pub fn decode_signal_levels(ports: u8) -> (levels: SignalLevels)
    ensures
        levels.advance_paper == advance_paper_level(ports),
        levels.hammer == hammer_level(ports),
{
    assert((ports & 0b1000 == 0b1000) == ((ports / 8) % 2 == 1) && (ports & 0b10 == 0b10) == ((
    ports / 2) % 2 == 1)) by (bit_vector);
    SignalLevels { advance_paper: ports & 0b1000 == 0b1000, hammer: ports & 0b10 == 0b10 }
}

/// The keyboard and printer data lines share bit 1 of the port with
/// opposite polarity: exactly one of them is high at any time.
pub proof fn lemma_data_lines_opposed(ports: u8)
    ensures
        keyboard_data(ports) != printer_data(ports),
{
}

/// Level of the paper-advance line: bit 3 of the port of RAM 0.
pub open spec fn advance_paper_level(ports: u8) -> bool {
    port_bit(ports, 3)
}

/// Level of the hammer line: bit 1 of the port of RAM 0.
pub open spec fn hammer_level(ports: u8) -> bool {
    port_bit(ports, 1)
}

/// The calculator board without its processor.
pub struct Board {
    pub i4001s: Vec<Rom>,
    pub i4002s: Vec<Ram>,
    pub i4003s: Vec<Shifter>,
    pub advance_paper: Latch,
    pub hammering: Latch,
}

impl Board {
    /// Every slot is populated and every chip is well formed.
    pub open spec fn wf(&self) -> bool {
        &&& self.i4001s@.len() == 5
        &&& self.i4002s@.len() == 2
        &&& self.i4003s@.len() == 3
        &&& forall|i: int| 0 <= i < 5 ==> (#[trigger] self.i4001s@[i]).wf()
        &&& forall|i: int| 0 <= i < 2 ==> (#[trigger] self.i4002s@[i]).wf()
        &&& forall|i: int| 0 <= i < 3 ==> (#[trigger] self.i4003s@[i]).wf()
    }

    /// Whether a RAM chip is populated at `slot`.
    pub open spec fn populated(&self, slot: usize) -> bool {
        slot < self.i4002s@.len()
    }

    /// What a read of the main character at `designated_index` returns:
    /// the character of the addressed chip, zero where none is populated.
    pub open spec fn character_at(&self, command_control: u8, designated_index: DesignatedIndex)
        -> u8 {
        let slot = ram_slot(command_control, designated_index.chip_index);
        if self.populated(slot) {
            self.i4002s@[slot as int].characters@[character_cell(designated_index)]
        } else {
            0u8
        }
    }

    /// What a read of a status character returns: the character of the
    /// addressed chip, zero where none is populated.
    pub open spec fn status_at(
        &self,
        command_control: u8,
        designated_index: DesignatedIndex,
        status_index: u8,
    ) -> u8 {
        let slot = ram_slot(command_control, designated_index.chip_index);
        if self.populated(slot) {
            self.i4002s@[slot as int].status@[status_cell(designated_index, status_index)]
        } else {
            0u8
        }
    }

    /// What the bus reports about a RAM access.
    pub open spec fn diagnostics_of(&self, command_control: u8, designated_index: DesignatedIndex)
        -> Diagnostics {
        Diagnostics {
            invalid_control: bank_of(command_control).is_none(),
            missing_chip: !self.populated(ram_slot(command_control, designated_index.chip_index)),
        }
    }

    /// Everything but the RAM chips is the same in `self` and `other`.
    pub open spec fn same_outside_ram(&self, other: &Board) -> bool {
        &&& self.i4001s@ == other.i4001s@
        &&& self.i4003s@ == other.i4003s@
        &&& self.advance_paper == other.advance_paper
        &&& self.hammering == other.hammering
        &&& self.i4002s@.len() == other.i4002s@.len()
    }

    /// All RAM chips but the one at `slot` are the same in `self` and
    /// `other`.
    pub open spec fn same_ram_but(&self, other: &Board, slot: usize) -> bool {
        forall|i: int|
            0 <= i < self.i4002s@.len() && i != slot ==> self.i4002s@[i] == other.i4002s@[i]
    }

    /// Builds the board from the five ROM images. A short image is filled
    /// up with zeros; an image longer than a chip is refused, naming the
    /// first such chip. RAM, ports, shift registers and latches start at
    /// zero.
    pub fn new(
        binary0: Vec<u8>,
        binary1: Vec<u8>,
        binary2: Vec<u8>,
        binary3: Vec<u8>,
        binary4: Vec<u8>,
    ) -> (out: Result<Board, Oversized>)
        ensures
            out.is_ok() <==> binary0@.len() <= 256 && binary1@.len() <= 256 && binary2@.len()
                <= 256 && binary3@.len() <= 256 && binary4@.len() <= 256,
            out matches Ok(board) ==> {
                &&& board.wf()
                &&& board.i4001s@[0].data@ == padded(binary0@, 256, 0u8)
                &&& board.i4001s@[1].data@ == padded(binary1@, 256, 0u8)
                &&& board.i4001s@[2].data@ == padded(binary2@, 256, 0u8)
                &&& board.i4001s@[3].data@ == padded(binary3@, 256, 0u8)
                &&& board.i4001s@[4].data@ == padded(binary4@, 256, 0u8)
                &&& forall|i: int| 0 <= i < 5 ==> (#[trigger] board.i4001s@[i]).port == 0
                &&& forall|i: int|
                    0 <= i < 2 ==> {
                        &&& (#[trigger] board.i4002s@[i]).characters@ == Seq::new(
                            64,
                            |k: int| 0u8,
                        )
                        &&& board.i4002s@[i].status@ == Seq::new(16, |k: int| 0u8)
                        &&& board.i4002s@[i].port == 0
                    }
                &&& forall|i: int| 0 <= i < 3 ==> (#[trigger] board.i4003s@[i]).bits == 0
                &&& !board.advance_paper.level
                &&& !board.hammering.level
            },
            out matches Err(e) ==> {
                &&& e.chip < 5
                &&& e.len > 256
                &&& e.len == (if e.chip == 0 {
                    binary0@.len()
                } else if e.chip == 1 {
                    binary1@.len()
                } else if e.chip == 2 {
                    binary2@.len()
                } else if e.chip == 3 {
                    binary3@.len()
                } else {
                    binary4@.len()
                })
                &&& e.chip >= 1 ==> binary0@.len() <= 256
                &&& e.chip >= 2 ==> binary1@.len() <= 256
                &&& e.chip >= 3 ==> binary2@.len() <= 256
                &&& e.chip >= 4 ==> binary3@.len() <= 256
            },
    {
        let r0 = match pad_bytes(&binary0, ROM_CHIP_LEN) {
            Some(data) => Rom { data, port: 0 },
            None => { return Err(Oversized { chip: 0, len: binary0.len() }); },
        };
        let r1 = match pad_bytes(&binary1, ROM_CHIP_LEN) {
            Some(data) => Rom { data, port: 0 },
            None => { return Err(Oversized { chip: 1, len: binary1.len() }); },
        };
        let r2 = match pad_bytes(&binary2, ROM_CHIP_LEN) {
            Some(data) => Rom { data, port: 0 },
            None => { return Err(Oversized { chip: 2, len: binary2.len() }); },
        };
        let r3 = match pad_bytes(&binary3, ROM_CHIP_LEN) {
            Some(data) => Rom { data, port: 0 },
            None => { return Err(Oversized { chip: 3, len: binary3.len() }); },
        };
        let r4 = match pad_bytes(&binary4, ROM_CHIP_LEN) {
            Some(data) => Rom { data, port: 0 },
            None => { return Err(Oversized { chip: 4, len: binary4.len() }); },
        };
        let mut i4001s: Vec<Rom> = Vec::new();
        i4001s.push(r0);
        i4001s.push(r1);
        i4001s.push(r2);
        i4001s.push(r3);
        i4001s.push(r4);
        let mut i4002s: Vec<Ram> = Vec::new();
        i4002s.push(Ram::new());
        i4002s.push(Ram::new());
        let mut i4003s: Vec<Shifter> = Vec::new();
        i4003s.push(Shifter::new());
        i4003s.push(Shifter::new());
        i4003s.push(Shifter::new());
        Ok(Board { i4001s, i4002s, i4003s, advance_paper: Latch::new(), hammering: Latch::new() })
    }

    /// Fetches a program byte. A chip number beyond the populated ROM
    /// chips wraps around.
    pub fn read_rom_byte(&self, address: RomAddress) -> (byte: u8)
        requires
            self.wf(),
        ensures
            byte == self.i4001s@[rom_slot(address.chip_index as int)].data@[address.offset as int],
    {
        let chip = rom_index(address.chip_index);
        self.i4001s[chip].data[address.offset as usize]
    }

    /// Reads the I/O port of the addressed ROM chip, wrapping around
    /// beyond the populated chips.
    pub fn read_rom_ports(&self, designated_index: DesignatedIndex) -> (value: u8)
        requires
            self.wf(),
            designated_index.wf(),
        ensures
            value == self.i4001s@[rom_slot(designated_index.rom_number())].port,
            value < 16,
    {
        let chip = rom_index(designated_index.chip_index * 4 + designated_index.reg_index);
        self.i4001s[chip].port
    }

    /// Writes the I/O port of the addressed ROM chip, wrapping around
    /// beyond the populated chips. Nothing else changes.
    pub fn write_rom_ports(&mut self, designated_index: DesignatedIndex, value: u8)
        requires
            old(self).wf(),
            designated_index.wf(),
            value < 16,
        ensures
            final(self).wf(),
            final(self).i4001s@.len() == 5,
            forall|i: int|
                0 <= i < 5 ==> (#[trigger] final(self).i4001s@[i]).data@ == old(
                    self,
                ).i4001s@[i].data@,
            forall|i: int|
                0 <= i < 5 ==> (#[trigger] final(self).i4001s@[i]).port == (if i == rom_slot(
                    designated_index.rom_number(),
                ) {
                    value
                } else {
                    old(self).i4001s@[i].port
                }),
            final(self).i4002s@ == old(self).i4002s@,
            final(self).i4003s@ == old(self).i4003s@,
            final(self).advance_paper == old(self).advance_paper,
            final(self).hammering == old(self).hammering,
    {
        let chip = rom_index(designated_index.chip_index * 4 + designated_index.reg_index);
        self.i4001s[chip].port = value;
    }

    /// Reads a main character. Where no chip is populated at the addressed
    /// slot the read returns zero and says so.
    pub fn read_ram_character(&self, command_control: u8, designated_index: DesignatedIndex) -> (out:
        (u8, Diagnostics))
        requires
            self.wf(),
            designated_index.wf(),
        ensures
            out.0 == self.character_at(command_control, designated_index),
            out.0 < 16,
            out.1 == self.diagnostics_of(command_control, designated_index),
    {
        let invalid_control = decode_bank(command_control).is_none();
        let slot = convert_ram_index(command_control, designated_index);
        if slot < self.i4002s.len() {
            let cell: usize = designated_index.reg_index as usize * 16
                + designated_index.char_index as usize;
            (self.i4002s[slot].characters[cell], Diagnostics { invalid_control, missing_chip: false })
        } else {
            (0, Diagnostics { invalid_control, missing_chip: true })
        }
    }

    /// Writes a main character. Where no chip is populated at the
    /// addressed slot nothing changes and the result says so. A character
    /// that was written is the one read back at the same place.
    pub fn write_ram_character(
        &mut self,
        command_control: u8,
        designated_index: DesignatedIndex,
        value: u8,
    ) -> (out: Diagnostics)
        requires
            old(self).wf(),
            designated_index.wf(),
            value < 16,
        ensures
            final(self).wf(),
            out == old(self).diagnostics_of(command_control, designated_index),
            final(self).same_outside_ram(old(self)),
            final(self).same_ram_but(
                old(self),
                ram_slot(command_control, designated_index.chip_index),
            ),
            out.missing_chip ==> final(self).i4002s@ == old(self).i4002s@,
            !out.missing_chip ==> ({
                let slot = ram_slot(command_control, designated_index.chip_index) as int;
                &&& final(self).i4002s@[slot].characters@ == old(
                    self,
                ).i4002s@[slot].characters@.update(character_cell(designated_index), value)
                &&& final(self).i4002s@[slot].status@ == old(self).i4002s@[slot].status@
                &&& final(self).i4002s@[slot].port == old(self).i4002s@[slot].port
                &&& final(self).character_at(command_control, designated_index) == value
            }),
    {
        let invalid_control = decode_bank(command_control).is_none();
        let slot = convert_ram_index(command_control, designated_index);
        if slot < self.i4002s.len() {
            let cell: usize = designated_index.reg_index as usize * 16
                + designated_index.char_index as usize;
            self.i4002s[slot].characters.set(cell, value);
            Diagnostics { invalid_control, missing_chip: false }
        } else {
            Diagnostics { invalid_control, missing_chip: true }
        }
    }

    /// Reads a status character. Where no chip is populated at the
    /// addressed slot the read returns zero and says so.
    pub fn read_ram_status(
        &self,
        command_control: u8,
        designated_index: DesignatedIndex,
        status_index: u8,
    ) -> (out: (u8, Diagnostics))
        requires
            self.wf(),
            designated_index.wf(),
            status_index < 4,
        ensures
            out.0 == self.status_at(command_control, designated_index, status_index),
            out.0 < 16,
            out.1 == self.diagnostics_of(command_control, designated_index),
    {
        let invalid_control = decode_bank(command_control).is_none();
        let slot = convert_ram_index(command_control, designated_index);
        if slot < self.i4002s.len() {
            let cell: usize = designated_index.reg_index as usize * 4 + status_index as usize;
            (self.i4002s[slot].status[cell], Diagnostics { invalid_control, missing_chip: false })
        } else {
            (0, Diagnostics { invalid_control, missing_chip: true })
        }
    }

    /// Writes a status character. Where no chip is populated at the
    /// addressed slot nothing changes and the result says so.
    pub fn write_ram_status(
        &mut self,
        command_control: u8,
        designated_index: DesignatedIndex,
        status_index: u8,
        value: u8,
    ) -> (out: Diagnostics)
        requires
            old(self).wf(),
            designated_index.wf(),
            status_index < 4,
            value < 16,
        ensures
            final(self).wf(),
            out == old(self).diagnostics_of(command_control, designated_index),
            final(self).same_outside_ram(old(self)),
            final(self).same_ram_but(
                old(self),
                ram_slot(command_control, designated_index.chip_index),
            ),
            out.missing_chip ==> final(self).i4002s@ == old(self).i4002s@,
            !out.missing_chip ==> ({
                let slot = ram_slot(command_control, designated_index.chip_index) as int;
                &&& final(self).i4002s@[slot].status@ == old(self).i4002s@[slot].status@.update(
                    status_cell(designated_index, status_index),
                    value,
                )
                &&& final(self).i4002s@[slot].characters@ == old(self).i4002s@[slot].characters@
                &&& final(self).i4002s@[slot].port == old(self).i4002s@[slot].port
                &&& final(self).status_at(command_control, designated_index, status_index)
                    == value
            }),
    {
        let invalid_control = decode_bank(command_control).is_none();
        let slot = convert_ram_index(command_control, designated_index);
        if slot < self.i4002s.len() {
            let cell: usize = designated_index.reg_index as usize * 4 + status_index as usize;
            self.i4002s[slot].status.set(cell, value);
            Diagnostics { invalid_control, missing_chip: false }
        } else {
            Diagnostics { invalid_control, missing_chip: true }
        }
    }

    /// Writes the output port of the addressed RAM chip. Where no chip is
    /// populated at the addressed slot nothing changes and the result says
    /// so.
    pub fn write_ram_ports(
        &mut self,
        command_control: u8,
        designated_index: DesignatedIndex,
        value: u8,
    ) -> (out: Diagnostics)
        requires
            old(self).wf(),
            designated_index.wf(),
            value < 16,
        ensures
            final(self).wf(),
            out == old(self).diagnostics_of(command_control, designated_index),
            final(self).same_outside_ram(old(self)),
            final(self).same_ram_but(
                old(self),
                ram_slot(command_control, designated_index.chip_index),
            ),
            out.missing_chip ==> final(self).i4002s@ == old(self).i4002s@,
            !out.missing_chip ==> ({
                let slot = ram_slot(command_control, designated_index.chip_index) as int;
                &&& final(self).i4002s@[slot].port == value
                &&& final(self).i4002s@[slot].characters@ == old(self).i4002s@[slot].characters@
                &&& final(self).i4002s@[slot].status@ == old(self).i4002s@[slot].status@
            }),
    {
        let invalid_control = decode_bank(command_control).is_none();
        let slot = convert_ram_index(command_control, designated_index);
        if slot < self.i4002s.len() {
            self.i4002s[slot].port = value;
            Diagnostics { invalid_control, missing_chip: false }
        } else {
            Diagnostics { invalid_control, missing_chip: true }
        }
    }

    /// The peripheral half of one clock tick, run once the processor has
    /// made its bus accesses for the tick. The port of ROM 0, as those
    /// accesses left it, drives the shift registers: the keyboard register
    /// shifts on its own clock, and the two printer registers shift as a
    /// cascade on theirs, so that the parallel read-out of the printer
    /// moves up by one bit and takes the data line into bit 0. Memory and
    /// latches are not touched.
    pub fn run_cycle(&mut self)
        requires
            old(self).wf(),
        ensures
            final(self).wf(),
            final(self).i4001s@ == old(self).i4001s@,
            final(self).i4002s@ == old(self).i4002s@,
            final(self).advance_paper == old(self).advance_paper,
            final(self).hammering == old(self).hammering,
            ({
                let ports = old(self).i4001s@[0].port;
                let keyboard = old(self).i4003s@[0].bits;
                let first = old(self).i4003s@[1].bits;
                let second = old(self).i4003s@[2].bits;
                &&& final(self).i4003s@[0].bits == (if keyboard_clock(ports) {
                    shifted(keyboard, keyboard_data(ports))
                } else {
                    keyboard
                })
                &&& final(self).i4003s@[1].bits == (if printer_clock(ports) {
                    shifted(first, printer_data(ports))
                } else {
                    first
                })
                &&& final(self).i4003s@[2].bits == (if printer_clock(ports) {
                    shifted(second, far_bit(first))
                } else {
                    second
                })
                &&& combined(final(self).i4003s@[1].bits, final(self).i4003s@[2].bits) == (
                if printer_clock(ports) {
                    wide_shifted(combined(first, second), printer_data(ports))
                } else {
                    combined(first, second)
                })
            }),
    {
        let ports: u8 = self.i4001s[0].port;
        let mut keyboard: Shifter = self.i4003s[0];
        let mut first: Shifter = self.i4003s[1];
        let mut second: Shifter = self.i4003s[2];
        let lines = decode_shifter_lines(ports);
        keyboard.read_write_serial(lines.keyboard_data, lines.keyboard_clock);
        shift_cascade(&mut first, &mut second, lines.printer_data, lines.printer_clock);
        self.i4003s.set(0, keyboard);
        self.i4003s.set(1, first);
        self.i4003s.set(2, second);
    }

    /// The printer cascade read in parallel: the first printer register in
    /// bits 0 to 9, the second in bits 10 to 19.
    pub fn printer_shift_bits(&self) -> (wide: u32)
        requires
            self.wf(),
        ensures
            wide == combined(self.i4003s@[1].bits, self.i4003s@[2].bits),
            wide == self.i4003s@[1].bits + 1024 * self.i4003s@[2].bits,
            wide <= 0xF_FFFF,
    {
        let first: u16 = self.i4003s[1].read_parallel();
        let second: u16 = self.i4003s[2].read_parallel();
        combine_parallel(first, second)
    }

    /// Whether the paper-advance line has just risen. True once per
    /// activation: on the tick where bit 3 of the port of RAM 0 is high
    /// and was low when last looked at.
    pub fn new_advance_paper_signal(&mut self) -> (pulse: bool)
        requires
            old(self).wf(),
        ensures
            pulse == rising(
                old(self).advance_paper.level,
                advance_paper_level(old(self).i4002s@[0].port),
            ),
            final(self).advance_paper.level == advance_paper_level(old(self).i4002s@[0].port),
            final(self).hammering == old(self).hammering,
            final(self).i4001s@ == old(self).i4001s@,
            final(self).i4002s@ == old(self).i4002s@,
            final(self).i4003s@ == old(self).i4003s@,
    {
        let ram0: u8 = self.i4002s[0].port;
        self.advance_paper.update(decode_signal_levels(ram0).advance_paper)
    }

    /// Whether the hammer line has just risen. True once per activation:
    /// on the tick where bit 1 of the port of RAM 0 is high and was low
    /// when last looked at.
    pub fn new_hammer_signal(&mut self) -> (pulse: bool)
        requires
            old(self).wf(),
        ensures
            pulse == rising(old(self).hammering.level, hammer_level(old(self).i4002s@[0].port)),
            final(self).hammering.level == hammer_level(old(self).i4002s@[0].port),
            final(self).advance_paper == old(self).advance_paper,
            final(self).i4001s@ == old(self).i4001s@,
            final(self).i4002s@ == old(self).i4002s@,
            final(self).i4003s@ == old(self).i4003s@,
    {
        let ram0: u8 = self.i4002s[0].port;
        self.hammering.update(decode_signal_levels(ram0).hammer)
    }
}

} // verus!
