//! The 8080 arcade board: four ROM chips below sixteen RAM chips in one
//! flat fourteen-bit address space.

use vstd::prelude::*;
use crate::image::{pad_bytes, padded, Oversized};

verus! {

/// Number of ROM chips on the board.
pub const ROM_CHIPS: usize = 4;

/// Bytes held by one ROM chip.
pub const ROM_CHIP_LEN: usize = 2048;

/// Number of RAM chips on the board.
pub const RAM_CHIPS: usize = 16;

/// Bytes held by one RAM chip.
pub const RAM_CHIP_LEN: usize = 512;

/// First address of the RAM region; the ROM region lies below it.
pub const RAM_BASE: u16 = 0x2000;

/// First address above the board's address space.
pub const SPACE_END: u16 = 0x4000;

/// The physical target of a logical address.
#[derive(Clone, Copy, Debug, PartialEq, Eq, Structural)]
pub enum Target {
    /// A cell of a ROM chip.
    Rom { chip: usize, offset: usize },
    /// A cell of a RAM chip.
    Ram { chip: usize, offset: usize },
    /// No chip answers at this address.
    Unmapped,
}

/// An access outside the board's address space. The board cannot go on
/// after it.
#[derive(Clone, Copy, Debug, PartialEq, Eq, Structural)]
pub struct BusFault {
    pub address: u16,
}

/// What became of a write that addressed the board.
#[derive(Clone, Copy, Debug, PartialEq, Eq, Structural)]
pub enum WriteOutcome {
    /// The byte is now in RAM.
    Stored,
    /// The write addressed read-only memory and was dropped.
    DiscardedRom,
}

/// The chip and the offset within it that answer at `address`. Each region
/// is cut into chips of equal length, counted from the region's first
/// address.
pub open spec fn target_of(address: u16) -> Target {
    if address < 0x2000 {
        Target::Rom { chip: (address / 2048) as usize, offset: (address % 2048) as usize }
    } else if address < 0x4000 {
        Target::Ram {
            chip: ((address - 0x2000) / 512) as usize,
            offset: ((address - 0x2000) % 512) as usize,
        }
    } else {
        Target::Unmapped
    }
}

/// The flat memory after a write of `value` at `address`: RAM takes the
/// byte, everything else is left as it was.
pub open spec fn written(memory: Seq<u8>, address: u16, value: u8) -> Seq<u8> {
    if 0x2000 <= address < 0x4000 {
        memory.update(address as int, value)
    } else {
        memory
    }
}

/// Decodes a logical address into chip and offset.
pub fn decode(address: u16) -> (target: Target)
    ensures
        target == target_of(address),
        match target {
            Target::Rom { chip, offset } => chip < ROM_CHIPS && offset < ROM_CHIP_LEN && address
                == chip * ROM_CHIP_LEN + offset,
            Target::Ram { chip, offset } => chip < RAM_CHIPS && offset < RAM_CHIP_LEN && address
                == RAM_BASE + chip * RAM_CHIP_LEN + offset,
            Target::Unmapped => address >= SPACE_END,
        },
{
    if address < RAM_BASE {
        let a: usize = address as usize;
        Target::Rom { chip: a / ROM_CHIP_LEN, offset: a % ROM_CHIP_LEN }
    } else if address < SPACE_END {
        let a: usize = (address - RAM_BASE) as usize;
        Target::Ram { chip: a / RAM_CHIP_LEN, offset: a % RAM_CHIP_LEN }
    } else {
        Target::Unmapped
    }
}

/// One memory chip: a fixed number of byte cells.
pub struct Chip {
    pub cells: Vec<u8>,
}

impl Chip {
    /// Reads the cell at `offset`.
    pub fn read(&self, offset: usize) -> (value: u8)
        requires
            offset < self.cells@.len(),
        ensures
            value == self.cells@[offset as int],
    {
        self.cells[offset]
    }

    /// Stores `value` in the cell at `offset`.
    pub fn write(&mut self, offset: usize, value: u8)
        requires
            offset < old(self).cells@.len(),
        ensures
            final(self).cells@ == old(self).cells@.update(offset as int, value),
    {
        self.cells.set(offset, value);
    }
}

/// The arcade board's memory.
pub struct Board {
    pub rom: Vec<Chip>,
    pub ram: Vec<Chip>,
}

impl View for Board {
    type V = Seq<u8>;

    /// The board's memory as the processor sees it: one byte per address of
    /// the address space.
    open spec fn view(&self) -> Seq<u8> {
        Seq::new(
            0x4000,
            |a: int|
                if a < 0x2000 {
                    self.rom@[a / 2048].cells@[a % 2048]
                } else {
                    self.ram@[(a - 0x2000) / 512].cells@[(a - 0x2000) % 512]
                },
        )
    }
}

impl Board {
    /// Every chip slot is populated with a chip of the full length.
    pub open spec fn wf(&self) -> bool {
        &&& self.rom@.len() == 4
        &&& self.ram@.len() == 16
        &&& forall|i: int| 0 <= i < 4 ==> (#[trigger] self.rom@[i]).cells@.len() == 2048
        &&& forall|i: int| 0 <= i < 16 ==> (#[trigger] self.ram@[i]).cells@.len() == 512
    }

    /// Builds the board from the four ROM images, lowest addresses first.
    /// A short image is filled up with zeros; an image longer than a chip
    /// is refused, naming the first such chip. RAM starts out zeroed.
    pub fn new(image0: Vec<u8>, image1: Vec<u8>, image2: Vec<u8>, image3: Vec<u8>) -> (out: Result<
        Board,
        Oversized,
    >)
        ensures
            out.is_ok() <==> image0@.len() <= 2048 && image1@.len() <= 2048 && image2@.len()
                <= 2048 && image3@.len() <= 2048,
            out matches Ok(board) ==> {
                &&& board.wf()
                &&& board@ =~= padded(image0@, 2048, 0u8) + padded(image1@, 2048, 0u8) + padded(
                    image2@,
                    2048,
                    0u8,
                ) + padded(image3@, 2048, 0u8) + Seq::new(0x2000, |a: int| 0u8)
            },
            out matches Err(e) ==> {
                &&& e.chip < 4
                &&& e.len > 2048
                &&& e.len == (if e.chip == 0 {
                    image0@.len()
                } else if e.chip == 1 {
                    image1@.len()
                } else if e.chip == 2 {
                    image2@.len()
                } else {
                    image3@.len()
                })
                &&& e.chip >= 1 ==> image0@.len() <= 2048
                &&& e.chip >= 2 ==> image1@.len() <= 2048
                &&& e.chip >= 3 ==> image2@.len() <= 2048
            },
    {
        let c0 = match pad_bytes(&image0, ROM_CHIP_LEN) {
            Some(cells) => Chip { cells },
            None => { return Err(Oversized { chip: 0, len: image0.len() }); },
        };
        let c1 = match pad_bytes(&image1, ROM_CHIP_LEN) {
            Some(cells) => Chip { cells },
            None => { return Err(Oversized { chip: 1, len: image1.len() }); },
        };
        let c2 = match pad_bytes(&image2, ROM_CHIP_LEN) {
            Some(cells) => Chip { cells },
            None => { return Err(Oversized { chip: 2, len: image2.len() }); },
        };
        let c3 = match pad_bytes(&image3, ROM_CHIP_LEN) {
            Some(cells) => Chip { cells },
            None => { return Err(Oversized { chip: 3, len: image3.len() }); },
        };
        let mut rom: Vec<Chip> = Vec::new();
        rom.push(c0);
        rom.push(c1);
        rom.push(c2);
        rom.push(c3);
        let mut ram: Vec<Chip> = Vec::new();
        let mut i: usize = 0;
        while i < RAM_CHIPS
            invariant
                i <= RAM_CHIPS,
                ram@.len() == i,
                forall|k: int|
                    0 <= k < i ==> (#[trigger] ram@[k]).cells@ == Seq::new(512, |a: int| 0u8),
            decreases RAM_CHIPS - i,
        {
            let empty: Vec<u8> = Vec::new();
            let cells = match pad_bytes(&empty, RAM_CHIP_LEN) {
                Some(cells) => cells,
                None => empty,
            };
            proof {
                assert(cells@ =~= Seq::new(512, |a: int| 0u8));
            }
            ram.push(Chip { cells });
            i += 1;
        }
        let board = Board { rom, ram };
        proof {
            assert(board.wf());
            assert(board@ =~= padded(image0@, 2048, 0u8) + padded(image1@, 2048, 0u8) + padded(
                image2@,
                2048,
                0u8,
            ) + padded(image3@, 2048, 0u8) + Seq::new(0x2000, |a: int| 0u8)) by {
                assert forall|a: int| 0x2000 <= a < 0x4000 implies board@[a] == 0u8 by {
                    let k = (a - 0x2000) / 512;
                    assert(board.ram@[k].cells@ == Seq::new(512, |a: int| 0u8));
                }
            }
        }
        Ok(board)
    }

    /// Reads the byte at `address`. Fails exactly for an address outside
    /// the address space.
    pub fn read_mem(&self, address: u16) -> (out: Result<u8, BusFault>)
        requires
            self.wf(),
        ensures
            address < 0x4000 ==> out == Ok::<u8, BusFault>(self@[address as int]),
            address >= 0x4000 ==> out == Err::<u8, BusFault>(BusFault { address }),
    {
        match decode(address) {
            Target::Rom { chip, offset } => Ok(self.rom[chip].read(offset)),
            Target::Ram { chip, offset } => Ok(self.ram[chip].read(offset)),
            Target::Unmapped => Err(BusFault { address }),
        }
    }

    /// Writes `value` at `address`. A write into RAM is stored; a write
    /// into ROM is dropped and reported as such; a write outside the
    /// address space fails. Nothing but the addressed RAM cell changes.
    pub fn write_mem(&mut self, address: u16, value: u8) -> (out: Result<WriteOutcome, BusFault>)
        requires
            old(self).wf(),
        ensures
            final(self).wf(),
            final(self)@ == written(old(self)@, address, value),
            final(self).rom@ == old(self).rom@,
            address < 0x2000 ==> out == Ok::<WriteOutcome, BusFault>(WriteOutcome::DiscardedRom),
            0x2000 <= address < 0x4000 ==> out == Ok::<WriteOutcome, BusFault>(
                WriteOutcome::Stored,
            ),
            address >= 0x4000 ==> out == Err::<WriteOutcome, BusFault>(BusFault { address }),
            !(0x2000 <= address < 0x4000) ==> *final(self) == *old(self),
    {
        match decode(address) {
            Target::Rom { chip, offset } => Ok(WriteOutcome::DiscardedRom),
            Target::Ram { chip, offset } => {
                self.ram[chip].write(offset, value);
                proof {
                    let before = *old(self);
                    let after = *self;
                    assert(after.wf());
                    assert forall|a: int| 0 <= a < 0x4000 implies after@[a] == written(
                        before@,
                        address,
                        value,
                    )[a] by {
                        if a >= 0x2000 {
                            let k = (a - 0x2000) / 512;
                            if k != chip {
                                assert(after.ram@[k] == before.ram@[k]);
                            }
                        }
                    }
                    assert(after@ =~= written(before@, address, value));
                }
                Ok(WriteOutcome::Stored)
            },
            Target::Unmapped => Err(BusFault { address }),
        }
    }
}

/// Round trip: a byte written at a RAM address is the byte read back there,
/// and no other address is disturbed.
pub proof fn lemma_ram_round_trip(memory: Seq<u8>, address: u16, value: u8)
    requires
        memory.len() == 0x4000,
        0x2000 <= address < 0x4000,
    ensures
        written(memory, address, value)[address as int] == value,
        forall|other: int|
            0 <= other < 0x4000 && other != address ==> written(memory, address, value)[other]
                == memory[other],
{
}

/// Read-only memory: whatever is written at a ROM address, every address
/// still reads what it read before.
pub proof fn lemma_rom_write_discarded(memory: Seq<u8>, address: u16, value: u8)
    requires
        memory.len() == 0x4000,
        address < 0x2000,
    ensures
        written(memory, address, value) == memory,
{
}

/// No write of any kind changes what the ROM region holds.
pub proof fn lemma_rom_is_stable(memory: Seq<u8>, address: u16, value: u8, probe: int)
    requires
        memory.len() == 0x4000,
        0 <= probe < 0x2000,
    ensures
        written(memory, address, value)[probe] == memory[probe],
{
}

/// Every address of the address space has exactly one target, and two
/// different addresses never share one.
pub proof fn lemma_targets_distinct(a: u16, b: u16)
    requires
        a < 0x4000,
        b < 0x4000,
        a != b,
    ensures
        target_of(a) != Target::Unmapped,
        target_of(a) != target_of(b),
{
}

} // verus!
