//! The HP-35 board: up to eight ROM chips of 256 ten-bit words on one
//! shared instruction line, of which exactly one is enabled at a time.

use vstd::prelude::*;
use crate::image::{chunk, chunk_count, padded, padded_chunk};
use crate::merge::{lemma_or_fold_silent, lemma_single_driver, merge_words, or_fold};

verus! {

/// Words held by one ROM chip.
pub const ROM_CHIP_LEN: usize = 256;

/// Most ROM chips that the three-bit ROM number can tell apart.
pub const MAX_ROMS: usize = 8;

/// The program is longer than eight ROM chips can hold.
#[derive(Clone, Copy, Debug, PartialEq, Eq, Structural)]
pub struct ProgramTooLong {
    pub len: usize,
}

/// The ROM number that an opcode selects, if it is a ROM-select
/// instruction: its low seven bits are `0010000`, and the three bits above
/// them are the number.
pub open spec fn rom_select_of(opcode: u16) -> Option<u8> {
    if opcode % 128 == 16 {
        Some((opcode / 128) as u8)
    } else {
        None
    }
}

/// Decodes the ROM-select instruction.
pub fn decode_rom_select(opcode: u16) -> (number: Option<u8>)
    requires
        opcode < 1024,
    ensures
        number == rom_select_of(opcode),
        number matches Some(n) ==> n < 8,
{
    assert((opcode & 0b1111111 == 0b0010000) == (opcode % 128 == 16) && (opcode >> 7) == opcode
        / 128) by (bit_vector);
    if opcode & 0b1111111 == 0b0010000 {
        Some((opcode >> 7) as u8)
    } else {
        None
    }
}

/// One ROM chip: its words, its own number, and the number it last saw
/// selected. It drives the line only while the two agree.
pub struct Rom {
    pub words: Vec<u16>,
    pub number: u8,
    pub selected: u8,
}

impl Rom {
    pub open spec fn wf(&self) -> bool {
        &&& self.words@.len() == 256
        &&& self.number < 8
        &&& self.selected < 8
        &&& forall|i: int| 0 <= i < 256 ==> #[trigger] self.words@[i] < 1024
    }

    /// What the chip puts on the line at `address`: its word while it is
    /// the selected chip, zero otherwise.
    pub open spec fn output(&self, address: u8) -> u16 {
        if self.number == self.selected {
            self.words@[address as int]
        } else {
            0u16
        }
    }

    /// Reads the chip's output at `address`.
    pub fn read(&self, address: u8) -> (word: u16)
        requires
            self.wf(),
        ensures
            word == self.output(address),
            word < 1024,
    {
        if self.number == self.selected {
            self.words[address as usize]
        } else {
            0
        }
    }

    /// Latches a new selected ROM number.
    pub fn select_rom(&mut self, number: u8)
        requires
            old(self).wf(),
            number < 8,
        ensures
            final(self).wf(),
            final(self).selected == number,
            final(self).number == old(self).number,
            final(self).words@ == old(self).words@,
    {
        self.selected = number;
    }
}

/// The ROM side of the HP-35 board.
pub struct Board {
    pub roms: Vec<Rom>,
}

impl Board {
    /// The chips are numbered in order and agree on the selected number.
    pub open spec fn wf(&self) -> bool {
        &&& self.roms@.len() <= 8
        &&& forall|i: int|
            0 <= i < self.roms@.len() ==> {
                &&& (#[trigger] self.roms@[i]).wf()
                &&& self.roms@[i].number == i
                &&& self.roms@[i].selected == self.selected()
            }
    }

    /// The ROM number that every chip holds as selected.
    pub open spec fn selected(&self) -> u8 {
        if self.roms@.len() > 0 {
            self.roms@[0].selected
        } else {
            0u8
        }
    }

    /// What each chip puts on the line at `address`, in chip order.
    pub open spec fn outputs(&self, address: u8) -> Seq<u16> {
        Seq::new(self.roms@.len(), |i: int| self.roms@[i].output(address))
    }

    /// The word of the program at `address` of chip `chip`.
    pub open spec fn word(&self, chip: int, address: u8) -> u16 {
        self.roms@[chip].words@[address as int]
    }

    /// Cuts the program into chips of 256 words, numbered from 0; the last
    /// chip is filled up with zeros. ROM 0 starts out selected. A program
    /// that needs more than eight chips is refused.
    pub fn new(rom_data: Vec<u16>) -> (out: Result<Board, ProgramTooLong>)
        requires
            forall|i: int| 0 <= i < rom_data@.len() ==> #[trigger] rom_data@[i] < 1024,
        ensures
            out.is_ok() <==> rom_data@.len() <= 2048,
            out matches Err(e) ==> e.len == rom_data@.len(),
            out matches Ok(board) ==> {
                &&& board.wf()
                &&& board.roms@.len() == chunk_count(rom_data@.len() as int, 256)
                &&& board.selected() == 0
                &&& forall|i: int|
                    0 <= i < board.roms@.len() ==> (#[trigger] board.roms@[i]).words@ == padded(
                        chunk(rom_data@, 256, i),
                        256,
                        0u16,
                    )
            },
    {
        let len: usize = rom_data.len();
        if len > ROM_CHIP_LEN * MAX_ROMS {
            return Err(ProgramTooLong { len });
        }
        let count: usize = (len + ROM_CHIP_LEN - 1) / ROM_CHIP_LEN;
        let mut roms: Vec<Rom> = Vec::new();
        let mut i: usize = 0;
        while i < count
            invariant
                i <= count,
                count <= 8,
                len == rom_data@.len(),
                count == chunk_count(len as int, 256),
                roms@.len() == i,
                forall|k: int| 0 <= k < rom_data@.len() ==> #[trigger] rom_data@[k] < 1024,
                forall|k: int|
                    0 <= k < i ==> {
                        &&& (#[trigger] roms@[k]).wf()
                        &&& roms@[k].number == k
                        &&& roms@[k].selected == 0
                        &&& roms@[k].words@ == padded(chunk(rom_data@, 256, k), 256, 0u16)
                    },
            decreases count - i,
        {
            let words = padded_chunk(&rom_data, ROM_CHIP_LEN, i, 0u16);
            proof {
                let piece = chunk(rom_data@, 256, i as int);
                assert forall|k: int| 0 <= k < 256 implies #[trigger] words@[k] < 1024 by {
                    if k < piece.len() {
                        assert(piece[k] == rom_data@[i * 256 + k]);
                    }
                }
            }
            roms.push(Rom { words, number: i as u8, selected: 0 });
            i += 1;
        }
        Ok(Board { roms })
    }

    /// Fetches the opcode at `address` off the shared line: every chip is
    /// read and the outputs are ORed together. Since only the selected
    /// chip drives the line, the result is that chip's word, or zero where
    /// no chip has the selected number.
    pub fn fetch(&self, address: u8) -> (opcode: u16)
        requires
            self.wf(),
        ensures
            opcode == or_fold(self.outputs(address)),
            self.selected() < self.roms@.len() ==> opcode == self.word(
                self.selected() as int,
                address,
            ),
            self.selected() >= self.roms@.len() ==> opcode == 0,
            opcode < 1024,
    {
        let mut outputs: Vec<u16> = Vec::new();
        let mut i: usize = 0;
        while i < self.roms.len()
            invariant
                i <= self.roms@.len(),
                self.wf(),
                outputs@.len() == i,
                forall|k: int| 0 <= k < i ==> outputs@[k] == self.roms@[k].output(address),
            decreases self.roms@.len() - i,
        {
            let word = self.roms[i].read(address);
            outputs.push(word);
            i += 1;
        }
        proof {
            assert(outputs@ =~= self.outputs(address));
            let selected = self.selected() as int;
            if selected < self.roms@.len() {
                assert forall|k: int| 0 <= k < outputs@.len() && k != selected implies outputs@[k]
                    == 0 by {
                    assert(self.roms@[k].wf());
                }
                assert(self.roms@[selected].wf());
                lemma_single_driver(outputs@, selected);
            } else {
                assert forall|k: int| 0 <= k < outputs@.len() implies outputs@[k] == 0 by {
                    assert(self.roms@[k].wf());
                }
                lemma_or_fold_silent(outputs@);
            }
        }
        merge_words(&outputs)
    }

    /// The ROM half of one clock tick. The opcode at `address` is fetched
    /// off the shared line; if it is a ROM-select instruction, the new
    /// number is latched by every chip at once, before the opcode is
    /// handed on. Returns the opcode for the processor's step.
    pub fn run_cycle(&mut self, address: u8) -> (opcode: u16)
        requires
            old(self).wf(),
        ensures
            final(self).wf(),
            opcode == or_fold(old(self).outputs(address)),
            old(self).selected() < old(self).roms@.len() ==> opcode == old(self).word(
                old(self).selected() as int,
                address,
            ),
            old(self).selected() >= old(self).roms@.len() ==> opcode == 0,
            final(self).roms@.len() == old(self).roms@.len(),
            forall|i: int|
                0 <= i < final(self).roms@.len() ==> {
                    &&& (#[trigger] final(self).roms@[i]).words@ == old(self).roms@[i].words@
                    &&& final(self).roms@[i].selected == (match rom_select_of(opcode) {
                        Some(number) => number,
                        None => old(self).roms@[i].selected,
                    })
                },
    {
        let opcode = self.fetch(address);
        match decode_rom_select(opcode) {
            Some(number) => {
                self.select_all(number);
            },
            None => {},
        }
        opcode
    }

    /// Broadcasts a ROM number to every chip, so that all of them hold the
    /// same selection afterwards.
    pub fn select_all(&mut self, number: u8)
        requires
            old(self).wf(),
            number < 8,
        ensures
            final(self).wf(),
            final(self).roms@.len() == old(self).roms@.len(),
            final(self).roms@.len() > 0 ==> final(self).selected() == number,
            forall|i: int|
                0 <= i < final(self).roms@.len() ==> {
                    &&& (#[trigger] final(self).roms@[i]).selected == number
                    &&& final(self).roms@[i].words@ == old(self).roms@[i].words@
                    &&& final(self).roms@[i].number == old(self).roms@[i].number
                },
    {
        let mut i: usize = 0;
        while i < self.roms.len()
            invariant
                i <= self.roms@.len(),
                number < 8,
                old(self).wf(),
                self.roms@.len() == old(self).roms@.len(),
                forall|k: int|
                    0 <= k < i ==> {
                        &&& (#[trigger] self.roms@[k]).selected == number
                        &&& self.roms@[k].words@ == old(self).roms@[k].words@
                        &&& self.roms@[k].number == old(self).roms@[k].number
                    },
                forall|k: int| i <= k < self.roms@.len() ==> self.roms@[k] == old(self).roms@[k],
            decreases self.roms@.len() - i,
        {
            proof {
                assert(old(self).roms@[i as int].wf());
            }
            self.roms[i].select_rom(number);
            i += 1;
        }
        proof {
            assert forall|k: int| 0 <= k < self.roms@.len() implies (#[trigger] self.roms@[k]).wf() by {
                assert(old(self).roms@[k].wf());
            }
        }
    }
}

} // verus!
