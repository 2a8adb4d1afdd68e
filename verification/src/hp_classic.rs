//! The HP classic boards (HP-35, HP-45): ROM chips loaded from packed
//! images of 320 bytes each, all driving one instruction line and one
//! word-select line.

use vstd::prelude::*;
use crate::image::{chunk, chunk_count, padded, padded_chunk};
use crate::merge::{merge_words, or_fold};

verus! {

/// Bytes of packed image per ROM chip: 256 words of ten bits.
pub const ROM_CHIP_LEN: usize = 320;

/// Most ROM chips that the three-bit ROM number can tell apart.
pub const MAX_ROMS: usize = 8;

/// The packed program is longer than eight ROM chips can hold.
#[derive(Clone, Copy, Debug, PartialEq, Eq, Structural)]
pub struct ProgramTooLong {
    pub len: usize,
}

/// What one chip drives onto the two shared lines during a tick: a ten-bit
/// opcode and a fourteen-bit word-select pattern. A chip that is not
/// selected drives zero on both.
#[derive(Clone, Copy, Debug, PartialEq, Eq, Structural)]
pub struct RomOutput {
    pub opcode: u16,
    pub word_select: u16,
}

/// The opcodes of `outputs`, in chip order.
pub open spec fn opcodes(outputs: Seq<RomOutput>) -> Seq<u16> {
    Seq::new(outputs.len(), |i: int| outputs[i].opcode)
}

/// The word-select patterns of `outputs`, in chip order.
pub open spec fn word_selects(outputs: Seq<RomOutput>) -> Seq<u16> {
    Seq::new(outputs.len(), |i: int| outputs[i].word_select)
}

/// The packed ROM images of an HP classic board, one per chip.
pub struct Board {
    pub images: Vec<Vec<u8>>,
}

impl Board {
    /// At most eight chips, each with a full image.
    pub open spec fn wf(&self) -> bool {
        &&& self.images@.len() <= 8
        &&& forall|i: int| 0 <= i < self.images@.len() ==> (#[trigger] self.images@[i])@.len() == 320
    }

    /// Cuts the packed program into chip images of 320 bytes, in order;
    /// the last image is filled up with zeros. A program that needs more
    /// than eight chips is refused.
    pub fn new(packed_rom_data: Vec<u8>) -> (out: Result<Board, ProgramTooLong>)
        ensures
            out.is_ok() <==> packed_rom_data@.len() <= 2560,
            out matches Err(e) ==> e.len == packed_rom_data@.len(),
            out matches Ok(board) ==> {
                &&& board.wf()
                &&& board.images@.len() == chunk_count(packed_rom_data@.len() as int, 320)
                &&& forall|i: int|
                    0 <= i < board.images@.len() ==> (#[trigger] board.images@[i])@ == padded(
                        chunk(packed_rom_data@, 320, i),
                        320,
                        0u8,
                    )
            },
    {
        let len: usize = packed_rom_data.len();
        if len > ROM_CHIP_LEN * MAX_ROMS {
            return Err(ProgramTooLong { len });
        }
        let count: usize = (len + ROM_CHIP_LEN - 1) / ROM_CHIP_LEN;
        let mut images: Vec<Vec<u8>> = Vec::new();
        let mut i: usize = 0;
        while i < count
            invariant
                i <= count,
                count <= 8,
                len == packed_rom_data@.len(),
                count == chunk_count(len as int, 320),
                images@.len() == i,
                forall|k: int|
                    0 <= k < i ==> (#[trigger] images@[k])@ == padded(
                        chunk(packed_rom_data@, 320, k),
                        320,
                        0u8,
                    ),
            decreases count - i,
        {
            let image = padded_chunk(&packed_rom_data, ROM_CHIP_LEN, i, 0u8);
            images.push(image);
            i += 1;
        }
        Ok(Board { images })
    }

    /// The bus half of one clock tick: merges what every populated chip
    /// drives onto the shared lines. Each line carries the OR of all
    /// chips' contributions; the merged opcode is what is then broadcast
    /// to every chip for ROM-select decoding and handed to the processor.
    pub fn run_cycle(&self, outputs: &Vec<RomOutput>) -> (line: RomOutput)
        requires
            self.wf(),
            outputs@.len() == self.images@.len(),
        ensures
            line.opcode == or_fold(opcodes(outputs@)),
            line.word_select == or_fold(word_selects(outputs@)),
    {
        let mut ops: Vec<u16> = Vec::new();
        let mut selects: Vec<u16> = Vec::new();
        let mut i: usize = 0;
        while i < outputs.len()
            invariant
                i <= outputs@.len(),
                ops@.len() == i,
                selects@.len() == i,
                forall|k: int| 0 <= k < i ==> ops@[k] == outputs@[k].opcode,
                forall|k: int| 0 <= k < i ==> selects@[k] == outputs@[k].word_select,
            decreases outputs@.len() - i,
        {
            ops.push(outputs[i].opcode);
            selects.push(outputs[i].word_select);
            i += 1;
        }
        proof {
            assert(ops@ =~= opcodes(outputs@));
            assert(selects@ =~= word_selects(outputs@));
        }
        RomOutput { opcode: merge_words(&ops), word_select: merge_words(&selects) }
    }
}

/// Open-collector law for both lines: when every chip but the one at
/// `selected` drives zero, the merged lines carry exactly what the selected
/// chip drives.
pub proof fn lemma_selected_chip_drives(outputs: Seq<RomOutput>, selected: int)
    requires
        0 <= selected < outputs.len(),
        forall|i: int|
            0 <= i < outputs.len() && i != selected ==> outputs[i].opcode == 0
                && outputs[i].word_select == 0,
    ensures
        or_fold(opcodes(outputs)) == outputs[selected].opcode,
        or_fold(word_selects(outputs)) == outputs[selected].word_select,
{
    crate::merge::lemma_single_driver(opcodes(outputs), selected);
    crate::merge::lemma_single_driver(word_selects(outputs), selected);
}

} // verus!
