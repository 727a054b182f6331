use crate::processor::{Machine, Processor, MEMORY_SIZE, ROM_START};
use vstd::prelude::*;

verus! {

/// `memory` with the ROM image `rom` copied in from `ROM_START` on.
pub open spec fn with_rom(memory: Seq<u8>, rom: Seq<u8>) -> Seq<u8> {
    Seq::new(
        MEMORY_SIZE as nat,
        |a: int|
            if ROM_START <= a < ROM_START + rom.len() {
                rom[a - ROM_START]
            } else {
                memory[a]
            },
    )
}

pub struct Loader {}

impl Loader {
    /// Copies the raw ROM image `rom` into memory from `ROM_START` on. The image must fit
    /// before the end of memory.
    pub fn load_rom(processor: &mut Processor, rom: &[u8])
        requires
            rom@.len() <= MEMORY_SIZE - ROM_START,
        ensures
            final(processor)@ == (Machine {
                memory: with_rom(old(processor)@.memory, rom@),
                ..old(processor)@
            }),
    {
        let ghost m = processor@;
        let mut i: usize = 0;
        while i < rom.len()
            invariant
                rom@.len() <= MEMORY_SIZE - ROM_START,
                i <= rom@.len(),
                processor@ == (Machine { memory: processor@.memory, ..m }),
                forall|a: int|
                    0 <= a < MEMORY_SIZE ==> #[trigger] processor.memory@[a] == if ROM_START <= a
                        < ROM_START + i {
                        rom@[a - ROM_START]
                    } else {
                        m.memory[a]
                    },
            decreases rom@.len() - i,
        {
            processor.memory[ROM_START + i] = rom[i];
            i = i + 1;
        }
        assert(processor.memory@ =~= with_rom(m.memory, rom@));
    }
}

} // verus!
