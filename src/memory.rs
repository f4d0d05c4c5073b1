use vstd::prelude::*;

verus! {

/// Number of cells: one for every 16-bit address.
pub const MEMORY_SIZE: usize = 65536;

/// `mem` with `values` copied in from cell `origin` on; every other cell kept.
pub open spec fn loaded(mem: Seq<u16>, values: Seq<u16>, origin: int) -> Seq<u16> {
    Seq::new(
        mem.len(),
        |i: int|
            if origin <= i < origin + values.len() {
                values[i - origin]
            } else {
                mem[i]
            },
    )
}

/// The machine's word-addressed store: 65536 cells of 16 bits.
pub struct Memory {
    cells: [u16; MEMORY_SIZE],
}

impl View for Memory {
    type V = Seq<u16>;

    closed spec fn view(&self) -> Seq<u16> {
        self.cells@
    }
}

/// Every memory holds exactly one cell per 16-bit address.
pub broadcast proof fn lemma_memory_len(m: Memory)
    ensures
        #[trigger] m@.len() == MEMORY_SIZE,
{
}

impl Memory {
    /// A memory whose cells all hold zero.
    pub fn new() -> (m: Memory)
        ensures
            m@.len() == MEMORY_SIZE,
            forall|i: int| 0 <= i < MEMORY_SIZE ==> #[trigger] m@[i] == 0,
    {
        Memory { cells: [0u16; MEMORY_SIZE] }
    }

    /// The word at `address`.
    pub fn read(&self, address: u16) -> (r: u16)
        ensures
            r == self@[address as int],
    {
        self.cells[address as usize]
    }

    /// Overwrites the word at `address`; all other cells stay as they were.
    pub fn write(&mut self, address: u16, value: u16)
        ensures
            final(self)@ == old(self)@.update(address as int, value),
    {
        self.cells[address as usize] = value;
    }

    /// Copies `values` into consecutive cells starting at `offset`.
    pub fn write_at(&mut self, values: &[u16], offset: usize)
        requires
            offset + values@.len() <= MEMORY_SIZE,
        ensures
            final(self)@ == loaded(old(self)@, values@, offset as int),
    {
        let n = values.len();
        let mut i: usize = 0;
        while i < n
            invariant
                n == values@.len(),
                offset + n <= MEMORY_SIZE,
                0 <= i <= n,
                self@.len() == MEMORY_SIZE,
                forall|j: int|
                    0 <= j < MEMORY_SIZE ==> #[trigger] self@[j] == if offset <= j < offset + i {
                        values@[j - offset]
                    } else {
                        old(self)@[j]
                    },
            decreases n - i,
        {
            self.cells[offset + i] = values[i];
            i = i + 1;
        }
        assert(self@ =~= loaded(old(self)@, values@, offset as int));
    }
}

} // verus!
