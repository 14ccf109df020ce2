//! A program image ready to be copied into machine memory: a fixed-size
//! buffer holding the ROM bytes and the count of bytes actually loaded.
//! Reading the bytes from storage is the host's concern.

use vstd::prelude::*;

verus! {

/// Capacity of the program region: memory size minus the reserved
/// interpreter area the program is loaded above.
pub const CARTRIDGE_CAPACITY: usize = 0xE00;

/// A loaded program image. The buffer is always exactly
/// [`CARTRIDGE_CAPACITY`] bytes; `size` counts the bytes that came from the
/// program, the rest is zero padding.
pub struct Cartridge {
    pub buffer: Vec<u8>,
    pub size: usize,
}

impl Cartridge {
    pub open spec fn wf(&self) -> bool {
        &&& self.buffer@.len() == 0xE00
        &&& self.size <= 0xE00
    }

    /// Build a cartridge from raw program bytes; at most
    /// [`CARTRIDGE_CAPACITY`] bytes are kept, as many as fit.
    pub fn new(data: &Vec<u8>) -> (c: Cartridge)
        ensures
            c.wf(),
            c.size == if data@.len() < 0xE00 {
                data@.len() as int
            } else {
                0xE00
            },
            forall|k: int| 0 <= k < c.size ==> c.buffer@[k] == data@[k],
            forall|k: int| c.size <= k < 0xE00 ==> c.buffer@[k] == 0u8,
    {
        let size = if data.len() < 0xE00 {
            data.len()
        } else {
            0xE00
        };
        let mut buffer: Vec<u8> = Vec::new();
        let mut k: usize = 0;
        while k < size
            invariant
                size <= 0xE00,
                size <= data@.len(),
                k <= size,
                buffer@.len() == k,
                forall|j: int| 0 <= j < k ==> buffer@[j] == data@[j],
            decreases size - k,
        {
            buffer.push(data[k]);
            k = k + 1;
        }
        while k < 0xE00
            invariant
                size <= k <= 0xE00,
                buffer@.len() == k,
                forall|j: int| 0 <= j < size ==> buffer@[j] == data@[j],
                forall|j: int| size <= j < k ==> buffer@[j] == 0u8,
            decreases 0xE00 - k,
        {
            buffer.push(0);
            k = k + 1;
        }
        Cartridge { buffer, size }
    }
}

} // verus!
