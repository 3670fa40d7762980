//! A block: one owned region of `size` bytes whose address is a multiple of
//! `size`, released when its owner goes out of scope.
use vstd::prelude::*;

use crate::error::BlockError;

verus! {

/// Whether `n` is a power of two.
pub open spec fn is_power_of_two(n: nat) -> bool
    decreases n,
{
    if n == 1 {
        true
    } else if n == 0 || n % 2 == 1 {
        false
    } else {
        is_power_of_two(n / 2)
    }
}

/// Whether `size` is a power of two.
pub fn power_of_two(size: usize) -> (r: bool)
    ensures
        r == is_power_of_two(size as nat),
{
    let mut n = size;
    while n > 1 && n % 2 == 0
        invariant
            is_power_of_two(n as nat) == is_power_of_two(size as nat),
        decreases n,
    {
        n = n / 2;
    }
    n == 1
}

/// Relies on `<[u8]>::as_ptr`, taken as an address: a slice's pointer is
/// never null, and its buffer never wraps around the end of the address
/// space.
#[verifier::external_body]
fn address_of(buffer: &[u8]) -> (r: usize)
    ensures
        r != 0,
        r + buffer@.len() <= usize::MAX,
{
    buffer.as_ptr() as usize
}

pub struct Block {
    /// The owned memory; the block is the window `[offset, offset + size)`
    buffer: Vec<u8>,
    offset: usize,
    /// The address of the window
    base: usize,
    size: usize,
}

impl Block {
    /// The number of bytes of the block.
    pub closed spec fn size(&self) -> nat {
        self.size as nat
    }

    /// The address of the block's first byte.
    pub closed spec fn address(&self) -> int {
        self.base as int
    }

    /// The block is a window of its buffer whose address is aligned to its
    /// size.
    pub closed spec fn wf(&self) -> bool {
        &&& self.offset + self.size <= self.buffer@.len()
        &&& is_power_of_two(self.size as nat)
        &&& self.base as int % self.size as int == 0
        &&& self.base + self.size <= usize::MAX
        &&& self.base != 0
    }

    /// The block of `size` bytes inside `buffer`, which lies at address
    /// `addr` and holds `2 * size - 1` bytes: the window that starts at the
    /// first multiple of `size`.
    fn block_in(buffer: Vec<u8>, addr: usize, size: usize) -> (r: Block)
        requires
            is_power_of_two(size as nat),
            size >= 1,
            buffer@.len() == 2 * size - 1,
            addr != 0,
            addr + buffer@.len() <= usize::MAX,
        ensures
            r.wf(),
            r.size() == size,
            addr <= r.address() < addr + size,
            r.address() % size as int == 0,
            r.address() != 0,
    {
        let rem = addr % size;
        let offset = if rem == 0 {
            0
        } else {
            size - rem
        };
        let base = addr + offset;
        assert(base as int % size as int == 0) by (nonlinear_arith)
            requires
                rem == addr as int % size as int,
                size > 0,
                offset == if rem == 0 {
                    0
                } else {
                    size - rem
                },
                base == addr + offset,
        {
            assert(addr == (addr / size) * size + rem);
            if rem == 0 {
                assert(base == (addr / size) * size);
            } else {
                assert(base == (addr / size + 1) * size);
            }
        }
        Block { buffer, offset, base, size }
    }

    /// Allocate a block of `size` bytes aligned to `size`. A size that is not
    /// a power of two is a bad request; one above `isize::MAX` bytes, or one
    /// that the allocator cannot satisfy, is out of memory.
    pub fn new(size: usize) -> (r: Result<Block, BlockError>)
        ensures
            r matches Err(BlockError::BadRequest) <==> !is_power_of_two(size as nat),
            is_power_of_two(size as nat) && size > usize::MAX / 2 ==> r matches Err(
                BlockError::OOM,
            ),
            r matches Ok(b) ==> {
                &&& b.wf()
                &&& b.size() == size
                &&& b.address() % size as int == 0
                &&& b.address() != 0
                &&& b.address() + size <= usize::MAX
            },
    {
        if !power_of_two(size) {
            return Err(BlockError::BadRequest);
        }
        if size > usize::MAX / 2 {
            return Err(BlockError::OOM);
        }
        // Room for `size` bytes that start at a multiple of `size`
        let want = size - 1 + size;
        let mut buffer: Vec<u8> = Vec::new();
        if buffer.try_reserve(want).is_err() {
            return Err(BlockError::OOM);
        }
        buffer.resize(want, 0u8);
        let addr = address_of(buffer.as_slice());
        Ok(Block::block_in(buffer, addr, size))
    }

    /// The address of the block's first byte.
    pub fn as_ptr(&self) -> (r: usize)
        ensures
            r == self.address(),
    {
        self.base
    }
}

} // verus!
