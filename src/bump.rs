//! Line-marked blocks: finding holes between marked lines, and bump
//! allocation inside a block.
use vstd::prelude::*;

use crate::block::{is_power_of_two, Block};
use crate::error::BlockError;

verus! {

pub const BLOCK_SIZE_BITS: usize = 15;

/// Bytes in a block: 32 KiB.
pub const BLOCK_SIZE: usize = 32768;

pub const LINE_SIZE_BITS: usize = 7;

/// Bytes in a line.
pub const LINE_SIZE: usize = 128;

/// Lines in a block.
pub const LINE_COUNT: usize = 256;

/// The end of the run of unmarked lines that begins at `a`.
pub open spec fn run_end(m: Seq<bool>, a: int) -> int
    decreases m.len() - a,
{
    if 0 <= a < m.len() && !m[a] {
        run_end(m, a + 1)
    } else {
        a
    }
}

/// The first line of a run that beginning at `a` may be used: a run's first
/// line is taken as occupied, since an object on the line before it may
/// reach into it, except on the block's first line.
pub open spec fn usable_start(a: int) -> int {
    if a == 0 {
        0
    } else {
        a + 1
    }
}

/// The first hole at or after line `a`, as a range of lines: the usable part
/// of the first run of unmarked lines that has one. A run that the scan
/// begins inside of counts as beginning there.
pub open spec fn first_hole(m: Seq<bool>, a: int) -> Option<(int, int)>
    decreases m.len() - a,
{
    if a < 0 || a >= m.len() {
        None
    } else if m[a] {
        first_hole(m, a + 1)
    } else {
        let b = run_end(m, a);
        if usable_start(a) < b {
            Some((usable_start(a), b))
        } else if a < b {
            first_hole(m, b)
        } else {
            None
        }
    }
}

proof fn lemma_all_marked(m: Seq<bool>, a: int)
    requires
        forall|i: int| 0 <= i < m.len() ==> m[i],
    ensures
        first_hole(m, a) is None,
    decreases m.len() - a,
{
    if 0 <= a < m.len() {
        lemma_all_marked(m, a + 1);
    }
}

proof fn lemma_unmarked_run(m: Seq<bool>, a: int)
    requires
        0 <= a <= m.len(),
        forall|i: int| 0 <= i < m.len() ==> !m[i],
    ensures
        run_end(m, a) == m.len(),
    decreases m.len() - a,
{
    if a < m.len() {
        lemma_unmarked_run(m, a + 1);
    }
}

/// On a block whose lines are all marked there is no hole, wherever the
/// search starts. On a block with no line marked, a search from line `a`
/// finds one hole that reaches the end of the block: from line 0 when `a` is
/// the first line, else from the line after `a`, which is taken as occupied.
pub proof fn lemma_hole_extremes(m: Seq<bool>, a: int)
    requires
        m.len() == LINE_COUNT,
        0 <= a,
    ensures
        (forall|i: int| 0 <= i < m.len() ==> m[i]) ==> first_hole(m, a) is None,
        (forall|i: int| 0 <= i < m.len() ==> !m[i]) ==> first_hole(m, a) == if a == 0 {
            Some((0int, LINE_COUNT as int))
        } else if a + 1 < LINE_COUNT {
            Some((a + 1, LINE_COUNT as int))
        } else {
            None
        },
{
    if forall|i: int| 0 <= i < m.len() ==> m[i] {
        lemma_all_marked(m, a);
    }
    if forall|i: int| 0 <= i < m.len() ==> !m[i] {
        if a < m.len() {
            assert(!m[a]);
            lemma_unmarked_run(m, a);
            assert(first_hole(m, m.len() as int) is None);
        }
    }
}

/// The marks of a block's lines, written by a marking phase.
pub struct BlockMeta {
    line_mark: Vec<bool>,
    block_mark: bool,
}

impl View for BlockMeta {
    type V = Seq<bool>;

    /// The line marks, one per line.
    closed spec fn view(&self) -> Seq<bool> {
        self.line_mark@
    }
}

impl BlockMeta {
    pub open spec fn wf(&self) -> bool {
        self@.len() == LINE_COUNT
    }

    /// Metadata with no line marked.
    pub fn new() -> (r: BlockMeta)
        ensures
            r.wf(),
            forall|i: int| 0 <= i < LINE_COUNT ==> !r@[i],
    {
        let mut line_mark: Vec<bool> = Vec::new();
        while line_mark.len() < LINE_COUNT
            invariant
                line_mark@.len() <= LINE_COUNT,
                forall|i: int| 0 <= i < line_mark@.len() ==> !line_mark@[i],
            decreases LINE_COUNT - line_mark@.len(),
        {
            line_mark.push(false);
        }
        BlockMeta { line_mark, block_mark: false }
    }

    /// Mark a line as occupied.
    pub fn mark_line(&mut self, line: usize)
        requires
            old(self).wf(),
            line < LINE_COUNT,
        ensures
            final(self)@ == old(self)@.update(line as int, true),
    {
        self.line_mark.set(line, true);
    }

    /// Find the next hole in the block from byte offset `starting_at`, as the
    /// byte offsets of its cursor and limit.
    ///
    /// The first unmarked line after a marked one is skipped: small objects
    /// often cross line boundaries, so rather than check whether one does,
    /// the line is conservatively taken as occupied.
    pub fn find_next_available_hole(&self, starting_at: usize) -> (r: Option<(usize, usize)>)
        requires
            self.wf(),
        ensures
            r == match first_hole(self@, starting_at as int / LINE_SIZE as int) {
                Some((a, b)) => Some(((a * LINE_SIZE) as usize, (b * LINE_SIZE) as usize)),
                None => None,
            },
    {
        let ghost m = self@;
        let s0 = starting_at / LINE_SIZE;
        if s0 >= LINE_COUNT {
            return None;
        }
        let mut count: usize = 0;
        let mut start: Option<usize> = None;
        let mut stop: usize = 0;
        let mut i = s0;
        while i < LINE_COUNT
            invariant
                m == self@,
                m.len() == LINE_COUNT,
                s0 <= i <= LINE_COUNT,
                s0 == starting_at / LINE_SIZE,
                count <= i - s0,
                count == 0 ==> {
                    &&& start is None
                    &&& first_hole(m, s0 as int) == first_hole(m, i as int)
                    &&& i > s0 ==> m[i - 1]
                },
                count > 0 ==> {
                    let a = i - count;
                    &&& forall|k: int| a <= k < i ==> !m[k]
                    &&& first_hole(m, s0 as int) == first_hole(m, a)
                    &&& run_end(m, a) == run_end(m, i as int)
                    &&& start == if usable_start(a) < i {
                        Some(usable_start(a) as usize)
                    } else {
                        None::<usize>
                    }
                    &&& start is Some ==> stop == i && i < LINE_COUNT
                },
            decreases LINE_COUNT - i,
        {
            let ghost a: int = if count == 0 {
                i as int
            } else {
                i - count
            };
            let marked = self.line_mark[i];
            if !marked {
                count = count + 1;
                // The first line of a hole, but for the block's first line, is
                // taken as occupied
                if count == 1 && i > 0 {
                    i = i + 1;
                    continue;
                }
                if start.is_none() {
                    start = Some(i);
                }
                stop = i + 1;
            }
            if count > 0 && (marked || stop >= LINE_COUNT) {
                if let Some(s) = start {
                    proof {
                        assert(!m[a]);
                        if !marked {
                            assert(run_end(m, i as int) == run_end(m, i + 1));
                        }
                    }
                    return Some((s * LINE_SIZE, stop * LINE_SIZE));
                }
            }
            if marked {
                count = 0;
                start = None;
            }
            i = i + 1;
        }
        None
    }
}

/// A block with its line marks and a bump allocation window.
pub struct BumpBlock {
    cursor: usize,
    limit: usize,
    block: Block,
    meta: Box<BlockMeta>,
}

impl BumpBlock {
    /// The offset of the next free byte.
    pub closed spec fn cursor(&self) -> int {
        self.cursor as int
    }

    /// The address of the block's first byte.
    pub closed spec fn base(&self) -> int {
        self.block.address()
    }

    pub closed spec fn wf(&self) -> bool {
        &&& self.cursor <= BLOCK_SIZE
        &&& self.block.size() == BLOCK_SIZE
        &&& self.block.address() + BLOCK_SIZE <= usize::MAX
        &&& self.meta.wf()
    }

    /// A fresh block of `BLOCK_SIZE` bytes with nothing allocated and no line
    /// marked.
    pub fn new() -> (r: Result<BumpBlock, BlockError>)
        ensures
            r matches Ok(b) ==> b.wf() && b.cursor() == 0 && b.base() % BLOCK_SIZE as int == 0,
            r matches Err(e) ==> e == BlockError::OOM,
    {
        proof {
            reveal_with_fuel(is_power_of_two, 16);
        }
        let block = match Block::new(BLOCK_SIZE) {
            Ok(b) => b,
            Err(e) => {
                return Err(e);
            },
        };
        Ok(BumpBlock { cursor: 0, limit: BLOCK_SIZE, block, meta: Box::new(BlockMeta::new()) })
    }

    /// Bump-allocate `alloc_size` bytes: their address, or none when they do
    /// not fit before the end of the block.
    pub fn inner_alloc(&mut self, alloc_size: usize) -> (r: Option<usize>)
        requires
            old(self).wf(),
        ensures
            final(self).wf(),
            final(self).base() == old(self).base(),
            old(self).cursor() + alloc_size > BLOCK_SIZE ==> r is None && final(self).cursor()
                == old(self).cursor(),
            old(self).cursor() + alloc_size <= BLOCK_SIZE ==> r == Some(
                (old(self).base() + old(self).cursor()) as usize,
            ) && final(self).cursor() == old(self).cursor() + alloc_size,
    {
        if alloc_size > BLOCK_SIZE - self.cursor {
            None
        } else {
            let offset = self.cursor;
            self.cursor = self.cursor + alloc_size;
            Some(self.block.as_ptr() + offset)
        }
    }
}

} // verus!
