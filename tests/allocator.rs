use petrel::block::{power_of_two, Block};
use petrel::bump::{BlockMeta, BumpBlock, BLOCK_SIZE, LINE_COUNT, LINE_SIZE};
use petrel::error::BlockError;

/// Ensure that the allocated block is aligned to its size
#[test]
fn block_allign() {
    let size = 4;
    let mask = size - 1;
    let block = Block::new(size).unwrap();
    println!("Block ptr: {:#x}", block.as_ptr() as usize);
    assert_eq!(block.as_ptr() as usize & mask ^ mask, mask)
}

#[test]
fn block_sizes() {
    assert_eq!(Block::new(3).err(), Some(BlockError::BadRequest));
    assert_eq!(Block::new(0).err(), Some(BlockError::BadRequest));
    let block = Block::new(4096).unwrap();
    assert_ne!(block.as_ptr(), 0);
    assert_eq!(block.as_ptr() % 4096, 0);
    let block = Block::new(BLOCK_SIZE).unwrap();
    assert_eq!(block.as_ptr() % BLOCK_SIZE, 0);
    assert_eq!(Block::new(1 << 62).err(), Some(BlockError::OOM));
    assert_eq!(Block::new(1 << 63).err(), Some(BlockError::OOM));
}

#[test]
fn powers_of_two() {
    assert!(power_of_two(1));
    assert!(power_of_two(2));
    assert!(power_of_two(1 << 63));
    assert!(!power_of_two(0));
    assert!(!power_of_two(6));
    assert!(!power_of_two(usize::MAX));
}

#[test]
fn all_marked_block_has_no_hole() {
    let mut meta = BlockMeta::new();
    for i in 0..LINE_COUNT {
        meta.mark_line(i);
    }
    assert_eq!(meta.find_next_available_hole(0), None);
    assert_eq!(meta.find_next_available_hole(5000), None);
}

#[test]
fn unmarked_block_is_one_hole() {
    let meta = BlockMeta::new();
    assert_eq!(meta.find_next_available_hole(0), Some((0, BLOCK_SIZE)));
    assert_eq!(meta.find_next_available_hole(LINE_SIZE + 5), Some((2 * LINE_SIZE, BLOCK_SIZE)));
    assert_eq!(meta.find_next_available_hole(BLOCK_SIZE - 1), None);
    assert_eq!(meta.find_next_available_hole(BLOCK_SIZE), None);
}

#[test]
fn line_after_a_mark_is_skipped() {
    let mut meta = BlockMeta::new();
    // x = marked: [x, x, _, x, _, _, _, x, ...]
    meta.mark_line(0);
    meta.mark_line(1);
    meta.mark_line(3);
    meta.mark_line(7);
    for i in 9..LINE_COUNT {
        meta.mark_line(i);
    }
    // Line 2 alone is skipped; lines 5 and 6 make the hole
    assert_eq!(meta.find_next_available_hole(0), Some((5 * LINE_SIZE, 7 * LINE_SIZE)));
    // Line 8 alone is skipped, then the block is full
    assert_eq!(meta.find_next_available_hole(7 * LINE_SIZE), None);
}

#[test]
fn bump_allocation() {
    let mut b = BumpBlock::new().unwrap();
    let first = b.inner_alloc(100).unwrap();
    assert_eq!(first % BLOCK_SIZE, 0);
    let second = b.inner_alloc(28).unwrap();
    assert_eq!(second, first + 100);
    assert_eq!(b.inner_alloc(BLOCK_SIZE), None);
    let third = b.inner_alloc(BLOCK_SIZE - 128).unwrap();
    assert_eq!(third, first + 128);
    assert_eq!(b.inner_alloc(1), None);
    assert_eq!(b.inner_alloc(0), Some(first + BLOCK_SIZE));
}
