use yk::memory::{bytes_of, value_of, Memory, PTR_SIZE};

#[test]
fn blocks_are_allocated_one_after_the_other() {
    let mut m = Memory::new();
    assert_eq!(m.allocate(3, 1), Some(0));
    assert_eq!(m.allocate(8, 8), Some(8));
    assert_eq!(m.allocate(0, 4), Some(16));
    assert_eq!(m.allocate(1, 4), Some(16));
    assert_eq!(m.place(&vec![1, 2, 3], 16), Some(32));
    assert_eq!(m.next, 35);
    assert_eq!(m.regions.len(), 5);
    assert_eq!(m.read(0, 3), Some(vec![0, 0, 0]));
    assert_eq!(m.read(32, 3), Some(vec![1, 2, 3]));
    assert_eq!(m.read(33, 2), Some(vec![2, 3]));
    assert_eq!(m.read(33, 0), Some(vec![]));
    // No read reaches from one block into the next, or into the gap
    // between two.
    assert_eq!(m.read(33, 3), None);
    assert_eq!(m.read(2, 2), None);
    assert_eq!(m.read(3, 1), None);
    assert_eq!(m.read(15, 2), None);
    assert_eq!(m.find(9, 7), Some(1));
    assert_eq!(m.find(9, 8), None);
    assert_eq!(m.find(usize::MAX, 2), None);
    // At the end of the address space nothing more is handed out.
    let mut full = Memory::new();
    full.next = usize::MAX - 3;
    assert_eq!(full.allocate(4, 1), None);
    assert_eq!(full.allocate(1, 8), None);
    assert_eq!(full.allocate(3, 2), Some(usize::MAX - 3));
    assert_eq!(full.next, usize::MAX);
    assert_eq!(full.allocate(1, 1), None);
    assert_eq!(full.allocate(0, 2), None);
    assert_eq!(full.allocate(0, 1), Some(usize::MAX));
}

#[test]
fn what_is_written_is_read_back() {
    let mut m = Memory::new();
    let a = m.place(&vec![1, 2, 3, 4], 1).unwrap();
    let b = m.allocate(8, 8).unwrap();
    assert!(m.write(a + 1, &vec![9, 8]));
    assert_eq!(m.read(a, 4), Some(vec![1, 9, 8, 4]));
    assert_eq!(m.read(b, 8), Some(vec![0; 8]));
    assert!(!m.write(a + 3, &vec![7, 7]));
    assert_eq!(m.read(a, 4), Some(vec![1, 9, 8, 4]));
    assert!(m.write(a + 4, &vec![]));
    // Nothing can be written where there is nothing, not even nothing.
    assert!(!m.write(1000, &vec![]));
    assert_eq!(m.read_u8(a + 2), Some(8));
    assert_eq!(m.read_u8(a + 4), None);
    assert!(m.write_val(b, a, 4));
    assert_eq!(m.read(b, 8), Some(vec![1, 9, 8, 4, 0, 0, 0, 0]));
    // A value is copied within a block too.
    assert!(m.write_val(b + 4, b, 4));
    assert_eq!(m.read(b, 8), Some(vec![1, 9, 8, 4, 1, 9, 8, 4]));
    assert!(!m.write_val(b, a, 5));
    assert!(!m.write_val(b + 5, a, 4));
    assert_eq!(m.read(b, 8), Some(vec![1, 9, 8, 4, 1, 9, 8, 4]));
}

#[test]
fn pointers_are_stored_with_the_low_byte_first() {
    assert_eq!(PTR_SIZE, 8);
    let mut m = Memory::new();
    let a = m.allocate(16, 8).unwrap();
    assert!(m.write_ptr(a + 8, 0x0102_0304_0506_0708));
    assert_eq!(m.read(a + 8, 8), Some(vec![8, 7, 6, 5, 4, 3, 2, 1]));
    assert_eq!(m.read_ptr(a + 8), Some(0x0102_0304_0506_0708));
    assert_eq!(m.read_ptr(a), Some(0));
    assert_eq!(m.read_ptr(a + 4), Some(0x0506_0708_0000_0000));
    assert_eq!(m.read_ptr(a + 9), None);
    assert!(!m.write_ptr(a + 9, 1));
    assert!(m.write_ptr(a, usize::MAX));
    assert_eq!(m.read_ptr(a), Some(usize::MAX));
    assert_eq!(bytes_of(0x0102, 2), vec![2, 1]);
    assert_eq!(bytes_of(0x0102, 1), vec![2]);
    assert_eq!(bytes_of(0x0102, 4), vec![2, 1, 0, 0]);
    assert_eq!(bytes_of(7, 0), Vec::<u8>::new());
    assert_eq!(bytes_of(u64::MAX, 9), vec![255, 255, 255, 255, 255, 255, 255, 255, 0]);
    assert_eq!(value_of(&vec![2, 1]), Some(0x0102));
    assert_eq!(value_of(&vec![]), Some(0));
    assert_eq!(value_of(&vec![255; 8]), Some(usize::MAX));
    assert_eq!(value_of(&vec![0, 0, 0, 0, 0, 0, 0, 0, 1]), None);
    assert_eq!(value_of(&vec![1, 0, 0, 0, 0, 0, 0, 0, 0]), Some(1));
}

#[test]
fn a_block_that_is_released_is_gone() {
    let mut m = Memory::new();
    let a = m.place(&vec![1, 2], 1).unwrap();
    let b = m.place(&vec![3, 4], 1).unwrap();
    assert!(!m.release(a + 1));
    assert!(m.release(a));
    assert!(!m.release(a));
    assert_eq!(m.read(a, 2), None);
    assert!(!m.write(a, &vec![0]));
    assert_eq!(m.read(b, 2), Some(vec![3, 4]));
    // Its addresses are not handed out again.
    assert_eq!(m.allocate(2, 1), Some(4));
}
