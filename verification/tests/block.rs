use yk::block::Block;

#[test]
fn block_from_range_is_known() {
    let b = Block::from_vaddr_range(0x10, 0x20);
    assert!(!b.is_unknown());
    assert_eq!(b.vaddr_range(), Some((0x10, 0x20)));
    assert_eq!(b.describe(), "Block(10..=20)");
}

#[test]
fn unknown_block_has_no_range() {
    let b = Block::Unknown;
    assert!(b.is_unknown());
    assert_eq!(b.vaddr_range(), None);
    assert_eq!(b.describe(), "UnknownBlock");
}

#[test]
fn addresses_are_written_in_lower_case_hexadecimal() {
    assert_eq!(
        Block::from_vaddr_range(0, 0xabcdef).describe(),
        "Block(0..=abcdef)"
    );
    assert_eq!(
        Block::from_vaddr_range(0xf, 0x10).describe(),
        "Block(f..=10)"
    );
    assert_eq!(
        Block::from_vaddr_range(usize::MAX, 1).describe(),
        format!("Block({}..=1)", "f".repeat(std::mem::size_of::<usize>() * 2))
    );
}
