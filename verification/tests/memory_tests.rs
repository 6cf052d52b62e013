use modhost::memory::Memory;

#[test]
fn new_memory_is_zeroed() {
    let m = Memory::new(5);
    assert_eq!(m.size(), 5);
    assert_eq!(m.read_bytes(0, 5), Some(vec![0; 5]));
}

#[test]
fn read_bytes_is_bounds_checked_against_the_current_size() {
    let m = Memory::from_bytes(vec![10, 11, 12, 13]);
    assert_eq!(m.read_bytes(1, 2), Some(vec![11, 12]));
    assert_eq!(m.read_bytes(0, 4), Some(vec![10, 11, 12, 13]));
    assert_eq!(m.read_bytes(4, 0), Some(vec![]));
    assert_eq!(m.read_bytes(1, 4), None);
    assert_eq!(m.read_bytes(5, 0), None);
    assert_eq!(m.read_bytes(usize::MAX, 2), None);
}

#[test]
fn write_bytes_replaces_the_range_and_nothing_else() {
    let mut m = Memory::from_bytes(vec![1, 2, 3, 4, 5]);
    assert!(m.write_bytes(1, &vec![8, 9]));
    assert_eq!(m.read_bytes(0, 5), Some(vec![1, 8, 9, 4, 5]));
}

#[test]
fn write_bytes_out_of_range_writes_nothing() {
    let mut m = Memory::from_bytes(vec![1, 2, 3]);
    assert!(!m.write_bytes(2, &vec![8, 9]));
    assert!(!m.write_bytes(4, &vec![]));
    assert_eq!(m.read_bytes(0, 3), Some(vec![1, 2, 3]));
}

#[test]
fn write_at_the_exact_end_succeeds() {
    let mut m = Memory::from_bytes(vec![1, 2, 3]);
    assert!(m.write_bytes(1, &vec![8, 9]));
    assert!(m.write_bytes(3, &vec![]));
    assert_eq!(m.read_bytes(0, 3), Some(vec![1, 8, 9]));
}

#[test]
fn grow_appends_zeros_and_keeps_the_prefix() {
    let mut m = Memory::from_bytes(vec![7, 8]);
    m.grow(3);
    assert_eq!(m.size(), 5);
    assert_eq!(m.read_bytes(0, 5), Some(vec![7, 8, 0, 0, 0]));
}

#[test]
fn copy_from_moves_bytes_between_memories() {
    let src = Memory::from_bytes(vec![1, 2, 3, 4]);
    let mut dst = Memory::new(6);
    assert!(dst.copy_from(2, &src, 1, 3));
    assert_eq!(dst.read_bytes(0, 6), Some(vec![0, 0, 2, 3, 4, 0]));
}

#[test]
fn copy_from_checks_both_ends_before_any_byte_moves() {
    let src = Memory::from_bytes(vec![1, 2, 3, 4]);
    let mut dst = Memory::new(2);
    assert!(!dst.copy_from(0, &src, 2, 3));
    assert!(!dst.copy_from(1, &src, 0, 2));
    assert_eq!(dst.read_bytes(0, 2), Some(vec![0, 0]));
}

#[test]
fn read_nul_terminated_stops_at_the_first_nul() {
    let m = Memory::from_bytes(b"ab\0cd\0".to_vec());
    assert_eq!(m.read_nul_terminated(0), Some(b"ab".to_vec()));
    assert_eq!(m.read_nul_terminated(2), Some(b"".to_vec()));
    assert_eq!(m.read_nul_terminated(3), Some(b"cd".to_vec()));
}

#[test]
fn read_nul_terminated_fails_without_a_terminator_in_bounds() {
    let m = Memory::from_bytes(b"abc".to_vec());
    assert_eq!(m.read_nul_terminated(0), None);
    assert_eq!(m.read_nul_terminated(3), None);
    assert_eq!(m.read_nul_terminated(17), None);
}
