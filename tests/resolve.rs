use kpanic::symbols::{SymbolEntry, Symbolizer};

fn entry(code_offset: u32, name_offset: u32) -> SymbolEntry {
    SymbolEntry { code_offset, name_offset }
}

fn sample() -> Symbolizer {
    let table = vec![entry(0, 0), entry(0x10, 5), entry(0x30, 11)];
    let strings = b"main\0task_run\0panic_fn\0".to_vec();
    Symbolizer::new(0x1000, Some(table), strings)
}

#[test]
fn resolves_inside_second_function() {
    let r = sample().resolve(0x1000 + 0x20);
    assert_eq!(r, Some((b"task_run".to_vec(), 0x10)));
}

#[test]
fn resolves_inside_first_function() {
    let r = sample().resolve(0x1000 + 0x05);
    assert_eq!(r, Some((b"main".to_vec(), 0x5)));
}

#[test]
fn below_base_is_unresolved() {
    assert_eq!(sample().resolve(0x0FFF), None);
    assert_eq!(sample().resolve(0), None);
}

#[test]
fn absent_table_never_resolves() {
    let s = Symbolizer::new(0x1000, None, b"main\0".to_vec());
    for a in [0usize, 0x0FFF, 0x1000, 0x1005, 0x2000, usize::MAX] {
        assert_eq!(s.resolve(a), None);
    }
}

#[test]
fn empty_table_never_resolves() {
    let s = Symbolizer::new(0x1000, Some(Vec::new()), b"main\0".to_vec());
    assert_eq!(s.resolve(0x1000), None);
    assert_eq!(s.resolve(0x1234), None);
}

#[test]
fn before_first_entry_is_unresolved() {
    let table = vec![entry(0x20, 0), entry(0x40, 5)];
    let s = Symbolizer::new(0x1000, Some(table), b"main\0task\0".to_vec());
    assert_eq!(s.resolve(0x1000), None);
    assert_eq!(s.resolve(0x101F), None);
    assert_eq!(s.resolve(0x1020), Some((b"main".to_vec(), 0)));
}

#[test]
fn function_start_and_last_byte() {
    let s = sample();
    assert_eq!(s.resolve(0x1010), Some((b"task_run".to_vec(), 0)));
    assert_eq!(s.resolve(0x100F), Some((b"main".to_vec(), 0xF)));
    assert_eq!(s.resolve(0x102F), Some((b"task_run".to_vec(), 0x1F)));
}

#[test]
fn last_entry_extends_to_the_end() {
    let table = vec![entry(0, 0), entry(0x10, 5), entry(0x30, 14)];
    let strings = b"main\0task_run\0panic_fn\0".to_vec();
    let s = Symbolizer::new(0x1000, Some(table), strings);
    assert_eq!(s.resolve(0x1030), Some((b"panic_fn".to_vec(), 0)));
    assert_eq!(s.resolve(0x9000), Some((b"panic_fn".to_vec(), 0x7FD0)));
}

#[test]
fn equal_starts_take_the_last_entry() {
    let table = vec![entry(0, 0), entry(0x10, 2), entry(0x10, 4)];
    let s = Symbolizer::new(0, Some(table), b"a\0b\0c\0".to_vec());
    assert_eq!(s.resolve(0x18), Some((b"c".to_vec(), 8)));
}

#[test]
fn unterminated_name_is_unresolved() {
    let table = vec![entry(0, 0), entry(0x10, 5)];
    let s = Symbolizer::new(0x1000, Some(table), b"main\0task".to_vec());
    assert_eq!(s.resolve(0x1005), Some((b"main".to_vec(), 5)));
    assert_eq!(s.resolve(0x1010), None);
}

#[test]
fn name_offset_past_blob_is_unresolved() {
    let table = vec![entry(0, 100)];
    let s = Symbolizer::new(0, Some(table), b"main\0".to_vec());
    assert_eq!(s.resolve(4), None);
}

#[test]
fn empty_name_resolves() {
    let table = vec![entry(0, 4)];
    let s = Symbolizer::new(0, Some(table), b"main\0".to_vec());
    assert_eq!(s.resolve(3), Some((Vec::new(), 3)));
}

#[test]
fn unsorted_table_disables_symbolication() {
    let table = vec![entry(0x10, 0), entry(0, 5)];
    let s = Symbolizer::new(0, Some(table), b"main\0task\0".to_vec());
    assert_eq!(s.resolve(0x5), None);
    assert_eq!(s.resolve(0x15), None);
}

#[test]
fn large_offsets_resolve() {
    let table = vec![entry(0, 0), entry(u32::MAX, 2)];
    let s = Symbolizer::new(0x10, Some(table), b"a\0b\0".to_vec());
    let a = 0x10 + u32::MAX as usize;
    assert_eq!(s.resolve(a), Some((b"b".to_vec(), 0)));
    assert_eq!(s.resolve(a - 1), Some((b"a".to_vec(), u32::MAX as usize - 1)));
    assert_eq!(s.resolve(usize::MAX), Some((b"b".to_vec(), usize::MAX - 0x10 - u32::MAX as usize)));
}
