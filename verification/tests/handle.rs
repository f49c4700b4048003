use secret_guard::handle::file_handle;

#[test]
fn new_handle_records_its_byte_count() {
    let h = file_handle::new(7, vec![1, 2, 3]);
    assert_eq!(h.handle_bytes, 3);
    assert_eq!(h.handle_type, 7);
    assert_eq!(h.f_handle, vec![1, 2, 3]);
    assert_eq!(h.len(), 3);
}

#[test]
fn empty_handle_is_well_formed() {
    let h = file_handle::new(0, Vec::new());
    assert_eq!(h.handle_bytes, 0);
    assert_eq!(h.len(), 0);
}

#[test]
fn equal_handles_compare_equal() {
    let a = file_handle::new(1, vec![9]);
    let b = file_handle::new(1, vec![9]);
    assert_eq!(a, b);
    let c = file_handle::new(2, vec![9]);
    assert_ne!(a, c);
}
