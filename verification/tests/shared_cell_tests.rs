use smart_pointers::shared_cell::BorrowConflict;
use smart_pointers::shared_cell::SharedMutableCell;

#[test]
fn strong_count_tracks_clones_and_drops() {
    // count == 1 + clones - drops after every step of the sequence
    let (mut cell, h0) = SharedMutableCell::create(7u32);
    assert_eq!(cell.strong_count(), 1);
    let h1 = cell.clone_handle(&h0);
    assert_eq!(cell.strong_count(), 2);
    let h2 = cell.clone_handle(&h1);
    assert_eq!(cell.strong_count(), 3);
    let h3 = cell.clone_handle(&h0);
    assert_eq!(cell.strong_count(), 4);
    cell.drop_handle(h1);
    assert_eq!(cell.strong_count(), 3);
    cell.drop_handle(h3);
    assert_eq!(cell.strong_count(), 2);
    let h4 = cell.clone_handle(&h2);
    assert_eq!(cell.strong_count(), 3);
    cell.drop_handle(h4);
    cell.drop_handle(h2);
    cell.drop_handle(h0);
    assert_eq!(cell.strong_count(), 0);
}

#[test]
fn dropping_last_handle_releases_storage() {
    let (mut cell, h0) = SharedMutableCell::create(String::from("payload"));
    let h1 = cell.clone_handle(&h0);
    assert!(cell.is_allocated());
    cell.drop_handle(h0);
    assert!(cell.is_allocated());
    cell.drop_handle(h1);
    // The storage is gone, the count is zero, and no handle survives
    // that could even be passed to read or write again.
    assert!(!cell.is_allocated());
    assert_eq!(cell.strong_count(), 0);
}

#[test]
fn write_conflicts_with_outstanding_read() {
    let (mut cell, h) = SharedMutableCell::create(0i32);
    let g = cell.read(&h).unwrap();
    let w = cell.write(&h);
    assert_eq!(w.err(), Some(BorrowConflict));
    cell.release_read(g);
    cell.drop_handle(h);
}

#[test]
fn second_write_conflicts_with_outstanding_write() {
    let (mut cell, h) = SharedMutableCell::create(0i32);
    let w1 = cell.write(&h).unwrap();
    let w2 = cell.write(&h);
    assert_eq!(w2.err(), Some(BorrowConflict));
    let r = cell.read(&h);
    assert_eq!(r.err(), Some(BorrowConflict));
    cell.release_write(w1);
    cell.drop_handle(h);
}

#[test]
fn concurrent_reads_succeed() {
    let (mut cell, h) = SharedMutableCell::create(41i32);
    let g1 = cell.read(&h).unwrap();
    let g2 = cell.read(&h).unwrap();
    let g3 = cell.read(&h).unwrap();
    assert_eq!(*cell.read_value(&g1), 41);
    assert_eq!(*cell.read_value(&g2), 41);
    assert_eq!(*cell.read_value(&g3), 41);
    cell.release_read(g2);
    cell.release_read(g1);
    cell.release_read(g3);
    cell.drop_handle(h);
}

#[test]
fn releasing_guard_enables_conflicting_borrow() {
    let (mut cell, h) = SharedMutableCell::create(0i32);

    // A read guard blocks the write; releasing it unblocks the write.
    let g = cell.read(&h).unwrap();
    assert!(cell.write(&h).is_err());
    cell.release_read(g);
    let w = cell.write(&h).unwrap();

    // The write guard blocks a read; releasing it unblocks the read.
    assert!(cell.read(&h).is_err());
    cell.release_write(w);
    let g = cell.read(&h).unwrap();
    cell.release_read(g);
    cell.drop_handle(h);
}

#[test]
fn releasing_one_of_two_reads_still_blocks_write() {
    let (mut cell, h) = SharedMutableCell::create(0i32);
    let g1 = cell.read(&h).unwrap();
    let g2 = cell.read(&h).unwrap();
    cell.release_read(g1);
    assert!(cell.write(&h).is_err());
    cell.release_read(g2);
    assert!(cell.write(&h).is_ok());
}

#[test]
fn shared_counter_scenario() {
    // Create a cell with value 0 and clone it twice: count == 3.
    let (mut cell, h0) = SharedMutableCell::create(0i32);
    let sibling1 = cell.clone_handle(&h0);
    let sibling2 = cell.clone_handle(&h0);
    assert_eq!(cell.strong_count(), 3);

    // Write guard: increment to 1, release.
    let w = cell.write(&h0).unwrap();
    let v = *cell.peek(&w);
    cell.write_value(&w, v + 1);
    cell.release_write(w);

    // Both sibling handles read 1.
    let g = cell.read(&sibling1).unwrap();
    assert_eq!(*cell.read_value(&g), 1);
    cell.release_read(g);
    let g = cell.read(&sibling2).unwrap();
    assert_eq!(*cell.read_value(&g), 1);
    cell.release_read(g);

    // Another write guard: increment to 2, release.
    let w = cell.write(&h0).unwrap();
    let v = *cell.peek(&w);
    cell.write_value(&w, v + 1);
    cell.release_write(w);

    // Both siblings read 2.
    let g = cell.read(&sibling1).unwrap();
    assert_eq!(*cell.read_value(&g), 2);
    cell.release_read(g);
    let g = cell.read(&sibling2).unwrap();
    assert_eq!(*cell.read_value(&g), 2);
    cell.release_read(g);

    cell.drop_handle(sibling2);
    cell.drop_handle(sibling1);
    cell.drop_handle(h0);
    assert_eq!(cell.strong_count(), 0);
}

#[test]
fn write_value_replaces_the_stored_value() {
    let (mut cell, h) = SharedMutableCell::create(String::from("before"));
    let w = cell.write(&h).unwrap();
    assert_eq!(cell.peek(&w).as_str(), "before");
    cell.write_value(&w, String::from("after"));
    assert_eq!(cell.peek(&w).as_str(), "after");
    cell.release_write(w);
    let g = cell.read(&h).unwrap();
    assert_eq!(cell.read_value(&g).as_str(), "after");
    cell.release_read(g);
    cell.drop_handle(h);
}

#[test]
fn refcell_demo_runs() {
    smart_pointers::smart_pointer_rc_refcell::test_rc_refcell();
}
