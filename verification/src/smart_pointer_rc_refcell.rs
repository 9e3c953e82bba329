//! Shared ownership combined with interior mutability: one counter with
//! several owners, updated in place through the exclusive write guard and
//! observed through every handle.

use vstd::prelude::*;
use crate::shared_cell::SharedMutableCell;

verus! {

/// A counter with three owners: a write through one handle is visible
/// through the others, and a second write keeps accumulating.  Every
/// assertion is checked statically against the cell's contracts.
pub fn test_rc_refcell() {
    let (mut cell, rc_v) = SharedMutableCell::create(0i32);
    let c: usize = cell.strong_count();
    assert(c == 1);

    let instance1 = cell.clone_handle(&rc_v);
    let c: usize = cell.strong_count();
    assert(c == 2);

    let instance2 = cell.clone_handle(&rc_v);
    let c: usize = cell.strong_count();
    assert(c == 3);

    let g1 = cell.read(&instance1).unwrap();
    let v1: i32 = *cell.read_value(&g1);
    assert(v1 == 0);
    cell.release_read(g1);

    let g2 = cell.read(&instance2).unwrap();
    let v2: i32 = *cell.read_value(&g2);
    assert(v2 == 0);
    cell.release_read(g2);

    let m = cell.write(&rc_v).unwrap();
    let v: i32 = *cell.peek(&m);
    cell.write_value(&m, v + 1);

    // Until the write guard is given back, no other borrow can succeed.
    cell.release_write(m);

    let g1 = cell.read(&instance1).unwrap();
    let v1: i32 = *cell.read_value(&g1);
    assert(v1 == 1);
    cell.release_read(g1);

    let g2 = cell.read(&instance2).unwrap();
    let v2: i32 = *cell.read_value(&g2);
    assert(v2 == 1);
    cell.release_read(g2);

    let m = cell.write(&rc_v).unwrap();
    let v: i32 = *cell.peek(&m);
    cell.write_value(&m, v + 1);
    cell.release_write(m);

    let g1 = cell.read(&instance1).unwrap();
    let v1: i32 = *cell.read_value(&g1);
    assert(v1 == 2);
    cell.release_read(g1);

    let g2 = cell.read(&instance2).unwrap();
    let v2: i32 = *cell.read_value(&g2);
    assert(v2 == 2);
    cell.release_read(g2);

    cell.drop_handle(instance2);
    cell.drop_handle(instance1);
    cell.drop_handle(rc_v);
    let c: usize = cell.strong_count();
    assert(c == 0);
}

} // verus!
