//! Demonstrations of ownership-management primitives: heap allocation,
//! shared ownership with a strong count, and runtime-checked interior
//! mutability, built around one reusable abstraction, the
//! [`shared_cell::SharedMutableCell`].

pub mod shared_cell;
pub mod smart_pointer_box;
pub mod smart_pointer_rc;
pub mod smart_pointer_rc_refcell;
