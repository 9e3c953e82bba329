//! A reference-counted, runtime-borrow-checked container.
//!
//! `SharedMutableCell<T>` owns one heap-resident value together with a
//! count of the ownership handles that refer to it and a flag recording
//! which borrows of the value are outstanding.  Handles are minted by the
//! cell and given back to it; the value is released exactly when the last
//! handle is given back.  Reads and writes go through scoped guards whose
//! acquisition follows the borrow-state machine: any number of shared
//! reads, or one exclusive write, never both.

use vstd::prelude::*;

verus! {

/// One step in the life of a cell's handle set: a handle was duplicated,
/// or a handle was given back.
pub enum HandleOp {
    CloneHandle,
    DropHandle,
}

/// The borrow flag of a cell: no borrow outstanding, `n` shared read
/// guards outstanding, or one exclusive write guard outstanding.
pub enum BorrowState {
    Idle,
    Shared(usize),
    Exclusive,
}

/// The one error this library raises: a read or write guard was requested
/// while a conflicting guard was outstanding.  The borrow does not
/// proceed and the cell is left unchanged, so the caller may release the
/// conflicting guard and retry.
#[derive(Debug, PartialEq, Eq, Structural)]
pub struct BorrowConflict;

/// An ownership handle to a `SharedMutableCell`.  Only the cell that
/// counted it can mint one, and giving it back consumes it, so the number
/// of live handles always matches the cell's strong count.
pub struct Handle {
    _private: (),
}

/// A scoped guard for a shared read borrow.  It is released by giving it
/// back to the cell that issued it, which consumes it.
pub struct ScopedRead {
    _private: (),
}

/// A scoped guard for the exclusive write borrow.  It is released by
/// giving it back to the cell that issued it, which consumes it.
pub struct ScopedWrite {
    _private: (),
}

/// How many of the operations were clones.
pub open spec fn clone_count(ops: Seq<HandleOp>) -> int
    decreases ops.len(),
{
    if ops.len() == 0 {
        0
    } else {
        clone_count(ops.drop_last()) + if ops.last() is CloneHandle {
            1int
        } else {
            0int
        }
    }
}

/// How many of the operations were drops.
pub open spec fn drop_count(ops: Seq<HandleOp>) -> int
    decreases ops.len(),
{
    if ops.len() == 0 {
        0
    } else {
        drop_count(ops.drop_last()) + if ops.last() is DropHandle {
            1int
        } else {
            0int
        }
    }
}

/// The strong count after performing the operations on a fresh cell,
/// which starts with a single handle.
pub open spec fn strong_after(ops: Seq<HandleOp>) -> int
    decreases ops.len(),
{
    if ops.len() == 0 {
        1
    } else if ops.last() is CloneHandle {
        strong_after(ops.drop_last()) + 1
    } else {
        strong_after(ops.drop_last()) - 1
    }
}

/// A history is valid when every operation in it was performed while at
/// least one handle was live: cloning needs a handle to clone, and only a
/// live handle can be given back.
pub open spec fn valid_history(ops: Seq<HandleOp>) -> bool
    decreases ops.len(),
{
    if ops.len() == 0 {
        true
    } else {
        valid_history(ops.drop_last()) && strong_after(ops.drop_last()) >= 1
    }
}

/// Conservation law for the strong count: after any valid sequence of
/// clone and drop operations on a fresh cell, the strong count equals
/// one plus the number of clones minus the number of drops, and it never
/// goes below zero.
pub proof fn lemma_strong_count_conservation(ops: Seq<HandleOp>)
    requires
        valid_history(ops),
    ensures
        strong_after(ops) == 1 + clone_count(ops) - drop_count(ops),
        strong_after(ops) >= 0,
    decreases ops.len(),
{
    if ops.len() > 0 {
        lemma_strong_count_conservation(ops.drop_last());
    }
}

/// Conservation law applied to a cell: for any well-formed cell, the
/// strong count equals one plus the number of handle clones minus the
/// number of handle drops in its history, however the two were
/// interleaved.
pub proof fn lemma_cell_strong_count_accounting<T>(cell: SharedMutableCell<T>)
    requires
        cell.wf(),
    ensures
        cell.strong() == 1 + clone_count(cell.history()) - drop_count(cell.history()),
{
    lemma_strong_count_conservation(cell.history());
}

/// Whether a shared read borrow may be acquired in state `b`.
pub open spec fn read_acquire_allowed(b: BorrowState) -> bool {
    !(b is Exclusive)
}

/// Whether the exclusive write borrow may be acquired in state `b`.
pub open spec fn write_acquire_allowed(b: BorrowState) -> bool {
    b is Idle
}

/// The borrow state after a successful read acquisition.
pub open spec fn after_read_acquire(b: BorrowState) -> BorrowState {
    match b {
        BorrowState::Idle => BorrowState::Shared(1),
        BorrowState::Shared(n) => BorrowState::Shared((n + 1) as usize),
        BorrowState::Exclusive => BorrowState::Exclusive,
    }
}

/// The borrow state after a read guard is released.
pub open spec fn after_read_release(b: BorrowState) -> BorrowState {
    match b {
        BorrowState::Idle => BorrowState::Idle,
        BorrowState::Shared(n) => if n <= 1 {
            BorrowState::Idle
        } else {
            BorrowState::Shared((n - 1) as usize)
        },
        BorrowState::Exclusive => BorrowState::Exclusive,
    }
}

/// The borrow state after the write guard is released.
pub open spec fn after_write_release(b: BorrowState) -> BorrowState {
    BorrowState::Idle
}

/// Mutual exclusion of borrows: while read guards are outstanding no
/// write guard can be acquired; while the write guard is outstanding
/// neither a second write guard nor a read guard can be acquired; any
/// number of read guards may coexist.
pub proof fn lemma_borrow_mutual_exclusion(b: BorrowState)
    ensures
        b is Shared ==> !write_acquire_allowed(b),
        b is Exclusive ==> !write_acquire_allowed(b),
        b is Exclusive ==> !read_acquire_allowed(b),
        b is Shared ==> read_acquire_allowed(b),
{
}

/// Releasing the only outstanding guard returns the flag to `Idle`, and
/// from `Idle` a previously conflicting borrow of either kind succeeds.
pub proof fn lemma_release_enables_borrow(b: BorrowState)
    ensures
        b matches BorrowState::Shared(n) ==> (n == 1 ==> after_read_release(b) is Idle
            && write_acquire_allowed(after_read_release(b))),
        b is Exclusive ==> after_write_release(b) is Idle && write_acquire_allowed(
            after_write_release(b),
        ) && read_acquire_allowed(after_write_release(b)),
{
}

/// A cell whose strong count has reached zero has released its storage
/// and holds no borrow: no handle and no guard can outlive the count.
pub proof fn lemma_released_cell<T>(cell: SharedMutableCell<T>)
    requires
        cell.wf(),
        cell.strong() == 0,
    ensures
        cell.value_spec() is None,
        cell.borrow_state() is Idle,
{
}

/// Pushing one operation onto a history extends the strong count and the
/// validity predicate by exactly one step.
proof fn lemma_history_step(ops: Seq<HandleOp>, op: HandleOp)
    ensures
        strong_after(ops.push(op)) == strong_after(ops) + (if op is CloneHandle {
            1int
        } else {
            -1int
        }),
        valid_history(ops.push(op)) == (valid_history(ops) && strong_after(ops) >= 1),
        clone_count(ops.push(op)) == clone_count(ops) + (if op is CloneHandle {
            1int
        } else {
            0int
        }),
        drop_count(ops.push(op)) == drop_count(ops) + (if op is DropHandle {
            1int
        } else {
            0int
        }),
{
    let ops2 = ops.push(op);
    assert(ops2.drop_last() =~= ops);
    assert(ops2.last() == op);
}

/// A reference-counted, runtime-borrow-checked cell.  The value is
/// jointly owned by all live handles and is released exactly when the
/// last handle is given back; reads and writes of the value go through
/// scoped guards governed by the borrow-state machine.
pub struct SharedMutableCell<T> {
    value: Option<T>,
    count: usize,
    borrow: BorrowState,
    ops: Ghost<Seq<HandleOp>>,
}

impl<T> SharedMutableCell<T> {
    /// The value currently held, `None` once the storage was released.
    pub closed spec fn value_spec(self) -> Option<T> {
        self.value
    }

    /// The number of live ownership handles.
    pub closed spec fn strong(self) -> nat {
        self.count as nat
    }

    /// The borrow flag.
    pub closed spec fn borrow_state(self) -> BorrowState {
        self.borrow
    }

    /// Every clone and drop of a handle since the cell was created.
    pub closed spec fn history(self) -> Seq<HandleOp> {
        self.ops@
    }

    /// At least one handle is live.
    pub open spec fn is_live(self) -> bool {
        self.strong() >= 1
    }

    /// The cell's invariant: the strong count is exactly what the handle
    /// history accounts for, the storage is held exactly while a handle
    /// is live, a dead cell holds no borrow, and a shared borrow counts
    /// at least one guard.
    pub open spec fn wf(self) -> bool {
        &&& valid_history(self.history())
        &&& self.strong() == strong_after(self.history())
        &&& (self.strong() == 0 <==> self.value_spec() is None)
        &&& (self.strong() == 0 ==> self.borrow_state() is Idle)
        &&& (self.borrow_state() matches BorrowState::Shared(n) ==> n >= 1)
    }

    /// Allocates storage holding `initial`, sets the strong count to one
    /// and returns the cell together with its first handle.
    pub fn create(initial: T) -> (r: (SharedMutableCell<T>, Handle))
        ensures
            r.0.wf(),
            r.0.strong() == 1,
            r.0.value_spec() == Some(initial),
            r.0.borrow_state() is Idle,
            r.0.history() == Seq::<HandleOp>::empty(),
    {
        let cell = SharedMutableCell {
            value: Some(initial),
            count: 1,
            borrow: BorrowState::Idle,
            ops: Ghost(Seq::empty()),
        };
        (cell, Handle { _private: () })
    }

    /// The current number of live handles.  Pure observer.
    pub fn strong_count(&self) -> (r: usize)
        ensures
            r == self.strong(),
    {
        self.count
    }

    /// Whether the underlying storage is still held.  Pure observer.
    pub fn is_allocated(&self) -> (r: bool)
        ensures
            r <==> self.value_spec() is Some,
    {
        self.value.is_some()
    }

    /// Mints a new handle to the same storage and increments the strong
    /// count.  Never fails; the bound on the count is a machine limit.
    pub fn clone_handle(&mut self, handle: &Handle) -> (r: Handle)
        requires
            old(self).wf(),
            old(self).is_live(),
            old(self).strong() < usize::MAX,
        ensures
            final(self).wf(),
            final(self).strong() == old(self).strong() + 1,
            final(self).value_spec() == old(self).value_spec(),
            final(self).borrow_state() == old(self).borrow_state(),
            final(self).history() == old(self).history().push(HandleOp::CloneHandle),
    {
        proof {
            lemma_history_step(old(self).history(), HandleOp::CloneHandle);
        }
        self.count = self.count + 1;
        self.ops = Ghost(self.ops@.push(HandleOp::CloneHandle));
        Handle { _private: () }
    }

    /// Gives a handle back, decrementing the strong count; when the count
    /// reaches zero the storage is released.  The last handle can only be
    /// given back once every guard has been released.
    pub fn drop_handle(&mut self, handle: Handle)
        requires
            old(self).wf(),
            old(self).is_live(),
            old(self).strong() == 1 ==> old(self).borrow_state() is Idle,
        ensures
            final(self).wf(),
            final(self).strong() == old(self).strong() - 1,
            final(self).borrow_state() == old(self).borrow_state(),
            final(self).history() == old(self).history().push(HandleOp::DropHandle),
            old(self).strong() > 1 ==> final(self).value_spec() == old(self).value_spec(),
            old(self).strong() == 1 ==> final(self).value_spec() is None,
    {
        proof {
            lemma_history_step(old(self).history(), HandleOp::DropHandle);
        }
        let _ = handle;
        self.count = self.count - 1;
        if self.count == 0 {
            self.value = None;
        }
        self.ops = Ghost(self.ops@.push(HandleOp::DropHandle));
    }

    /// Acquires a shared read guard.  Succeeds exactly when no write
    /// guard is outstanding; on conflict the cell is left unchanged.
    pub fn read(&mut self, handle: &Handle) -> (r: Result<ScopedRead, BorrowConflict>)
        requires
            old(self).wf(),
            old(self).is_live(),
            old(self).borrow_state() matches BorrowState::Shared(n) ==> n < usize::MAX,
        ensures
            final(self).wf(),
            final(self).strong() == old(self).strong(),
            final(self).value_spec() == old(self).value_spec(),
            final(self).history() == old(self).history(),
            r is Ok <==> read_acquire_allowed(old(self).borrow_state()),
            r is Ok ==> final(self).borrow_state() == after_read_acquire(old(self).borrow_state()),
            r is Err ==> final(self).borrow_state() == old(self).borrow_state() && r == Err::<
                ScopedRead,
                BorrowConflict,
            >(BorrowConflict),
    {
        match self.borrow {
            BorrowState::Idle => {
                self.borrow = BorrowState::Shared(1);
                Ok(ScopedRead { _private: () })
            },
            BorrowState::Shared(n) => {
                self.borrow = BorrowState::Shared(n + 1);
                Ok(ScopedRead { _private: () })
            },
            BorrowState::Exclusive => Err(BorrowConflict),
        }
    }

    /// Acquires the exclusive write guard.  Succeeds exactly when no
    /// guard of either kind is outstanding; on conflict the cell is left
    /// unchanged.
    pub fn write(&mut self, handle: &Handle) -> (r: Result<ScopedWrite, BorrowConflict>)
        requires
            old(self).wf(),
            old(self).is_live(),
        ensures
            final(self).wf(),
            final(self).strong() == old(self).strong(),
            final(self).value_spec() == old(self).value_spec(),
            final(self).history() == old(self).history(),
            r is Ok <==> write_acquire_allowed(old(self).borrow_state()),
            r is Ok ==> final(self).borrow_state() is Exclusive,
            r is Err ==> final(self).borrow_state() == old(self).borrow_state() && r == Err::<
                ScopedWrite,
                BorrowConflict,
            >(BorrowConflict),
    {
        match self.borrow {
            BorrowState::Idle => {
                self.borrow = BorrowState::Exclusive;
                Ok(ScopedWrite { _private: () })
            },
            BorrowState::Shared(_) => Err(BorrowConflict),
            BorrowState::Exclusive => Err(BorrowConflict),
        }
    }

    /// Releases a read guard, consuming it.
    pub fn release_read(&mut self, guard: ScopedRead)
        requires
            old(self).wf(),
            old(self).borrow_state() is Shared,
        ensures
            final(self).wf(),
            final(self).strong() == old(self).strong(),
            final(self).value_spec() == old(self).value_spec(),
            final(self).history() == old(self).history(),
            final(self).borrow_state() == after_read_release(old(self).borrow_state()),
    {
        let _ = guard;
        match self.borrow {
            BorrowState::Shared(n) => {
                if n <= 1 {
                    self.borrow = BorrowState::Idle;
                } else {
                    self.borrow = BorrowState::Shared(n - 1);
                }
            },
            BorrowState::Idle => {
                proof {
                    assert(false);
                }
            },
            BorrowState::Exclusive => {
                proof {
                    assert(false);
                }
            },
        }
    }

    /// Releases the write guard, consuming it.
    pub fn release_write(&mut self, guard: ScopedWrite)
        requires
            old(self).wf(),
            old(self).borrow_state() is Exclusive,
        ensures
            final(self).wf(),
            final(self).strong() == old(self).strong(),
            final(self).value_spec() == old(self).value_spec(),
            final(self).history() == old(self).history(),
            final(self).borrow_state() == after_write_release(old(self).borrow_state()),
    {
        let _ = guard;
        self.borrow = BorrowState::Idle;
    }

    /// Reads the value through an outstanding read guard.
    pub fn read_value<'a>(&'a self, guard: &ScopedRead) -> (r: &'a T)
        requires
            self.wf(),
            self.borrow_state() is Shared,
        ensures
            Some(*r) == self.value_spec(),
    {
        let _ = guard;
        self.value.as_ref().unwrap()
    }

    /// Reads the value through the outstanding write guard.
    pub fn peek<'a>(&'a self, guard: &ScopedWrite) -> (r: &'a T)
        requires
            self.wf(),
            self.borrow_state() is Exclusive,
        ensures
            Some(*r) == self.value_spec(),
    {
        let _ = guard;
        self.value.as_ref().unwrap()
    }

    /// Replaces the value through the outstanding write guard.
    pub fn write_value(&mut self, guard: &ScopedWrite, v: T)
        requires
            old(self).wf(),
            old(self).borrow_state() is Exclusive,
        ensures
            final(self).wf(),
            final(self).value_spec() == Some(v),
            final(self).strong() == old(self).strong(),
            final(self).borrow_state() == old(self).borrow_state(),
            final(self).history() == old(self).history(),
    {
        let _ = guard;
        self.value = Some(v);
    }
}

} // verus!
