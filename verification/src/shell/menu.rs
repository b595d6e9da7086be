//! The overlay's menu bar is hidden while any lock on it is held.

use vstd::prelude::*;

verus! {

/// How many locks on the menu bar are held. The count wraps around as an
/// atomic counter does.
pub struct MenuLocks {
    pub count: usize,
}

/// One lock on the menu bar: the bar stays hidden until it is released.
pub struct MenuLock;

pub open spec fn count_after_lock(count: usize) -> usize {
    if count == usize::MAX {
        0
    } else {
        (count + 1) as usize
    }
}

pub open spec fn count_after_release(count: usize) -> usize {
    if count == 0 {
        usize::MAX
    } else {
        (count - 1) as usize
    }
}

impl MenuLocks {
    /// No lock held.
    pub fn new() -> (locks: MenuLocks)
        ensures
            locks.count == 0,
    {
        MenuLocks { count: 0 }
    }
}

/// Takes a lock on the menu bar, hiding it until the lock is released.
pub fn lock(locks: &mut MenuLocks) -> (guard: MenuLock)
    ensures
        final(locks).count == count_after_lock(old(locks).count),
{
    locks.count = if locks.count == usize::MAX {
        0
    } else {
        locks.count + 1
    };
    MenuLock
}

/// Whether any lock is held.
pub fn locked(locks: &MenuLocks) -> (b: bool)
    ensures
        b == (locks.count != 0),
{
    locks.count != 0
}

impl MenuLock {
    /// Gives the lock back.
    pub fn release(self, locks: &mut MenuLocks)
        ensures
            final(locks).count == count_after_release(old(locks).count),
    {
        locks.count = if locks.count == 0 {
            usize::MAX
        } else {
            locks.count - 1
        };
    }
}

/// The count after a run of operations on the locks, from `count`: `true`
/// takes a lock, `false` releases one.
pub open spec fn count_after_ops(count: usize, ops: Seq<bool>) -> usize
    decreases ops.len(),
{
    if ops.len() == 0 {
        count
    } else {
        let before = count_after_ops(count, ops.drop_last());
        if ops.last() {
            count_after_lock(before)
        } else {
            count_after_release(before)
        }
    }
}

/// The locks held after a run of operations: those taken less those
/// released.
pub open spec fn held_after(ops: Seq<bool>) -> int
    decreases ops.len(),
{
    if ops.len() == 0 {
        0
    } else {
        held_after(ops.drop_last()) + if ops.last() {
            1int
        } else {
            -1int
        }
    }
}

/// From no lock, any run of takes and releases in which each release gives
/// back a lock that is held (the locks are alike, so which one does not
/// matter) leaves the count at the number of locks held, and the bar locked
/// exactly while one is: the bar is locked from the first take until the
/// last held lock is released. The run is shorter than the counter's range.
pub proof fn lemma_count_is_locks_held(ops: Seq<bool>)
    requires
        ops.len() < usize::MAX,
        forall|i: int| 0 <= i <= ops.len() ==> held_after(#[trigger] ops.take(i)) >= 0,
    ensures
        count_after_ops(0, ops) == held_after(ops),
        (count_after_ops(0, ops) != 0) == (held_after(ops) > 0),
        held_after(ops) <= ops.len(),
    decreases ops.len(),
{
    if ops.len() > 0 {
        let rest = ops.drop_last();
        assert forall|i: int| 0 <= i <= rest.len() implies held_after(#[trigger] rest.take(i)) >= 0 by {
            assert(rest.take(i) =~= ops.take(i));
        }
        lemma_count_is_locks_held(rest);
        assert(ops.take(ops.len() as int) =~= ops);
    }
}

/// Releasing a lock undoes taking it.
pub proof fn lemma_release_undoes_lock(count: usize)
    ensures
        count_after_release(count_after_lock(count)) == count,
{
}

/// While a lock is held the bar is locked, unless the count has wrapped.
pub proof fn lemma_locked_while_held(count: usize)
    requires
        count < usize::MAX,
    ensures
        count_after_lock(count) != 0,
{
}

} // verus!
