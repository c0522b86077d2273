use vstd::prelude::*;

use crate::cell::Cell;
use crate::state::BorrowState;

verus! {

/// A runtime-checked borrow cell: it owns one value and a `BorrowState`
/// tag, kept in a `Cell`. At any time the value is visible either through
/// any number of outstanding `Ref` guards or through one outstanding
/// `RefMut` guard, never both kinds at once; a conflicting acquire is
/// rejected rather than granted.
pub struct RefCell<T> {
    value: T,
    state: Cell<BorrowState>,
}

/// A shared (read-only) guard: the witness of one successful shared
/// acquire. It is deliberately neither duplicable nor re-creatable outside
/// this module: a fresh shared view must go back through `RefCell::borrow`,
/// so that the shared count stays in step with the guards outstanding.
/// Every `Ref` must be given back through `RefCell::release`.
pub struct Ref {
    witness: (),
}

/// An exclusive (read-write) guard: the witness of one successful exclusive
/// acquire; at most one is outstanding per cell. Like `Ref` it cannot be
/// duplicated or forged, and must be given back through
/// `RefCell::release_mut`.
pub struct RefMut {
    witness: (),
}

impl<T> RefCell<T> {
    /// The wrapped value.
    pub closed spec fn stored(self) -> T {
        self.value
    }

    /// The current borrow tag.
    pub closed spec fn borrow_state(self) -> BorrowState {
        self.state.val()
    }

    /// Consistency of the cell: its tag never records a shared count of
    /// zero. Established by `new` and preserved by every operation.
    pub open spec fn wf(self) -> bool {
        self.borrow_state().wf()
    }

    /// Creates the cell owning `value`, with no borrow outstanding.
    pub fn new(value: T) -> (c: RefCell<T>)
        ensures
            c.wf(),
            c.stored() == value,
            c.borrow_state() == BorrowState::Unshared,
    {
        RefCell { value: value, state: Cell::new(BorrowState::Unshared) }
    }

    /// Acquire-shared: returns a `Ref` guard exactly when no exclusive
    /// borrow is outstanding, raising the shared count by one; while the
    /// exclusive borrow is outstanding it returns `None` and changes
    /// nothing. Never blocks.
    pub fn borrow(&mut self) -> (r: Option<Ref>)
        requires
            old(self).wf(),
            old(self).borrow_state().reader_count() < usize::MAX,
        ensures
            final(self).wf(),
            final(self).stored() == old(self).stored(),
            r is Some <==> old(self).borrow_state().can_acquire_shared(),
            r is Some ==> final(self).borrow_state() == old(
                self,
            ).borrow_state().after_acquire_shared(),
            r is None ==> final(self).borrow_state() == old(self).borrow_state(),
    {
        match self.state.get() {
            BorrowState::Unshared => {
                self.state.set(BorrowState::Shared(1));
                Some(Ref { witness: () })
            },
            BorrowState::Shared(count) => {
                self.state.set(BorrowState::Shared(count + 1));
                Some(Ref { witness: () })
            },
            BorrowState::Exclusive => None,
        }
    }

    /// Acquire-exclusive: returns a `RefMut` guard exactly when no borrow
    /// of either kind is outstanding; otherwise it returns `None` and
    /// changes nothing. Never blocks.
    pub fn borrow_mut(&mut self) -> (r: Option<RefMut>)
        requires
            old(self).wf(),
        ensures
            final(self).wf(),
            final(self).stored() == old(self).stored(),
            r is Some <==> old(self).borrow_state().can_acquire_exclusive(),
            r is Some ==> final(self).borrow_state() == BorrowState::Exclusive,
            r is None ==> final(self).borrow_state() == old(self).borrow_state(),
    {
        if let BorrowState::Unshared = self.state.get() {
            self.state.set(BorrowState::Exclusive);
            Some(RefMut { witness: () })
        } else {
            None
        }
    }

    /// Read access through an outstanding shared guard.
    #[allow(unused_variables)]
    pub fn read(&self, guard: &Ref) -> (v: &T)
        requires
            self.borrow_state() is Shared,
        ensures
            *v == self.stored(),
    {
        &self.value
    }

    /// Read access through the outstanding exclusive guard.
    #[allow(unused_variables)]
    pub fn read_mut(&self, guard: &RefMut) -> (v: &T)
        requires
            self.borrow_state() is Exclusive,
        ensures
            *v == self.stored(),
    {
        &self.value
    }

    /// Write access through the outstanding exclusive guard: the wrapped
    /// value may be replaced through the returned reference, and the borrow
    /// tag is untouched.
    #[allow(unused_variables)]
    pub fn get_mut(&mut self, guard: &RefMut) -> (v: &mut T)
        requires
            old(self).borrow_state() is Exclusive,
        ensures
            *v == old(self).stored(),
            final(self).stored() == *final(v),
            final(self).borrow_state() == old(self).borrow_state(),
    {
        &mut self.value
    }

    /// Release-shared: gives a `Ref` guard back, bringing the shared count
    /// down by one; a last release returns the tag to `Unshared`. A shared
    /// release while the tag says `Unshared` or `Exclusive` would mean the
    /// borrow invariant was already broken; the precondition proves those
    /// cases unreachable, so no abort path is needed.
    #[allow(unused_variables)]
    pub fn release(&mut self, guard: Ref)
        requires
            old(self).wf(),
            old(self).borrow_state() is Shared,
        ensures
            final(self).wf(),
            final(self).stored() == old(self).stored(),
            final(self).borrow_state() == old(self).borrow_state().after_release_shared(),
    {
        match self.state.get() {
            BorrowState::Shared(n) => {
                if n <= 1 {
                    self.state.set(BorrowState::Unshared);
                } else {
                    self.state.set(BorrowState::Shared(n - 1));
                }
            },
            BorrowState::Unshared | BorrowState::Exclusive => {
                proof {
                    assert(false);
                }
            },
        }
    }

    /// Release-exclusive: gives the `RefMut` guard back and returns the tag
    /// to `Unshared`. As with `release`, the inconsistent cases are proved
    /// unreachable rather than aborted on.
    #[allow(unused_variables)]
    pub fn release_mut(&mut self, guard: RefMut)
        requires
            old(self).borrow_state() is Exclusive,
        ensures
            final(self).wf(),
            final(self).stored() == old(self).stored(),
            final(self).borrow_state() == old(self).borrow_state().after_release_exclusive(),
    {
        match self.state.get() {
            BorrowState::Exclusive => {
                self.state.set(BorrowState::Unshared);
            },
            BorrowState::Unshared | BorrowState::Shared(_) => {
                proof {
                    assert(false);
                }
            },
        }
    }
}

/// Law: a consistent cell records, at every instant, either some number
/// (possibly zero) of shared borrows and no exclusive borrow, or exactly
/// one exclusive borrow and no shared borrows — never both kinds at once.
/// Since `new` establishes consistency and every acquire and release
/// preserves it (see their contracts), this holds across any sequence of
/// borrows and releases.
pub proof fn lemma_readers_xor_writer<T>(c: RefCell<T>)
    requires
        c.wf(),
    ensures
        !(c.borrow_state().reader_count() > 0 && c.borrow_state().writer_count() > 0),
        c.borrow_state().writer_count() <= 1,
{
}

} // verus!
