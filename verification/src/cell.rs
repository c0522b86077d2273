use vstd::prelude::*;

verus! {

/// A single-value mutable container with no aliasing checks, meant for
/// confinement to one thread of execution. The value is never handed out by
/// reference: `set` replaces it wholesale and `get` duplicates it out, which
/// is why `get` is only offered for cheaply duplicable (`Copy`) value types.
pub struct Cell<T> {
    value: T,
}

impl<T> Cell<T> {
    /// The value the cell currently owns.
    pub closed spec fn val(self) -> T {
        self.value
    }

    /// The cell as it stands once it owns `v` instead.
    pub closed spec fn with_val(self, v: T) -> Cell<T> {
        Cell { value: v }
    }

    /// Constructs a cell owning `value`.
    pub fn new(value: T) -> (c: Cell<T>)
        ensures
            c.val() == value,
    {
        Cell { value: value }
    }

    /// Unconditionally replaces the owned value; the replacement is visible
    /// to every subsequent `get`.
    pub fn set(&mut self, value: T)
        ensures
            *final(self) == old(self).with_val(value),
            final(self).val() == value,
    {
        self.value = value;
    }

    /// Returns a duplicate of the currently owned value.
    pub fn get(&self) -> (v: T) where T: Copy
        ensures
            v == self.val(),
    {
        self.value
    }
}

/// Law: writing a value into a cell and then reading gives back exactly the
/// value written, whatever the cell held before.
pub proof fn lemma_set_then_get<T>(c: Cell<T>, v: T)
    ensures
        c.with_val(v).val() == v,
{
}

} // verus!
