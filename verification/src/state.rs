use vstd::prelude::*;

verus! {

/// The borrow tag of a checked cell: no borrow outstanding, `n` shared
/// borrows outstanding, or one exclusive borrow outstanding. A consistent
/// tag never records `Shared(0)`: a count that would reach zero becomes
/// `Unshared` instead (see `wf`).
#[derive(Copy, Clone)]
pub enum BorrowState {
    Unshared,
    Shared(usize),
    Exclusive,
}

impl BorrowState {
    /// Consistency of the tag: a shared count of zero is never recorded.
    pub open spec fn wf(self) -> bool {
        self matches BorrowState::Shared(n) ==> n >= 1
    }

    /// How many shared borrows the tag records.
    pub open spec fn reader_count(self) -> nat {
        match self {
            BorrowState::Shared(n) => n as nat,
            _ => 0,
        }
    }

    /// How many exclusive borrows the tag records.
    pub open spec fn writer_count(self) -> nat {
        if self is Exclusive {
            1
        } else {
            0
        }
    }

    /// An acquire-shared transition succeeds exactly when no exclusive
    /// borrow is outstanding.
    pub open spec fn can_acquire_shared(self) -> bool {
        !(self is Exclusive)
    }

    /// The tag after a successful acquire-shared: one more shared borrow.
    /// On `Exclusive`, where the acquire fails, the tag is unchanged.
    pub open spec fn after_acquire_shared(self) -> BorrowState {
        match self {
            BorrowState::Unshared => BorrowState::Shared(1),
            BorrowState::Shared(n) => BorrowState::Shared((n + 1) as usize),
            BorrowState::Exclusive => self,
        }
    }

    /// An acquire-exclusive transition succeeds exactly when no borrow of
    /// either kind is outstanding.
    pub open spec fn can_acquire_exclusive(self) -> bool {
        self is Unshared
    }

    /// The tag after a successful acquire-exclusive. On a tag with any
    /// borrow outstanding, where the acquire fails, the tag is unchanged.
    pub open spec fn after_acquire_exclusive(self) -> BorrowState {
        if self is Unshared {
            BorrowState::Exclusive
        } else {
            self
        }
    }

    /// A release-shared transition is consistent only while shared borrows
    /// are outstanding.
    pub open spec fn can_release_shared(self) -> bool {
        self is Shared
    }

    /// The tag after releasing one shared borrow: the count goes down by
    /// one, and a count that would reach zero becomes `Unshared`.
    pub open spec fn after_release_shared(self) -> BorrowState {
        match self {
            BorrowState::Shared(n) => if n <= 1 {
                BorrowState::Unshared
            } else {
                BorrowState::Shared((n - 1) as usize)
            },
            _ => self,
        }
    }

    /// A release-exclusive transition is consistent only while the one
    /// exclusive borrow is outstanding.
    pub open spec fn can_release_exclusive(self) -> bool {
        self is Exclusive
    }

    /// The tag after releasing the exclusive borrow.
    pub open spec fn after_release_exclusive(self) -> BorrowState {
        if self is Exclusive {
            BorrowState::Unshared
        } else {
            self
        }
    }
}

/// Law: a consistent tag records either some number (possibly zero) of
/// shared borrows and no exclusive borrow, or exactly one exclusive borrow
/// and no shared borrows — never both kinds at once. Moreover every
/// permitted transition keeps the tag consistent, so the alternative holds
/// at every instant of any sequence of acquires and releases.
pub proof fn lemma_readers_xor_writer(s: BorrowState)
    requires
        s.wf(),
    ensures
        !(s.reader_count() > 0 && s.writer_count() > 0),
        s.writer_count() <= 1,
        s.can_acquire_shared() && s.reader_count() < usize::MAX ==> s.after_acquire_shared().wf(),
        s.can_acquire_exclusive() ==> s.after_acquire_exclusive().wf(),
        s.can_release_shared() ==> s.after_release_shared().wf(),
        s.can_release_exclusive() ==> s.after_release_exclusive().wf(),
{
}

/// The tag after `k` successive acquire-shared transitions.
pub open spec fn after_acquires(s: BorrowState, k: nat) -> BorrowState
    decreases k,
{
    if k == 0 {
        s
    } else {
        after_acquires(s.after_acquire_shared(), (k - 1) as nat)
    }
}

/// The tag after `k` successive release-shared transitions.
pub open spec fn after_releases(s: BorrowState, k: nat) -> BorrowState
    decreases k,
{
    if k == 0 {
        s
    } else {
        after_releases(s.after_release_shared(), (k - 1) as nat)
    }
}

proof fn lemma_acquires_from_shared(n: usize, k: nat)
    requires
        1 <= n,
        n + k <= usize::MAX,
    ensures
        after_acquires(BorrowState::Shared(n), k) == BorrowState::Shared((n + k) as usize),
    decreases k,
{
    if k > 0 {
        lemma_acquires_from_shared((n + 1) as usize, (k - 1) as nat);
    }
}

proof fn lemma_releases_from_shared(n: usize, k: nat)
    requires
        1 <= n,
        k <= n,
    ensures
        k == n ==> after_releases(BorrowState::Shared(n), k) == BorrowState::Unshared,
        k < n ==> after_releases(BorrowState::Shared(n), k) == BorrowState::Shared((n - k) as usize),
    decreases k,
{
    if k > 0 && n > 1 {
        lemma_releases_from_shared((n - 1) as usize, (k - 1) as nat);
    } else if k > 0 {
        assert(after_releases(BorrowState::Shared(n), k) == after_releases(
            BorrowState::Unshared,
            (k - 1) as nat,
        ));
        assert(after_releases(BorrowState::Unshared, 0nat) == BorrowState::Unshared);
    }
}

/// Law: starting from no outstanding borrow, acquiring `k >= 1` shared
/// borrows in sequence and then releasing all `k` of them returns the tag
/// to `Unshared`, after which an exclusive acquire succeeds. (`k` is capped
/// by the machine word that holds the count.)
pub proof fn lemma_shared_round_trip(k: nat)
    requires
        1 <= k <= usize::MAX,
    ensures
        after_releases(after_acquires(BorrowState::Unshared, k), k) == BorrowState::Unshared,
        after_releases(after_acquires(BorrowState::Unshared, k), k).can_acquire_exclusive(),
{
    lemma_acquires_from_shared(1, (k - 1) as nat);
    assert(after_acquires(BorrowState::Unshared, k) == BorrowState::Shared(k as usize));
    lemma_releases_from_shared(k as usize, k);
}

} // verus!
