use crate::allocator::BackingAlloc;
use crate::layout::Descriptor;
use crate::layout::descriptor_of;
use crate::track::Violation;
use vstd::prelude::*;
use vstd::std_specs::cmp::PartialEqSpec;
use vstd::std_specs::cmp::PartialOrdSpec;

verus! {

/// A single-object owning handle: a value together with the address of
/// the storage that was allocated for it.
///
/// A `TestBox` is created by [`TestBox::new`], which allocates, or by
/// [`TestBox::from_raw_alloc`], which adopts an address that escaped
/// earlier. While the handle exists it owns both the value and the
/// address; [`TestBox::free`] gives the address back to an allocator with
/// the descriptor recomputed from `T`, and [`TestBox::leak`] and
/// [`TestBox::into_raw`] escape both out of automatic management, leaving
/// the allocation outstanding until the caller frees it or adopts it into
/// a new handle.
#[derive(Debug)]
pub struct TestBox<T> {
    addr: usize,
    value: T,
}

impl<T> TestBox<T> {
    /// The address of the owned storage; never the null sentinel.
    pub closed spec fn addr(&self) -> usize {
        self.addr
    }

    /// The owned value.
    pub closed spec fn value(&self) -> T {
        self.value
    }

    /// The handle's invariant: it holds a real address.
    pub open spec fn wf(&self) -> bool {
        self.addr() != 0
    }

    /// Allocates storage for one `T` from `alloc` and moves `x` into the
    /// new handle.
    ///
    /// When the allocator cannot serve the request, the value comes back
    /// in the `Err` case: running out of memory is an expected outcome,
    /// to be provoked on purpose with the fail-injection allocators and
    /// handled by the caller's own reporting path.
    pub fn new<A: BackingAlloc>(x: T, alloc: &mut A) -> (r: Result<TestBox<T>, T>)
        requires
            old(alloc).wf(),
        ensures
            final(alloc).wf(),
            match r {
                Ok(tb) => tb.wf() && tb.value() == x && !old(alloc).live().dom().contains(
                    tb.addr(),
                ) && final(alloc).live() == old(alloc).live().insert(
                    tb.addr(),
                    descriptor_of::<T>(),
                ),
                Err(y) => y == x && final(alloc).live() == old(alloc).live(),
            },
    {
        let desc = Descriptor::of::<T>();
        let addr = alloc.allocate(desc);
        if addr == 0 {
            Err(x)
        } else {
            Ok(TestBox { addr, value: x })
        }
    }

    /// Adopts an address that escaped from an earlier handle, together
    /// with the value that was escaped with it.
    ///
    /// The caller must hand back the address and value of one earlier
    /// escape, still unfreed: nothing at this boundary can check that the
    /// address is tracked by the allocator it will later be freed
    /// through.
    pub fn from_raw_alloc(addr: usize, value: T) -> (r: TestBox<T>)
        requires
            addr != 0,
        ensures
            r.wf(),
            r.addr() == addr,
            r.value() == value,
    {
        TestBox { addr, value }
    }

    /// Consumes the handle and escapes the value and its address out of
    /// automatic management.
    ///
    /// No allocator is touched: the allocation stays outstanding, and the
    /// caller must pair the address with a deallocation, or adopt it back
    /// with [`TestBox::from_raw_alloc`], or the tracking allocator will
    /// report the record as a leak at teardown.
    pub fn leak(tb: TestBox<T>) -> (r: (T, usize))
        ensures
            r.0 == tb.value(),
            r.1 == tb.addr(),
    {
        let TestBox { addr, value } = tb;
        (value, addr)
    }

    /// Consumes the handle and escapes the raw address, with the value,
    /// exactly as [`TestBox::leak`] does.
    pub fn into_raw(tb: TestBox<T>) -> (r: (usize, T))
        ensures
            r.0 == tb.addr(),
            r.1 == tb.value(),
    {
        let TestBox { addr, value } = tb;
        (addr, value)
    }

    /// Releases the handle: gives the storage back to `alloc` under the
    /// descriptor recomputed from `T`, and hands the owned value out.
    ///
    /// The verdict is the allocator's: it succeeds exactly when the
    /// address is live there under that descriptor, so freeing through
    /// the wrong allocator, after a manual free, or as a type whose
    /// descriptor differs from the recorded one is reported as the
    /// violation it is.
    pub fn free<A: BackingAlloc>(self, alloc: &mut A) -> (r: (T, Result<(), Violation>))
        requires
            old(alloc).wf(),
        ensures
            final(alloc).wf(),
            r.0 == self.value(),
            r.1 is Ok ==> old(alloc).live().contains_pair(self.addr(), descriptor_of::<T>())
                && final(alloc).live() == old(alloc).live().remove(self.addr()),
            self.wf() && old(alloc).live().contains_pair(self.addr(), descriptor_of::<T>())
                ==> r.1 is Ok,
            r.1 is Err ==> final(alloc).live() == old(alloc).live(),
    {
        let TestBox { addr, value } = self;
        let desc = Descriptor::of::<T>();
        let verdict = alloc.deallocate(addr, desc);
        (value, verdict)
    }

    /// A shared reference to the owned value.
    pub fn as_ref(&self) -> (r: &T)
        ensures
            *r == self.value(),
    {
        &self.value
    }

    /// An exclusive reference to the owned value; the address is
    /// untouched however the value is changed.
    pub fn as_mut(&mut self) -> (r: &mut T)
        ensures
            *r == old(self).value(),
            final(self).value() == *final(r),
            final(self).addr() == old(self).addr(),
    {
        &mut self.value
    }

    /// A shared reference to the owned value.
    pub fn borrow(&self) -> (r: &T)
        ensures
            *r == self.value(),
    {
        &self.value
    }

    /// An exclusive reference to the owned value; the address is
    /// untouched however the value is changed.
    pub fn borrow_mut(&mut self) -> (r: &mut T)
        ensures
            *r == old(self).value(),
            final(self).value() == *final(r),
            final(self).addr() == old(self).addr(),
    {
        &mut self.value
    }
}

impl<T: PartialEq> PartialEq for TestBox<T> {
    /// Two handles compare equal exactly when their owned values do:
    /// which storage they own and where it came from plays no part.
    fn eq(&self, other: &TestBox<T>) -> bool {
        self.value.eq(&other.value)
    }
}

impl<T: PartialEq> vstd::std_specs::cmp::PartialEqSpecImpl for TestBox<T> {
    open spec fn obeys_eq_spec() -> bool {
        <T as vstd::std_specs::cmp::PartialEqSpec>::obeys_eq_spec()
    }

    open spec fn eq_spec(&self, other: &TestBox<T>) -> bool {
        self.value().eq_spec(&other.value())
    }
}

impl<T: Eq> Eq for TestBox<T> {

}

impl<T: PartialOrd> PartialOrd for TestBox<T> {
    /// Handles order exactly as their owned values do.
    fn partial_cmp(&self, other: &TestBox<T>) -> Option<core::cmp::Ordering> {
        self.value.partial_cmp(&other.value)
    }
}

impl<T: PartialOrd> vstd::std_specs::cmp::PartialOrdSpecImpl for TestBox<T> {
    open spec fn obeys_partial_cmp_spec() -> bool {
        <T as vstd::std_specs::cmp::PartialOrdSpec>::obeys_partial_cmp_spec()
    }

    open spec fn partial_cmp_spec(&self, other: &TestBox<T>) -> Option<core::cmp::Ordering> {
        self.value().partial_cmp_spec(&other.value())
    }
}

impl<T: Clone> TestBox<T> {
    /// Makes a new handle around a clone of the owned value, in fresh
    /// storage from `alloc`, as cloning a box does.
    ///
    /// What the clone of the value is is up to `T`; the ledger effect is
    /// the same as that of [`TestBox::new`]. When the allocator cannot
    /// serve the request nothing changes and the `Err` case comes back.
    pub fn clone_box<A: BackingAlloc>(&self, alloc: &mut A) -> (r: Result<TestBox<T>, ()>)
        requires
            old(alloc).wf(),
        ensures
            final(alloc).wf(),
            match r {
                Ok(tb) => tb.wf() && !old(alloc).live().dom().contains(tb.addr())
                    && final(alloc).live() == old(alloc).live().insert(
                    tb.addr(),
                    descriptor_of::<T>(),
                ),
                Err(u) => final(alloc).live() == old(alloc).live(),
            },
    {
        let copy = self.value.clone();
        match TestBox::new(copy, alloc) {
            Ok(tb) => Ok(tb),
            Err(_) => Err(()),
        }
    }
}

} // verus!
