use crate::layout::Descriptor;
use crate::track::Violation;
use crate::track::alloc_record;
use crate::track::dealloc_check;
use rand::distributions::Distribution;
use rand::distributions::Standard;
use vstd::hash_map::HashMapWithView;
use vstd::prelude::*;

verus! {

/// The allocate/deallocate capability every allocator of this crate offers
/// and wraps.
///
/// Addresses are opaque nonzero integers; an allocation request answers
/// `0` when it fails. A conforming allocator never hands out an address
/// that is still live, and accepts a deallocation exactly when it is given
/// back a live address with the descriptor it was allocated under.
pub trait BackingAlloc: Sized {
    /// The allocations currently outstanding: each live address with the
    /// descriptor it was allocated under.
    spec fn live(&self) -> Map<usize, Descriptor>;

    /// The internal invariant of the allocator.
    spec fn wf(&self) -> bool;

    /// Requests memory for `desc`, answering the address, or `0` when the
    /// request cannot be served.
    fn allocate(&mut self, desc: Descriptor) -> (addr: usize)
        requires
            old(self).wf(),
        ensures
            final(self).wf(),
            addr != 0 ==> !old(self).live().dom().contains(addr) && final(self).live()
                == old(self).live().insert(addr, desc),
            addr == 0 ==> final(self).live() == old(self).live(),
    ;

    /// Gives the memory at `addr` back, with the descriptor it was
    /// requested for.
    fn deallocate(&mut self, addr: usize, desc: Descriptor) -> (r: Result<(), Violation>)
        requires
            old(self).wf(),
        ensures
            final(self).wf(),
            r is Ok ==> addr != 0 && old(self).live().contains_pair(addr, desc)
                && final(self).live() == old(self).live().remove(addr),
            addr != 0 && old(self).live().contains_pair(addr, desc) ==> r is Ok,
            r is Err ==> final(self).live() == old(self).live(),
    ;
}

/// A model of the platform memory manager: addresses are drawn from a
/// cursor that only moves forward, so every answer is fresh, and a request
/// fails only when the address space is used up.
pub struct SystemAlloc {
    next: usize,
    live: HashMapWithView<usize, Descriptor>,
}

impl SystemAlloc {
    /// Creates an allocator with no outstanding allocations.
    pub fn new() -> (r: SystemAlloc)
        ensures
            r.wf(),
            r.live() == Map::<usize, Descriptor>::empty(),
    {
        SystemAlloc { next: 1, live: HashMapWithView::new() }
    }
}

impl Default for SystemAlloc {
    /// Creates an allocator with no outstanding allocations.
    fn default() -> (r: SystemAlloc)
        ensures
            r.wf(),
            r.live() == Map::<usize, Descriptor>::empty(),
    {
        SystemAlloc::new()
    }
}

impl BackingAlloc for SystemAlloc {
    closed spec fn live(&self) -> Map<usize, Descriptor> {
        self.live@
    }

    closed spec fn wf(&self) -> bool {
        &&& self.next >= 1
        &&& forall|k: usize| #[trigger]
            self.live@.dom().contains(k) ==> 0 < k < self.next
    }

    fn allocate(&mut self, desc: Descriptor) -> (addr: usize)
        ensures
            // a request that leaves the cursor room always succeeds
            old(self).next() + desc.size < usize::MAX ==> addr != 0,
    {
        let step: usize = if desc.size == 0 {
            1
        } else {
            desc.size
        };
        if self.next > usize::MAX - step {
            return 0;
        }
        let addr = self.next;
        self.next = self.next + step;
        self.live.insert(addr, desc);
        addr
    }

    fn deallocate(&mut self, addr: usize, desc: Descriptor) -> (r: Result<(), Violation>)
        ensures
            // the model heap applies the same validation a tracking
            // ledger does, and names the violation it found
            match dealloc_check(old(self).live(), addr, desc) {
                Ok(m) => r is Ok && final(self).live() == m,
                Err(v) => r == Err::<(), Violation>(v) && final(self).live() == old(self).live(),
            },
    {
        if addr == 0 {
            return Err(Violation::NullDeallocate);
        }
        let recorded = match self.live.get(&addr) {
            Some(d) => Some(*d),
            None => None,
        };
        match recorded {
            None => Err(Violation::UntrackedAddress),
            Some(d) => {
                if d != desc {
                    Err(Violation::DescriptorMismatch)
                } else {
                    self.live.remove(&addr);
                    Ok(())
                }
            },
        }
    }
}

impl SystemAlloc {
    /// The position of the address cursor: every address handed out so far
    /// lies below it.
    pub closed spec fn next(&self) -> usize {
        self.next
    }
}

/// An allocator that wraps another one and keeps a ledger of every
/// outstanding allocation, so that allocator-contract violations and
/// leaks surface during a test instead of going unnoticed.
///
/// Each successful allocation is recorded under its address; each
/// deallocation is validated against the record (the address must be
/// tracked and the descriptor must equal the recorded one) before it is
/// passed on. The ledger is shared by every handle to the tracking state:
/// [`TestAlloc::clone_handle`] registers one more handle and
/// [`TestAlloc::drop_handle`] releases one, and releasing the last handle
/// checks that the ledger is empty — the leak-detection checkpoint.
pub struct TestAlloc<A: BackingAlloc> {
    inner: A,
    allocatings: HashMapWithView<usize, Descriptor>,
    handles: usize,
}

impl<A: BackingAlloc> TestAlloc<A> {
    /// The ledger: every outstanding allocation made through this
    /// allocator, keyed by address, with the descriptor it was requested
    /// for. It is also what this allocator reports as live to an
    /// allocator wrapped around it.
    pub open spec fn records(&self) -> Map<usize, Descriptor> {
        self.live()
    }

    /// How many handles to the tracking state are outstanding.
    pub closed spec fn handles(&self) -> nat {
        self.handles as nat
    }

    /// The wrapped allocator.
    pub closed spec fn inner(&self) -> A {
        self.inner
    }

    /// Wraps `inner`, starting with an empty ledger and a single handle.
    pub fn from_inner(inner: A) -> (r: TestAlloc<A>)
        requires
            inner.wf(),
        ensures
            r.wf(),
            r.records() == Map::<usize, Descriptor>::empty(),
            r.handles() == 1,
            r.inner() == inner,
    {
        TestAlloc { inner, allocatings: HashMapWithView::new(), handles: 1 }
    }

    /// Registers one more handle to the tracking state, as cloning the
    /// allocator does: the ledger stays shared, and only releasing the
    /// last handle runs the leak check.
    pub fn clone_handle(&mut self)
        requires
            old(self).wf(),
            old(self).handles() < usize::MAX,
        ensures
            final(self).wf(),
            final(self).handles() == old(self).handles() + 1,
            final(self).records() == old(self).records(),
            final(self).inner() == old(self).inner(),
    {
        self.handles = self.handles + 1;
    }

    /// Releases one handle to the tracking state.
    ///
    /// Releasing any handle but the last changes nothing else and always
    /// succeeds. Releasing the last one runs the leak check: it succeeds
    /// exactly when the ledger is empty, and reports [`Violation::Leak`]
    /// when an allocation is still outstanding.
    pub fn drop_handle(&mut self) -> (r: Result<(), Violation>)
        requires
            old(self).wf(),
        ensures
            final(self).handles() == old(self).handles() - 1,
            final(self).records() == old(self).records(),
            final(self).inner() == old(self).inner(),
            old(self).handles() > 1 ==> final(self).wf(),
            r is Ok <==> (old(self).handles() > 1 || old(self).records().is_empty()),
            r is Err ==> r == Err::<(), Violation>(Violation::Leak),
    {
        self.handles = self.handles - 1;
        if self.handles == 0 {
            if self.allocatings.is_empty() {
                Ok(())
            } else {
                Err(Violation::Leak)
            }
        } else {
            Ok(())
        }
    }
}

impl Default for TestAlloc<SystemAlloc> {
    /// Wraps a fresh model of the platform allocator.
    fn default() -> (r: TestAlloc<SystemAlloc>)
        ensures
            r.wf(),
            r.records() == Map::<usize, Descriptor>::empty(),
            r.handles() == 1,
    {
        TestAlloc::from_inner(SystemAlloc::new())
    }
}

impl<A: BackingAlloc> BackingAlloc for TestAlloc<A> {
    /// What this allocator owes its own callers is exactly its ledger.
    closed spec fn live(&self) -> Map<usize, Descriptor> {
        self.allocatings@
    }

    closed spec fn wf(&self) -> bool {
        &&& self.inner.wf()
        &&& self.handles >= 1
        &&& forall|k: usize| #[trigger]
            self.allocatings@.dom().contains(k) ==> self.inner.live().dom().contains(k)
                && self.inner.live()[k] == self.allocatings@[k]
    }

    fn allocate(&mut self, desc: Descriptor) -> (addr: usize)
        ensures
            final(self).records() == alloc_record(old(self).records(), addr, desc),
            addr != 0 ==> !old(self).records().dom().contains(addr),
            final(self).handles() == old(self).handles(),
    {
        let addr = self.inner.allocate(desc);
        if addr != 0 {
            // a conforming backing allocator answers a fresh address, so a
            // collision with a record still in the ledger cannot happen;
            // the recorded check becomes a static impossibility here
            assert(!self.allocatings@.dom().contains(addr));
            self.allocatings.insert(addr, desc);
        }
        addr
    }

    fn deallocate(&mut self, addr: usize, desc: Descriptor) -> (r: Result<(), Violation>)
        ensures
            final(self).handles() == old(self).handles(),
            match dealloc_check(old(self).records(), addr, desc) {
                Ok(m) => r is Ok && final(self).records() == m,
                Err(v) => r == Err::<(), Violation>(v) && final(self).records() == old(
                    self).records(),
            },
    {
        if addr == 0 {
            return Err(Violation::NullDeallocate);
        }
        let recorded = match self.allocatings.get(&addr) {
            Some(d) => Some(*d),
            None => None,
        };
        match recorded {
            None => Err(Violation::UntrackedAddress),
            Some(d) => {
                if d != desc {
                    Err(Violation::DescriptorMismatch)
                } else {
                    // the record leaves the ledger first; only then is the
                    // request passed on, which the wrapped allocator must
                    // accept, since the pair was recorded at allocation
                    self.allocatings.remove(&addr);
                    let r = self.inner.deallocate(addr, desc);
                    r
                }
            },
        }
    }
}

/// An allocator that always fails.
///
/// Every allocation request answers the failure sentinel, and a
/// deallocation request is a violation whatever its arguments: no address
/// can have come from here.
#[derive(Clone, Copy)]
pub struct NeverAlloc;

impl Default for NeverAlloc {
    /// Creates the allocator; it is stateless.
    fn default() -> (r: NeverAlloc)
        ensures
            r.wf(),
    {
        NeverAlloc
    }
}

impl BackingAlloc for NeverAlloc {
    closed spec fn live(&self) -> Map<usize, Descriptor> {
        Map::empty()
    }

    closed spec fn wf(&self) -> bool {
        true
    }

    fn allocate(&mut self, desc: Descriptor) -> (addr: usize)
        ensures
            // every request fails, whatever its descriptor
            addr == 0,
    {
        0
    }

    fn deallocate(&mut self, addr: usize, desc: Descriptor) -> (r: Result<(), Violation>)
        ensures
            // every call is a violation, whatever its arguments
            r == Err::<(), Violation>(Violation::UnexpectedDeallocate),
    {
        Err(Violation::UnexpectedDeallocate)
    }
}

/// Relies on rand::random: a value drawn from the process-wide generator.
/// Nothing is promised of which value comes back.
pub assume_specification<T>[ rand::random::<T> ]() -> (r: T)
    where
        Standard: Distribution<T>,
;

/// An allocator that fails on purpose with probability 1/16.
///
/// It wraps another allocator and delegates every request to it, except
/// that an allocation request is answered with the failure sentinel,
/// without touching the inner allocator, whenever a freshly drawn random
/// byte is divisible by 16. It exercises a caller's out-of-memory handling
/// without exhausting real memory.
pub struct MaybeAlloc<A: BackingAlloc> {
    inner: A,
}

impl<A: BackingAlloc> MaybeAlloc<A> {
    /// Wraps `inner`; its outstanding allocations become this allocator's.
    pub fn from_inner(inner: A) -> (r: MaybeAlloc<A>)
        requires
            inner.wf(),
        ensures
            r.wf(),
            r.live() == inner.live(),
    {
        MaybeAlloc { inner }
    }

    /// Takes the wrapped allocator back out.
    pub fn into_inner(self) -> (r: A)
        ensures
            self.wf() ==> r.wf(),
            r.live() == self.live(),
    {
        self.inner
    }
}

impl Default for MaybeAlloc<TestAlloc<SystemAlloc>> {
    /// Wraps a fresh tracking allocator around the model of the platform
    /// allocator, so that fault injection and leak detection are exercised
    /// together.
    fn default() -> (r: MaybeAlloc<TestAlloc<SystemAlloc>>)
        ensures
            r.wf(),
            r.live() == Map::<usize, Descriptor>::empty(),
    {
        MaybeAlloc::from_inner(TestAlloc::from_inner(SystemAlloc::new()))
    }
}

impl<A: BackingAlloc> BackingAlloc for MaybeAlloc<A> {
    closed spec fn live(&self) -> Map<usize, Descriptor> {
        self.inner.live()
    }

    closed spec fn wf(&self) -> bool {
        self.inner.wf()
    }

    fn allocate(&mut self, desc: Descriptor) -> (addr: usize) {
        let b: u8 = rand::random::<u8>();
        if b % 16 == 0 {
            0
        } else {
            self.inner.allocate(desc)
        }
    }

    fn deallocate(&mut self, addr: usize, desc: Descriptor) -> (r: Result<(), Violation>)
        ensures
            // the null check is this allocator's own; the rest is the
            // wrapped allocator's answer
            addr == 0 ==> r == Err::<(), Violation>(Violation::NullDeallocate),
    {
        if addr == 0 {
            return Err(Violation::NullDeallocate);
        }
        self.inner.deallocate(addr, desc)
    }
}

} // verus!
