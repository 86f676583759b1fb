use crate::layout::Descriptor;
use vstd::prelude::*;

verus! {

/// A broken promise in the allocate/deallocate protocol.
///
/// Every variant marks a programming error in the code under test or in
/// the allocator chain: the tracking layer reports it to the caller, whose
/// job is to halt the test at that point.
#[derive(Clone, Copy, Debug, PartialEq, Eq, Structural)]
pub enum Violation {
    /// A null address was passed to a deallocation, which the allocate/
    /// deallocate interface leaves undefined.
    NullDeallocate,
    /// The deallocated address has no outstanding record: it was never
    /// allocated here, or it was already freed.
    UntrackedAddress,
    /// The descriptor passed to the deallocation differs from the one the
    /// address was allocated with.
    DescriptorMismatch,
    /// A deallocation reached an allocator that never hands out memory, so
    /// the address cannot have come from it.
    UnexpectedDeallocate,
    /// At least one allocation was still outstanding when the last handle
    /// to the tracking state was released.
    Leak,
}

/// The record update made by an allocation request that returned `addr`:
/// a failed request (`addr == 0`) records nothing, a successful one
/// records the address with its descriptor.
pub open spec fn alloc_record(
    m: Map<usize, Descriptor>,
    addr: usize,
    desc: Descriptor,
) -> Map<usize, Descriptor> {
    if addr == 0 {
        m
    } else {
        m.insert(addr, desc)
    }
}

/// The validation a tracking ledger applies to a deallocation request:
/// either the updated ledger, or the violation the request commits.
pub open spec fn dealloc_check(
    m: Map<usize, Descriptor>,
    addr: usize,
    desc: Descriptor,
) -> Result<Map<usize, Descriptor>, Violation> {
    if addr == 0 {
        Err(Violation::NullDeallocate)
    } else if !m.dom().contains(addr) {
        Err(Violation::UntrackedAddress)
    } else if m[addr] != desc {
        Err(Violation::DescriptorMismatch)
    } else {
        Ok(m.remove(addr))
    }
}

/// One call observed by a tracking ledger: an allocation request together
/// with the address the backing allocator returned for it, or a
/// deallocation request.
pub enum TrackOp {
    /// An allocation request that returned `addr` (`0` when it failed).
    Allocate { addr: usize, desc: Descriptor },
    /// A deallocation request for `addr`.
    Deallocate { addr: usize, desc: Descriptor },
}

impl TrackOp {
    /// Whether this is an allocation.
    pub open spec fn is_allocate(self) -> bool {
        self is Allocate
    }

    /// Whether this is a deallocation.
    pub open spec fn is_deallocate(self) -> bool {
        self is Deallocate
    }

    /// The address of the call.
    pub open spec fn addr(self) -> usize {
        match self {
            TrackOp::Allocate { addr, .. } => addr,
            TrackOp::Deallocate { addr, .. } => addr,
        }
    }

    /// The descriptor of the call.
    pub open spec fn desc(self) -> Descriptor {
        match self {
            TrackOp::Allocate { desc, .. } => desc,
            TrackOp::Deallocate { desc, .. } => desc,
        }
    }
}

/// Runs a sequence of calls against a ledger: `Some` of the final ledger
/// when no call fires an assertion, `None` when one does.
///
/// A successful allocation of an address that is still recorded is the
/// fatal same-address collision; every deallocation is validated by
/// [`dealloc_check`].
pub open spec fn run_ops(m: Map<usize, Descriptor>, ops: Seq<TrackOp>) -> Option<
    Map<usize, Descriptor>,
>
    decreases ops.len(),
{
    if ops.len() == 0 {
        Some(m)
    } else {
        match ops[0] {
            TrackOp::Allocate { addr, desc } => {
                if addr != 0 && m.dom().contains(addr) {
                    None
                } else {
                    run_ops(alloc_record(m, addr, desc), ops.skip(1))
                }
            },
            TrackOp::Deallocate { addr, desc } => {
                match dealloc_check(m, addr, desc) {
                    Ok(m2) => run_ops(m2, ops.skip(1)),
                    Err(_) => None,
                }
            },
        }
    }
}

/// No two successful allocations in `ops` hand out the same address: what
/// a chain of conforming allocators does, since an address stays live
/// until it is freed and these sequences never free and reuse one.
pub open spec fn allocates_are_distinct(ops: Seq<TrackOp>) -> bool {
    forall|i: int, j: int|
        0 <= i < j < ops.len() && ops[i].is_allocate() && ops[j].is_allocate() && ops[i].addr()
            != 0 ==> ops[i].addr() != ops[j].addr()
}

/// The deallocation at `i` uses the address and descriptor of an earlier
/// allocation in `ops`.
pub open spec fn deallocate_matched_at(ops: Seq<TrackOp>, i: int) -> bool {
    exists|j: int|
        0 <= j < i && ops[j].is_allocate() && ops[j].addr() == ops[i].addr() && ops[j].desc()
            == ops[i].desc()
}

/// Every deallocation in `ops` uses the address and descriptor of a prior
/// successful allocation.
pub open spec fn deallocates_match(ops: Seq<TrackOp>) -> bool {
    forall|i: int|
        0 <= i < ops.len() && #[trigger] ops[i].is_deallocate() ==> ops[i].addr() != 0
            && deallocate_matched_at(ops, i)
}

/// No address is deallocated twice in `ops`.
pub open spec fn deallocates_are_distinct(ops: Seq<TrackOp>) -> bool {
    forall|i: int, j: int|
        0 <= i < j < ops.len() && ops[i].is_deallocate() && ops[j].is_deallocate() ==> ops[i].addr()
            != ops[j].addr()
}

/// Some call in `ops` deallocates the address `a`.
pub open spec fn has_deallocate_of(ops: Seq<TrackOp>, a: usize) -> bool {
    exists|j: int| 0 <= j < ops.len() && ops[j].is_deallocate() && ops[j].addr() == a
}

/// Every successful allocation in `ops` is deallocated somewhere in
/// `ops`.
pub open spec fn every_allocate_freed(ops: Seq<TrackOp>) -> bool {
    forall|i: int|
        0 <= i < ops.len() && ops[i].is_allocate() && #[trigger] ops[i].addr() != 0
            ==> has_deallocate_of(ops, ops[i].addr())
}

/// The addresses successfully allocated somewhere in `ops`.
pub open spec fn allocated_addrs(ops: Seq<TrackOp>) -> Set<usize> {
    Set::new(
        |a: usize|
            a != 0 && exists|i: int| 0 <= i < ops.len() && ops[i].is_allocate() && ops[i].addr() == a,
    )
}

/// The addresses deallocated somewhere in `ops`.
pub open spec fn deallocated_addrs(ops: Seq<TrackOp>) -> Set<usize> {
    Set::new(|a: usize| has_deallocate_of(ops, a))
}

/// How the address sets of a call sequence relate to those of its tail.
proof fn lemma_addr_sets_skip(ops: Seq<TrackOp>)
    requires
        ops.len() > 0,
    ensures
        ops[0].is_allocate() && ops[0].addr() != 0 ==> allocated_addrs(ops) =~= allocated_addrs(
            ops.skip(1),
        ).insert(ops[0].addr()),
        !(ops[0].is_allocate() && ops[0].addr() != 0) ==> allocated_addrs(ops) =~= allocated_addrs(
            ops.skip(1),
        ),
        ops[0].is_deallocate() ==> deallocated_addrs(ops) =~= deallocated_addrs(
            ops.skip(1),
        ).insert(ops[0].addr()),
        !ops[0].is_deallocate() ==> deallocated_addrs(ops) =~= deallocated_addrs(ops.skip(1)),
{
    let tail = ops.skip(1);
    assert forall|x: usize| allocated_addrs(ops).contains(x) implies (x != 0 && (
    (ops[0].is_allocate() && ops[0].addr() == x) || allocated_addrs(tail).contains(x))) by {
        let i = choose|i: int| 0 <= i < ops.len() && ops[i].is_allocate() && ops[i].addr() == x;
        if i > 0 {
            assert(tail[i - 1] == ops[i]);
            assert(allocated_addrs(tail).contains(x));
        }
    }
    assert forall|x: usize| allocated_addrs(tail).contains(x) implies allocated_addrs(
        ops,
    ).contains(x) by {
        let i = choose|i: int| 0 <= i < tail.len() && tail[i].is_allocate() && tail[i].addr() == x;
        assert(ops[i + 1] == tail[i]);
    }
    if ops[0].is_allocate() && ops[0].addr() != 0 {
        assert(allocated_addrs(ops).contains(ops[0].addr()));
    }
    assert forall|x: usize| deallocated_addrs(ops).contains(x) implies ((ops[0].is_deallocate()
        && ops[0].addr() == x) || deallocated_addrs(tail).contains(x)) by {
        let i = choose|i: int| 0 <= i < ops.len() && ops[i].is_deallocate() && ops[i].addr() == x;
        if i > 0 {
            assert(tail[i - 1] == ops[i]);
            assert(deallocated_addrs(tail).contains(x));
        }
    }
    assert forall|x: usize| deallocated_addrs(tail).contains(x) implies deallocated_addrs(
        ops,
    ).contains(x) by {
        let i = choose|i: int| 0 <= i < tail.len() && tail[i].is_deallocate() && tail[i].addr() == x;
        assert(ops[i + 1] == tail[i]);
    }
    if ops[0].is_deallocate() {
        assert(deallocated_addrs(ops).contains(ops[0].addr()));
    }
}

/// The induction behind the clean-run and leak laws, generalized to a run
/// that starts from an arbitrary ledger `m`: every deallocation is
/// matched by a prior allocation in `ops` or by an entry of `m`, and
/// every allocation is fresh, so no assertion fires, and the final ledger
/// holds exactly the starting and allocated addresses that were not
/// deallocated.
proof fn lemma_run_ops_from(m: Map<usize, Descriptor>, ops: Seq<TrackOp>)
    requires
        allocates_are_distinct(ops),
        deallocates_are_distinct(ops),
        forall|i: int|
            0 <= i < ops.len() && ops[i].is_allocate() && #[trigger] ops[i].addr() != 0
                ==> !m.dom().contains(ops[i].addr()),
        forall|i: int|
            0 <= i < ops.len() && #[trigger] ops[i].is_deallocate() ==> ops[i].addr() != 0 && (
            deallocate_matched_at(ops, i) || m.contains_pair(ops[i].addr(), ops[i].desc())),
    ensures
        run_ops(m, ops) is Some,
        run_ops(m, ops).unwrap().dom() =~= m.dom().union(allocated_addrs(ops)).difference(
            deallocated_addrs(ops),
        ),
    decreases ops.len(),
{
    if ops.len() == 0 {
        assert(allocated_addrs(ops) =~= Set::empty());
        assert(deallocated_addrs(ops) =~= Set::empty());
    } else {
        let tail = ops.skip(1);
        lemma_addr_sets_skip(ops);
        assert(forall|i: int| 0 <= i < tail.len() ==> tail[i] == ops[i + 1]);
        match ops[0] {
            TrackOp::Allocate { addr, desc } => {
                let m2 = alloc_record(m, addr, desc);
                assert forall|i: int|
                    0 <= i < tail.len() && #[trigger] tail[i].is_deallocate() implies tail[i].addr()
                    != 0 && (deallocate_matched_at(tail, i) || m2.contains_pair(
                    tail[i].addr(),
                    tail[i].desc(),
                )) by {
                    assert(ops[i + 1].is_deallocate());
                    if deallocate_matched_at(ops, i + 1) {
                        let j = choose|j: int|
                            0 <= j < i + 1 && ops[j].is_allocate() && ops[j].addr() == ops[i
                                + 1].addr() && ops[j].desc() == ops[i + 1].desc();
                        if j == 0 {
                            assert(m2.contains_pair(tail[i].addr(), tail[i].desc()));
                        } else {
                            assert(tail[j - 1] == ops[j]);
                            assert(deallocate_matched_at(tail, i));
                        }
                    }
                }
                lemma_run_ops_from(m2, tail);
            },
            TrackOp::Deallocate { addr, desc } => {
                assert(ops[0].is_deallocate());
                assert(!deallocate_matched_at(ops, 0));
                assert(m.contains_pair(addr, desc));
                let m2 = m.remove(addr);
                assert forall|i: int|
                    0 <= i < tail.len() && #[trigger] tail[i].is_deallocate() implies tail[i].addr()
                    != 0 && (deallocate_matched_at(tail, i) || m2.contains_pair(
                    tail[i].addr(),
                    tail[i].desc(),
                )) by {
                    assert(ops[i + 1].is_deallocate());
                    assert(ops[i + 1].addr() != ops[0].addr());
                    if deallocate_matched_at(ops, i + 1) {
                        let j = choose|j: int|
                            0 <= j < i + 1 && ops[j].is_allocate() && ops[j].addr() == ops[i
                                + 1].addr() && ops[j].desc() == ops[i + 1].desc();
                        assert(tail[j - 1] == ops[j]);
                        assert(deallocate_matched_at(tail, i));
                    }
                }
                lemma_run_ops_from(m2, tail);
                // the freed address cannot be allocated again in the tail,
                // since every allocation is fresh with respect to `m`
                assert(!allocated_addrs(tail).contains(addr)) by {
                    if allocated_addrs(tail).contains(addr) {
                        let i = choose|i: int|
                            0 <= i < tail.len() && tail[i].is_allocate() && tail[i].addr() == addr;
                        assert(ops[i + 1] == tail[i]);
                    }
                }
            },
        }
    }
}

/// For all sequences of calls through a tracking ledger in which every
/// deallocation uses the address and descriptor of a prior successful
/// allocation, no two successful allocations collide, and every address
/// is deallocated exactly once: no assertion fires, and the ledger ends
/// empty, so the teardown check passes as well.
pub proof fn lemma_balanced_run_is_clean(ops: Seq<TrackOp>)
    requires
        allocates_are_distinct(ops),
        deallocates_match(ops),
        deallocates_are_distinct(ops),
        every_allocate_freed(ops),
    ensures
        run_ops(Map::empty(), ops) == Some(Map::<usize, Descriptor>::empty()),
{
    let m = Map::<usize, Descriptor>::empty();
    lemma_run_ops_from(m, ops);
    let fin = run_ops(m, ops).unwrap();
    assert forall|x: usize| allocated_addrs(ops).contains(x) implies deallocated_addrs(
        ops,
    ).contains(x) by {
        let i = choose|i: int| 0 <= i < ops.len() && ops[i].is_allocate() && ops[i].addr() == x;
        assert(ops[i].addr() != 0);
        assert(has_deallocate_of(ops, ops[i].addr()));
    }
    assert(fin.dom() =~= Set::empty());
    assert(fin =~= Map::empty());
}

/// For all such sequences in which some successfully allocated address is
/// never deallocated: no per-call assertion fires, but that address is
/// still recorded at the end, so the ledger is not empty and the teardown
/// check of the last handle reports the leak.
pub proof fn lemma_unfreed_allocation_leaks(ops: Seq<TrackOp>, i: int)
    requires
        allocates_are_distinct(ops),
        deallocates_match(ops),
        deallocates_are_distinct(ops),
        0 <= i < ops.len(),
        ops[i].is_allocate(),
        ops[i].addr() != 0,
        !has_deallocate_of(ops, ops[i].addr()),
    ensures
        run_ops(Map::empty(), ops) is Some,
        run_ops(Map::empty(), ops).unwrap().dom().contains(ops[i].addr()),
        !run_ops(Map::empty(), ops).unwrap().is_empty(),
{
    let m = Map::<usize, Descriptor>::empty();
    lemma_run_ops_from(m, ops);
    let a = ops[i].addr();
    assert(allocated_addrs(ops).contains(a));
    assert(!deallocated_addrs(ops).contains(a));
    assert(run_ops(m, ops).unwrap().dom().contains(a));
}

/// Allocating at a fresh address and then deallocating it with the same
/// descriptor is accepted and restores the ledger exactly: an owning
/// handle that is created and then released frees once, with a matching
/// descriptor, and leaves no record behind.
pub proof fn lemma_record_then_check_roundtrip(
    m: Map<usize, Descriptor>,
    addr: usize,
    desc: Descriptor,
)
    requires
        addr != 0,
        !m.dom().contains(addr),
    ensures
        dealloc_check(alloc_record(m, addr, desc), addr, desc) == Ok::<
            Map<usize, Descriptor>,
            Violation,
        >(m),
{
    assert(m.insert(addr, desc).remove(addr) =~= m);
}

/// A recorded allocation that is never checked back in leaves the ledger
/// non-empty, whatever else it holds: an escaped handle whose address is
/// never freed is reported at teardown.
pub proof fn lemma_outstanding_record_is_leak(
    m: Map<usize, Descriptor>,
    addr: usize,
    desc: Descriptor,
)
    requires
        addr != 0,
    ensures
        !alloc_record(m, addr, desc).is_empty(),
{
    assert(alloc_record(m, addr, desc).dom().contains(addr));
}

} // verus!
