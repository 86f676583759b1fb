use gharial::BackingAlloc;
use gharial::Descriptor;
use gharial::MaybeAlloc;
use gharial::NeverAlloc;
use gharial::SystemAlloc;
use gharial::TestAlloc;
use gharial::Violation;

fn desc(size: usize, align: usize) -> Descriptor {
    Descriptor { size, align }
}

#[test]
fn balanced_calls_fire_no_assertion() {
    let mut ta = TestAlloc::from_inner(SystemAlloc::new());
    let d1 = desc(16, 8);
    let d2 = desc(3, 1);

    let a1 = ta.allocate(d1);
    let a2 = ta.allocate(d2);
    let a3 = ta.allocate(d1);
    assert!(a1 != 0 && a2 != 0 && a3 != 0);
    assert!(a1 != a2 && a1 != a3 && a2 != a3);

    assert!(ta.deallocate(a2, d2).is_ok());
    assert!(ta.deallocate(a1, d1).is_ok());
    assert!(ta.deallocate(a3, d1).is_ok());

    assert_eq!(ta.drop_handle(), Ok(()));
}

#[test]
fn unfreed_allocation_is_reported_at_teardown() {
    let mut ta = TestAlloc::from_inner(SystemAlloc::new());
    let d = desc(8, 8);

    let a1 = ta.allocate(d);
    let a2 = ta.allocate(d);
    assert!(a1 != 0 && a2 != 0);
    assert!(ta.deallocate(a1, d).is_ok());

    assert_eq!(ta.drop_handle(), Err(Violation::Leak));
}

#[test]
fn descriptor_mismatch_is_reported() {
    let mut ta = TestAlloc::from_inner(SystemAlloc::new());
    let a = ta.allocate(desc(16, 8));
    assert!(a != 0);

    assert_eq!(ta.deallocate(a, desc(16, 4)), Err(Violation::DescriptorMismatch));
    assert_eq!(ta.deallocate(a, desc(8, 8)), Err(Violation::DescriptorMismatch));

    // the mismatch leaves the record in place: the right descriptor
    // still frees it
    assert!(ta.deallocate(a, desc(16, 8)).is_ok());
    assert!(ta.drop_handle().is_ok());
}

#[test]
fn null_and_untracked_deallocates_are_reported() {
    let mut ta = TestAlloc::from_inner(SystemAlloc::new());
    let d = desc(4, 4);

    assert_eq!(ta.deallocate(0, d), Err(Violation::NullDeallocate));
    assert_eq!(ta.deallocate(12345, d), Err(Violation::UntrackedAddress));

    let a = ta.allocate(d);
    assert!(a != 0);
    assert!(ta.deallocate(a, d).is_ok());
    // a second deallocate of the same address is a double free
    assert_eq!(ta.deallocate(a, d), Err(Violation::UntrackedAddress));

    assert!(ta.drop_handle().is_ok());
}

#[test]
fn teardown_checks_only_the_last_handle() {
    let mut ta = TestAlloc::from_inner(SystemAlloc::new());
    let d = desc(32, 8);
    let a = ta.allocate(d);
    assert!(a != 0);

    // a second handle shares the ledger; releasing it while another
    // remains does not run the leak check
    ta.clone_handle();
    assert_eq!(ta.drop_handle(), Ok(()));

    // the last handle does, and the record is still outstanding
    assert_eq!(ta.drop_handle(), Err(Violation::Leak));
}

#[test]
fn teardown_after_cloning_is_clean_when_balanced() {
    let mut ta = TestAlloc::from_inner(SystemAlloc::new());
    let d = desc(1, 1);
    let a = ta.allocate(d);
    assert!(a != 0);

    ta.clone_handle();
    ta.clone_handle();
    assert!(ta.drop_handle().is_ok());
    assert!(ta.deallocate(a, d).is_ok());
    assert!(ta.drop_handle().is_ok());
    assert_eq!(ta.drop_handle(), Ok(()));
}

#[test]
fn default_allocators_start_clean() {
    let mut ta = TestAlloc::<SystemAlloc>::default();
    assert_eq!(ta.drop_handle(), Ok(()));

    let mut maybe = MaybeAlloc::<TestAlloc<SystemAlloc>>::default();
    assert_eq!(maybe.deallocate(5, desc(1, 1)), Err(Violation::UntrackedAddress));
    let mut inner = maybe.into_inner();
    assert_eq!(inner.drop_handle(), Ok(()));
}

#[test]
fn never_alloc_always_fails() {
    let mut never = NeverAlloc::default();
    assert_eq!(never.allocate(desc(0, 1)), 0);
    assert_eq!(never.allocate(desc(1, 1)), 0);
    assert_eq!(never.allocate(desc(4096, 64)), 0);
    assert_eq!(never.allocate(desc(usize::MAX, 1)), 0);
}

#[test]
fn never_alloc_rejects_every_deallocate() {
    let mut never = NeverAlloc::default();
    assert_eq!(never.deallocate(0, desc(1, 1)), Err(Violation::UnexpectedDeallocate));
    assert_eq!(never.deallocate(64, desc(1, 1)), Err(Violation::UnexpectedDeallocate));
}

#[test]
fn system_alloc_hands_out_fresh_addresses() {
    let mut sys = SystemAlloc::new();
    let a1 = sys.allocate(desc(8, 8));
    let a2 = sys.allocate(desc(0, 1));
    let a3 = sys.allocate(desc(8, 8));
    assert!(a1 != 0 && a2 != 0 && a3 != 0);
    assert!(a1 != a2 && a1 != a3 && a2 != a3);

    assert!(sys.deallocate(a2, desc(0, 1)).is_ok());
    assert_eq!(sys.deallocate(a2, desc(0, 1)), Err(Violation::UntrackedAddress));
    assert_eq!(sys.deallocate(0, desc(8, 8)), Err(Violation::NullDeallocate));
    assert_eq!(sys.deallocate(a1, desc(4, 8)), Err(Violation::DescriptorMismatch));
    assert!(sys.deallocate(a1, desc(8, 8)).is_ok());
    assert!(sys.deallocate(a3, desc(8, 8)).is_ok());
}

#[test]
fn maybe_alloc_rejects_null_deallocate() {
    let mut maybe = MaybeAlloc::from_inner(SystemAlloc::new());
    assert_eq!(maybe.deallocate(0, desc(1, 1)), Err(Violation::NullDeallocate));
}

#[test]
fn maybe_alloc_fails_about_one_in_sixteen() {
    let mut maybe = MaybeAlloc::from_inner(SystemAlloc::new());
    let d = desc(1, 1);
    let trials = 100_000u32;
    let mut failures = 0u32;
    let mut last = 0usize;
    for _ in 0..trials {
        let a = maybe.allocate(d);
        if a == 0 {
            failures += 1;
        } else {
            // a call that does not fail is the wrapped allocator's own
            // answer: a fresh address, beyond every earlier one
            assert!(a > last);
            last = a;
            assert!(maybe.deallocate(a, d).is_ok());
        }
    }
    // the expected count is trials / 16 = 6250; this window is about
    // fifteen standard deviations wide on each side
    assert!(failures > 5000, "failure rate far below 1/16: {failures}");
    assert!(failures < 7500, "failure rate far above 1/16: {failures}");
}

#[test]
fn maybe_alloc_wraps_the_tracking_allocator() {
    let mut maybe = MaybeAlloc::from_inner(TestAlloc::from_inner(SystemAlloc::new()));
    let d = desc(64, 16);

    // draw until an allocation succeeds; failures are synthetic and
    // leave no record behind
    let mut addr = 0usize;
    for _ in 0..1000 {
        addr = maybe.allocate(d);
        if addr != 0 {
            break;
        }
    }
    assert!(addr != 0);
    assert!(maybe.deallocate(addr, d).is_ok());

    let mut ta = maybe.into_inner();
    assert_eq!(ta.drop_handle(), Ok(()));
}

#[test]
fn nested_tracking_allocators_agree() {
    // a tracking allocator is itself a conforming backing allocator
    let mut outer = TestAlloc::from_inner(TestAlloc::from_inner(SystemAlloc::new()));
    let d = desc(8, 4);
    let a = outer.allocate(d);
    assert!(a != 0);
    assert!(outer.deallocate(a, d).is_ok());
    assert!(outer.drop_handle().is_ok());
}
