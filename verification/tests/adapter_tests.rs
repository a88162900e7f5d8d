use gpu_dispatch::adapter::{AdapterInfo, AdapterPolicy, SOFTWARE_RASTERIZER_VENDOR};

#[test]
fn standard_policy_excludes_the_software_rasteriser() {
    let policy = AdapterPolicy::standard();
    assert_eq!(SOFTWARE_RASTERIZER_VENDOR, 0x10005);
    assert!(!policy.admits(&AdapterInfo { vendor: 0x10005 }));
    assert!(policy.admits(&AdapterInfo { vendor: 0x10004 }));
    assert!(policy.admits(&AdapterInfo { vendor: 0x10de }));
    assert!(policy.admits(&AdapterInfo { vendor: 0 }));
}

#[test]
fn permissive_policy_admits_everything() {
    let policy = AdapterPolicy::permissive();
    assert!(policy.admits(&AdapterInfo { vendor: 0x10005 }));
    assert!(policy.admits(&AdapterInfo { vendor: u64::MAX }));
}

#[test]
fn policy_excludes_exactly_what_it_was_given() {
    let policy = AdapterPolicy::excluding(vec![3, 0x10005, 9]);
    assert!(!policy.admits(&AdapterInfo { vendor: 3 }));
    assert!(!policy.admits(&AdapterInfo { vendor: 0x10005 }));
    assert!(!policy.admits(&AdapterInfo { vendor: 9 }));
    assert!(policy.admits(&AdapterInfo { vendor: 4 }));
}
