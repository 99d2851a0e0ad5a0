//! Handle discipline and registry lookups.

use remoteauth::handles::HandleAllocator;
use remoteauth::platform::PlatformCore;
use remoteauth::registry::Registry;

#[test]
fn platform_handles_count_up_from_zero() {
    let mut alloc = HandleAllocator::new();
    assert_eq!(alloc.peek_next(), 0);
    let a = alloc.generate_platform_handle();
    let b = alloc.generate_platform_handle();
    let c = alloc.generate_platform_handle();
    assert_eq!((a, b, c), (0, 1, 2));
    assert_eq!(alloc.peek_next(), 3);
}

#[test]
fn response_handles_are_strictly_increasing_per_platform() {
    let mut reg = Registry::<u8>::new();
    let p = reg.create_platform();
    let mut issued = Vec::new();
    for _ in 0..5 {
        let call = reg
            .begin_send_request(p, 1, Vec::new(), 0u8)
            .expect("platform exists");
        issued.push(call.response_handle);
    }
    assert_eq!(issued, vec![0, 1, 2, 3, 4]);
    // the counter is per platform: a fresh platform starts over at 0
    let q = reg.create_platform();
    let call = reg
        .begin_send_request(q, 1, Vec::new(), 0u8)
        .expect("platform exists");
    assert_eq!(call.response_handle, 0);
}

#[test]
fn platform_handles_are_distinct_across_platforms() {
    let mut reg = Registry::<u8>::new();
    let mut handles = Vec::new();
    for _ in 0..4 {
        handles.push(reg.create_platform());
    }
    for i in 0..handles.len() {
        for j in 0..handles.len() {
            if i != j {
                assert_ne!(handles[i], handles[j]);
            }
        }
    }
    assert_eq!(reg.platform_handle_count(), 4);
}

#[test]
fn resolve_finds_only_registered_platforms() {
    let mut reg = Registry::<u8>::new();
    let h = reg.create_platform();
    assert!(reg.resolve(h).is_some());
    assert!(reg.resolve(h + 1).is_none());
    assert!(reg.resolve(-1).is_none());
    assert_eq!(reg.response_handle_count(h), Some(0));
    assert_eq!(reg.response_handle_count(h + 1), None);
}

#[test]
fn register_binds_a_platform_under_its_handle() {
    let mut reg = Registry::<u8>::new();
    let h = reg.create_platform();
    // re-register a platform carrying the same handle, as the construction
    // path does: the binding is simply replaced
    let fresh: PlatformCore<u8> = PlatformCore::new(h);
    reg.register(h, fresh);
    assert!(reg.resolve(h).is_some());
    assert_eq!(reg.response_handle_count(h), Some(0));
}
