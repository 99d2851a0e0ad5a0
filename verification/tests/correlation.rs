//! End-to-end scenarios against the correlation engine, with a plain integer
//! standing in for the completion-channel sender.

use remoteauth::platform::{resolve_await, CompletionOutcome, PlatformError};
use remoteauth::registry::Registry;

/// Creates `n` platforms and returns the registry; handles are 0..n-1.
fn registry_with_platforms(n: i64) -> Registry<u32> {
    let mut reg = Registry::<u32>::new();
    for expected in 0..n {
        let h = reg.create_platform();
        assert_eq!(h, expected);
    }
    reg
}

#[test]
fn success_completion_resolves_with_exact_bytes() {
    // Platform with handle 7 sends on connection 3; the allocator assigns
    // response handle 0; a success callback with b"pong" arrives.
    let mut reg = registry_with_platforms(8);
    let call = reg
        .begin_send_request(7, 3, b"ping".to_vec(), 11u32)
        .expect("platform 7 exists");
    assert_eq!(call.platform_handle, 7);
    assert_eq!(call.connection_id, 3);
    assert_eq!(call.request, b"ping".to_vec());
    assert_eq!(call.response_handle, 0);

    let outcome = reg
        .on_send_request_success(b"pong".to_vec(), 7, 0)
        .expect("platform 7 exists");
    match outcome {
        CompletionOutcome::Deliver { tx, response } => {
            assert_eq!(tx, 11u32);
            assert_eq!(resolve_await(Some(response)), Ok(b"pong".to_vec()));
        }
        _ => panic!("a pending success completion must deliver"),
    }
}

#[test]
fn error_completion_resolves_with_awaiting_failure() {
    // Same setup, but an error callback with code 42 arrives instead.
    let mut reg = registry_with_platforms(8);
    let call = reg
        .begin_send_request(7, 3, b"ping".to_vec(), 11u32)
        .expect("platform 7 exists");
    assert_eq!(call.response_handle, 0);

    let outcome = reg
        .on_send_request_error(42, 7, 0)
        .expect("platform 7 exists");
    match outcome {
        CompletionOutcome::Close { tx, error_code } => {
            assert_eq!(tx, 11u32);
            assert_eq!(error_code, 42);
            // the channel is dropped without a value; the caller resumes empty-handed
            assert_eq!(
                resolve_await(None),
                Err(PlatformError::AwaitingFailure)
            );
        }
        _ => panic!("a pending error completion must close the channel"),
    }
}

#[test]
fn unknown_platform_is_a_boundary_fault() {
    // A completion for platform handle 999, never registered, is a fault
    // reported back across the boundary; no pending call is touched.
    let mut reg = registry_with_platforms(1);
    let call = reg
        .begin_send_request(0, 5, b"keep".to_vec(), 3u32)
        .expect("platform 0 exists");

    let fault = reg
        .on_send_request_success(b"stray".to_vec(), 999, 0)
        .expect_err("platform 999 was never registered");
    assert_eq!(fault.platform_handle, 999);
    let fault = reg
        .on_send_request_error(1, 999, 0)
        .expect_err("platform 999 was never registered");
    assert_eq!(fault.platform_handle, 999);

    // the caller on platform 0 is unaffected and still completes normally
    let outcome = reg
        .on_send_request_success(b"late".to_vec(), 0, call.response_handle)
        .expect("platform 0 exists");
    match outcome {
        CompletionOutcome::Deliver { tx, response } => {
            assert_eq!(tx, 3u32);
            assert_eq!(response, b"late".to_vec());
        }
        _ => panic!("the entry for platform 0 must still be pending"),
    }
}

#[test]
fn second_completion_is_a_diagnostic_only() {
    let mut reg = registry_with_platforms(1);
    let call = reg
        .begin_send_request(0, 1, b"once".to_vec(), 9u32)
        .expect("platform 0 exists");
    let first = reg
        .on_send_request_success(b"value".to_vec(), 0, call.response_handle)
        .expect("platform 0 exists");
    assert!(matches!(first, CompletionOutcome::Deliver { .. }));

    // duplicate success: no entry remains, nothing happens
    let second = reg
        .on_send_request_success(b"value".to_vec(), 0, call.response_handle)
        .expect("platform 0 exists");
    assert!(matches!(second, CompletionOutcome::UnknownHandle));

    // late error for the same handle: same diagnostic, no caller affected
    let third = reg
        .on_send_request_error(13, 0, call.response_handle)
        .expect("platform 0 exists");
    assert!(matches!(third, CompletionOutcome::UnknownHandle));
}

#[test]
fn interleaved_requests_each_receive_their_own_completion() {
    let mut reg = registry_with_platforms(1);
    let first = reg
        .begin_send_request(0, 1, b"a".to_vec(), 100u32)
        .expect("platform 0 exists");
    let second = reg
        .begin_send_request(0, 1, b"b".to_vec(), 200u32)
        .expect("platform 0 exists");
    assert_ne!(first.response_handle, second.response_handle);

    // completions arrive out of issue order; each finds only its own channel
    let outcome = reg
        .on_send_request_success(b"for b".to_vec(), 0, second.response_handle)
        .expect("platform 0 exists");
    match outcome {
        CompletionOutcome::Deliver { tx, response } => {
            assert_eq!(tx, 200u32);
            assert_eq!(response, b"for b".to_vec());
        }
        _ => panic!("second request must still be pending"),
    }
    let outcome = reg
        .on_send_request_error(7, 0, first.response_handle)
        .expect("platform 0 exists");
    match outcome {
        CompletionOutcome::Close { tx, error_code } => {
            assert_eq!(tx, 100u32);
            assert_eq!(error_code, 7);
        }
        _ => panic!("first request must still be pending"),
    }
}

#[test]
fn invocation_failure_cleans_the_table() {
    let mut reg = registry_with_platforms(1);
    let call = reg
        .begin_send_request(0, 2, b"never sent".to_vec(), 50u32)
        .expect("platform 0 exists");

    // the foreign invocation could not be issued: the entry must not linger
    let (tx, err) = reg
        .fail_invocation(0, call.response_handle)
        .expect("platform 0 exists");
    assert_eq!(tx, Some(50u32));
    assert_eq!(err, PlatformError::InvocationFailure);

    // a late completion for the cleaned-up handle is a diagnostic only
    let late = reg
        .on_send_request_success(b"late".to_vec(), 0, call.response_handle)
        .expect("platform 0 exists");
    assert!(matches!(late, CompletionOutcome::UnknownHandle));

    // cleaning up an entry that never existed reports no channel
    let (tx, err) = reg.fail_invocation(0, 123).expect("platform 0 exists");
    assert_eq!(tx, None);
    assert_eq!(err, PlatformError::InvocationFailure);

    // but an unknown platform is still a fault
    let fault = reg.fail_invocation(5, 0).expect_err("platform 5 does not exist");
    assert_eq!(fault.platform_handle, 5);
}
