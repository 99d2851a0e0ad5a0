//! One platform: a logical connection endpoint to the foreign runtime.
//!
//! A `send_request` operation is one round trip across the boundary: allocate
//! a fresh response handle, register a single-use completion channel in the
//! pending-request table, invoke the foreign transport fire-and-forget, then
//! suspend on the channel until a success or error callback resolves it. The
//! suspension and the channel belong to the unverified plumbing around this
//! crate; `PlatformCore` holds the table and the counter and makes every
//! decision: which handle a request gets, which channel a completion resolves,
//! and that each pending entry is consumed at most once.
//!
//! The channel type is the type parameter `T`: the core moves channels between
//! the caller and the completion path without ever looking inside one.

use crate::handle_map::HandleMap;
use crate::handles::{lemma_issued_pairwise_distinct, lemma_issued_strictly_increasing, HandleAllocator};
use vstd::prelude::*;

verus! {

/// Why a `send_request` call failed.
#[derive(Clone, Copy, Debug, PartialEq, Eq, Structural)]
pub enum PlatformError {
    /// The outbound invocation of the foreign transport could not be issued;
    /// surfaced synchronously, before the caller ever suspends.
    InvocationFailure,
    /// The completion channel closed without delivering a value: an error
    /// callback consumed the pending entry, or the entry was abandoned.
    AwaitingFailure,
}

/// Native-facing capability of a platform.
pub trait Platform {
    /// Send a binary message to the remote with the given connection id and
    /// return the response.
    fn send_request(&mut self, connection_id: i32, request: &[u8]) -> Result<
        Vec<u8>,
        PlatformError,
    >;
}

/// The four values passed, fire-and-forget, to the foreign transport method.
/// The foreign side echoes `response_handle` and `platform_handle` back in the
/// eventual completion callback, which is the only correlation there is.
pub struct OutboundCall {
    pub connection_id: i32,
    pub request: Vec<u8>,
    pub response_handle: i64,
    pub platform_handle: i64,
}

/// What an inbound completion resolves to. `T` is the sending half of the
/// single-use completion channel that the matching `send_request` registered.
#[derive(Debug)]
pub enum CompletionOutcome<T> {
    /// A success callback consumed the pending entry: deliver `response` on
    /// `tx` to resume the matching caller.
    Deliver { tx: T, response: Vec<u8> },
    /// An error callback consumed the pending entry: drop `tx` without
    /// sending, so the matching caller resumes with an awaiting failure.
    Close { tx: T, error_code: i32 },
    /// No entry was pending for the handle (duplicate completion, or delivery
    /// after abandonment). Nothing changed; a diagnostic, not a fault.
    UnknownHandle,
}

/// The verified state of one platform: its own handle, the response-handle
/// counter, and the pending-request table.
pub struct PlatformCore<T> {
    platform_handle: i64,
    response_handles: HandleAllocator,
    pending: HandleMap<T>,
}

impl<T> PlatformCore<T> {
    /// The handle under which this platform is registered.
    pub closed spec fn platform_handle(&self) -> i64 {
        self.platform_handle
    }

    /// The pending-request table: each outstanding response handle, bound to
    /// the channel its caller awaits on.
    pub closed spec fn pending(&self) -> Map<i64, T> {
        self.pending@
    }

    /// The response handle the next `send_request` will be assigned.
    pub closed spec fn next_response(&self) -> i64 {
        self.response_handles.next()
    }

    /// Every response handle this platform has issued, in order of issue.
    pub closed spec fn issued_response_handles(&self) -> Seq<i64> {
        self.response_handles.issued()
    }

    /// The counter is sound and every pending handle was issued by it, so the
    /// next handle is always fresh.
    pub closed spec fn wf(&self) -> bool {
        &&& self.response_handles.wf()
        &&& self.pending.wf()
        &&& forall|h: i64|
            #[trigger] self.pending@.dom().contains(h) ==> 0 <= h < self.response_handles.next()
    }

    pub fn new(platform_handle: i64) -> (p: PlatformCore<T>)
        ensures
            p.wf(),
            p.platform_handle() == platform_handle,
            p.pending() == Map::<i64, T>::empty(),
            p.next_response() == 0,
            p.issued_response_handles() == Seq::<i64>::empty(),
    {
        PlatformCore {
            platform_handle,
            response_handles: HandleAllocator::new(),
            pending: HandleMap::new(),
        }
    }

    /// The number of response handles this platform has issued, which is also
    /// the value the next one will have.
    pub fn response_handle_count(&self) -> (n: i64)
        ensures
            n == self.next_response(),
    {
        self.response_handles.peek_next()
    }

    /// The registration half of `send_request`: allocates a fresh response
    /// handle, binds the caller's completion channel `tx` to it in the
    /// pending-request table, and returns the four values to pass to the
    /// foreign transport. The caller then suspends on its channel; no lock is
    /// held across that suspension.
    pub fn begin_send_request(&mut self, connection_id: i32, request: Vec<u8>, tx: T) -> (call:
        OutboundCall)
        requires
            old(self).wf(),
            old(self).next_response() < i64::MAX,
        ensures
            final(self).wf(),
            call.platform_handle == old(self).platform_handle(),
            call.connection_id == connection_id,
            call.request == request,
            call.response_handle == old(self).next_response(),
            !old(self).pending().dom().contains(call.response_handle),
            final(self).platform_handle() == old(self).platform_handle(),
            final(self).next_response() == old(self).next_response() + 1,
            final(self).issued_response_handles() == old(self).issued_response_handles().push(
                call.response_handle,
            ),
            final(self).pending() == old(self).pending().insert(call.response_handle, tx),
    {
        let response_handle = self.response_handles.next_response_handle();
        self.pending.insert(response_handle, tx);
        proof {
            assert forall|h: i64| #[trigger]
                self.pending@.dom().contains(h) implies 0 <= h < self.response_handles.next() by {
                if h != response_handle {
                    assert(old(self).pending@.dom().contains(h));
                }
            }
        }
        OutboundCall { connection_id, request, response_handle, platform_handle: self.platform_handle }
    }

    /// Cleanup when the outbound foreign invocation itself could not be
    /// issued: the entry just registered is removed, so no table entry
    /// lingers, and the failure is surfaced synchronously. Returns the
    /// caller's channel so the plumbing can discard it, and the error the
    /// caller reports.
    pub fn fail_invocation(&mut self, response_handle: i64) -> (r: (Option<T>, PlatformError))
        requires
            old(self).wf(),
        ensures
            final(self).wf(),
            final(self).platform_handle() == old(self).platform_handle(),
            final(self).next_response() == old(self).next_response(),
            final(self).issued_response_handles() == old(self).issued_response_handles(),
            final(self).pending() == old(self).pending().remove(response_handle),
            r.1 == PlatformError::InvocationFailure,
            (match r.0 {
                Some(tx) => old(self).pending().dom().contains(response_handle) && tx == old(
                    self,
                ).pending()[response_handle],
                None => !old(self).pending().dom().contains(response_handle),
            }),
    {
        let tx = self.pending.remove(response_handle);
        proof {
            assert forall|h: i64| #[trigger]
                self.pending@.dom().contains(h) implies 0 <= h < self.response_handles.next() by {
                assert(old(self).pending@.dom().contains(h));
            }
        }
        (tx, PlatformError::InvocationFailure)
    }

    /// A success callback for `response_handle`. If an entry is pending, it is
    /// consumed — removed from the table, its channel returned together with
    /// the response bytes to deliver on it — and the matching caller resumes
    /// with exactly those bytes. If not, nothing changes and the completion is
    /// reported as an unknown handle, a diagnostic only.
    pub fn on_send_request_success(&mut self, response: Vec<u8>, response_handle: i64) -> (outcome:
        CompletionOutcome<T>)
        requires
            old(self).wf(),
        ensures
            final(self).wf(),
            final(self).platform_handle() == old(self).platform_handle(),
            final(self).next_response() == old(self).next_response(),
            final(self).issued_response_handles() == old(self).issued_response_handles(),
            (match outcome {
                CompletionOutcome::Deliver { tx, response: delivered } => {
                    &&& old(self).pending().dom().contains(response_handle)
                    &&& tx == old(self).pending()[response_handle]
                    &&& delivered == response
                    &&& final(self).pending() == old(self).pending().remove(response_handle)
                },
                CompletionOutcome::UnknownHandle => {
                    &&& !old(self).pending().dom().contains(response_handle)
                    &&& final(self).pending() == old(self).pending()
                },
                CompletionOutcome::Close { .. } => false,
            }),
    {
        let removed = self.pending.remove(response_handle);
        proof {
            assert forall|h: i64| #[trigger]
                self.pending@.dom().contains(h) implies 0 <= h < self.response_handles.next() by {
                assert(old(self).pending@.dom().contains(h));
            }
        }
        match removed {
            Some(tx) => CompletionOutcome::Deliver { tx, response },
            None => {
                proof {
                    assert(old(self).pending().remove(response_handle) =~= old(self).pending());
                }
                CompletionOutcome::UnknownHandle
            },
        }
    }

    /// An error callback for `response_handle`. If an entry is pending, it is
    /// consumed and its channel is returned to be dropped without a value, so
    /// the matching caller resumes with an awaiting failure. If not, nothing
    /// changes and the completion is reported as an unknown handle.
    pub fn on_send_request_error(&mut self, error_code: i32, response_handle: i64) -> (outcome:
        CompletionOutcome<T>)
        requires
            old(self).wf(),
        ensures
            final(self).wf(),
            final(self).platform_handle() == old(self).platform_handle(),
            final(self).next_response() == old(self).next_response(),
            final(self).issued_response_handles() == old(self).issued_response_handles(),
            (match outcome {
                CompletionOutcome::Close { tx, error_code: reported } => {
                    &&& old(self).pending().dom().contains(response_handle)
                    &&& tx == old(self).pending()[response_handle]
                    &&& reported == error_code
                    &&& final(self).pending() == old(self).pending().remove(response_handle)
                },
                CompletionOutcome::UnknownHandle => {
                    &&& !old(self).pending().dom().contains(response_handle)
                    &&& final(self).pending() == old(self).pending()
                },
                CompletionOutcome::Deliver { .. } => false,
            }),
    {
        let removed = self.pending.remove(response_handle);
        proof {
            assert forall|h: i64| #[trigger]
                self.pending@.dom().contains(h) implies 0 <= h < self.response_handles.next() by {
                assert(old(self).pending@.dom().contains(h));
            }
        }
        match removed {
            Some(tx) => CompletionOutcome::Close { tx, error_code },
            None => {
                proof {
                    assert(old(self).pending().remove(response_handle) =~= old(self).pending());
                }
                CompletionOutcome::UnknownHandle
            },
        }
    }
}

/// What a suspended `send_request` resolves to once its completion channel
/// settles: the delivered bytes, or an awaiting failure if the channel closed
/// without a value.
pub open spec fn resolve_await_spec(received: Option<Vec<u8>>) -> Result<Vec<u8>, PlatformError> {
    match received {
        Some(bytes) => Ok(bytes),
        None => Err(PlatformError::AwaitingFailure),
    }
}

/// The resumption half of `send_request`: turns what the completion channel
/// yielded into the caller's result.
pub fn resolve_await(received: Option<Vec<u8>>) -> (r: Result<Vec<u8>, PlatformError>)
    ensures
        r == resolve_await_spec(received),
{
    match received {
        Some(bytes) => Ok(bytes),
        None => Err(PlatformError::AwaitingFailure),
    }
}

/// Law: the response handles one platform issues are strictly increasing, in
/// order of issue, and therefore pairwise distinct.
pub proof fn lemma_response_handles_strictly_increasing<T>(p: &PlatformCore<T>, i: int, j: int)
    requires
        p.wf(),
        0 <= i < j < p.issued_response_handles().len(),
    ensures
        p.issued_response_handles()[i] < p.issued_response_handles()[j],
        p.issued_response_handles()[i] != p.issued_response_handles()[j],
{
    lemma_issued_strictly_increasing(&p.response_handles, i, j);
    lemma_issued_pairwise_distinct(&p.response_handles, i, j);
}

/// Law: a success completion for a pending response handle resolves the
/// matching `send_request` call with exactly the delivered bytes — the
/// consumed entry is the one that call registered, so the bytes reach its
/// channel and no other — and consuming the entry makes the delivery final.
pub proof fn lemma_success_resolves<T>(pending: Map<i64, T>, h: i64, bytes: Vec<u8>)
    requires
        pending.dom().contains(h),
    ensures
        resolve_await_spec(Some(bytes)) == Ok::<Vec<u8>, PlatformError>(bytes),
        !pending.remove(h).dom().contains(h),
{
}

/// Law: an error completion for a pending response handle resolves the
/// matching `send_request` call with an awaiting failure — its channel closes
/// without a value — rather than leaving it suspended.
pub proof fn lemma_error_resolves<T>(pending: Map<i64, T>, h: i64)
    requires
        pending.dom().contains(h),
    ensures
        resolve_await_spec(None) == Err::<Vec<u8>, PlatformError>(PlatformError::AwaitingFailure),
        !pending.remove(h).dom().contains(h),
{
}

/// Law: completions are final and mutually exclusive per response handle.
/// After the first completion for `h` consumes its entry, no entry for `h`
/// remains, so by the completion contracts a second completion — success or
/// error — finds no entry, changes nothing, and no caller is affected.
pub proof fn lemma_second_completion_no_effect<T>(pending: Map<i64, T>, h: i64)
    ensures
        !pending.remove(h).dom().contains(h),
{
}

/// Law: requests on one platform are isolated from each other. Registering or
/// consuming the entry for handle `h` neither adds, removes, nor rebinds the
/// entry of any other handle `k`, so a concurrent caller can only ever receive
/// the completion delivered on its own channel.
pub proof fn lemma_requests_isolated<T>(pending: Map<i64, T>, h: i64, k: i64, tx: T)
    requires
        k != h,
    ensures
        pending.remove(h).dom().contains(k) == pending.dom().contains(k),
        pending.dom().contains(k) ==> pending.remove(h)[k] == pending[k],
        pending.insert(h, tx).dom().contains(k) == pending.dom().contains(k),
        pending.dom().contains(k) ==> pending.insert(h, tx)[k] == pending[k],
{
}

} // verus!
