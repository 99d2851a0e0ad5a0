//! The platform registry and the inbound-callback dispatch.
//!
//! The registry owns every platform, keyed by platform handle, together with
//! the process-wide allocator those handles come from. The foreign runtime
//! addresses a completion callback by platform handle alone; dispatch resolves
//! the handle here and delegates to that platform's completion handling. A
//! handle the registry has never issued is a boundary fault, reported back to
//! the foreign side, since no native caller can be identified to fail.

use crate::handle_map::HandleMap;
use crate::handles::{lemma_issued_pairwise_distinct, HandleAllocator};
use crate::platform::{CompletionOutcome, OutboundCall, PlatformCore, PlatformError};
use vstd::prelude::*;

verus! {

/// A completion arrived for a platform handle this registry never issued: the
/// foreign side referenced a connection this core never created. Reported
/// across the boundary, not to any native caller.
#[derive(Clone, Copy, Debug, PartialEq, Eq, Structural)]
pub struct BadHandleFault {
    pub platform_handle: i64,
}

/// Owns every platform of the process, keyed by the handles its allocator
/// issued.
pub struct Registry<T> {
    allocator: HandleAllocator,
    platforms: HandleMap<PlatformCore<T>>,
}

impl<T> Registry<T> {
    /// The registered platforms, by platform handle.
    pub closed spec fn platforms(&self) -> Map<i64, PlatformCore<T>> {
        self.platforms@
    }

    /// Every platform handle issued so far, in order of issue.
    pub closed spec fn platform_handles_issued(&self) -> Seq<i64> {
        self.allocator.issued()
    }

    /// The handle the next platform will be assigned.
    pub closed spec fn next_platform_handle(&self) -> i64 {
        self.allocator.next()
    }

    /// The allocator is sound, every registered handle was issued by it, and
    /// every platform is well-formed and registered under its own handle.
    pub closed spec fn wf(&self) -> bool {
        &&& self.allocator.wf()
        &&& self.platforms.wf()
        &&& forall|h: i64| #[trigger] self.platforms@.dom().contains(h) ==> {
            &&& 0 <= h < self.allocator.next()
            &&& self.platforms@[h].wf()
            &&& self.platforms@[h].platform_handle() == h
        }
    }

    pub fn new() -> (reg: Registry<T>)
        ensures
            reg.wf(),
            reg.platforms() == Map::<i64, PlatformCore<T>>::empty(),
            reg.platform_handles_issued() == Seq::<i64>::empty(),
            reg.next_platform_handle() == 0,
    {
        Registry { allocator: HandleAllocator::new(), platforms: HandleMap::new() }
    }

    /// The number of platform handles issued so far, which is also the value
    /// the next one will have.
    pub fn platform_handle_count(&self) -> (n: i64)
        ensures
            n == self.next_platform_handle(),
    {
        self.allocator.peek_next()
    }

    /// Creates a platform: allocates a fresh platform handle, constructs the
    /// platform under it, and registers it. The fresh handle was never
    /// registered before, so nothing is overwritten.
    pub fn create_platform(&mut self) -> (h: i64)
        requires
            old(self).wf(),
            old(self).next_platform_handle() < i64::MAX,
        ensures
            final(self).wf(),
            h == old(self).next_platform_handle(),
            !old(self).platforms().dom().contains(h),
            final(self).next_platform_handle() == old(self).next_platform_handle() + 1,
            final(self).platform_handles_issued() == old(self).platform_handles_issued().push(h),
            final(self).platforms() == old(self).platforms().insert(
                h,
                final(self).platforms()[h],
            ),
            ({
                let p = final(self).platforms()[h];
                &&& p.platform_handle() == h
                &&& p.pending() == Map::<i64, T>::empty()
                &&& p.next_response() == 0
                &&& p.issued_response_handles() == Seq::<i64>::empty()
            }),
    {
        let h = self.allocator.generate_platform_handle();
        proof {
            if old(self).platforms@.dom().contains(h) {
                assert(h < old(self).next_platform_handle());
            }
        }
        let core = PlatformCore::new(h);
        self.platforms.insert(h, core);
        proof {
            assert forall|k: i64| #[trigger] self.platforms@.dom().contains(k) implies {
                &&& 0 <= k < self.allocator.next()
                &&& self.platforms@[k].wf()
                &&& self.platforms@[k].platform_handle() == k
            } by {
                if k != h {
                    assert(old(self).platforms@.dom().contains(k));
                }
            }
        }
        h
    }

    /// Registers a platform under its own handle. Handles come from the
    /// allocator and are never reused, so registration does not overwrite in
    /// practice; if the same handle were registered twice, the later platform
    /// would replace the earlier, as inserting into a hash map would.
    pub fn register(&mut self, platform_handle: i64, platform: PlatformCore<T>)
        requires
            old(self).wf(),
            platform.wf(),
            platform.platform_handle() == platform_handle,
            0 <= platform_handle < old(self).next_platform_handle(),
        ensures
            final(self).wf(),
            final(self).platforms() == old(self).platforms().insert(platform_handle, platform),
            final(self).next_platform_handle() == old(self).next_platform_handle(),
            final(self).platform_handles_issued() == old(self).platform_handles_issued(),
    {
        self.platforms.insert(platform_handle, platform);
        proof {
            assert forall|k: i64| #[trigger] self.platforms@.dom().contains(k) implies {
                &&& 0 <= k < self.allocator.next()
                &&& self.platforms@[k].wf()
                &&& self.platforms@[k].platform_handle() == k
            } by {
                if k != platform_handle {
                    assert(old(self).platforms@.dom().contains(k));
                }
            }
        }
    }

    /// Looks a platform up by handle, as the inbound dispatch path does.
    /// Returns nothing for a handle this registry does not know.
    pub fn resolve(&self, platform_handle: i64) -> (r: Option<&PlatformCore<T>>)
        requires
            self.wf(),
        ensures
            (match r {
                Some(p) => self.platforms().dom().contains(platform_handle) && *p
                    == self.platforms()[platform_handle],
                None => !self.platforms().dom().contains(platform_handle),
            }),
    {
        self.platforms.get(platform_handle)
    }

    /// The number of response handles the addressed platform has issued, or
    /// nothing if the handle is unknown.
    pub fn response_handle_count(&self, platform_handle: i64) -> (r: Option<i64>)
        requires
            self.wf(),
        ensures
            (match r {
                Some(n) => self.platforms().dom().contains(platform_handle) && n
                    == self.platforms()[platform_handle].next_response(),
                None => !self.platforms().dom().contains(platform_handle),
            }),
    {
        match self.platforms.get(platform_handle) {
            Some(core) => Some(core.response_handle_count()),
            None => None,
        }
    }

    /// The native send path: delegates to the addressed platform's
    /// `begin_send_request`, registering the caller's completion channel under
    /// a fresh response handle and returning the values to pass to the foreign
    /// transport. Fails on a handle that names no platform.
    pub fn begin_send_request(
        &mut self,
        platform_handle: i64,
        connection_id: i32,
        request: Vec<u8>,
        tx: T,
    ) -> (r: Result<OutboundCall, BadHandleFault>)
        requires
            old(self).wf(),
            old(self).platforms().dom().contains(platform_handle) ==> old(self).platforms()[
                platform_handle].next_response() < i64::MAX,
        ensures
            final(self).wf(),
            final(self).next_platform_handle() == old(self).next_platform_handle(),
            final(self).platform_handles_issued() == old(self).platform_handles_issued(),
            (match r {
                Err(fault) => {
                    &&& !old(self).platforms().dom().contains(platform_handle)
                    &&& fault.platform_handle == platform_handle
                    &&& final(self).platforms() == old(self).platforms()
                },
                Ok(call) => {
                    &&& old(self).platforms().dom().contains(platform_handle)
                    &&& final(self).platforms().dom() == old(self).platforms().dom()
                    &&& (forall|k: i64|
                        k != platform_handle && #[trigger] old(self).platforms().dom().contains(k)
                            ==> final(self).platforms()[k] == old(self).platforms()[k])
                    &&& ({
                        let p_old = old(self).platforms()[platform_handle];
                        let p_new = final(self).platforms()[platform_handle];
                        &&& call.platform_handle == platform_handle
                        &&& call.connection_id == connection_id
                        &&& call.request == request
                        &&& call.response_handle == p_old.next_response()
                        &&& !p_old.pending().dom().contains(call.response_handle)
                        &&& p_new.platform_handle() == platform_handle
                        &&& p_new.next_response() == p_old.next_response() + 1
                        &&& p_new.issued_response_handles() == p_old.issued_response_handles().push(
                            call.response_handle,
                        )
                        &&& p_new.pending() == p_old.pending().insert(call.response_handle, tx)
                    })
                },
            }),
    {
        match self.platforms.remove(platform_handle) {
            None => {
                proof {
                    assert(self.platforms@ =~= old(self).platforms@);
                    self.lemma_wf_preserved(old(self));
                }
                Err(BadHandleFault { platform_handle })
            },
            Some(mut core) => {
                proof {
                    assert(old(self).platforms@.dom().contains(platform_handle));
                }
                let call = core.begin_send_request(connection_id, request, tx);
                let ghost core_after = core;
                self.platforms.insert(platform_handle, core);
                proof {
                    self.lemma_reinserted(old(self), platform_handle, core_after);
                }
                Ok(call)
            },
        }
    }

    /// Cleanup of the native send path when the outbound foreign invocation
    /// could not be issued: the entry just registered is removed so it does
    /// not linger, the caller's channel is handed back to be discarded, and
    /// the caller reports the invocation failure synchronously.
    pub fn fail_invocation(&mut self, platform_handle: i64, response_handle: i64) -> (r: Result<
        (Option<T>, PlatformError),
        BadHandleFault,
    >)
        requires
            old(self).wf(),
        ensures
            final(self).wf(),
            final(self).next_platform_handle() == old(self).next_platform_handle(),
            final(self).platform_handles_issued() == old(self).platform_handles_issued(),
            (match r {
                Err(fault) => {
                    &&& !old(self).platforms().dom().contains(platform_handle)
                    &&& fault.platform_handle == platform_handle
                    &&& final(self).platforms() == old(self).platforms()
                },
                Ok(pair) => {
                    &&& old(self).platforms().dom().contains(platform_handle)
                    &&& final(self).platforms().dom() == old(self).platforms().dom()
                    &&& (forall|k: i64|
                        k != platform_handle && #[trigger] old(self).platforms().dom().contains(k)
                            ==> final(self).platforms()[k] == old(self).platforms()[k])
                    &&& pair.1 == PlatformError::InvocationFailure
                    &&& ({
                        let p_old = old(self).platforms()[platform_handle];
                        let p_new = final(self).platforms()[platform_handle];
                        &&& p_new.platform_handle() == platform_handle
                        &&& p_new.next_response() == p_old.next_response()
                        &&& p_new.issued_response_handles() == p_old.issued_response_handles()
                        &&& p_new.pending() == p_old.pending().remove(response_handle)
                        &&& (match pair.0 {
                            Some(tx) => p_old.pending().dom().contains(response_handle) && tx
                                == p_old.pending()[response_handle],
                            None => !p_old.pending().dom().contains(response_handle),
                        })
                    })
                },
            }),
    {
        match self.platforms.remove(platform_handle) {
            None => {
                proof {
                    assert(self.platforms@ =~= old(self).platforms@);
                    self.lemma_wf_preserved(old(self));
                }
                Err(BadHandleFault { platform_handle })
            },
            Some(mut core) => {
                proof {
                    assert(old(self).platforms@.dom().contains(platform_handle));
                }
                let pair = core.fail_invocation(response_handle);
                let ghost core_after = core;
                self.platforms.insert(platform_handle, core);
                proof {
                    self.lemma_reinserted(old(self), platform_handle, core_after);
                }
                Ok(pair)
            },
        }
    }

    /// The inbound success entry point: resolves the platform handle and
    /// delegates the completion to that platform. An unknown platform handle
    /// is a boundary fault reported back to the foreign runtime; no native
    /// caller is affected.
    pub fn on_send_request_success(
        &mut self,
        response: Vec<u8>,
        platform_handle: i64,
        response_handle: i64,
    ) -> (r: Result<CompletionOutcome<T>, BadHandleFault>)
        requires
            old(self).wf(),
        ensures
            final(self).wf(),
            final(self).next_platform_handle() == old(self).next_platform_handle(),
            final(self).platform_handles_issued() == old(self).platform_handles_issued(),
            (match r {
                Err(fault) => {
                    &&& !old(self).platforms().dom().contains(platform_handle)
                    &&& fault.platform_handle == platform_handle
                    &&& final(self).platforms() == old(self).platforms()
                },
                Ok(outcome) => {
                    &&& old(self).platforms().dom().contains(platform_handle)
                    &&& final(self).platforms().dom() == old(self).platforms().dom()
                    &&& (forall|k: i64|
                        k != platform_handle && #[trigger] old(self).platforms().dom().contains(k)
                            ==> final(self).platforms()[k] == old(self).platforms()[k])
                    &&& ({
                        let p_old = old(self).platforms()[platform_handle];
                        let p_new = final(self).platforms()[platform_handle];
                        &&& p_new.platform_handle() == platform_handle
                        &&& p_new.next_response() == p_old.next_response()
                        &&& p_new.issued_response_handles() == p_old.issued_response_handles()
                        &&& (match outcome {
                            CompletionOutcome::Deliver { tx, response: delivered } => {
                                &&& p_old.pending().dom().contains(response_handle)
                                &&& tx == p_old.pending()[response_handle]
                                &&& delivered == response
                                &&& p_new.pending() == p_old.pending().remove(response_handle)
                            },
                            CompletionOutcome::UnknownHandle => {
                                &&& !p_old.pending().dom().contains(response_handle)
                                &&& p_new.pending() == p_old.pending()
                            },
                            CompletionOutcome::Close { .. } => false,
                        })
                    })
                },
            }),
    {
        match self.platforms.remove(platform_handle) {
            None => {
                proof {
                    assert(self.platforms@ =~= old(self).platforms@);
                    self.lemma_wf_preserved(old(self));
                }
                Err(BadHandleFault { platform_handle })
            },
            Some(mut core) => {
                proof {
                    assert(old(self).platforms@.dom().contains(platform_handle));
                }
                let outcome = core.on_send_request_success(response, response_handle);
                let ghost core_after = core;
                self.platforms.insert(platform_handle, core);
                proof {
                    self.lemma_reinserted(old(self), platform_handle, core_after);
                }
                Ok(outcome)
            },
        }
    }

    /// The inbound error entry point: resolves the platform handle and
    /// delegates the completion to that platform. An unknown platform handle
    /// is a boundary fault reported back to the foreign runtime.
    pub fn on_send_request_error(
        &mut self,
        error_code: i32,
        platform_handle: i64,
        response_handle: i64,
    ) -> (r: Result<CompletionOutcome<T>, BadHandleFault>)
        requires
            old(self).wf(),
        ensures
            final(self).wf(),
            final(self).next_platform_handle() == old(self).next_platform_handle(),
            final(self).platform_handles_issued() == old(self).platform_handles_issued(),
            (match r {
                Err(fault) => {
                    &&& !old(self).platforms().dom().contains(platform_handle)
                    &&& fault.platform_handle == platform_handle
                    &&& final(self).platforms() == old(self).platforms()
                },
                Ok(outcome) => {
                    &&& old(self).platforms().dom().contains(platform_handle)
                    &&& final(self).platforms().dom() == old(self).platforms().dom()
                    &&& (forall|k: i64|
                        k != platform_handle && #[trigger] old(self).platforms().dom().contains(k)
                            ==> final(self).platforms()[k] == old(self).platforms()[k])
                    &&& ({
                        let p_old = old(self).platforms()[platform_handle];
                        let p_new = final(self).platforms()[platform_handle];
                        &&& p_new.platform_handle() == platform_handle
                        &&& p_new.next_response() == p_old.next_response()
                        &&& p_new.issued_response_handles() == p_old.issued_response_handles()
                        &&& (match outcome {
                            CompletionOutcome::Close { tx, error_code: reported } => {
                                &&& p_old.pending().dom().contains(response_handle)
                                &&& tx == p_old.pending()[response_handle]
                                &&& reported == error_code
                                &&& p_new.pending() == p_old.pending().remove(response_handle)
                            },
                            CompletionOutcome::UnknownHandle => {
                                &&& !p_old.pending().dom().contains(response_handle)
                                &&& p_new.pending() == p_old.pending()
                            },
                            CompletionOutcome::Deliver { .. } => false,
                        })
                    })
                },
            }),
    {
        match self.platforms.remove(platform_handle) {
            None => {
                proof {
                    assert(self.platforms@ =~= old(self).platforms@);
                    self.lemma_wf_preserved(old(self));
                }
                Err(BadHandleFault { platform_handle })
            },
            Some(mut core) => {
                proof {
                    assert(old(self).platforms@.dom().contains(platform_handle));
                }
                let outcome = core.on_send_request_error(error_code, response_handle);
                let ghost core_after = core;
                self.platforms.insert(platform_handle, core);
                proof {
                    self.lemma_reinserted(old(self), platform_handle, core_after);
                }
                Ok(outcome)
            },
        }
    }

    /// The registered platforms are unchanged, so well-formedness carries
    /// over from `pre`.
    proof fn lemma_wf_preserved(&self, pre: &Registry<T>)
        requires
            pre.wf(),
            self.platforms@ == pre.platforms@,
            self.platforms.wf(),
            self.allocator == pre.allocator,
        ensures
            self.wf(),
    {
        assert forall|k: i64| #[trigger] self.platforms@.dom().contains(k) implies {
            &&& 0 <= k < self.allocator.next()
            &&& self.platforms@[k].wf()
            &&& self.platforms@[k].platform_handle() == k
        } by {
            assert(pre.platforms@.dom().contains(k));
        }
    }

    /// After removing the platform under `h` and re-inserting its updated
    /// state, the registry is the old one with only that binding updated, and
    /// it is well-formed again provided the update kept the platform
    /// well-formed under its own handle.
    proof fn lemma_reinserted(&self, pre: &Registry<T>, h: i64, core: PlatformCore<T>)
        requires
            pre.wf(),
            pre.platforms@.dom().contains(h),
            self.platforms@ == pre.platforms@.remove(h).insert(h, core),
            self.platforms.wf(),
            self.allocator == pre.allocator,
            core.wf(),
            core.platform_handle() == h,
        ensures
            self.wf(),
            self.platforms@ == pre.platforms@.insert(h, core),
            self.platforms@.dom() == pre.platforms@.dom(),
            forall|k: i64|
                k != h && #[trigger] pre.platforms@.dom().contains(k) ==> self.platforms@[k]
                    == pre.platforms@[k],
    {
        assert(self.platforms@ =~= pre.platforms@.insert(h, core));
        assert(self.platforms@.dom() =~= pre.platforms@.dom());
        assert forall|k: i64| #[trigger] self.platforms@.dom().contains(k) implies {
            &&& 0 <= k < self.allocator.next()
            &&& self.platforms@[k].wf()
            &&& self.platforms@[k].platform_handle() == k
        } by {
            assert(pre.platforms@.dom().contains(k));
        }
    }
}

/// Law: the platform handles issued process-wide are pairwise distinct; no
/// handle ever identifies two platforms, even after a platform is gone.
pub proof fn lemma_platform_handles_pairwise_distinct<T>(reg: &Registry<T>, i: int, j: int)
    requires
        reg.wf(),
        0 <= i < reg.platform_handles_issued().len(),
        0 <= j < reg.platform_handles_issued().len(),
        i != j,
    ensures
        reg.platform_handles_issued()[i] != reg.platform_handles_issued()[j],
{
    lemma_issued_pairwise_distinct(&reg.allocator, i, j);
}

} // verus!
