use vstd::prelude::*;

use crate::overwatch::Error;
use crate::services::ServiceId;
use crate::utils::text::{
    distinct_ids, first_duplicate, first_repeat, lemma_index_of_is_first, str_eq, views_of,
};

verus! {

/// The identifications of a list of entries, in order.
pub open spec fn ids_of<H>(entries: Seq<(ServiceId, H)>) -> Seq<Seq<char>> {
    entries.map_values(|e: (ServiceId, H)| e.0@)
}

/// Groups the life-cycle handle of each running service under the service's identification.
/// Each identification occurs once.
pub struct ServicesLifeCycleHandle<H> {
    handlers: Vec<(ServiceId, H)>,
}

impl<H> ServicesLifeCycleHandle<H> {
    #[verifier::type_invariant]
    spec fn well_formed(&self) -> bool {
        distinct_ids(ids_of(self.handlers@))
    }

    /// The registered services and their handles, in registration order.
    pub closed spec fn entries(&self) -> Seq<(ServiceId, H)> {
        self.handlers@
    }

    /// Whether a service is registered under `service`.
    pub open spec fn has_service(&self, service: Seq<char>) -> bool {
        ids_of(self.entries()).contains(service)
    }

    /// Registration order of the service `service`.
    pub open spec fn position_of(&self, service: Seq<char>) -> int {
        ids_of(self.entries()).index_of(service)
    }

    /// An empty group.
    pub fn empty() -> (r: Self)
        ensures
            r.entries() == Seq::<(ServiceId, H)>::empty(),
    {
        ServicesLifeCycleHandle { handlers: Vec::new() }
    }

    /// Builds a group from pairs of identification and handle, refusing one where an
    /// identification occurs twice; the error names the first entry that repeats an earlier
    /// identification.
    pub fn try_from<AnyError>(value: Vec<(ServiceId, H)>) -> (r: Result<Self, Error<AnyError>>)
        ensures
            r is Ok <==> distinct_ids(ids_of(value@)),
            r matches Ok(g) ==> g.entries() == value@,
            r matches Err(e) ==> ({
                let k: int = first_repeat(ids_of(value@));
                &&& 0 <= k < value@.len()
                &&& e == Error::<AnyError>::DuplicatedServiceId { service_id: value@[k].0 }
            }),
    {
        let mut ids: Vec<ServiceId> = Vec::new();
        let mut i: usize = 0;
        while i < value.len()
            invariant
                i <= value@.len(),
                views_of(ids@) =~= ids_of(value@).take(i as int),
                ids@.len() == i,
                forall|a: int| 0 <= a < i ==> ids@[a] == value@[a].0,
            decreases value@.len() - i,
        {
            let ghost before = ids@;
            ids.push(value[i].0);
            proof {
                assert(ids@ =~= before.push(value@[i as int].0));
                assert(views_of(ids@) =~= views_of(before).push(value@[i as int].0@));
                assert(ids_of(value@).take(i + 1) =~= ids_of(value@).take(i as int).push(
                    value@[i as int].0@,
                ));
            }
            i += 1;
        }
        assert(ids_of(value@).take(i as int) =~= ids_of(value@));
        match first_duplicate(ids.as_slice()) {
            Some(k) => Err(Error::DuplicatedServiceId { service_id: ids[k] }),
            None => Ok(ServicesLifeCycleHandle { handlers: value }),
        }
    }

    /// The identifications of the registered services, in registration order.
    pub fn services_ids(&self) -> (r: Vec<ServiceId>)
        ensures
            r@.map_values(|s: ServiceId| s@) == ids_of(self.entries()),
    {
        let mut r: Vec<ServiceId> = Vec::new();
        let mut i: usize = 0;
        while i < self.handlers.len()
            invariant
                i <= self.handlers@.len(),
                r@.map_values(|s: ServiceId| s@) =~= ids_of(self.handlers@).take(i as int),
            decreases self.handlers@.len() - i,
        {
            let ghost before = r@;
            r.push(self.handlers[i].0);
            proof {
                assert(r@ =~= before.push(self.handlers@[i as int].0));
                assert(r@.map_values(|s: ServiceId| s@) =~= before.map_values(|s: ServiceId| s@).push(
                    self.handlers@[i as int].0@,
                ));
                assert(ids_of(self.handlers@).take(i + 1) =~= ids_of(self.handlers@).take(
                    i as int,
                ).push(self.handlers@[i as int].0@));
            }
            i += 1;
        }
        assert(ids_of(self.handlers@).take(i as int) =~= ids_of(self.handlers@));
        r
    }

    /// The handle of the service `service`, if it is registered.
    pub fn handler(&self, service: &str) -> (r: Option<&H>)
        ensures
            r is Some <==> self.has_service(service@),
            r matches Some(h) ==> ({
                let p: int = self.position_of(service@);
                &&& 0 <= p < self.entries().len()
                &&& self.entries()[p].0@ == service@
                &&& *h == self.entries()[p].1
            }),
    {
        let ghost ids = ids_of(self.handlers@);
        let mut i: usize = 0;
        while i < self.handlers.len()
            invariant
                i <= self.handlers@.len(),
                ids == ids_of(self.handlers@),
                forall|a: int| 0 <= a < i ==> ids[a] != service@,
            decreases self.handlers@.len() - i,
        {
            if str_eq(self.handlers[i].0, service) {
                proof {
                    use_type_invariant(self);
                    assert(ids[i as int] == service@);
                    assert(ids.contains(service@));
                    lemma_index_of_is_first(ids, service@, i as int);
                }
                return Some(&self.handlers[i].1);
            }
            i += 1;
        }
        proof {
            if ids.contains(service@) {
                let w: int = choose|w: int| 0 <= w < ids.len() && ids[w] == service@;
                assert(ids[w] != service@);
            }
        }
        None
    }
}

impl<H> ServicesLifeCycleHandle<H> {
    /// The handle registered at position `p`.
    pub open spec fn handle_at(&self, p: int) -> H {
        self.entries()[p].1
    }

    /// Sends a shutdown to the service `service` through `send`, handing it `sender`, the
    /// channel for its completion signal; answers what `send` answers.
    pub fn shutdown<S, E, F: FnOnce(&H, S) -> Result<(), E>>(
        &self,
        service: ServiceId,
        sender: S,
        send: F,
    ) -> (r: Result<(), E>)
        requires
            self.has_service(service@),
            send.requires((&self.handle_at(self.position_of(service@)), sender)),
        ensures
            send.ensures((&self.handle_at(self.position_of(service@)), sender), r),
    {
        match self.handler(service) {
            Some(h) => send(h, sender),
            None => vstd::pervasive::unreached(),
        }
    }

    /// Sends a kill to the service `service` through `send`; answers what `send` answers.
    pub fn kill<E, F: FnOnce(&H) -> Result<(), E>>(&self, service: ServiceId, send: F) -> (r:
        Result<(), E>)
        requires
            self.has_service(service@),
            send.requires((&self.handle_at(self.position_of(service@)),)),
        ensures
            send.ensures((&self.handle_at(self.position_of(service@)),), r),
    {
        match self.handler(service) {
            Some(h) => send(h),
            None => vstd::pervasive::unreached(),
        }
    }

    /// The handles of the registered services, in registration order.
    pub open spec fn handles(&self) -> Seq<H> {
        self.entries().map_values(|e: (ServiceId, H)| e.1)
    }

    /// Sends a kill to every registered service through `send`, once each, in registration
    /// order, stopping at the first that fails: the services after it get nothing. `send`
    /// gets a state along with each handle and hands it on to the next send (`init` to the
    /// first); the answer is the last state with `Ok` when every send succeeded, else with
    /// the error of the send that failed.
    pub fn kill_all<S, E, F: Fn(S, &H) -> (S, Result<(), E>)>(&self, init: S, send: F) -> (r: (
        S,
        Result<(), E>,
    ))
        requires
            forall|s: S, i: int|
                0 <= i < self.handles().len() ==> #[trigger] send.requires((s, &self.handles()[i])),
        ensures
            exists|trace: Seq<S>| kill_trace(send, self.handles(), init, trace, r),
    {
        let ghost handles = self.handles();
        let ghost start = init;
        let mut state = init;
        let ghost mut trace: Seq<S> = seq![state];
        let mut i: usize = 0;
        while i < self.handlers.len()
            invariant
                i <= self.handlers@.len(),
                handles == self.handles(),
                handles.len() == self.handlers@.len(),
                forall|a: int| 0 <= a < handles.len() ==> handles[a] == #[trigger] self.handlers@[a].1,
                forall|s: S, a: int|
                    0 <= a < handles.len() ==> #[trigger] send.requires((s, &handles[a])),
                trace.len() == i + 1,
                trace[0] == start,
                start == init,
                trace[i as int] == state,
                forall|a: int|
                    0 <= a < i ==> send.ensures(
                        (trace[a], &handles[a]),
                        (trace[a + 1], Ok::<(), E>(())),
                    ),
            decreases self.handlers@.len() - i,
        {
            let h = &self.handlers[i].1;
            assert(*h == handles[i as int]);
            let (next, res) = send(state, h);
            proof {
                trace = trace.push(next);
            }
            match res {
                Ok(u) => {
                    assert(res == Ok::<(), E>(()));
                },
                Err(e) => {
                    let r = (next, Err(e));
                    assert(kill_trace(send, handles, start, trace, r));
                    return r;
                },
            }
            state = next;
            i += 1;
        }
        assert(kill_trace(send, handles, start, trace, (state, Ok::<(), E>(()))));
        (state, Ok(()))
    }
}

/// The sends made by `kill_all` over `handles`, starting from the state `init`: `trace`
/// holds the states passed along, one more than the sends made. Each send goes to the next
/// handle in order, once; every send but the last succeeds, and the last gives the outcome's
/// result; the outcome's state is the last of the trace. All handles were sent to when the
/// outcome is `Ok`; a failure ends the sending.
pub open spec fn kill_trace<H, S, E, F: Fn(S, &H) -> (S, Result<(), E>)>(
    send: F,
    handles: Seq<H>,
    init: S,
    trace: Seq<S>,
    outcome: (S, Result<(), E>),
) -> bool {
    let n = trace.len() - 1;
    &&& trace.len() >= 1
    &&& trace[0] == init
    &&& n <= handles.len()
    &&& outcome.0 == trace[n]
    &&& (outcome.1 is Ok ==> n == handles.len())
    &&& (outcome.1 is Err ==> n >= 1)
    &&& forall|i: int|
        0 <= i < n ==> send.ensures(
            (trace[i], &handles[i]),
            (trace[i + 1], if i == n - 1 {
                outcome.1
            } else {
                Ok::<(), E>(())
            }),
        )
}

} // verus!
