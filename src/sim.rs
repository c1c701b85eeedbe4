//! An in-memory host with the poller protocol that the selector is written
//! against: single-shot notifications, re-armed by a modify request. The
//! selector's guarantees are stated here, end to end, over this host.
use vstd::prelude::*;
use crate::error::{IoError, ESUCCESS};
use crate::event::{Event, Interest, Token};
use crate::selector::{
    deregistered, poll_spec, rearm_of, rearms, registration_event, subscription_of, token_for_fd,
    Rearm, Selector, Subscription, EVENTS_CAPACITY,
};
use crate::stream::TcpStreamWasi;
use crate::waker::{WakeStep, Waker, COUNTER_OK, COUNTER_WOULD_BLOCK};

verus! {

/// Host status: the handle is registered already.
pub const EEXIST: u16 = 20;

/// Host status: the handle is not registered.
pub const ENOENT: u16 = 44;

/// One handle registered with the simulated poller, with its current
/// readiness.
#[derive(Clone, Copy, Debug, PartialEq, Eq, Structural)]
pub struct SimRegistration {
    pub fd: u32,
    pub interest: Event,
    pub armed: bool,
    pub readable: bool,
    pub writable: bool,
}

/// The notification that a registration would deliver now.
pub open spec fn fired(r: SimRegistration) -> Event {
    Event {
        token: r.interest.token,
        readable: r.interest.readable && r.readable,
        writable: r.interest.writable && r.writable,
    }
}

/// Whether a registration delivers a notification on the next wait.
pub open spec fn fires(r: SimRegistration) -> bool {
    r.armed && (fired(r).readable || fired(r).writable)
}

pub open spec fn disarmed(r: SimRegistration) -> SimRegistration {
    SimRegistration { armed: false, ..r }
}

/// The notifications that one wait delivers, at most `cap` of them.
pub open spec fn wait_out(regs: Seq<SimRegistration>, cap: nat) -> Seq<Event>
    decreases regs.len(),
{
    if regs.len() == 0 {
        seq![]
    } else {
        let prev = wait_out(regs.drop_last(), cap);
        if fires(regs.last()) && prev.len() < cap {
            prev.push(fired(regs.last()))
        } else {
            prev
        }
    }
}

/// Registration `k` after a wait: disarmed where it delivered.
pub open spec fn wait_step(regs: Seq<SimRegistration>, cap: nat, k: int) -> SimRegistration {
    if fires(regs[k]) && wait_out(regs.take(k), cap).len() < cap {
        disarmed(regs[k])
    } else {
        regs[k]
    }
}

/// The registrations after a wait.
pub open spec fn wait_regs(regs: Seq<SimRegistration>, cap: nat) -> Seq<SimRegistration> {
    Seq::new(regs.len(), |k: int| wait_step(regs, cap, k))
}

/// The selector's registry agrees with every registration of the poller:
/// its token is live, on the same handle, with the same interests.
pub open spec fn consistent(m: Map<u32, Subscription>, regs: Seq<SimRegistration>) -> bool {
    forall|i: int|
        0 <= i < regs.len() ==> m.contains_key(#[trigger] regs[i].interest.token) && m[regs[i].interest.token]
            == (Subscription {
            fd: regs[i].fd,
            readable: regs[i].interest.readable,
            writable: regs[i].interest.writable,
        })
}

/// A notification names a live token, reports at least one condition, and
/// no condition that the registration under its token does not ask for.
pub open spec fn within_registration(m: Map<u32, Subscription>, e: Event) -> bool {
    &&& m.contains_key(e.token)
    &&& e.readable || e.writable
    &&& e.readable ==> m[e.token].readable
    &&& e.writable ==> m[e.token].writable
}

/// A notification is the one that a ready, armed registration of the poller
/// delivers.
pub open spec fn delivered_by(regs: Seq<SimRegistration>, e: Event) -> bool {
    exists|i: int| 0 <= i < regs.len() && fires(regs[i]) && #[trigger] fired(regs[i]) == e
}

proof fn lemma_wait_out_prefix(regs: Seq<SimRegistration>, cap: nat, a: int, b: int)
    requires
        0 <= a <= b <= regs.len(),
    ensures
        wait_out(regs.take(a), cap).len() <= wait_out(regs.take(b), cap).len(),
        forall|p: int|
            0 <= p < wait_out(regs.take(a), cap).len() ==> #[trigger] wait_out(regs.take(b), cap)[p]
                == wait_out(regs.take(a), cap)[p],
    decreases b - a,
{
    if a < b {
        lemma_wait_out_prefix(regs, cap, a, b - 1);
        assert(regs.take(b).drop_last() == regs.take(b - 1));
    }
}

proof fn lemma_disarmed_delivered(regs: Seq<SimRegistration>, cap: nat, j: int)
    requires
        0 <= j < regs.len(),
        wait_regs(regs, cap)[j] != regs[j],
    ensures
        regs[j].armed,
        exists|p: int|
            0 <= p < wait_out(regs, cap).len() && #[trigger] wait_out(regs, cap)[p] == fired(regs[j]),
{
    let pre = wait_out(regs.take(j), cap);
    assert(regs.take(j + 1).drop_last() == regs.take(j));
    assert(regs.take(j + 1).last() == regs[j]);
    assert(wait_out(regs.take(j + 1), cap) == pre.push(fired(regs[j])));
    lemma_wait_out_prefix(regs, cap, j + 1, regs.len() as int);
    assert(regs.take(regs.len() as int) == regs);
    assert(wait_out(regs, cap)[pre.len() as int] == fired(regs[j]));
}

proof fn lemma_rearms_contains(m: Map<u32, Subscription>, s: Seq<Event>, p: int)
    requires
        0 <= p < s.len(),
        m.contains_key(s[p].token),
    ensures
        exists|q: int|
            0 <= q < rearms(m, s).len() && #[trigger] rearms(m, s)[q] == rearm_of(m, s[p])[0],
    decreases s.len(),
{
    let prev = rearms(m, s.drop_last());
    assert(rearms(m, s) == prev + rearm_of(m, s.last()));
    if p < s.len() - 1 {
        lemma_rearms_contains(m, s.drop_last(), p);
        let q = choose|q: int| 0 <= q < prev.len() && #[trigger] prev[q] == rearm_of(m, s.drop_last()[p])[0];
        assert(rearms(m, s)[q] == prev[q]);
    } else {
        assert(rearms(m, s)[prev.len() as int] == rearm_of(m, s[p])[0]);
    }
}

proof fn lemma_rearms_restore(m: Map<u32, Subscription>, s: Seq<Event>, regs: Seq<SimRegistration>)
    requires
        consistent(m, regs),
        forall|p: int| 0 <= p < s.len() ==> delivered_by(regs, #[trigger] s[p]),
    ensures
        forall|q: int|
            0 <= q < rearms(m, s).len() ==> exists|i: int|
                0 <= i < regs.len() && regs[i].armed && #[trigger] rearms(m, s)[q] == (Rearm {
                    fd: regs[i].fd,
                    event: regs[i].interest,
                }),
    decreases s.len(),
{
    if s.len() > 0 {
        let pre = s.drop_last();
        assert forall|p: int| 0 <= p < pre.len() implies delivered_by(regs, #[trigger] pre[p]) by {
            assert(pre[p] == s[p]);
        }
        lemma_rearms_restore(m, pre, regs);
        let prev = rearms(m, pre);
        let all = rearms(m, s);
        assert(all == prev + rearm_of(m, s.last()));
        assert(delivered_by(regs, s[s.len() - 1]));
        let e = s.last();
        let i = choose|i: int| 0 <= i < regs.len() && fires(regs[i]) && #[trigger] fired(regs[i]) == e;
        assert(m.contains_key(regs[i].interest.token));
        assert forall|q: int| 0 <= q < all.len() implies exists|i2: int|
            0 <= i2 < regs.len() && regs[i2].armed && #[trigger] all[q] == (Rearm {
                fd: regs[i2].fd,
                event: regs[i2].interest,
            }) by {
            if q < prev.len() {
                assert(all[q] == prev[q]);
            } else {
                assert(all[q] == rearm_of(m, e)[0]);
                assert(all[q] == (Rearm { fd: regs[i].fd, event: regs[i].interest }));
            }
        }
    }
}

proof fn lemma_wait_out_delivered(regs: Seq<SimRegistration>, cap: nat)
    ensures
        forall|j: int|
            0 <= j < wait_out(regs, cap).len() ==> delivered_by(regs, #[trigger] wait_out(regs, cap)[j]),
    decreases regs.len(),
{
    if regs.len() > 0 {
        let pre = regs.drop_last();
        lemma_wait_out_delivered(pre, cap);
        let prev = wait_out(pre, cap);
        let out = wait_out(regs, cap);
        assert forall|j: int| 0 <= j < out.len() implies delivered_by(regs, #[trigger] out[j]) by {
            if j < prev.len() {
                assert(out[j] == prev[j]);
                assert(delivered_by(pre, prev[j]));
                let i = choose|i: int| 0 <= i < pre.len() && fires(pre[i]) && #[trigger] fired(pre[i]) == prev[j];
                assert(regs[i] == pre[i]);
            } else {
                let i = regs.len() - 1;
                assert(fired(regs[i]) == out[j]);
            }
        }
    }
}

proof fn lemma_delivered_within(m: Map<u32, Subscription>, regs: Seq<SimRegistration>, e: Event)
    requires
        consistent(m, regs),
        delivered_by(regs, e),
    ensures
        within_registration(m, e),
{
    let i = choose|i: int| 0 <= i < regs.len() && fires(regs[i]) && #[trigger] fired(regs[i]) == e;
    assert(m.contains_key(regs[i].interest.token));
}

/// Waits once on the simulated poller and reports its notifications through
/// the selector, re-arming each registration that delivered. Every
/// notification is the one that a ready registration delivers, and carries
/// a live token with no condition beyond that token's interests. The re-arm
/// leaves the poller as it was before the wait, so that a handle that stays
/// ready is reported again by the next one.
pub fn select(selector: &Selector, poller: &mut SimPoller, events: &mut Vec<Event>) -> (r: Result<
    (),
    IoError,
>)
    requires
        selector.wf(),
        old(poller).wf(),
        consistent(selector@, old(poller)@),
    ensures
        r is Ok,
        final(poller).wf(),
        final(poller)@ == old(poller)@,
        final(events)@ == wait_out(old(poller)@, EVENTS_CAPACITY as nat),
        forall|j: int|
            0 <= j < final(events)@.len() ==> within_registration(selector@, #[trigger] final(events)@[j])
                && delivered_by(old(poller)@, final(events)@[j]),
{
    let ghost before = poller@;
    let mut delivered: Vec<Event> = Vec::new();
    let status = poller.wait(EVENTS_CAPACITY, &mut delivered);
    proof {
        lemma_wait_out_delivered(before, EVENTS_CAPACITY as nat);
    }
    let list = match selector.select(status, &delivered, events) {
        Ok(list) => list,
        Err(e) => {
            return Err(e);
        },
    };
    let ghost cap = EVENTS_CAPACITY as nat;
    proof {
        assert forall|j: int| 0 <= j < events@.len() implies within_registration(
            selector@,
            #[trigger] events@[j],
        ) && delivered_by(before, events@[j]) by {
            lemma_delivered_within(selector@, before, events@[j]);
        }
        lemma_rearms_restore(selector@, delivered@, before);
        assert forall|j: int| 0 <= j < poller@.len() && poller@[j] != before[j] implies (
        #[trigger] poller@[j]) == disarmed(before[j]) && exists|q: int|
            0 <= q < list@.len() && list@[q].fd == before[j].fd by {
            lemma_disarmed_delivered(before, cap, j);
            let p = choose|p: int|
                0 <= p < wait_out(before, cap).len() && #[trigger] wait_out(before, cap)[p] == fired(
                    before[j],
                );
            assert(selector@.contains_key(before[j].interest.token));
            lemma_rearms_contains(selector@, delivered@, p);
        }
    }
    let mut k: usize = 0;
    while k < list.len()
        invariant
            poller.wf(),
            old(poller).wf(),
            before == old(poller)@,
            poller@.len() == before.len(),
            k <= list@.len(),
            forall|q: int|
                0 <= q < list@.len() ==> exists|i: int|
                    0 <= i < before.len() && before[i].armed && #[trigger] list@[q] == (Rearm {
                        fd: before[i].fd,
                        event: before[i].interest,
                    }),
            forall|j: int|
                0 <= j < poller@.len() && poller@[j] != before[j] ==> (#[trigger] poller@[j])
                    == disarmed(before[j]) && exists|q: int|
                    k <= q < list@.len() && list@[q].fd == before[j].fd,
            forall|j: int| 0 <= j < poller@.len() ==> (#[trigger] poller@[j]).fd == before[j].fd,
        decreases list@.len() - k,
    {
        let rr: Rearm = list[k];
        let ghost pre = poller@;
        let _ = poller.modify(rr.fd, rr.event);
        proof {
            let i = choose|i: int|
                0 <= i < before.len() && before[i].armed && #[trigger] list@[k as int] == (Rearm {
                    fd: before[i].fd,
                    event: before[i].interest,
                });
            assert(pre[i].fd == rr.fd);
            assert(poller@ == pre.update(i, SimRegistration { interest: rr.event, armed: true, ..pre[i] }));
            assert(pre[i] == before[i] || pre[i] == disarmed(before[i]));
            assert(poller@[i] == before[i]);
            assert forall|j: int|
                0 <= j < poller@.len() && poller@[j] != before[j] implies (#[trigger] poller@[j])
                == disarmed(before[j]) && exists|q: int|
                k + 1 <= q < list@.len() && list@[q].fd == before[j].fd by {
                assert(j != i);
                assert(poller@[j] == pre[j]);
                let q = choose|q: int| k <= q < list@.len() && list@[q].fd == before[j].fd;
                if q == k {
                    assert(before[j].fd == before[i].fd);
                }
                assert(q != k);
            }
        }
        k = k + 1;
    }
    assert(poller@ == before);
    Ok(())
}

/// Registers `fd` under `token` with the simulated poller and the selector.
/// The poller refuses a handle that it holds already.
pub fn register(
    selector: &mut Selector,
    poller: &mut SimPoller,
    fd: u32,
    token: Token,
    interests: Interest,
) -> (r: Result<(), IoError>)
    requires
        old(selector).wf(),
        old(poller).wf(),
    ensures
        final(selector).wf(),
        final(poller).wf(),
        r is Ok <==> forall|k: int| 0 <= k < old(poller)@.len() ==> #[trigger] old(poller)@[k].fd != fd,
        r is Ok ==> final(selector)@ == old(selector)@.insert(token.0, subscription_of(fd, interests))
            && final(poller)@ == old(poller)@.push(
            SimRegistration {
                fd,
                interest: poll_spec(token, interests),
                armed: true,
                readable: false,
                writable: false,
            },
        ),
        r is Err ==> r == Err::<(), IoError>(IoError::Os(EEXIST as i32)) && final(selector)@ == old(
            selector,
        )@ && final(poller)@ == old(poller)@,
        consistent(old(selector)@, old(poller)@) && !old(selector)@.contains_key(token.0)
            ==> consistent(final(selector)@, final(poller)@),
{
    let ghost m = selector@;
    let ghost pre = poller@;
    let status = poller.add(fd, registration_event(token, interests));
    let r = selector.register(fd, token, interests, status);
    proof {
        if consistent(m, pre) && !m.contains_key(token.0) && status == ESUCCESS {
            let m2 = selector@;
            let regs = poller@;
            assert forall|i: int| 0 <= i < regs.len() implies m2.contains_key(
                #[trigger] regs[i].interest.token,
            ) && m2[regs[i].interest.token] == (Subscription {
                fd: regs[i].fd,
                readable: regs[i].interest.readable,
                writable: regs[i].interest.writable,
            }) by {
                if i < pre.len() {
                    assert(regs[i] == pre[i]);
                    assert(m.contains_key(pre[i].interest.token));
                }
            }
        }
    }
    r
}

/// Deregisters `fd` from the simulated poller and the selector. The
/// selector forgets the handle's registration whatever the poller answers.
pub fn deregister(selector: &mut Selector, poller: &mut SimPoller, fd: u32) -> (r: Result<
    (),
    IoError,
>)
    requires
        old(selector).wf(),
        old(poller).wf(),
    ensures
        final(selector).wf(),
        final(poller).wf(),
        final(selector)@ == deregistered(old(selector)@, fd),
        r is Ok <==> exists|k: int| 0 <= k < old(poller)@.len() && #[trigger] old(poller)@[k].fd == fd,
        r is Err ==> r == Err::<(), IoError>(IoError::Os(ENOENT as i32)) && final(poller)@ == old(
            poller,
        )@,
        forall|k: int|
            0 <= k < old(poller)@.len() && #[trigger] old(poller)@[k].fd == fd ==> final(poller)@
                == old(poller)@.remove(k),
        consistent(old(selector)@, old(poller)@) ==> consistent(final(selector)@, final(poller)@),
{
    let ghost m = selector@;
    let ghost pre = poller@;
    let status = poller.delete(fd);
    let r = selector.deregister(fd, status);
    proof {
        if consistent(m, pre) {
            let m2 = selector@;
            let regs = poller@;
            assert forall|i: int| 0 <= i < regs.len() implies m2.contains_key(
                #[trigger] regs[i].interest.token,
            ) && m2[regs[i].interest.token] == (Subscription {
                fd: regs[i].fd,
                readable: regs[i].interest.readable,
                writable: regs[i].interest.writable,
            }) by {
                let i0 = if exists|q: int| 0 <= q < pre.len() && #[trigger] pre[q].fd == fd {
                    let q = choose|q: int| 0 <= q < pre.len() && #[trigger] pre[q].fd == fd;
                    if i < q { i } else { i + 1 }
                } else {
                    i
                };
                assert(regs[i] == pre[i0]);
                assert(pre[i0].fd != fd);
                assert(m.contains_key(pre[i0].interest.token));
            }
        }
    }
    r
}

/// Deregisters `fd`, then registers it again under `token`; the second
/// step is taken only where the first succeeded.
pub fn reregister(
    selector: &mut Selector,
    poller: &mut SimPoller,
    fd: u32,
    token: Token,
    interests: Interest,
) -> (r: Result<(), IoError>)
    requires
        old(selector).wf(),
        old(poller).wf(),
    ensures
        final(selector).wf(),
        final(poller).wf(),
        r is Ok <==> exists|k: int| 0 <= k < old(poller)@.len() && #[trigger] old(poller)@[k].fd == fd,
        r is Ok ==> final(selector)@ == deregistered(old(selector)@, fd).insert(
            token.0,
            subscription_of(fd, interests),
        ),
        r is Err ==> r == Err::<(), IoError>(IoError::Os(ENOENT as i32)) && final(selector)@
            == deregistered(old(selector)@, fd),
        consistent(old(selector)@, old(poller)@) && !deregistered(old(selector)@, fd).contains_key(
            token.0,
        ) ==> consistent(final(selector)@, final(poller)@),
{
    let ghost pre = poller@;
    match deregister(selector, poller, fd) {
        Err(e) => Err(e),
        Ok(()) => {
            let ghost mid = poller@;
            proof {
                let q = choose|q: int| 0 <= q < pre.len() && #[trigger] pre[q].fd == fd;
                assert(mid == pre.remove(q));
                assert forall|k: int| 0 <= k < mid.len() implies #[trigger] mid[k].fd != fd by {
                    let k2 = if k < q { k } else { k + 1 };
                    assert(mid[k] == pre[k2]);
                }
            }
            register(selector, poller, fd, token, interests)
        },
    }
}

/// Once `t` is registered on `fd` with `interests`, a notification that
/// names `t` reports no condition outside `interests`.
pub proof fn notification_within_interests(
    m: Map<u32, Subscription>,
    fd: u32,
    t: Token,
    interests: Interest,
    e: Event,
)
    requires
        within_registration(m.insert(t.0, subscription_of(fd, interests)), e),
        e.token == t.0,
    ensures
        e.readable ==> interests.readable,
        e.writable ==> interests.writable,
{
}

/// A notification that the registration of one handle delivers never names
/// a token registered on another handle.
pub proof fn notification_names_its_own_handle(
    m: Map<u32, Subscription>,
    regs: Seq<SimRegistration>,
    i: int,
    other: u32,
)
    requires
        consistent(m, regs),
        0 <= i < regs.len(),
        m.contains_key(other),
        m[other].fd != regs[i].fd,
    ensures
        fired(regs[i]).token != other,
{
    assert(m.contains_key(regs[i].interest.token));
}

/// Once `fd`, registered under `t` alone, is deregistered, no notification
/// that the registry admits names `t`.
pub proof fn deregistered_token_not_reported(m: Map<u32, Subscription>, fd: u32, t: u32, e: Event)
    requires
        m.contains_key(t),
        m[t].fd == fd,
        forall|u: u32| #[trigger] m.contains_key(u) && m[u].fd == fd ==> u == t,
        within_registration(deregistered(m, fd), e),
    ensures
        e.token != t,
{
    assert(m.contains_key(t) && m[t].fd == fd && (forall|u: u32|
        #[trigger] m.contains_key(u) && m[u].fd == fd ==> u <= t));
    let c = token_for_fd(m, fd)->Some_0;
    assert(m.contains_key(c) && m[c].fd == fd);
    assert(c == t);
}

/// Once `fd` is registered again under `t` with writable interest alone, no
/// notification that names `t` reports readability.
pub proof fn reregistered_writable_never_readable(
    m: Map<u32, Subscription>,
    fd: u32,
    t: Token,
    e: Event,
)
    requires
        within_registration(
            deregistered(m, fd).insert(t.0, subscription_of(fd, Interest { readable: false, writable: true })),
            e,
        ),
        e.token == t.0,
    ensures
        !e.readable,
{
}

/// A counter resource kept in memory. It holds one pending signal at most:
/// a write to a signalled counter would block, and a read of an empty one
/// too.
pub struct SimCounter {
    pub signalled: bool,
}

impl SimCounter {
    pub fn new() -> (r: SimCounter)
        ensures
            !r.signalled,
    {
        SimCounter { signalled: false }
    }

    /// Adds one signal.
    pub fn write1(&mut self) -> (r: i32)
        ensures
            old(self).signalled ==> r == COUNTER_WOULD_BLOCK && final(self).signalled,
            !old(self).signalled ==> r == COUNTER_OK && final(self).signalled,
    {
        if self.signalled {
            COUNTER_WOULD_BLOCK
        } else {
            self.signalled = true;
            COUNTER_OK
        }
    }

    /// Takes the pending signal.
    pub fn read(&mut self) -> (r: i32)
        ensures
            old(self).signalled ==> r == COUNTER_OK,
            !old(self).signalled ==> r == COUNTER_WOULD_BLOCK,
            !final(self).signalled,
    {
        if self.signalled {
            self.signalled = false;
            COUNTER_OK
        } else {
            COUNTER_WOULD_BLOCK
        }
    }
}

/// Wakes through the simulated counter: one write, and where the counter is
/// full one drain and one more write. It always succeeds and leaves exactly
/// one signal pending, however often it is called.
pub fn wake(waker: &Waker, counter: &mut SimCounter) -> (r: Result<(), IoError>)
    ensures
        r == Ok::<(), IoError>(()),
        final(counter).signalled,
{
    let status = counter.write1();
    match waker.wake(status) {
        WakeStep::Woken => Ok(()),
        WakeStep::Failed(e) => Err(e),
        WakeStep::DrainAndRetry => {
            let drained = counter.read();
            match waker.reset(drained) {
                Ok(()) => {},
                Err(e) => {
                    return Err(e);
                },
            }
            let again = counter.write1();
            waker.retry(again)
        },
    }
}

/// A socket kept in memory, with the error code that it holds pending (zero
/// for none).
pub struct SimSocket {
    pub pending_error: u32,
}

impl SimSocket {
    pub fn new() -> (r: SimSocket)
        ensures
            r.pending_error == 0,
    {
        SimSocket { pending_error: 0 }
    }

    /// Makes `code` the pending error.
    pub fn inject_error(&mut self, code: u32)
        ensures
            final(self).pending_error == code,
    {
        self.pending_error = code;
    }

    /// Answers a pending-error query: the status and the code, which is
    /// cleared.
    pub fn query_error(&mut self) -> (r: (u16, u32))
        ensures
            r == (ESUCCESS, old(self).pending_error),
            final(self).pending_error == 0,
    {
        let code = self.pending_error;
        self.pending_error = 0;
        (ESUCCESS, code)
    }
}

/// Takes the pending error of the simulated socket through the stream.
pub fn take_error(stream: &TcpStreamWasi, socket: &mut SimSocket) -> (r: Result<Option<IoError>, IoError>)
    ensures
        old(socket).pending_error == 0 ==> r == Ok::<Option<IoError>, IoError>(None),
        old(socket).pending_error != 0 ==> r == Ok::<Option<IoError>, IoError>(
            Some(IoError::Os(old(socket).pending_error as i32)),
        ),
        final(socket).pending_error == 0,
{
    let (status, code) = socket.query_error();
    stream.take_error(status, code)
}

/// A host poller kept in memory.
pub struct SimPoller {
    regs: Vec<SimRegistration>,
}

impl View for SimPoller {
    type V = Seq<SimRegistration>;

    closed spec fn view(&self) -> Seq<SimRegistration> {
        self.regs@
    }
}

impl SimPoller {
    /// No handle is registered twice.
    pub open spec fn wf(&self) -> bool {
        forall|i: int, j: int|
            0 <= i < j < self@.len() ==> #[trigger] self@[i].fd != #[trigger] self@[j].fd
    }

    pub fn new() -> (r: SimPoller)
        ensures
            r.wf(),
            r@ == Seq::<SimRegistration>::empty(),
    {
        SimPoller { regs: Vec::new() }
    }

    fn find(&self, fd: u32) -> (r: Option<usize>)
        ensures
            r matches Some(i) ==> i < self@.len() && self@[i as int].fd == fd,
            r is None ==> forall|k: int| 0 <= k < self@.len() ==> #[trigger] self@[k].fd != fd,
    {
        let mut i: usize = 0;
        while i < self.regs.len()
            invariant
                i <= self@.len(),
                forall|k: int| 0 <= k < i ==> #[trigger] self@[k].fd != fd,
            decreases self@.len() - i,
        {
            if self.regs[i].fd == fd {
                return Some(i);
            }
            i = i + 1;
        }
        None
    }

    /// Registers `fd` with `interest`, armed and not yet ready.
    pub fn add(&mut self, fd: u32, interest: Event) -> (r: u16)
        requires
            old(self).wf(),
        ensures
            final(self).wf(),
            (exists|k: int| 0 <= k < old(self)@.len() && #[trigger] old(self)@[k].fd == fd) ==> r
                == EEXIST && final(self)@ == old(self)@,
            (forall|k: int| 0 <= k < old(self)@.len() ==> #[trigger] old(self)@[k].fd != fd) ==> r
                == ESUCCESS && final(self)@ == old(self)@.push(
                SimRegistration { fd, interest, armed: true, readable: false, writable: false },
            ),
    {
        match self.find(fd) {
            Some(_) => EEXIST,
            None => {
                self.regs.push(
                    SimRegistration { fd, interest, armed: true, readable: false, writable: false },
                );
                ESUCCESS
            },
        }
    }

    /// Replaces the interest of `fd` and arms it again.
    pub fn modify(&mut self, fd: u32, interest: Event) -> (r: u16)
        requires
            old(self).wf(),
        ensures
            final(self).wf(),
            forall|k: int|
                0 <= k < old(self)@.len() && #[trigger] old(self)@[k].fd == fd ==> r == ESUCCESS
                    && final(self)@ == old(self)@.update(
                    k,
                    SimRegistration { interest, armed: true, ..old(self)@[k] },
                ),
            (forall|k: int| 0 <= k < old(self)@.len() ==> #[trigger] old(self)@[k].fd != fd) ==> r
                == ENOENT && final(self)@ == old(self)@,
    {
        match self.find(fd) {
            Some(i) => {
                let cur = self.regs[i];
                self.regs.set(
                    i,
                    SimRegistration {
                        fd: cur.fd,
                        interest,
                        armed: true,
                        readable: cur.readable,
                        writable: cur.writable,
                    },
                );
                ESUCCESS
            },
            None => ENOENT,
        }
    }

    /// Drops the registration of `fd`.
    pub fn delete(&mut self, fd: u32) -> (r: u16)
        requires
            old(self).wf(),
        ensures
            final(self).wf(),
            forall|k: int|
                0 <= k < old(self)@.len() && #[trigger] old(self)@[k].fd == fd ==> r == ESUCCESS
                    && final(self)@ == old(self)@.remove(k),
            (forall|k: int| 0 <= k < old(self)@.len() ==> #[trigger] old(self)@[k].fd != fd) ==> r
                == ENOENT && final(self)@ == old(self)@,
    {
        match self.find(fd) {
            Some(i) => {
                let ghost before = self.regs@;
                let _ = self.regs.remove(i);
                assert forall|a: int, b: int| 0 <= a < b < self@.len() implies #[trigger] self@[a].fd
                    != #[trigger] self@[b].fd by {
                    let a2 = if a < i { a } else { a + 1 };
                    let b2 = if b < i { b } else { b + 1 };
                    assert(self@[a] == before[a2]);
                    assert(self@[b] == before[b2]);
                }
                ESUCCESS
            },
            None => ENOENT,
        }
    }

    /// Sets the current readiness of the registered handle `fd`.
    pub fn set_ready(&mut self, fd: u32, readable: bool, writable: bool)
        requires
            old(self).wf(),
        ensures
            final(self).wf(),
            forall|k: int|
                0 <= k < old(self)@.len() && #[trigger] old(self)@[k].fd == fd ==> final(self)@
                    == old(self)@.update(k, SimRegistration { readable, writable, ..old(self)@[k] }),
            (forall|k: int| 0 <= k < old(self)@.len() ==> #[trigger] old(self)@[k].fd != fd)
                ==> final(self)@ == old(self)@,
    {
        match self.find(fd) {
            Some(i) => {
                let cur = self.regs[i];
                self.regs.set(
                    i,
                    SimRegistration {
                        fd: cur.fd,
                        interest: cur.interest,
                        armed: cur.armed,
                        readable,
                        writable,
                    },
                );
            },
            None => {},
        }
    }

    /// Delivers into `out` the notifications of the ready, armed
    /// registrations, in order and at most `capacity` of them, and disarms
    /// each that delivered.
    pub fn wait(&mut self, capacity: u32, out: &mut Vec<Event>) -> (r: u16)
        requires
            old(self).wf(),
        ensures
            final(self).wf(),
            r == ESUCCESS,
            final(out)@ == wait_out(old(self)@, capacity as nat),
            final(self)@ == wait_regs(old(self)@, capacity as nat),
    {
        out.clear();
        let ghost old_regs = self.regs@;
        let mut i: usize = 0;
        while i < self.regs.len()
            invariant
                old(self).wf(),
                old_regs == old(self)@,
                self.regs@.len() == old_regs.len(),
                i <= old_regs.len(),
                out@ == wait_out(old_regs.take(i as int), capacity as nat),
                forall|k: int| 0 <= k < i ==> self.regs@[k] == wait_step(old_regs, capacity as nat, k),
                forall|k: int| i <= k < old_regs.len() ==> self.regs@[k] == old_regs[k],
                forall|k: int| 0 <= k < old_regs.len() ==> #[trigger] self.regs@[k].fd == old_regs[k].fd,
            decreases old_regs.len() - i,
        {
            let cur = self.regs[i];
            assert(old_regs.take(i + 1).drop_last() == old_regs.take(i as int));
            assert(old_regs.take(i + 1).last() == old_regs[i as int]);
            if cur.armed && ((cur.interest.readable && cur.readable) || (cur.interest.writable
                && cur.writable)) && out.len() < capacity as usize {
                out.push(
                    Event {
                        token: cur.interest.token,
                        readable: cur.interest.readable && cur.readable,
                        writable: cur.interest.writable && cur.writable,
                    },
                );
                self.regs.set(
                    i,
                    SimRegistration {
                        fd: cur.fd,
                        interest: cur.interest,
                        armed: false,
                        readable: cur.readable,
                        writable: cur.writable,
                    },
                );
            }
            i = i + 1;
        }
        assert(old_regs.take(i as int) == old_regs);
        assert(self.regs@ == wait_regs(old_regs, capacity as nat));
        assert forall|a: int, b: int| 0 <= a < b < self@.len() implies #[trigger] self@[a].fd
            != #[trigger] self@[b].fd by {
            assert(self@[a].fd == old_regs[a].fd);
            assert(self@[b].fd == old_regs[b].fd);
        }
        ESUCCESS
    }
}

} // verus!
