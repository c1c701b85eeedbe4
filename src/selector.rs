use vstd::prelude::*;
use crate::error::{check_status, from_status, IoError, ESUCCESS};
use crate::event::{Event, Interest, Token};

verus! {

/// Number of notification slots that one wait hands to the host poller.
pub const EVENTS_CAPACITY: u32 = 128;

/// The registry's record of one live registration.
#[derive(Clone, Copy, Debug, PartialEq, Eq, Structural)]
pub struct Subscription {
    pub fd: u32,
    pub readable: bool,
    pub writable: bool,
}

/// A request to resubmit a registration to the host poller, so that the
/// handle keeps being reported after a notification.
#[derive(Clone, Copy, Debug, PartialEq, Eq, Structural)]
pub struct Rearm {
    pub fd: u32,
    pub event: Event,
}

/// The interest record handed to the host poller for a registration.
pub open spec fn poll_spec(token: Token, interests: Interest) -> Event {
    Event { token: token.0, readable: interests.readable, writable: interests.writable }
}

pub open spec fn subscription_of(fd: u32, interests: Interest) -> Subscription {
    Subscription { fd, readable: interests.readable, writable: interests.writable }
}

/// The registration of `fd` that a deregistration removes: of the tokens
/// registered on `fd`, the greatest.
pub open spec fn token_for_fd(m: Map<u32, Subscription>, fd: u32) -> Option<u32> {
    if exists|t: u32| #[trigger] m.contains_key(t) && m[t].fd == fd {
        Some(
            choose|t: u32|
                #[trigger] m.contains_key(t) && m[t].fd == fd && (forall|u: u32|
                    #[trigger] m.contains_key(u) && m[u].fd == fd ==> u <= t),
        )
    } else {
        None
    }
}

/// The registry after `fd` is deregistered.
pub open spec fn deregistered(m: Map<u32, Subscription>, fd: u32) -> Map<u32, Subscription> {
    match token_for_fd(m, fd) {
        Some(t) => m.remove(t),
        None => m,
    }
}

/// The re-arm request for one delivered notification, if its token is live.
pub open spec fn rearm_of(m: Map<u32, Subscription>, e: Event) -> Seq<Rearm> {
    if m.contains_key(e.token) {
        seq![
            Rearm {
                fd: m[e.token].fd,
                event: Event {
                    token: e.token,
                    readable: m[e.token].readable,
                    writable: m[e.token].writable,
                },
            },
        ]
    } else {
        seq![]
    }
}

/// The re-arm requests for a batch of delivered notifications, in order.
pub open spec fn rearms(m: Map<u32, Subscription>, s: Seq<Event>) -> Seq<Rearm>
    decreases s.len(),
{
    if s.len() == 0 {
        seq![]
    } else {
        rearms(m, s.drop_last()) + rearm_of(m, s.last())
    }
}

/// Bookkeeping of the live registrations, keyed by token.
pub struct Selector {
    entries: Vec<(u32, Subscription)>,
    registry: Ghost<Map<u32, Subscription>>,
}

impl View for Selector {
    type V = Map<u32, Subscription>;

    closed spec fn view(&self) -> Map<u32, Subscription> {
        self.registry@
    }
}

/// The interest record to hand to the host poller when registering.
pub fn registration_event(token: Token, interests: Interest) -> (r: Event)
    ensures
        r == poll_spec(token, interests),
{
    Event { token: token.0, readable: interests.is_readable(), writable: interests.is_writable() }
}

impl Selector {
    /// Well-formedness: one entry per token, and the entries are the registry.
    pub closed spec fn wf(&self) -> bool {
        &&& forall|i: int, j: int|
            0 <= i < j < self.entries@.len() ==> #[trigger] self.entries@[i].0
                != #[trigger] self.entries@[j].0
        &&& forall|i: int|
            0 <= i < self.entries@.len() ==> self.registry@.contains_key(
                #[trigger] self.entries@[i].0,
            ) && self.registry@[self.entries@[i].0] == self.entries@[i].1
        &&& forall|t: u32|
            #[trigger] self.registry@.contains_key(t) ==> exists|i: int|
                0 <= i < self.entries@.len() && #[trigger] self.entries@[i].0 == t
    }

    /// A selector with an empty registry, once the host poller exists:
    /// `create_status` is what creating the poller returned (zero where it
    /// already existed).
    pub fn new(create_status: u16) -> (r: Result<Selector, IoError>)
        ensures
            create_status == ESUCCESS <==> r is Ok,
            r matches Ok(s) ==> s.wf() && s@ == Map::<u32, Subscription>::empty(),
            create_status != ESUCCESS ==> r == Err::<Selector, IoError>(
                IoError::Os(create_status as i32),
            ),
    {
        if create_status != ESUCCESS {
            return Err(from_status(create_status));
        }
        Ok(Selector { entries: Vec::new(), registry: Ghost(Map::empty()) })
    }

    /// Position of `token` among the entries.
    fn position(&self, token: u32) -> (r: Option<usize>)
        requires
            self.wf(),
        ensures
            r matches Some(i) ==> i < self.entries@.len() && self.entries@[i as int].0 == token,
            r is None ==> !self@.contains_key(token),
    {
        let mut i: usize = 0;
        while i < self.entries.len()
            invariant
                self.wf(),
                i <= self.entries@.len(),
                forall|k: int| 0 <= k < i ==> #[trigger] self.entries@[k].0 != token,
            decreases self.entries@.len() - i,
        {
            if self.entries[i].0 == token {
                return Some(i);
            }
            i = i + 1;
        }
        None
    }

    /// Records `sub` under `token`, replacing an earlier record of it.
    fn insert(&mut self, token: u32, sub: Subscription)
        requires
            old(self).wf(),
        ensures
            final(self).wf(),
            final(self)@ == old(self)@.insert(token, sub),
    {
        match self.position(token) {
            Some(i) => {
                self.entries.set(i, (token, sub));
                self.registry = Ghost(self.registry@.insert(token, sub));
                assert forall|t: u32| #[trigger]
                    self.registry@.contains_key(t) implies exists|k: int|
                        0 <= k < self.entries@.len() && #[trigger] self.entries@[k].0 == t by {
                    if t != token {
                        let k = choose|k: int|
                            0 <= k < old(self).entries@.len() && #[trigger] old(
                                self,
                            ).entries@[k].0 == t;
                        assert(self.entries@[k].0 == t);
                    } else {
                        assert(self.entries@[i as int].0 == t);
                    }
                }
            },
            None => {
                self.entries.push((token, sub));
                self.registry = Ghost(self.registry@.insert(token, sub));
                let ghost n: int = self.entries@.len() - 1;
                assert forall|t: u32| #[trigger]
                    self.registry@.contains_key(t) implies exists|k: int|
                        0 <= k < self.entries@.len() && #[trigger] self.entries@[k].0 == t by {
                    if t != token {
                        let k = choose|k: int|
                            0 <= k < old(self).entries@.len() && #[trigger] old(
                                self,
                            ).entries@[k].0 == t;
                        assert(self.entries@[k].0 == t);
                    } else {
                        assert(self.entries@[n].0 == t);
                    }
                }
            },
        }
    }

    /// Records a registration once the host poller accepted it: `add_status`
    /// is what adding `registration_event(token, interests)` for `fd`
    /// returned. On a nonzero status nothing is recorded.
    pub fn register(&mut self, fd: u32, token: Token, interests: Interest, add_status: u16) -> (r:
        Result<(), IoError>)
        requires
            old(self).wf(),
        ensures
            final(self).wf(),
            add_status == ESUCCESS ==> r == Ok::<(), IoError>(()) && final(self)@ == old(
                self,
            )@.insert(token.0, subscription_of(fd, interests)),
            add_status != ESUCCESS ==> r == Err::<(), IoError>(IoError::Os(add_status as i32))
                && final(self)@ == old(self)@,
    {
        if add_status != ESUCCESS {
            return Err(from_status(add_status));
        }
        self.insert(
            token.0,
            Subscription { fd, readable: interests.is_readable(), writable: interests.is_writable() },
        );
        Ok(())
    }

    /// Position of the entry that a deregistration of `fd` removes.
    fn position_for_fd(&self, fd: u32) -> (r: Option<usize>)
        requires
            self.wf(),
        ensures
            r matches Some(i) ==> i < self.entries@.len() && token_for_fd(self@, fd) == Some(
                self.entries@[i as int].0,
            ) && self@.contains_key(self.entries@[i as int].0) && self@[self.entries@[i as int].0].fd
                == fd,
            r is None ==> token_for_fd(self@, fd) is None,
    {
        let mut best: Option<usize> = None;
        let mut i: usize = 0;
        while i < self.entries.len()
            invariant
                self.wf(),
                i <= self.entries@.len(),
                best matches Some(j) ==> j < i && self.entries@[j as int].1.fd == fd && forall|
                    k: int,
                | 0 <= k < i && #[trigger] self.entries@[k].1.fd == fd ==> self.entries@[k].0
                    <= self.entries@[j as int].0,
                best is None ==> forall|k: int| 0 <= k < i ==> #[trigger] self.entries@[k].1.fd != fd,
            decreases self.entries@.len() - i,
        {
            if self.entries[i].1.fd == fd {
                match best {
                    Some(j) => {
                        if self.entries[i].0 > self.entries[j].0 {
                            best = Some(i);
                        }
                    },
                    None => {
                        best = Some(i);
                    },
                }
            }
            i = i + 1;
        }
        let ghost m = self@;
        match best {
            Some(j) => {
                let ghost tj = self.entries@[j as int].0;
                assert(m.contains_key(tj) && m[tj].fd == fd);
                assert forall|u: u32| #[trigger] m.contains_key(u) && m[u].fd == fd implies u
                    <= tj by {
                    let k = choose|k: int|
                        0 <= k < self.entries@.len() && #[trigger] self.entries@[k].0 == u;
                    assert(self.entries@[k].1.fd == fd);
                }
                let ghost t = token_for_fd(m, fd)->Some_0;
                assert(m.contains_key(t) && m[t].fd == fd && t <= tj);
                assert(tj <= t);
            },
            None => {
                assert forall|u: u32| #[trigger] m.contains_key(u) implies m[u].fd != fd by {
                    let k = choose|k: int|
                        0 <= k < self.entries@.len() && #[trigger] self.entries@[k].0 == u;
                    assert(self.entries@[k].1.fd != fd);
                }
            },
        }
        best
    }

    /// Drops the entry at position `j`.
    fn remove_at(&mut self, j: usize)
        requires
            old(self).wf(),
            j < old(self).entries@.len(),
        ensures
            final(self).wf(),
            final(self)@ == old(self)@.remove(old(self).entries@[j as int].0),
    {
        let ghost old_entries = self.entries@;
        let ghost t = self.entries@[j as int].0;
        let _ = self.entries.remove(j);
        self.registry = Ghost(self.registry@.remove(t));
        let ghost ne = self.entries@;
        assert(ne == old_entries.remove(j as int));
        assert forall|i: int| 0 <= i < ne.len() implies #[trigger] ne[i] == old_entries[if i < j {
            i
        } else {
            i + 1
        }] by {}
        assert forall|i: int| 0 <= i < ne.len() implies self.registry@.contains_key(
            #[trigger] ne[i].0,
        ) && self.registry@[ne[i].0] == ne[i].1 by {
            let i2 = if i < j { i } else { i + 1 };
            assert(ne[i] == old_entries[i2]);
            assert(old_entries[i2].0 != t);
        }
        assert forall|a: int, b: int| 0 <= a < b < ne.len() implies #[trigger] ne[a].0
            != #[trigger] ne[b].0 by {
            let a2 = if a < j { a } else { a + 1 };
            let b2 = if b < j { b } else { b + 1 };
            assert(ne[a] == old_entries[a2]);
            assert(ne[b] == old_entries[b2]);
        }
        assert forall|u: u32| #[trigger] self.registry@.contains_key(u) implies exists|k: int|
            0 <= k < ne.len() && #[trigger] ne[k].0 == u by {
            let k = choose|k: int| 0 <= k < old_entries.len() && #[trigger] old_entries[k].0 == u;
            assert(k != j);
            if k < j {
                assert(ne[k] == old_entries[k]);
            } else {
                assert(ne[k - 1] == old_entries[k]);
            }
        }
    }

    /// Forgets the registration of `fd` once the host poller was asked to drop
    /// it: `delete_status` is what deleting `fd` returned. The registry is
    /// cleaned whatever the status; the status alone decides the result.
    pub fn deregister(&mut self, fd: u32, delete_status: u16) -> (r: Result<(), IoError>)
        requires
            old(self).wf(),
        ensures
            final(self).wf(),
            final(self)@ == deregistered(old(self)@, fd),
            token_for_fd(old(self)@, fd) matches Some(t) ==> old(self)@.contains_key(t) && old(
                self,
            )@[t].fd == fd,
            delete_status == ESUCCESS ==> r == Ok::<(), IoError>(()),
            delete_status != ESUCCESS ==> r == Err::<(), IoError>(
                IoError::Os(delete_status as i32),
            ),
    {
        match self.position_for_fd(fd) {
            Some(j) => self.remove_at(j),
            None => {},
        }
        check_status(delete_status)
    }

    /// Turns the answer of one wait on the host poller into the caller's
    /// notifications. `events` is cleared first; on a zero `wait_status` it
    /// then holds `delivered` as it came, and the result lists, in order, the
    /// re-arm requests for those whose token is registered. Whether the caller
    /// then manages to resubmit them does not matter to the result.
    pub fn select(&self, wait_status: u16, delivered: &Vec<Event>, events: &mut Vec<Event>) -> (r:
        Result<Vec<Rearm>, IoError>)
        requires
            self.wf(),
        ensures
            wait_status == ESUCCESS <==> r is Ok,
            wait_status != ESUCCESS ==> r == Err::<Vec<Rearm>, IoError>(
                IoError::Os(wait_status as i32),
            ) && final(events)@ == Seq::<Event>::empty(),
            r matches Ok(v) ==> final(events)@ == delivered@ && v@ == rearms(self@, delivered@),
    {
        events.clear();
        if wait_status != ESUCCESS {
            return Err(from_status(wait_status));
        }
        let mut out: Vec<Rearm> = Vec::new();
        let mut i: usize = 0;
        while i < delivered.len()
            invariant
                self.wf(),
                i <= delivered@.len(),
                events@ == delivered@.subrange(0, i as int),
                out@ == rearms(self@, delivered@.subrange(0, i as int)),
            decreases delivered@.len() - i,
        {
            let e = delivered[i];
            assert(delivered@.subrange(0, i + 1).drop_last() == delivered@.subrange(0, i as int));
            match self.lookup(e.token) {
                Some(sub) => {
                    out.push(
                        Rearm {
                            fd: sub.fd,
                            event: Event { token: e.token, readable: sub.readable, writable: sub.writable },
                        },
                    );
                },
                None => {},
            }
            events.push(e);
            i = i + 1;
        }
        assert(delivered@.subrange(0, i as int) == delivered@);
        Ok(out)
    }

    /// Whether a waker is registered already. Waker arming is not tracked:
    /// this is always `false`, and does not guard against registering two.
    pub fn register_waker(&self) -> (r: bool)
        ensures
            !r,
    {
        false
    }

    /// The subscription registered under `token`.
    pub fn lookup(&self, token: u32) -> (r: Option<Subscription>)
        requires
            self.wf(),
        ensures
            self@.contains_key(token) ==> r == Some(self@[token]),
            !self@.contains_key(token) ==> r is None,
    {
        match self.position(token) {
            Some(i) => Some(self.entries[i].1),
            None => None,
        }
    }
}

} // verus!
