//! The event bridge: turns payloads pushed by a callback into values that a
//! consumer pulls by polling. It holds one payload at most; a newer delivery
//! replaces one that was not yet observed.
use vstd::prelude::*;

use crate::listeners::{
    after_unsubscribe, increasing_tokens, lemma_release_idempotent, lemma_released_not_dispatched,
    targets, EventKind, Listener, ListenerSet, SubscribeError, Subscription,
};

verus! {

/// What a bridge is, seen from outside: whether its registration is live, the
/// payload waiting to be observed, and whether a consumer is parked on it.
pub struct BridgeState<P> {
    pub live: bool,
    pub pending: Option<P>,
    pub parked: bool,
}

/// The outcome of one poll of a bridge.
#[derive(Debug)]
pub enum BridgePoll<P> {
    /// A payload was waiting and is handed over.
    Ready(P),
    /// Nothing is waiting: the consumer is parked until the next delivery.
    Pending,
    /// The bridge was cancelled: nothing more will come.
    Closed,
}

/// A delivery by the callback: a live bridge keeps the payload, replacing any
/// unobserved one, and wakes the parked consumer; a cancelled one ignores it.
/// The flag tells whether a wake happened.
pub open spec fn deliver_step<P>(s: BridgeState<P>, payload: P) -> (BridgeState<P>, bool) {
    if s.live {
        (BridgeState { live: true, pending: Some(payload), parked: false }, s.parked)
    } else {
        (s, false)
    }
}

/// A poll by the consumer: a waiting payload is taken out and returned,
/// otherwise the consumer parks; a cancelled bridge yields nothing more.
pub open spec fn poll_step<P>(s: BridgeState<P>) -> (BridgeState<P>, BridgePoll<P>) {
    if !s.live {
        (s, BridgePoll::Closed)
    } else {
        match s.pending {
            Some(p) => (BridgeState { live: true, pending: None, parked: false }, BridgePoll::Ready(p)),
            None => (BridgeState { live: true, pending: None, parked: true }, BridgePoll::Pending),
        }
    }
}

/// Cancelling releases the registration, drops what was waiting and forgets
/// the parked consumer, which is never woken again.
pub open spec fn cancel_step<P>(s: BridgeState<P>) -> BridgeState<P> {
    BridgeState { live: false, pending: None, parked: false }
}

/// A bridge over one registration with the host's listener set.
pub struct EventBridge<P> {
    sub: Subscription,
    slot: Option<P>,
    parked: bool,
}

impl<P> View for EventBridge<P> {
    type V = BridgeState<P>;

    closed spec fn view(&self) -> BridgeState<P> {
        BridgeState { live: self.sub.is_live_spec(), pending: self.slot, parked: self.parked }
    }
}

impl<P> EventBridge<P> {
    pub closed spec fn token_spec(&self) -> u64 {
        self.sub.token_spec()
    }

    pub closed spec fn emitter_spec(&self) -> u64 {
        self.sub.emitter_spec()
    }

    pub closed spec fn kind_spec(&self) -> EventKind {
        self.sub.kind_spec()
    }

    /// Registers with `listeners` for `kind` on `emitter`. A failed registration
    /// is reported here, not at the first poll.
    pub fn new(listeners: &mut ListenerSet, emitter: u64, kind: EventKind) -> (r: Result<
        EventBridge<P>,
        SubscribeError,
    >)
        requires
            old(listeners).wf(),
        ensures
            final(listeners).wf(),
            final(listeners).detached_spec() == old(listeners).detached_spec(),
            old(listeners).detached_spec().contains(emitter) ==> r matches Err(
                SubscribeError::EmitterDetached,
            ),
            !old(listeners).detached_spec().contains(emitter) && old(listeners).next_token_spec()
                == u64::MAX ==> r matches Err(SubscribeError::TokensExhausted),
            r is Err ==> final(listeners).entries_spec() == old(listeners).entries_spec()
                && final(listeners).next_token_spec() == old(listeners).next_token_spec(),
            !old(listeners).detached_spec().contains(emitter) && old(listeners).next_token_spec()
                < u64::MAX ==> (r matches Ok(b) && b@ == (BridgeState::<P> {
                live: true,
                pending: None,
                parked: false,
            }) && b.token_spec() == old(listeners).next_token_spec() && b.emitter_spec() == emitter
                && b.kind_spec() == kind && final(listeners).next_token_spec()
                == old(listeners).next_token_spec() + 1 && final(listeners).entries_spec()
                == old(listeners).entries_spec().push(
                (Listener {
                    token: old(listeners).next_token_spec(),
                    emitter,
                    kind,
                }),
            )),
    {
        match listeners.subscribe(emitter, kind) {
            Ok(sub) => Ok(EventBridge { sub, slot: None, parked: false }),
            Err(e) => Err(e),
        }
    }

    pub fn token(&self) -> (r: u64)
        ensures
            r == self.token_spec(),
    {
        self.sub.token()
    }

    pub fn is_live(&self) -> (r: bool)
        ensures
            r == self@.live,
    {
        self.sub.is_live()
    }

    /// Whether a consumer is parked, waiting for the next delivery.
    pub fn is_parked(&self) -> (r: bool)
        ensures
            r == self@.parked,
    {
        self.parked
    }

    /// The callback's work: store `payload` and report whether the parked
    /// consumer was woken. A delivery that the host had queued before the
    /// bridge was cancelled, and that arrives after, is dropped.
    pub fn deliver(&mut self, payload: P) -> (woke: bool)
        ensures
            (final(self)@, woke) == deliver_step(old(self)@, payload),
            final(self).token_spec() == old(self).token_spec(),
            final(self).emitter_spec() == old(self).emitter_spec(),
            final(self).kind_spec() == old(self).kind_spec(),
    {
        if !self.sub.is_live() {
            return false;
        }
        self.slot = Some(payload);
        let woke = self.parked;
        self.parked = false;
        woke
    }

    /// The consumer's poll: both awaiting one occurrence and iterating over
    /// all of them go through here.
    pub fn poll_next(&mut self) -> (r: BridgePoll<P>)
        ensures
            (final(self)@, r) == poll_step(old(self)@),
            final(self).token_spec() == old(self).token_spec(),
            final(self).emitter_spec() == old(self).emitter_spec(),
            final(self).kind_spec() == old(self).kind_spec(),
    {
        if !self.sub.is_live() {
            return BridgePoll::Closed;
        }
        match self.slot.take() {
            Some(p) => {
                self.parked = false;
                BridgePoll::Ready(p)
            },
            None => {
                self.parked = true;
                BridgePoll::Pending
            },
        }
    }

    /// Cancels the bridge at once: its registration leaves `listeners` in the
    /// same step. Cancelling again changes nothing.
    pub fn cancel(&mut self, listeners: &mut ListenerSet)
        requires
            old(listeners).wf(),
        ensures
            final(self)@ == cancel_step(old(self)@),
            final(self).token_spec() == old(self).token_spec(),
            final(self).emitter_spec() == old(self).emitter_spec(),
            final(self).kind_spec() == old(self).kind_spec(),
            final(listeners).wf(),
            final(listeners).entries_spec() == after_unsubscribe(
                old(listeners).entries_spec(),
                old(self)@.live,
                old(self).token_spec(),
            ),
            final(listeners).detached_spec() == old(listeners).detached_spec(),
            final(listeners).next_token_spec() == old(listeners).next_token_spec(),
    {
        listeners.unsubscribe(&mut self.sub);
        self.slot = None;
        self.parked = false;
    }

    /// The host fires `kind` on `emitter` with `payload`: the bridge receives
    /// it only if its registration is among those that the firing calls back.
    pub fn fire(&mut self, listeners: &ListenerSet, emitter: u64, kind: EventKind, payload: P) -> (woke: bool)
        ensures
            targets(listeners.entries_spec(), emitter, kind).contains(old(self).token_spec())
                ==> (final(self)@, woke) == deliver_step(old(self)@, payload),
            !targets(listeners.entries_spec(), emitter, kind).contains(old(self).token_spec())
                ==> final(self)@ == old(self)@ && !woke,
            final(self).token_spec() == old(self).token_spec(),
            final(self).emitter_spec() == old(self).emitter_spec(),
            final(self).kind_spec() == old(self).kind_spec(),
    {
        let called = listeners.dispatch_targets(emitter, kind);
        let token = self.sub.token();
        let mut i: usize = 0;
        while i < called.len()
            invariant
                0 <= i <= called@.len(),
                called@ == targets(listeners.entries_spec(), emitter, kind),
                token == old(self).token_spec(),
                self@ == old(self)@,
                self.token_spec() == old(self).token_spec(),
                self.emitter_spec() == old(self).emitter_spec(),
                self.kind_spec() == old(self).kind_spec(),
                forall|k: int| 0 <= k < i ==> #[trigger] called@[k] != token,
            decreases called@.len() - i,
        {
            if called[i] == token {
                assert(called@.contains(token));
                return self.deliver(payload);
            }
            i = i + 1;
        }
        assert(!called@.contains(token));
        false
    }
}

/// A consumer that polls a live bridge with nothing waiting parks; the next
/// delivery wakes it, and its next poll resolves with exactly that payload.
pub proof fn lemma_liveness<P>(s: BridgeState<P>, payload: P)
    requires
        s.live,
        s.pending is None,
    ensures
        poll_step(s).1 is Pending,
        deliver_step(poll_step(s).0, payload).1,
        poll_step(deliver_step(poll_step(s).0, payload).0).1 == BridgePoll::Ready(payload),
{
}

/// Two deliveries before a poll resolve the poll once, with the later payload;
/// the earlier one is never observed, and the poll after that parks.
pub proof fn lemma_most_recent_wins<P>(s: BridgeState<P>, first: P, second: P)
    requires
        s.live,
    ensures
        ({
            let t = deliver_step(deliver_step(s, first).0, second).0;
            &&& poll_step(t).1 == BridgePoll::Ready(second)
            &&& poll_step(poll_step(t).0).1 is Pending
        }),
{
}

/// Cancelling is total: the registration leaves the listener set at once, so
/// no firing calls it back; a delivery that still arrives stores nothing and
/// wakes no one; polls yield nothing more.
pub proof fn lemma_cancel_is_total<P>(
    s: BridgeState<P>,
    entries: Seq<Listener>,
    token: u64,
    emitter: u64,
    kind: EventKind,
    payload: P,
)
    requires
        s.live,
        increasing_tokens(entries),
    ensures
        !targets(after_unsubscribe(entries, s.live, token), emitter, kind).contains(token),
        cancel_step(s).pending is None,
        !cancel_step(s).parked,
        deliver_step(cancel_step(s), payload) == (cancel_step(s), false),
        poll_step(cancel_step(s)) == (cancel_step(s), BridgePoll::<P>::Closed),
{
    lemma_released_not_dispatched(entries, token, emitter, kind);
}

/// Cancelling twice is cancelling once, for the bridge and for the listener set.
pub proof fn lemma_cancel_idempotent<P>(s: BridgeState<P>, entries: Seq<Listener>, token: u64)
    requires
        increasing_tokens(entries),
    ensures
        cancel_step(cancel_step(s)) == cancel_step(s),
        after_unsubscribe(after_unsubscribe(entries, s.live, token), cancel_step(s).live, token)
            == after_unsubscribe(entries, s.live, token),
{
    lemma_release_idempotent(entries, false, token);
}

} // verus!
