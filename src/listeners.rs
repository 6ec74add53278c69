//! The subscription capability: a set of registered listeners, each naming an
//! emitter and an event kind, addressed by a unique token.
use vstd::prelude::*;

verus! {

/// A category of externally fired event, identified by an interned code.
#[derive(Clone, Copy, Debug, PartialEq, Eq, Structural)]
pub struct EventKind {
    pub code: u32,
}

impl EventKind {
    pub fn new(code: u32) -> (r: EventKind)
        ensures
            r.code == code,
    {
        EventKind { code }
    }
}

/// One registration of a callback with the host: who emits, what kind, under which token.
#[derive(Clone, Copy, Debug, PartialEq, Eq, Structural)]
pub struct Listener {
    pub token: u64,
    pub emitter: u64,
    pub kind: EventKind,
}

/// Why a registration could not be made.
#[derive(Clone, Copy, Debug, PartialEq, Eq, Structural)]
pub enum SubscribeError {
    /// The emitter has been detached from the tree and emits nothing any more.
    EmitterDetached,
    /// Every token has been handed out.
    TokensExhausted,
}

/// The handle of one registration. It is live until it is unsubscribed, and
/// unsubscribing it again does nothing.
#[derive(Debug)]
pub struct Subscription {
    token: u64,
    emitter: u64,
    kind: EventKind,
    live: bool,
}

impl Subscription {
    pub closed spec fn token_spec(&self) -> u64 {
        self.token
    }

    pub closed spec fn emitter_spec(&self) -> u64 {
        self.emitter
    }

    pub closed spec fn kind_spec(&self) -> EventKind {
        self.kind
    }

    pub closed spec fn is_live_spec(&self) -> bool {
        self.live
    }

    pub fn token(&self) -> (r: u64)
        ensures
            r == self.token_spec(),
    {
        self.token
    }

    pub fn emitter(&self) -> (r: u64)
        ensures
            r == self.emitter_spec(),
    {
        self.emitter
    }

    pub fn kind(&self) -> (r: EventKind)
        ensures
            r == self.kind_spec(),
    {
        self.kind
    }

    pub fn is_live(&self) -> (r: bool)
        ensures
            r == self.is_live_spec(),
    {
        self.live
    }
}

/// The listeners of `s` that `emitter` would call back for `kind`, as tokens,
/// in order of registration.
pub open spec fn targets(s: Seq<Listener>, emitter: u64, kind: EventKind) -> Seq<u64>
    decreases s.len(),
{
    if s.len() == 0 {
        seq![]
    } else {
        let rest = targets(s.drop_last(), emitter, kind);
        if s.last().emitter == emitter && s.last().kind == kind {
            rest.push(s.last().token)
        } else {
            rest
        }
    }
}

pub open spec fn increasing_tokens(s: Seq<Listener>) -> bool {
    forall|i: int, j: int| 0 <= i < j < s.len() ==> #[trigger] s[i].token < #[trigger] s[j].token
}

/// `s` with the listener registered under `token` taken out, the rest in order.
pub open spec fn remove_token(s: Seq<Listener>, token: u64) -> Seq<Listener> {
    if has_token(s, token) {
        s.remove(choose|i: int| 0 <= i < s.len() && #[trigger] s[i].token == token)
    } else {
        s
    }
}

/// The listeners left after a subscription in the given state is unsubscribed:
/// a live one takes its registration out, one already released changes nothing.
pub open spec fn after_unsubscribe(s: Seq<Listener>, live: bool, token: u64) -> Seq<Listener> {
    if live {
        remove_token(s, token)
    } else {
        s
    }
}

pub open spec fn has_token(s: Seq<Listener>, token: u64) -> bool {
    exists|i: int| 0 <= i < s.len() && #[trigger] s[i].token == token
}

/// The host's listener set for a group of emitters.
#[derive(Debug)]
pub struct ListenerSet {
    entries: Vec<Listener>,
    detached: Vec<u64>,
    next_token: u64,
}

impl ListenerSet {
    pub closed spec fn entries_spec(&self) -> Seq<Listener> {
        self.entries@
    }

    pub closed spec fn detached_spec(&self) -> Seq<u64> {
        self.detached@
    }

    pub closed spec fn next_token_spec(&self) -> u64 {
        self.next_token
    }

    /// Tokens are handed out in increasing order, so each one is registered
    /// at most once and lies below the next token to be handed out.
    pub closed spec fn wf(&self) -> bool {
        &&& increasing_tokens(self.entries@)
        &&& forall|i: int| 0 <= i < self.entries@.len() ==> #[trigger] self.entries@[i].token < self.next_token
    }

    pub fn new() -> (r: ListenerSet)
        ensures
            r.wf(),
            r.entries_spec() == Seq::<Listener>::empty(),
            r.detached_spec() == Seq::<u64>::empty(),
            r.next_token_spec() == 0,
    {
        ListenerSet { entries: Vec::new(), detached: Vec::new(), next_token: 0 }
    }

    /// Whether a listener is registered under `token`.
    pub fn is_registered(&self, token: u64) -> (r: bool)
        ensures
            r == has_token(self.entries_spec(), token),
    {
        let mut i: usize = 0;
        while i < self.entries.len()
            invariant
                0 <= i <= self.entries@.len(),
                forall|k: int| 0 <= k < i ==> #[trigger] self.entries@[k].token != token,
            decreases self.entries@.len() - i,
        {
            if self.entries[i].token == token {
                return true;
            }
            i = i + 1;
        }
        false
    }

    /// Whether `emitter` has been marked as detached from the tree.
    pub fn is_detached(&self, emitter: u64) -> (r: bool)
        ensures
            r == self.detached_spec().contains(emitter),
    {
        let mut i: usize = 0;
        while i < self.detached.len()
            invariant
                0 <= i <= self.detached@.len(),
                forall|k: int| 0 <= k < i ==> #[trigger] self.detached@[k] != emitter,
            decreases self.detached@.len() - i,
        {
            if self.detached[i] == emitter {
                return true;
            }
            i = i + 1;
        }
        false
    }

    /// Records that `emitter` has left the tree: no later registration on it succeeds.
    /// Registrations made before stay until they are released.
    pub fn mark_detached(&mut self, emitter: u64)
        requires
            old(self).wf(),
        ensures
            final(self).wf(),
            final(self).entries_spec() == old(self).entries_spec(),
            final(self).next_token_spec() == old(self).next_token_spec(),
            final(self).detached_spec().contains(emitter),
            forall|e: u64|
                #[trigger] final(self).detached_spec().contains(e) <==> (e == emitter
                    || old(self).detached_spec().contains(e)),
    {
        if !self.is_detached(emitter) {
            self.detached.push(emitter);
        }
        proof {
            assert(self.detached@.contains(emitter) ) by {
                if !old(self).detached@.contains(emitter) {
                    assert(self.detached@[self.detached@.len() - 1] == emitter);
                }
            }
            assert forall|e: u64|
                #[trigger] self.detached@.contains(e) <==> (e == emitter
                    || old(self).detached@.contains(e)) by {
                if self.detached@.contains(e) && e != emitter {
                    let k = choose|k: int| 0 <= k < self.detached@.len() && self.detached@[k] == e;
                    assert(old(self).detached@[k] == e);
                }
                if old(self).detached@.contains(e) {
                    let k = choose|k: int| 0 <= k < old(self).detached@.len() && old(self).detached@[k] == e;
                    assert(self.detached@[k] == e);
                }
            }
        }
    }

    /// Registers a callback of `emitter` for `kind`. A detached emitter is refused
    /// at once, as is a registration once every token has been handed out.
    pub fn subscribe(&mut self, emitter: u64, kind: EventKind) -> (r: Result<Subscription, SubscribeError>)
        requires
            old(self).wf(),
        ensures
            final(self).wf(),
            final(self).detached_spec() == old(self).detached_spec(),
            old(self).detached_spec().contains(emitter) ==> r == Err::<Subscription, SubscribeError>(SubscribeError::EmitterDetached),
            !old(self).detached_spec().contains(emitter) && old(self).next_token_spec() == u64::MAX
                ==> r == Err::<Subscription, SubscribeError>(SubscribeError::TokensExhausted),
            r is Err ==> final(self).entries_spec() == old(self).entries_spec()
                && final(self).next_token_spec() == old(self).next_token_spec(),
            !old(self).detached_spec().contains(emitter) && old(self).next_token_spec() < u64::MAX
                ==> (r matches Ok(sub) && sub.is_live_spec()
                && sub.token_spec() == old(self).next_token_spec()
                && sub.emitter_spec() == emitter && sub.kind_spec() == kind
                && final(self).next_token_spec() == old(self).next_token_spec() + 1
                && final(self).entries_spec() == old(self).entries_spec().push(
                    (Listener { token: old(self).next_token_spec(), emitter, kind }),
                )),
    {
        if self.is_detached(emitter) {
            return Err(SubscribeError::EmitterDetached);
        }
        if self.next_token == u64::MAX {
            return Err(SubscribeError::TokensExhausted);
        }
        let token = self.next_token;
        self.entries.push(Listener { token, emitter, kind });
        self.next_token = token + 1;
        Ok(Subscription { token, emitter, kind, live: true })
    }

    /// Releases `sub`'s registration. Releasing one that is already released
    /// changes nothing, and is no error.
    pub fn unsubscribe(&mut self, sub: &mut Subscription)
        requires
            old(self).wf(),
        ensures
            final(self).wf(),
            final(self).entries_spec() == after_unsubscribe(
                old(self).entries_spec(),
                old(sub).is_live_spec(),
                old(sub).token_spec(),
            ),
            final(self).detached_spec() == old(self).detached_spec(),
            final(self).next_token_spec() == old(self).next_token_spec(),
            !final(sub).is_live_spec(),
            final(sub).token_spec() == old(sub).token_spec(),
            final(sub).emitter_spec() == old(sub).emitter_spec(),
            final(sub).kind_spec() == old(sub).kind_spec(),
    {
        if !sub.live {
            return;
        }
        let token = sub.token;
        sub.live = false;
        let ghost before = self.entries@;
        let mut i: usize = 0;
        while i < self.entries.len()
            invariant
                0 <= i <= self.entries@.len(),
                self.entries@ == before,
                before == old(self).entries@,
                self.detached@ == old(self).detached@,
                self.next_token == old(self).next_token,
                self.wf(),
                old(sub).is_live_spec(),
                token == old(sub).token,
                !sub.live,
                sub.token == old(sub).token,
                sub.emitter == old(sub).emitter,
                sub.kind == old(sub).kind,
                forall|k: int| 0 <= k < i ==> #[trigger] self.entries@[k].token != token,
            decreases self.entries@.len() - i,
        {
            if self.entries[i].token == token {
                proof {
                    assert(before[i as int].token == token);
                    assert(has_token(before, token));
                    let j = choose|j: int| 0 <= j < before.len() && #[trigger] before[j].token == token;
                    if j != i as int {
                        if j > i {
                            assert(before[i as int].token < before[j].token);
                        }
                    }
                    assert(j == i as int);
                }
                self.entries.remove(i);
                proof {
                    assert forall|a: int, b: int| 0 <= a < b < self.entries@.len() implies
                        #[trigger] self.entries@[a].token < #[trigger] self.entries@[b].token by {
                        let a2 = if a < i { a } else { a + 1 };
                        let b2 = if b < i { b } else { b + 1 };
                        assert(self.entries@[a] == before[a2]);
                        assert(self.entries@[b] == before[b2]);
                        assert(before[a2].token < before[b2].token);
                    }
                    assert forall|a: int| 0 <= a < self.entries@.len() implies
                        #[trigger] self.entries@[a].token < self.next_token by {
                        let a2 = if a < i { a } else { a + 1 };
                        assert(self.entries@[a] == before[a2]);
                    }
                }
                return;
            }
            i = i + 1;
        }
        proof {
            assert(!has_token(before, token));
        }
    }

    /// The tokens of the listeners that a firing of `kind` on `emitter` calls
    /// back, in order of registration. The result is a snapshot: a callback may
    /// release registrations, its own included, while the host walks it.
    pub fn dispatch_targets(&self, emitter: u64, kind: EventKind) -> (r: Vec<u64>)
        ensures
            r@ == targets(self.entries_spec(), emitter, kind),
    {
        let mut r: Vec<u64> = Vec::new();
        let mut i: usize = 0;
        while i < self.entries.len()
            invariant
                0 <= i <= self.entries@.len(),
                r@ == targets(self.entries@.subrange(0, i as int), emitter, kind),
            decreases self.entries@.len() - i,
        {
            let l = self.entries[i];
            assert(self.entries@.subrange(0, i + 1).drop_last() =~= self.entries@.subrange(0, i as int));
            if l.emitter == emitter && l.kind == kind {
                r.push(l.token);
            }
            i = i + 1;
        }
        assert(self.entries@.subrange(0, self.entries@.len() as int) =~= self.entries@);
        r
    }
}

/// A token that a firing calls back is registered.
pub proof fn lemma_targets_registered(s: Seq<Listener>, emitter: u64, kind: EventKind, token: u64)
    requires
        targets(s, emitter, kind).contains(token),
    ensures
        has_token(s, token),
    decreases s.len(),
{
    if s.len() > 0 {
        let rest = targets(s.drop_last(), emitter, kind);
        if rest.contains(token) {
            lemma_targets_registered(s.drop_last(), emitter, kind, token);
            let i = choose|i: int| 0 <= i < s.drop_last().len() && #[trigger] s.drop_last()[i].token == token;
            assert(s[i].token == token);
        } else {
            assert(s[s.len() - 1].token == token);
        }
    }
}

/// After its registration is taken out, a token is registered no more.
pub proof fn lemma_removed_token_gone(s: Seq<Listener>, token: u64)
    requires
        increasing_tokens(s),
    ensures
        !has_token(remove_token(s, token), token),
        increasing_tokens(remove_token(s, token)),
{
    if has_token(s, token) {
        let i = choose|i: int| 0 <= i < s.len() && #[trigger] s[i].token == token;
        let r = s.remove(i);
        assert forall|a: int| 0 <= a < r.len() implies #[trigger] r[a].token != token by {
            if a < i {
                assert(s[a].token < s[i].token);
            } else {
                assert(r[a] == s[a + 1]);
                assert(s[i].token < s[a + 1].token);
            }
        }
        assert forall|a: int, b: int| 0 <= a < b < r.len() implies #[trigger] r[a].token
            < #[trigger] r[b].token by {
            let a2 = if a < i { a } else { a + 1 };
            let b2 = if b < i { b } else { b + 1 };
            assert(r[a] == s[a2]);
            assert(r[b] == s[b2]);
            assert(s[a2].token < s[b2].token);
        }
    }
}

/// Releasing a registration that is already released is a no-op: a released
/// handle changes nothing, and after a live one is released, a second release
/// leaves the listeners as the first left them, whatever it believes of its handle.
pub proof fn lemma_release_idempotent(s: Seq<Listener>, again_live: bool, token: u64)
    requires
        increasing_tokens(s),
    ensures
        after_unsubscribe(s, false, token) == s,
        after_unsubscribe(after_unsubscribe(s, true, token), again_live, token) == after_unsubscribe(
            s,
            true,
            token,
        ),
{
    lemma_removed_token_gone(s, token);
}

/// Once a registration is released, no firing of any kind on any emitter calls it back.
pub proof fn lemma_released_not_dispatched(s: Seq<Listener>, token: u64, emitter: u64, kind: EventKind)
    requires
        increasing_tokens(s),
    ensures
        !targets(remove_token(s, token), emitter, kind).contains(token),
{
    lemma_removed_token_gone(s, token);
    if targets(remove_token(s, token), emitter, kind).contains(token) {
        lemma_targets_registered(remove_token(s, token), emitter, kind, token);
    }
}

} // verus!
