//! The render lifecycle: a node is attached to its mount point when the body
//! that it belongs to is first driven, and detached when driving stops.
use vstd::prelude::*;

verus! {

/// Where a render bridge stands. There is no way back to `Unattached`.
#[derive(Clone, Copy, Debug, PartialEq, Eq, Structural)]
pub enum Phase {
    Unattached,
    Attached,
    Detached,
}

/// The nodes under one mount point, in order of attachment, each at most once.
#[derive(Debug)]
pub struct MountPoint {
    children: Vec<u64>,
}

/// `m` with `node` taken out, the others in order.
pub open spec fn without_node(m: Seq<u64>, node: u64) -> Seq<u64> {
    if m.contains(node) {
        m.remove(m.index_of(node))
    } else {
        m
    }
}

impl View for MountPoint {
    type V = Seq<u64>;

    closed spec fn view(&self) -> Seq<u64> {
        self.children@
    }
}

impl MountPoint {
    pub open spec fn wf(&self) -> bool {
        self@.no_duplicates()
    }

    pub fn new() -> (r: MountPoint)
        ensures
            r.wf(),
            r@ == Seq::<u64>::empty(),
    {
        MountPoint { children: Vec::new() }
    }

    fn index_of(&self, node: u64) -> (r: Option<usize>)
        ensures
            r matches Some(i) ==> i < self@.len() && self@[i as int] == node,
            r is None ==> !self@.contains(node),
    {
        let mut i: usize = 0;
        while i < self.children.len()
            invariant
                0 <= i <= self.children@.len(),
                forall|k: int| 0 <= k < i ==> #[trigger] self.children@[k] != node,
            decreases self.children@.len() - i,
        {
            if self.children[i] == node {
                return Some(i);
            }
            i = i + 1;
        }
        None
    }

    /// Whether `node` is under this mount point.
    pub fn contains(&self, node: u64) -> (r: bool)
        ensures
            r == self@.contains(node),
    {
        self.index_of(node).is_some()
    }

    /// Puts `node` after the nodes already there.
    pub fn attach(&mut self, node: u64)
        requires
            old(self).wf(),
            !old(self)@.contains(node),
        ensures
            final(self).wf(),
            final(self)@ == old(self)@.push(node),
    {
        self.children.push(node);
        proof {
            assert forall|a: int, b: int| 0 <= a < self@.len() && 0 <= b < self@.len() && a != b
                implies self@[a] != self@[b] by {
                if a < old(self)@.len() && b < old(self)@.len() {
                } else if a < old(self)@.len() {
                    assert(old(self)@[a] == self@[a]);
                } else {
                    assert(old(self)@[b] == self@[b]);
                }
            }
        }
    }

    /// Takes `node` out; one that is not there changes nothing.
    pub fn detach(&mut self, node: u64)
        requires
            old(self).wf(),
        ensures
            final(self).wf(),
            final(self)@ == without_node(old(self)@, node),
            !final(self)@.contains(node),
    {
        match self.index_of(node) {
            Some(i) => {
                proof {
                    let j = old(self)@.index_of(node);
                    assert(old(self)@[i as int] == node);
                    assert(old(self)@.contains(node));
                    assert(j == i as int);
                }
                self.children.remove(i);
                proof {
                    let o = old(self)@;
                    assert forall|a: int| 0 <= a < self@.len() implies #[trigger] self@[a] != node by {
                        let a2 = if a < i { a } else { a + 1 };
                        assert(self@[a] == o[a2]);
                    }
                    assert forall|a: int, b: int| 0 <= a < self@.len() && 0 <= b < self@.len() && a != b
                        implies self@[a] != self@[b] by {
                        let a2 = if a < i { a } else { a + 1 };
                        let b2 = if b < i { b } else { b + 1 };
                        assert(self@[a] == o[a2]);
                        assert(self@[b] == o[b2]);
                    }
                }
            },
            None => {},
        }
    }
}

/// What a render bridge is, seen from outside: its phase, and how many times
/// it attached and detached its node.
pub struct RenderState {
    pub phase: Phase,
    pub attaches: nat,
    pub detaches: nat,
}

/// A poll of the bridge: on the first one the node is attached; while attached
/// the body is to be driven; once detached, polls are refused and change nothing.
/// The flag tells whether the body is to be driven.
pub open spec fn render_poll_step(s: RenderState, m: Seq<u64>, node: u64) -> (RenderState, Seq<u64>, bool) {
    match s.phase {
        Phase::Unattached => (
            RenderState { phase: Phase::Attached, attaches: s.attaches + 1, detaches: s.detaches },
            m.push(node),
            true,
        ),
        Phase::Attached => (s, m, true),
        Phase::Detached => (s, m, false),
    }
}

/// Driving stops: an attached node is detached; one never attached has
/// nothing to undo; stopping again changes nothing.
pub open spec fn render_close_step(s: RenderState, m: Seq<u64>, node: u64) -> (RenderState, Seq<u64>) {
    match s.phase {
        Phase::Unattached => (RenderState { phase: Phase::Detached, ..s }, m),
        Phase::Attached => (
            RenderState { phase: Phase::Detached, attaches: s.attaches, detaches: s.detaches + 1 },
            without_node(m, node),
        ),
        Phase::Detached => (s, m),
    }
}

/// Ties one node's presence under a mount point to the driving of a body.
#[derive(Debug)]
pub struct RenderBridge {
    node: u64,
    phase: Phase,
    attaches: u32,
    detaches: u32,
}

impl View for RenderBridge {
    type V = RenderState;

    closed spec fn view(&self) -> RenderState {
        RenderState { phase: self.phase, attaches: self.attaches as nat, detaches: self.detaches as nat }
    }
}

impl RenderBridge {
    pub closed spec fn node_spec(&self) -> u64 {
        self.node
    }

    /// The node is attached exactly while the bridge is in `Attached`, and each
    /// of attach and detach happens at most once.
    pub closed spec fn wf(&self) -> bool {
        &&& self.attaches <= 1
        &&& self.detaches <= self.attaches
        &&& (self.phase == Phase::Unattached ==> self.attaches == 0)
        &&& (self.phase == Phase::Attached ==> self.attaches == 1 && self.detaches == 0)
    }

    /// The node is under `m` exactly while the bridge holds it attached.
    pub open spec fn consistent(&self, m: Seq<u64>) -> bool {
        &&& self.wf()
        &&& (self@.phase == Phase::Attached <==> m.contains(self.node_spec()))
    }

    /// A bridge for `node`; nothing is attached until the first poll.
    pub fn new(node: u64) -> (r: RenderBridge)
        ensures
            r.wf(),
            r.node_spec() == node,
            r@ == (RenderState { phase: Phase::Unattached, attaches: 0, detaches: 0 }),
    {
        RenderBridge { node, phase: Phase::Unattached, attaches: 0, detaches: 0 }
    }

    pub fn node(&self) -> (r: u64)
        ensures
            r == self.node_spec(),
    {
        self.node
    }

    pub fn phase(&self) -> (r: Phase)
        ensures
            r == self@.phase,
    {
        self.phase
    }

    /// Called before each poll of the body: attaches the node the first time,
    /// and says whether the body is to be polled now.
    pub fn poll(&mut self, mount: &mut MountPoint) -> (drive: bool)
        requires
            old(mount).wf(),
            old(self).consistent(old(mount)@),
        ensures
            final(mount).wf(),
            final(self).consistent(final(mount)@),
            final(self).node_spec() == old(self).node_spec(),
            (final(self)@, final(mount)@, drive) == render_poll_step(
                old(self)@,
                old(mount)@,
                old(self).node_spec(),
            ),
    {
        match self.phase {
            Phase::Unattached => {
                mount.attach(self.node);
                assert(mount@[mount@.len() - 1] == self.node);
                self.phase = Phase::Attached;
                self.attaches = self.attaches + 1;
                true
            },
            Phase::Attached => true,
            Phase::Detached => false,
        }
    }

    /// Driving stops, by completion or cancellation: detaches the node if it
    /// was attached. Calling it again changes nothing.
    pub fn close(&mut self, mount: &mut MountPoint)
        requires
            old(mount).wf(),
            old(self).consistent(old(mount)@),
        ensures
            final(mount).wf(),
            final(self).consistent(final(mount)@),
            final(self).node_spec() == old(self).node_spec(),
            (final(self)@, final(mount)@) == render_close_step(
                old(self)@,
                old(mount)@,
                old(self).node_spec(),
            ),
    {
        match self.phase {
            Phase::Unattached => {
                self.phase = Phase::Detached;
            },
            Phase::Attached => {
                mount.detach(self.node);
                self.phase = Phase::Detached;
                self.detaches = self.detaches + 1;
            },
            Phase::Detached => {},
        }
    }
}

/// One lifecycle of a render bridge: the node is absent before the first poll,
/// present after it and while the body is driven, absent again once driving
/// stops, and the mount point is then as it was. It is attached once and
/// detached once; after that, polls are refused and stopping again changes nothing.
pub proof fn lemma_render_lifecycle(m: Seq<u64>, node: u64)
    requires
        m.no_duplicates(),
        !m.contains(node),
    ensures
        ({
            let s0 = RenderState { phase: Phase::Unattached, attaches: 0, detaches: 0 };
            let (s1, m1, d1) = render_poll_step(s0, m, node);
            let (s2, m2, d2) = render_poll_step(s1, m1, node);
            let (s3, m3) = render_close_step(s2, m2, node);
            let (s4, m4, d4) = render_poll_step(s3, m3, node);
            let (s5, m5) = render_close_step(s4, m4, node);
            &&& d1 && d2 && !d4
            &&& m1.contains(node) && m2.contains(node)
            &&& !m3.contains(node) && m3 == m
            &&& s3.attaches == 1 && s3.detaches == 1
            &&& s5 == s3 && m5 == m3 && s4 == s3 && m4 == m3
        }),
{
    let m1 = m.push(node);
    assert(m1[m.len() as int] == node);
    assert(m1.contains(node));
    let i = m1.index_of(node);
    assert(m1[i] == node);
    if i != m.len() as int {
        assert(m[i] == node);
    }
    assert(m1.remove(i) =~= m);
}

} // verus!
