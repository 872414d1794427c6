//! The connection registry: the single source of truth for who is
//! connected, and the broadcast target selection built on it.
//!
//! Each established connection is registered under its peer identity (the
//! remote socket address) with an opaque write-handle number. A peer is
//! registered at most once. Fanning a message out means snapshotting the
//! handles of every registered peer except, for a relayed message, its
//! originator; the caller performs the writes outside any registry lock,
//! so one slow peer cannot stall the others.

use vstd::prelude::*;

verus! {

/// One registered connection: the peer's identity and the number of its
/// exclusive write handle.
pub struct PeerEntry {
    pub peer: String,
    pub handle: u64,
}

/// The registry's abstract content: identity and handle of each entry, in
/// registration order.
pub type RegistryView = Seq<(Seq<char>, u64)>;

/// No two entries share a peer identity.
pub open spec fn distinct_peers(s: RegistryView) -> bool {
    forall|i: int, j: int| 0 <= i < j < s.len() ==> (#[trigger] s[i]).0 != (#[trigger] s[j]).0
}

/// No two entries share a write handle.
pub open spec fn distinct_handles(s: RegistryView) -> bool {
    forall|i: int, j: int| 0 <= i < j < s.len() ==> (#[trigger] s[i]).1 != (#[trigger] s[j]).1
}

/// Some entry carries this peer identity.
pub open spec fn has_peer(s: RegistryView, p: Seq<char>) -> bool {
    exists|i: int| 0 <= i < s.len() && (#[trigger] s[i]).0 == p
}

/// Some entry carries this write handle.
pub open spec fn has_handle(s: RegistryView, h: u64) -> bool {
    exists|i: int| 0 <= i < s.len() && (#[trigger] s[i]).1 == h
}

/// The registry content with every entry of this peer removed.
pub open spec fn remove_peer(s: RegistryView, p: Seq<char>) -> RegistryView
    decreases s.len(),
{
    if s.len() == 0 {
        Seq::empty()
    } else {
        let rest = remove_peer(s.drop_last(), p);
        if s.last().0 == p {
            rest
        } else {
            rest.push(s.last())
        }
    }
}

/// Does a fan-out with this exclusion keep the entry?
pub open spec fn keep_entry(e: (Seq<char>, u64), exclude: Option<Seq<char>>) -> bool {
    match exclude {
        Some(p) => e.0 != p,
        None => true,
    }
}

/// The write handles a fan-out goes to: every entry's handle, in
/// registration order, skipping the excluded originator if there is one.
pub open spec fn targets_of(s: RegistryView, exclude: Option<Seq<char>>) -> Seq<u64>
    decreases s.len(),
{
    if s.len() == 0 {
        Seq::empty()
    } else {
        let rest = targets_of(s.drop_last(), exclude);
        if keep_entry(s.last(), exclude) {
            rest.push(s.last().1)
        } else {
            rest
        }
    }
}

/// No value occurs twice.
pub open spec fn distinct_u64s(t: Seq<u64>) -> bool {
    forall|i: int, j: int| 0 <= i < j < t.len() ==> t[i] != t[j]
}

/// The concurrent map from peer identity to write handle. Structural
/// mutation happens under one lock held by the caller; the operations
/// here are the short critical sections themselves.
pub struct Registry {
    entries: Vec<PeerEntry>,
}

impl View for Registry {
    type V = RegistryView;

    closed spec fn view(&self) -> RegistryView {
        self.entries@.map_values(|e: PeerEntry| (e.peer@, e.handle))
    }
}

impl Registry {
    /// The registry invariant: each peer registered at most once, each
    /// write handle owned by at most one peer.
    pub open spec fn wf(self) -> bool {
        distinct_peers(self@) && distinct_handles(self@)
    }

    /// An empty registry.
    pub fn new() -> (r: Registry)
        ensures
            r@ == Seq::<(Seq<char>, u64)>::empty(),
            r.wf(),
    {
        let r = Registry { entries: Vec::new() };
        proof {
            assert(r@ =~= Seq::<(Seq<char>, u64)>::empty());
        }
        r
    }

    /// How many peers are registered.
    pub fn len(&self) -> (n: usize)
        ensures
            n == self@.len(),
    {
        self.entries.len()
    }

    /// Is this peer registered?
    pub fn contains_peer(&self, peer: &String) -> (r: bool)
        ensures
            r == has_peer(self@, peer@),
    {
        let n = self.entries.len();
        let mut i: usize = 0;
        while i < n
            invariant
                n == self.entries@.len(),
                self@.len() == self.entries@.len(),
                0 <= i <= n,
                forall|j: int| 0 <= j < i ==> (#[trigger] self@[j]).0 != peer@,
                forall|j: int| 0 <= j < self@.len() ==> self@[j] == (
                    self.entries@[j].peer@,
                    self.entries@[j].handle,
                ),
            decreases n - i,
        {
            if self.entries[i].peer == *peer {
                assert(self@[i as int].0 == peer@);
                return true;
            }
            i += 1;
        }
        false
    }

    /// Is this write handle already taken? Checked before registering,
    /// so that no two peers ever share a handle.
    pub fn contains_handle(&self, handle: u64) -> (r: bool)
        ensures
            r == has_handle(self@, handle),
    {
        let n = self.entries.len();
        let mut i: usize = 0;
        while i < n
            invariant
                n == self.entries@.len(),
                self@.len() == self.entries@.len(),
                0 <= i <= n,
                forall|j: int| 0 <= j < i ==> (#[trigger] self@[j]).1 != handle,
                forall|j: int| 0 <= j < self@.len() ==> self@[j] == (
                    self.entries@[j].peer@,
                    self.entries@[j].handle,
                ),
            decreases n - i,
        {
            if self.entries[i].handle == handle {
                assert(self@[i as int].1 == handle);
                return true;
            }
            i += 1;
        }
        false
    }

    /// The handle registered for this peer, if any.
    pub fn handle_of(&self, peer: &String) -> (r: Option<u64>)
        requires
            self.wf(),
        ensures
            match r {
                Some(h) => exists|i: int|
                    0 <= i < self@.len() && (#[trigger] self@[i]) == (peer@, h),
                None => !has_peer(self@, peer@),
            },
    {
        let n = self.entries.len();
        let mut i: usize = 0;
        while i < n
            invariant
                n == self.entries@.len(),
                self@.len() == self.entries@.len(),
                0 <= i <= n,
                forall|j: int| 0 <= j < i ==> (#[trigger] self@[j]).0 != peer@,
                forall|j: int| 0 <= j < self@.len() ==> self@[j] == (
                    self.entries@[j].peer@,
                    self.entries@[j].handle,
                ),
            decreases n - i,
        {
            if self.entries[i].peer == *peer {
                assert(self@[i as int] == (peer@, self.entries@[i as int].handle));
                return Some(self.entries[i].handle);
            }
            i += 1;
        }
        None
    }

    /// Register a fresh peer. Registration happens only after the
    /// handshake is established, and a peer is registered at most once:
    /// the caller checks `contains_peer` first.
    pub fn insert(&mut self, peer: String, handle: u64)
        requires
            old(self).wf(),
            !has_peer(old(self)@, peer@),
            !has_handle(old(self)@, handle),
        ensures
            final(self)@ == old(self)@.push((peer@, handle)),
            final(self).wf(),
    {
        let ghost old_view = self@;
        let ghost pv = peer@;
        self.entries.push(PeerEntry { peer, handle });
        proof {
            assert(self@ =~= old_view.push((pv, handle)));
        }
    }

    /// Deregister a peer: every entry under this identity leaves, nothing
    /// else changes, and the order of the rest is kept. Returns whether
    /// the peer had been registered.
    pub fn remove(&mut self, peer: &String) -> (r: bool)
        requires
            old(self).wf(),
        ensures
            final(self)@ == remove_peer(old(self)@, peer@),
            final(self).wf(),
            r == has_peer(old(self)@, peer@),
    {
        let n = self.entries.len();
        let mut kept: Vec<PeerEntry> = Vec::new();
        let mut found = false;
        let mut i: usize = 0;
        proof {
            assert(kept@.map_values(|e: PeerEntry| (e.peer@, e.handle)) =~= remove_peer(
                self@.subrange(0, 0),
                peer@,
            ));
        }
        while i < n
            invariant
                n == self.entries@.len(),
                self@.len() == self.entries@.len(),
                0 <= i <= n,
                forall|j: int| 0 <= j < self@.len() ==> self@[j] == (
                    self.entries@[j].peer@,
                    self.entries@[j].handle,
                ),
                kept@.map_values(|e: PeerEntry| (e.peer@, e.handle)) == remove_peer(
                    self@.subrange(0, i as int),
                    peer@,
                ),
                found == has_peer(self@.subrange(0, i as int), peer@),
            decreases n - i,
        {
            let ghost pre = self@.subrange(0, i as int);
            let ghost now = self@.subrange(0, i as int + 1);
            proof {
                assert(now.drop_last() =~= pre);
                assert(now.last() == self@[i as int]);
            }
            if self.entries[i].peer == *peer {
                found = true;
                assert(self@[i as int].0 == peer@);
                assert(has_peer(now, peer@));
            } else {
                let e = &self.entries[i];
                kept.push(PeerEntry { peer: e.peer.clone(), handle: e.handle });
                proof {
                    assert(kept@.map_values(|en: PeerEntry| (en.peer@, en.handle)) =~= remove_peer(
                        now,
                        peer@,
                    ));
                }
                proof {
                    if has_peer(now, peer@) {
                        let w = choose|k: int| 0 <= k < now.len() && (#[trigger] now[k]).0 == peer@;
                        assert(0 <= w < pre.len() && pre[w].0 == peer@);
                    }
                }
            }
            i += 1;
        }
        proof {
            assert(self@.subrange(0, n as int) =~= self@);
        }
        self.entries = kept;
        proof {
            lemma_remove_peer_shape(old(self)@, peer@);
        }
        found
    }

    /// Snapshot the write handles for relaying a message read from
    /// `origin`: every registered peer except the originator itself. The
    /// registry lock is held only for this snapshot, never for the
    /// writes.
    pub fn targets_excluding(&self, origin: &String) -> (r: Vec<u64>)
        ensures
            r@ == targets_of(self@, Some(origin@)),
    {
        let ghost ex: Option<Seq<char>> = Some(origin@);
        let n = self.entries.len();
        let mut r: Vec<u64> = Vec::new();
        let mut i: usize = 0;
        proof {
            assert(r@ =~= targets_of(self@.subrange(0, 0), ex));
        }
        while i < n
            invariant
                ex == Some(origin@),
                n == self.entries@.len(),
                self@.len() == self.entries@.len(),
                0 <= i <= n,
                forall|j: int| 0 <= j < self@.len() ==> self@[j] == (
                    self.entries@[j].peer@,
                    self.entries@[j].handle,
                ),
                r@ == targets_of(self@.subrange(0, i as int), ex),
            decreases n - i,
        {
            let ghost pre = self@.subrange(0, i as int);
            let ghost now = self@.subrange(0, i as int + 1);
            proof {
                assert(now.drop_last() =~= pre);
                assert(now.last() == self@[i as int]);
            }
            if !(self.entries[i].peer == *origin) {
                assert(keep_entry(self@[i as int], ex));
                r.push(self.entries[i].handle);
                assert(r@ =~= targets_of(now, ex));
            } else {
                assert(!keep_entry(self@[i as int], ex));
                assert(r@ =~= targets_of(now, ex));
            }
            i += 1;
        }
        proof {
            assert(self@.subrange(0, n as int) =~= self@);
        }
        r
    }

    /// Snapshot the write handles for a locally originated message: every
    /// registered peer, with no exclusion.
    pub fn targets_all(&self) -> (r: Vec<u64>)
        ensures
            r@ == targets_of(self@, None),
    {
        let ghost ex: Option<Seq<char>> = None;
        let n = self.entries.len();
        let mut r: Vec<u64> = Vec::new();
        let mut i: usize = 0;
        proof {
            assert(r@ =~= targets_of(self@.subrange(0, 0), ex));
        }
        while i < n
            invariant
                ex is None,
                n == self.entries@.len(),
                self@.len() == self.entries@.len(),
                0 <= i <= n,
                forall|j: int| 0 <= j < self@.len() ==> self@[j] == (
                    self.entries@[j].peer@,
                    self.entries@[j].handle,
                ),
                r@ == targets_of(self@.subrange(0, i as int), ex),
            decreases n - i,
        {
            let ghost pre = self@.subrange(0, i as int);
            let ghost now = self@.subrange(0, i as int + 1);
            proof {
                assert(now.drop_last() =~= pre);
                assert(now.last() == self@[i as int]);
            }
            assert(keep_entry(self@[i as int], ex));
            r.push(self.entries[i].handle);
            assert(r@ =~= targets_of(now, ex));
            i += 1;
        }
        proof {
            assert(self@.subrange(0, n as int) =~= self@);
        }
        r
    }
}

/// Removing a peer keeps exactly the other entries, in order; in
/// particular it keeps distinctness of peers and of handles.
pub proof fn lemma_remove_peer_shape(s: RegistryView, p: Seq<char>)
    ensures
        forall|i: int|
            0 <= i < remove_peer(s, p).len() ==> (#[trigger] remove_peer(s, p)[i]).0 != p,
        forall|i: int|
            0 <= i < remove_peer(s, p).len() ==> exists|j: int|
                0 <= j < s.len() && s[j] == #[trigger] remove_peer(s, p)[i],
        forall|j: int|
            0 <= j < s.len() && (#[trigger] s[j]).0 != p ==> remove_peer(s, p).contains(s[j]),
        distinct_peers(s) ==> distinct_peers(remove_peer(s, p)),
        distinct_handles(s) ==> distinct_handles(remove_peer(s, p)),
        !has_peer(remove_peer(s, p), p),
    decreases s.len(),
{
    if s.len() > 0 {
        lemma_remove_peer_shape(s.drop_last(), p);
        let rest = remove_peer(s.drop_last(), p);
        assert forall|j: int|
            0 <= j < s.len() && (#[trigger] s[j]).0 != p implies remove_peer(s, p).contains(
            s[j],
        ) by {
            if j < s.len() - 1 {
                assert(s.drop_last()[j] == s[j]);
                assert(rest.contains(s[j]));
                let k = choose|k: int| 0 <= k < rest.len() && rest[k] == s[j];
                assert(remove_peer(s, p)[k] == s[j]);
            } else {
                assert(s.last() == s[j]);
                assert(remove_peer(s, p).last() == s[j]);
            }
        }
        assert forall|i: int|
            0 <= i < remove_peer(s, p).len() implies exists|j: int|
            0 <= j < s.len() && s[j] == #[trigger] remove_peer(s, p)[i] by {
            if i < rest.len() {
                let j = choose|j: int| 0 <= j < s.drop_last().len() && s.drop_last()[j] == rest[i];
                assert(s[j] == remove_peer(s, p)[i]);
            } else {
                assert(remove_peer(s, p)[i] == s.last());
                assert(s[s.len() - 1] == remove_peer(s, p)[i]);
            }
        }
        if distinct_peers(s) || distinct_handles(s) {
            assert forall|i: int, j: int|
                0 <= i < j < remove_peer(s, p).len() implies ((distinct_peers(s)
                ==> (#[trigger] remove_peer(s, p)[i]).0 != (#[trigger] remove_peer(s, p)[j]).0)
                && (distinct_handles(s) ==> remove_peer(s, p)[i].1 != remove_peer(s, p)[j].1)) by {
                assert(j < remove_peer(s, p).len());
                if j < rest.len() {
                } else {
                    assert(remove_peer(s, p)[j] == s.last());
                    let wi = choose|w: int|
                        0 <= w < s.drop_last().len() && s.drop_last()[w] == rest[i];
                    assert(s[wi] == rest[i]);
                }
            }
        }
    }
}

/// Every handle in a fan-out snapshot belongs to some registered entry
/// that the exclusion keeps.
pub proof fn lemma_targets_sound(s: RegistryView, ex: Option<Seq<char>>, i: int)
    requires
        0 <= i < targets_of(s, ex).len(),
    ensures
        exists|j: int|
            0 <= j < s.len() && keep_entry(#[trigger] s[j], ex) && s[j].1 == targets_of(s, ex)[i],
    decreases s.len(),
{
    let t = targets_of(s, ex);
    let rest = targets_of(s.drop_last(), ex);
    if keep_entry(s.last(), ex) && i == t.len() - 1 {
        assert(s[s.len() - 1] == s.last());
        assert(keep_entry(s[s.len() - 1], ex) && s[s.len() - 1].1 == t[i]);
    } else {
        lemma_targets_sound(s.drop_last(), ex, i);
        let j = choose|j: int|
            0 <= j < s.drop_last().len() && keep_entry(#[trigger] s.drop_last()[j], ex)
                && s.drop_last()[j].1 == rest[i];
        assert(s[j] == s.drop_last()[j]);
        assert(keep_entry(s[j], ex) && s[j].1 == t[i]);
    }
}

/// Every registered entry that the exclusion keeps has its handle in the
/// fan-out snapshot.
pub proof fn lemma_targets_complete(s: RegistryView, ex: Option<Seq<char>>, j: int)
    requires
        0 <= j < s.len(),
        keep_entry(s[j], ex),
    ensures
        targets_of(s, ex).contains(s[j].1),
    decreases s.len(),
{
    let t = targets_of(s, ex);
    let rest = targets_of(s.drop_last(), ex);
    if j == s.len() - 1 {
        assert(t[t.len() - 1] == s[j].1);
    } else {
        assert(s.drop_last()[j] == s[j]);
        lemma_targets_complete(s.drop_last(), ex, j);
        let k = choose|k: int| 0 <= k < rest.len() && rest[k] == s[j].1;
        assert(t[k] == s[j].1);
    }
}

/// With distinct write handles in the registry, a fan-out snapshot holds
/// no handle twice: nobody receives one message two times.
pub proof fn lemma_targets_distinct(s: RegistryView, ex: Option<Seq<char>>)
    requires
        distinct_handles(s),
    ensures
        distinct_u64s(targets_of(s, ex)),
    decreases s.len(),
{
    if s.len() > 0 {
        assert forall|i: int, j: int|
            0 <= i < j < s.drop_last().len() implies (#[trigger] s.drop_last()[i]).1 != (
        #[trigger] s.drop_last()[j]).1 by {
            assert(s.drop_last()[i] == s[i] && s.drop_last()[j] == s[j]);
        }
        lemma_targets_distinct(s.drop_last(), ex);
        let rest = targets_of(s.drop_last(), ex);
        if keep_entry(s.last(), ex) {
            assert forall|k: int| 0 <= k < rest.len() implies rest[k] != s.last().1 by {
                lemma_targets_sound(s.drop_last(), ex, k);
                let j = choose|j: int|
                    0 <= j < s.drop_last().len() && keep_entry(#[trigger] s.drop_last()[j], ex)
                        && s.drop_last()[j].1 == rest[k];
                assert(s[j] == s.drop_last()[j]);
                assert(s[j].1 != s[s.len() - 1].1);
            }
        }
    }
}

/// Relayed broadcast fan-out: a message read from a registered origin
/// goes to the handle of every other registered peer, to each exactly
/// once, and never back to the origin.
pub proof fn lemma_relay_fanout(s: RegistryView, origin: Seq<char>)
    requires
        distinct_handles(s),
    ensures
        forall|j: int|
            0 <= j < s.len() && (#[trigger] s[j]).0 != origin ==> targets_of(
                s,
                Some(origin),
            ).contains(s[j].1),
        forall|j: int|
            0 <= j < s.len() && (#[trigger] s[j]).0 == origin ==> !targets_of(
                s,
                Some(origin),
            ).contains(s[j].1),
        distinct_u64s(targets_of(s, Some(origin))),
{
    let t = targets_of(s, Some(origin));
    lemma_targets_distinct(s, Some(origin));
    assert forall|j: int| 0 <= j < s.len() && (#[trigger] s[j]).0 != origin implies t.contains(
        s[j].1,
    ) by {
        lemma_targets_complete(s, Some(origin), j);
    }
    assert forall|j: int| 0 <= j < s.len() && (#[trigger] s[j]).0 == origin implies !t.contains(
        s[j].1,
    ) by {
        if t.contains(s[j].1) {
            let i = choose|i: int| 0 <= i < t.len() && t[i] == s[j].1;
            lemma_targets_sound(s, Some(origin), i);
            let k = choose|k: int|
                0 <= k < s.len() && keep_entry(#[trigger] s[k], Some(origin)) && s[k].1 == t[i];
            assert(s[k].0 != origin);
            assert(k != j);
            assert(s[k].1 != s[j].1);
        }
    }
}

/// Disconnection fan-out: after a departed peer is removed, a notice sent
/// to every remaining peer reaches each exactly once and never the
/// departed peer's handle.
pub proof fn lemma_disconnect_fanout(s: RegistryView, departed: Seq<char>)
    requires
        distinct_peers(s),
        distinct_handles(s),
    ensures
        !has_peer(remove_peer(s, departed), departed),
        forall|j: int|
            0 <= j < s.len() && (#[trigger] s[j]).0 != departed ==> targets_of(
                remove_peer(s, departed),
                None,
            ).contains(s[j].1),
        forall|j: int|
            0 <= j < s.len() && (#[trigger] s[j]).0 == departed ==> !targets_of(
                remove_peer(s, departed),
                None,
            ).contains(s[j].1),
        distinct_u64s(targets_of(remove_peer(s, departed), None)),
{
    lemma_remove_peer_shape(s, departed);
    let s2 = remove_peer(s, departed);
    let t = targets_of(s2, None);
    lemma_targets_distinct(s2, None);
    assert forall|j: int| 0 <= j < s.len() && (#[trigger] s[j]).0 != departed implies t.contains(
        s[j].1,
    ) by {
        assert(s2.contains(s[j]));
        let k = choose|k: int| 0 <= k < s2.len() && s2[k] == s[j];
        lemma_targets_complete(s2, None, k);
    }
    assert forall|j: int| 0 <= j < s.len() && (#[trigger] s[j]).0 == departed implies !t.contains(
        s[j].1,
    ) by {
        if t.contains(s[j].1) {
            let i = choose|i: int| 0 <= i < t.len() && t[i] == s[j].1;
            lemma_targets_sound(s2, None, i);
            let k = choose|k: int|
                0 <= k < s2.len() && keep_entry(#[trigger] s2[k], None) && s2[k].1 == t[i];
            let m = choose|m: int| 0 <= m < s.len() && s[m] == s2[k];
            assert(s[m].0 != departed);
            assert(m != j);
            assert(s[m].1 != s[j].1);
        }
    }
}

} // verus!
