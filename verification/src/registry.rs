//! The broadcast registry: the set of live duplex (WebSocket) peers of one
//! broadcast room.
//!
//! A peer is identified by a stable numeric address. The sending capability
//! that belongs to each address is owned by the caller, which performs the
//! actual deliveries of a fan-out pass and reports the failed targets back
//! so they can be pruned. The registry itself never performs I/O, so every
//! operation here is total and verified.

use vstd::prelude::*;

verus! {

/// The peers of one broadcast room, in join order.
pub struct Registry {
    pub peers: Vec<u64>,
}

/// One fan-out pass: the payload to deliver, unchanged, and for every
/// registered peer other than the sender that peer's current index and
/// address, in registry order.
pub struct Broadcast {
    pub payload: Vec<u8>,
    pub targets: Vec<(usize, u64)>,
}

/// The addresses a fan-out pass from `sender` attempts to deliver to:
/// every registered address except the sender's, in registry order.
pub open spec fn spec_targets(peers: Seq<u64>, sender: u64) -> Seq<u64> {
    peers.filter(|a: u64| a != sender)
}

/// Removes from `s` the positions `idxs[k..]`, highest position first, so
/// that the positions still to be removed stay valid while earlier ones go.
pub open spec fn remove_indices_from(s: Seq<u64>, idxs: Seq<usize>, k: int) -> Seq<u64>
    decreases idxs.len() - k,
{
    if k < 0 || k >= idxs.len() {
        s
    } else {
        remove_indices_from(s, idxs, k + 1).remove(idxs[k] as int)
    }
}

/// Removes from `s` every position listed in `idxs`.
pub open spec fn remove_indices(s: Seq<u64>, idxs: Seq<usize>) -> Seq<u64> {
    remove_indices_from(s, idxs, 0)
}

/// `idxs` is strictly increasing and each entry is below `bound`.
pub open spec fn valid_indices(idxs: Seq<usize>, bound: nat) -> bool {
    &&& forall|a: int, b: int| 0 <= a < b < idxs.len() ==> idxs[a] < idxs[b]
    &&& forall|a: int| 0 <= a < idxs.len() ==> (#[trigger] idxs[a]) < bound
}

impl Registry {
    /// At most one live entry per address.
    pub open spec fn wf(self) -> bool {
        forall|i: int, j: int|
            0 <= i < j < self.peers@.len() ==> self.peers@[i] != self.peers@[j]
    }

    pub open spec fn spec_contains(self, addr: u64) -> bool {
        self.peers@.contains(addr)
    }

    pub fn new() -> (r: Registry)
        ensures
            r.peers@ =~= Seq::<u64>::empty(),
            r.wf(),
    {
        Registry { peers: Vec::new() }
    }

    pub fn len(&self) -> (n: usize)
        ensures
            n == self.peers@.len(),
    {
        self.peers.len()
    }

    pub fn contains(&self, addr: u64) -> (b: bool)
        ensures
            b == self.spec_contains(addr),
    {
        let n = self.peers.len();
        let mut i: usize = 0;
        while i < n
            invariant
                n == self.peers@.len(),
                i <= n,
                forall|j: int| 0 <= j < i ==> self.peers@[j] != addr,
            decreases n - i,
        {
            if self.peers[i] == addr {
                return true;
            }
            i += 1;
        }
        false
    }

    /// Join: append the peer. The caller registers an address only once per
    /// live connection, so a fresh address keeps the invariant.
    pub fn join(&mut self, addr: u64)
        ensures
            final(self).peers@ == old(self).peers@.push(addr),
            old(self).wf() && !old(self).spec_contains(addr) ==> final(self).wf(),
    {
        self.peers.push(addr);
        proof {
            if old(self).wf() && !old(self).spec_contains(addr) {
                assert forall|i: int, j: int|
                    0 <= i < j < self.peers@.len() implies self.peers@[i] != self.peers@[j] by {
                    if j == self.peers@.len() - 1 {
                        assert(self.peers@[i] == old(self).peers@[i]);
                        if old(self).peers@[i] == addr {
                            assert(old(self).peers@.contains(addr));
                        }
                    }
                }
            }
        }
    }

    /// Leave: remove every entry carrying the peer's address.
    pub fn leave(&mut self, addr: u64)
        ensures
            final(self).peers@ == old(self).peers@.filter(|a: u64| a != addr),
            old(self).wf() ==> final(self).wf(),
            !final(self).spec_contains(addr),
    {
        let n = self.peers.len();
        let mut kept: Vec<u64> = Vec::new();
        let mut i: usize = 0;
        while i < n
            invariant
                n == self.peers@.len(),
                i <= n,
                kept@ == self.peers@.subrange(0, i as int).filter(|a: u64| a != addr),
            decreases n - i,
        {
            let p = self.peers[i];
            proof {
                reveal(Seq::filter);
                assert(self.peers@.subrange(0, i + 1).drop_last() =~= self.peers@.subrange(
                    0,
                    i as int,
                ));
                assert(self.peers@.subrange(0, i + 1).last() == self.peers@[i as int]);
            }
            if p != addr {
                kept.push(p);
            }
            i += 1;
        }
        proof {
            assert(self.peers@.subrange(0, n as int) =~= self.peers@);
            lemma_filter_membership(self.peers@, |a: u64| a != addr);
            if old(self).wf() {
                lemma_filter_distinct(self.peers@, |a: u64| a != addr);
            }
            if kept@.contains(addr) {
                assert((|a: u64| a != addr)(addr));
            }
        }
        self.peers = kept;
    }

    /// Plan one fan-out pass: the payload goes verbatim to exactly the
    /// registered peers other than the sender, in registry order. The
    /// caller attempts each delivery and hands the indices of the failed
    /// targets to `remove_failed`.
    pub fn plan_broadcast(&self, sender: u64, payload: Vec<u8>) -> (b: Broadcast)
        ensures
            b.payload == payload,
            b.targets@.map_values(|t: (usize, u64)| t.1) == spec_targets(self.peers@, sender),
            forall|k: int|
                0 <= k < b.targets@.len() ==> (#[trigger] b.targets@[k]).0 < self.peers@.len()
                    && self.peers@[b.targets@[k].0 as int] == b.targets@[k].1
                    && b.targets@[k].1 != sender,
            forall|k1: int, k2: int|
                0 <= k1 < k2 < b.targets@.len() ==> (#[trigger] b.targets@[k1]).0 < (
                #[trigger] b.targets@[k2]).0,
            forall|i: int|
                0 <= i < self.peers@.len() && self.peers@[i] != sender ==> exists|k: int|
                    0 <= k < b.targets@.len() && (#[trigger] b.targets@[k]).0 == i,
    {
        let n = self.peers.len();
        let mut targets: Vec<(usize, u64)> = Vec::new();
        let mut i: usize = 0;
        while i < n
            invariant
                n == self.peers@.len(),
                i <= n,
                targets@.map_values(|t: (usize, u64)| t.1) == spec_targets(
                    self.peers@.subrange(0, i as int),
                    sender,
                ),
                forall|k: int|
                    0 <= k < targets@.len() ==> (#[trigger] targets@[k]).0 < i
                        && self.peers@[targets@[k].0 as int] == targets@[k].1 && targets@[k].1
                        != sender,
                forall|k1: int, k2: int|
                    0 <= k1 < k2 < targets@.len() ==> (#[trigger] targets@[k1]).0 < (
                    #[trigger] targets@[k2]).0,
                forall|j: int|
                    0 <= j < i && self.peers@[j] != sender ==> exists|k: int|
                        0 <= k < targets@.len() && (#[trigger] targets@[k]).0 == j,
            decreases n - i,
        {
            let p = self.peers[i];
            proof {
                reveal(Seq::filter);
                assert(self.peers@.subrange(0, i + 1).drop_last() =~= self.peers@.subrange(
                    0,
                    i as int,
                ));
                assert(self.peers@.subrange(0, i + 1).last() == self.peers@[i as int]);
            }
            let ghost prior = targets@;
            if p != sender {
                targets.push((i, p));
                proof {
                    assert(targets@.map_values(|t: (usize, u64)| t.1) =~= targets@.drop_last()
                        .map_values(|t: (usize, u64)| t.1).push(p));
                }
            }
            proof {
                assert forall|j: int|
                    0 <= j < i + 1 && self.peers@[j] != sender implies exists|k: int|
                    0 <= k < targets@.len() && (#[trigger] targets@[k]).0 == j by {
                    if j == i {
                        assert(targets@[targets@.len() - 1].0 == i);
                    } else {
                        let k = choose|k: int| 0 <= k < prior.len() && (#[trigger] prior[k]).0 == j;
                        assert(targets@[k].0 == j);
                    }
                }
            }
            i += 1;
        }
        proof {
            assert(self.peers@.subrange(0, n as int) =~= self.peers@);
        }
        Broadcast { payload, targets }
    }

    /// Prune the targets whose delivery failed during a pass. `failed`
    /// holds registry indices of failed targets in increasing order, as
    /// `plan_broadcast` numbered them; they are removed back to front so
    /// the positions still to be removed stay valid.
    pub fn remove_failed(&mut self, failed: &Vec<usize>)
        requires
            valid_indices(failed@, old(self).peers@.len()),
        ensures
            final(self).peers@ == remove_indices(old(self).peers@, failed@),
            final(self).peers@.len() == old(self).peers@.len() - failed@.len(),
            old(self).wf() ==> final(self).wf(),
            forall|x: u64| final(self).peers@.contains(x) ==> old(self).peers@.contains(x),
    {
        let mut k: usize = failed.len();
        while k > 0
            invariant
                k <= failed@.len(),
                valid_indices(failed@, old(self).peers@.len()),
                self.peers@ == remove_indices_from(old(self).peers@, failed@, k as int),
            decreases k,
        {
            proof {
                lemma_remove_indices_from_ok(old(self).peers@, failed@, k as int - 1);
            }
            k -= 1;
            let idx = failed[k];
            self.peers.remove(idx);
        }
        proof {
            lemma_remove_indices_from_ok(old(self).peers@, failed@, 0);
            if old(self).wf() {
                lemma_remove_indices_from_distinct(old(self).peers@, failed@, 0);
            }
            lemma_remove_indices_from_subset(old(self).peers@, failed@, 0);
        }
    }
}

/// Everything a filtered sequence holds is an element of the unfiltered
/// one and satisfies
/// the predicate, and conversely.
pub proof fn lemma_filter_membership(s: Seq<u64>, pred: spec_fn(u64) -> bool)
    ensures
        forall|x: u64| #[trigger] s.filter(pred).contains(x) <==> s.contains(x) && pred(x),
    decreases s.len(),
{
    reveal(Seq::filter);
    if s.len() == 0 {
        assert forall|x: u64| #[trigger] s.filter(pred).contains(x) implies s.contains(x) && pred(
            x,
        ) by {}
    } else {
        let butlast = s.drop_last();
        lemma_filter_membership(butlast, pred);
        assert forall|x: u64| #[trigger] s.filter(pred).contains(x) implies s.contains(x) && pred(
            x,
        ) by {
            if butlast.filter(pred).contains(x) {
                let j = choose|j: int|
                    0 <= j < butlast.len() && butlast[j] == x;
                assert(s[j] == x);
            } else {
                assert(x == s.last());
            }
        }
        assert forall|x: u64| s.contains(x) && pred(x) implies #[trigger] s.filter(pred).contains(
            x,
        ) by {
            let j = choose|j: int| 0 <= j < s.len() && s[j] == x;
            if j < s.len() - 1 {
                assert(butlast[j] == x);
                assert(butlast.filter(pred).contains(x));
                let m = choose|m: int|
                    0 <= m < butlast.filter(pred).len() && butlast.filter(pred)[m] == x;
                assert(s.filter(pred)[m] == x);
            } else {
                assert(x == s.last());
                assert(s.filter(pred).last() == x);
            }
        }
    }
}

/// Filtering a duplicate-free sequence leaves it duplicate-free.
pub proof fn lemma_filter_distinct(s: Seq<u64>, pred: spec_fn(u64) -> bool)
    requires
        forall|i: int, j: int| 0 <= i < j < s.len() ==> s[i] != s[j],
    ensures
        forall|i: int, j: int|
            0 <= i < j < s.filter(pred).len() ==> s.filter(pred)[i] != s.filter(pred)[j],
    decreases s.len(),
{
    reveal(Seq::filter);
    if s.len() > 0 {
        let butlast = s.drop_last();
        lemma_filter_distinct(butlast, pred);
        lemma_filter_membership(butlast, pred);
        let f = s.filter(pred);
        let bf = butlast.filter(pred);
        assert forall|i: int, j: int| 0 <= i < j < f.len() implies f[i] != f[j] by {
            if j < bf.len() {
                assert(f[i] == bf[i] && f[j] == bf[j]);
            } else {
                assert(f[j] == s.last());
                assert(bf[i] == f[i]);
                assert(bf.contains(bf[i]));
                let m = choose|m: int| 0 <= m < butlast.len() && butlast[m] == bf[i];
                assert(s[m] == bf[i]);
            }
        }
    }
}

/// A sequence all of whose elements satisfy the predicate is unchanged by
/// filtering.
pub proof fn lemma_filter_all(s: Seq<u64>, pred: spec_fn(u64) -> bool)
    requires
        forall|i: int| 0 <= i < s.len() ==> pred(#[trigger] s[i]),
    ensures
        s.filter(pred) == s,
    decreases s.len(),
{
    reveal(Seq::filter);
    if s.len() == 0 {
        assert(s.filter(pred) =~= s);
    } else {
        let butlast = s.drop_last();
        assert(forall|i: int| 0 <= i < butlast.len() ==> pred(#[trigger] butlast[i]));
        lemma_filter_all(butlast, pred);
        assert(pred(s.last()));
        assert(s.filter(pred) =~= s);
    }
}

/// In strictly increasing indices, positions `a` and `b` are at least
/// `b - a` apart.
proof fn lemma_increasing_gap(idxs: Seq<usize>, a: int, b: int)
    requires
        forall|x: int, y: int| 0 <= x < y < idxs.len() ==> idxs[x] < idxs[y],
        0 <= a <= b < idxs.len(),
    ensures
        idxs[a] + (b - a) <= idxs[b],
    decreases b - a,
{
    if a < b {
        lemma_increasing_gap(idxs, a, b - 1);
    }
}

/// Removing the positions `idxs[k..]` of a valid index list takes off
/// exactly one element each, and every position removed is in range when
/// its turn comes.
proof fn lemma_remove_indices_from_ok(s: Seq<u64>, idxs: Seq<usize>, k: int)
    requires
        valid_indices(idxs, s.len()),
        0 <= k <= idxs.len(),
    ensures
        remove_indices_from(s, idxs, k).len() == s.len() - (idxs.len() - k),
        k < idxs.len() ==> idxs[k] < remove_indices_from(s, idxs, k + 1).len(),
    decreases idxs.len() - k,
{
    if k < idxs.len() {
        lemma_remove_indices_from_ok(s, idxs, k + 1);
        if k < idxs.len() - 1 {
            lemma_increasing_gap(idxs, k, idxs.len() - 1);
        }
    }
}

/// Removing positions removes elements only: whatever is left was there.
proof fn lemma_remove_indices_from_subset(s: Seq<u64>, idxs: Seq<usize>, k: int)
    requires
        valid_indices(idxs, s.len()),
        0 <= k <= idxs.len(),
    ensures
        forall|x: u64|
            #[trigger] remove_indices_from(s, idxs, k).contains(x) ==> s.contains(x),
    decreases idxs.len() - k,
{
    if k < idxs.len() {
        lemma_remove_indices_from_ok(s, idxs, k + 1);
        lemma_remove_indices_from_subset(s, idxs, k + 1);
        let inner = remove_indices_from(s, idxs, k + 1);
        let res = remove_indices_from(s, idxs, k);
        assert forall|x: u64| #[trigger] res.contains(x) implies s.contains(x) by {
            let j = choose|j: int| 0 <= j < res.len() && res[j] == x;
            if j < idxs[k] {
                assert(inner[j] == x);
            } else {
                assert(inner[j + 1] == x);
            }
            assert(inner.contains(x));
        }
    }
}

/// Removing positions from a duplicate-free sequence leaves it
/// duplicate-free.
proof fn lemma_remove_indices_from_distinct(s: Seq<u64>, idxs: Seq<usize>, k: int)
    requires
        valid_indices(idxs, s.len()),
        0 <= k <= idxs.len(),
        forall|i: int, j: int| 0 <= i < j < s.len() ==> s[i] != s[j],
    ensures
        forall|i: int, j: int|
            0 <= i < j < remove_indices_from(s, idxs, k).len() ==> remove_indices_from(
                s,
                idxs,
                k,
            )[i] != remove_indices_from(s, idxs, k)[j],
    decreases idxs.len() - k,
{
    if k < idxs.len() {
        lemma_remove_indices_from_ok(s, idxs, k + 1);
        lemma_remove_indices_from_distinct(s, idxs, k + 1);
        let inner = remove_indices_from(s, idxs, k + 1);
        let res = remove_indices_from(s, idxs, k);
        assert forall|i: int, j: int|
            0 <= i < j < res.len() implies res[i] != res[j] by {
            let ii = if i < idxs[k] {
                i
            } else {
                i + 1
            };
            let jj = if j < idxs[k] {
                j
            } else {
                j + 1
            };
            assert(res[i] == inner[ii]);
            assert(res[j] == inner[jj]);
        }
    }
}

/// An element survives the removal of one position unless it only sat
/// there.
proof fn lemma_seq_remove_keeps(t: Seq<u64>, p: int, x: u64)
    requires
        0 <= p < t.len(),
        t.contains(x),
        t[p] != x,
    ensures
        t.remove(p).contains(x),
{
    let j = choose|j: int| 0 <= j < t.len() && t[j] == x;
    if j < p {
        assert(t.remove(p)[j] == x);
    } else {
        assert(t.remove(p)[j - 1] == x);
    }
}

/// The position of `s` that the `j`-th element of
/// `remove_indices_from(s, idxs, k)` came from.
pub open spec fn orig_pos(idxs: Seq<usize>, k: int, j: int) -> int
    decreases idxs.len() - k,
{
    if k < 0 || k >= idxs.len() {
        j
    } else {
        orig_pos(
            idxs,
            k + 1,
            if j < idxs[k] {
                j
            } else {
                j + 1
            },
        )
    }
}

/// Each element of the pruned sequence is the unpruned sequence's element at a
/// position that was not removed; positions below the next removal are
/// untouched.
proof fn lemma_remove_indices_from_index(s: Seq<u64>, idxs: Seq<usize>, k: int, j: int)
    requires
        valid_indices(idxs, s.len()),
        0 <= k <= idxs.len(),
        0 <= j < remove_indices_from(s, idxs, k).len(),
    ensures
        j <= orig_pos(idxs, k, j) < s.len(),
        remove_indices_from(s, idxs, k)[j] == s[orig_pos(idxs, k, j)],
        forall|m: int| k <= m < idxs.len() ==> idxs[m] != orig_pos(idxs, k, j),
        k < idxs.len() && j < idxs[k] ==> orig_pos(idxs, k, j) == j,
    decreases idxs.len() - k,
{
    lemma_remove_indices_from_ok(s, idxs, k);
    if k < idxs.len() {
        lemma_remove_indices_from_ok(s, idxs, k + 1);
        let p = idxs[k] as int;
        let inner = remove_indices_from(s, idxs, k + 1);
        let jj: int = if j < p {
            j
        } else {
            j + 1
        };
        lemma_remove_indices_from_index(s, idxs, k + 1, jj);
        assert(remove_indices_from(s, idxs, k)[j] == inner[jj]);
        if jj < p {
            assert(orig_pos(idxs, k + 1, jj) == jj);
        }
    }
}

/// Pruning removes the listed positions only: every element at an
/// unlisted position survives.
proof fn lemma_remove_indices_from_keeps(s: Seq<u64>, idxs: Seq<usize>, k: int, i: int)
    requires
        valid_indices(idxs, s.len()),
        forall|a: int, b: int| 0 <= a < b < s.len() ==> s[a] != s[b],
        0 <= k <= idxs.len(),
        0 <= i < s.len(),
        forall|m: int| k <= m < idxs.len() ==> idxs[m] != i,
    ensures
        remove_indices_from(s, idxs, k).contains(s[i]),
    decreases idxs.len() - k,
{
    if k >= idxs.len() {
        assert(remove_indices_from(s, idxs, k)[i] == s[i]);
    } else {
        let p = idxs[k] as int;
        let inner = remove_indices_from(s, idxs, k + 1);
        lemma_remove_indices_from_ok(s, idxs, k + 1);
        lemma_remove_indices_from_keeps(s, idxs, k + 1, i);
        lemma_remove_indices_from_index(s, idxs, k + 1, p);
        assert(inner[p] == s[p]);
        assert(s[p] != s[i]);
        lemma_seq_remove_keeps(inner, p, s[i]);
    }
}

/// A delivery failure removes only the failed peers: after a pass whose
/// failed targets are pruned, the registry holds exactly the other
/// peers — each of them still present, each failed address gone, and
/// the count down by exactly the number of failures.
pub proof fn lemma_prune_removes_only_the_failed(r: Registry, failed: Seq<usize>)
    requires
        r.wf(),
        valid_indices(failed, r.peers@.len()),
    ensures
        ({
            let after = remove_indices(r.peers@, failed);
            &&& after.len() == r.peers@.len() - failed.len()
            &&& forall|i: int|
                0 <= i < r.peers@.len() && (forall|m: int|
                    0 <= m < failed.len() ==> failed[m] != i) ==> after.contains(
                    #[trigger] r.peers@[i],
                )
            &&& forall|m: int|
                0 <= m < failed.len() ==> !after.contains(#[trigger] r.peers@[failed[m] as int])
        }),
{
    let s = r.peers@;
    let after = remove_indices(s, failed);
    lemma_remove_indices_from_ok(s, failed, 0);
    assert forall|i: int|
        0 <= i < s.len() && (forall|m: int| 0 <= m < failed.len() ==> failed[m] != i) implies after
        .contains(#[trigger] s[i]) by {
        lemma_remove_indices_from_keeps(s, failed, 0, i);
    }
    assert forall|m: int|
        0 <= m < failed.len() implies !after.contains(#[trigger] s[failed[m] as int]) by {
        if after.contains(s[failed[m] as int]) {
            let j = choose|j: int| 0 <= j < after.len() && after[j] == s[failed[m] as int];
            lemma_remove_indices_from_index(s, failed, 0, j);
            let i = orig_pos(failed, 0, j);
            assert(s[i] == s[failed[m] as int]);
            assert(i == failed[m] as int);
        }
    }
}

/// Broadcast idempotence under failure: when one delivery among the
/// targets of a pass fails, pruning that one index leaves every other
/// peer registered, drops the count by exactly one, and no later pass
/// from any sender targets the failed address again.
pub proof fn lemma_broadcast_one_failure(r: Registry, j: usize)
    requires
        r.wf(),
        (j as int) < r.peers@.len(),
    ensures
        ({
            let after = remove_indices(r.peers@, seq![j]);
            &&& after.len() == r.peers@.len() - 1
            &&& after == r.peers@.remove(j as int)
            &&& !after.contains(r.peers@[j as int])
            &&& forall|x: u64| #[trigger] after.contains(x) ==> r.peers@.contains(x)
            &&& forall|sender: u64|
                !spec_targets(after, sender).contains(r.peers@[j as int])
        }),
{
    let s = r.peers@;
    let idxs: Seq<usize> = seq![j];
    assert(valid_indices(idxs, s.len()));
    let after = remove_indices(s, idxs);
    assert(remove_indices_from(s, idxs, 1) == s);
    assert(after == s.remove(j as int));
    lemma_remove_indices_from_subset(s, idxs, 0);
    assert(!after.contains(s[j as int])) by {
        if after.contains(s[j as int]) {
            let m = choose|m: int| 0 <= m < after.len() && after[m] == s[j as int];
            if m < j {
                assert(s[m] == s[j as int]);
            } else {
                assert(s[m + 1] == s[j as int]);
            }
        }
    }
    assert forall|sender: u64|
        !spec_targets(after, sender).contains(s[j as int]) by {
        lemma_filter_membership(after, |a: u64| a != sender);
        if spec_targets(after, sender).contains(s[j as int]) {
            assert(after.contains(s[j as int]));
        }
    }
}

/// A fan-out pass reaches exactly the registered peers other than the
/// sender: every one of them is targeted, the sender never is, and no
/// unregistered address ever is.
pub proof fn lemma_broadcast_reaches_every_other_peer(peers: Seq<u64>, sender: u64)
    ensures
        forall|x: u64|
            #[trigger] spec_targets(peers, sender).contains(x) <==> (peers.contains(x) && x
                != sender),
    decreases peers.len(),
{
    reveal(Seq::filter);
    if peers.len() == 0 {
        assert forall|x: u64|
            #[trigger] spec_targets(peers, sender).contains(x) implies (peers.contains(x) && x
                != sender) by {}
    } else {
        let butlast = peers.drop_last();
        lemma_broadcast_reaches_every_other_peer(butlast, sender);
        assert forall|x: u64|
            #[trigger] spec_targets(peers, sender).contains(x) implies (peers.contains(x) && x
                != sender) by {
            if spec_targets(butlast, sender).contains(x) {
                let j = choose|j: int| 0 <= j < butlast.len() && butlast[j] == x;
                assert(peers[j] == x);
            } else {
                assert(x == peers.last());
            }
        }
        assert forall|x: u64|
            peers.contains(x) && x != sender implies #[trigger] spec_targets(
            peers,
            sender,
        ).contains(x) by {
            let j = choose|j: int| 0 <= j < peers.len() && peers[j] == x;
            if j < peers.len() - 1 {
                assert(butlast[j] == x);
                assert(spec_targets(butlast, sender).contains(x));
                let m = choose|m: int|
                    0 <= m < spec_targets(butlast, sender).len() && spec_targets(
                        butlast,
                        sender,
                    )[m] == x;
                assert(spec_targets(peers, sender)[m] == x);
            } else {
                assert(x == peers.last());
                assert(spec_targets(peers, sender).last() == x);
            }
        }
    }
}

/// Join/leave round trip: joining a fresh address and immediately leaving
/// it restores the previous peer sequence exactly.
pub proof fn lemma_join_leave_round_trip(r: Registry, addr: u64)
    requires
        !r.spec_contains(addr),
    ensures
        r.peers@.push(addr).filter(|a: u64| a != addr) == r.peers@,
{
    reveal(Seq::filter);
    let s = r.peers@;
    let pushed = s.push(addr);
    assert(pushed.drop_last() =~= s);
    assert(pushed.last() == addr);
    assert forall|i: int| 0 <= i < s.len() implies (|a: u64| a != addr)(#[trigger] s[i]) by {
        if s[i] == addr {
            assert(s.contains(addr));
        }
    }
    lemma_filter_all(s, |a: u64| a != addr);
}

} // verus!
