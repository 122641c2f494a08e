//! The task registry: at most one in-flight execution per (operation,
//! destination) key, admission as an atomic check-and-set, and cooperative
//! cancellation that rotates the slot's token so a fired signal can never
//! leak into a later execution under the same key.

use vstd::prelude::*;
use tokio_util::sync::CancellationToken;

verus! {

/// Symbolic name of one version-control operation; half of a task key.
#[derive(Clone, Copy, PartialEq, Eq, Structural, Debug, Hash)]
pub enum OperationLabel {
    Status,
    Diff,
    DiscardAdds,
    DiscardOthers,
    Commit,
    Push,
    Pull,
    Fetch,
    PullPushCount,
    Log,
    Show,
    ShowFiles,
    ShowFileDiff,
    Branch,
    BranchCreate,
    BranchDelete,
    BranchCheckout,
    BranchMerge,
    CheckoutHash,
}

/// One admission slot: an operation and the destination its result goes to.
#[derive(Debug)]
pub struct TaskKey {
    pub operation: OperationLabel,
    pub destination: String,
}

pub struct TaskKeyView {
    pub operation: OperationLabel,
    pub destination: Seq<char>,
}

impl View for TaskKey {
    type V = TaskKeyView;

    open spec fn view(&self) -> TaskKeyView {
        TaskKeyView { operation: self.operation, destination: self.destination@ }
    }
}

fn key_eq(a: &TaskKey, b: &TaskKey) -> (r: bool)
    ensures
        r == (a@ == b@),
{
    let r = a.operation == b.operation && a.destination == b.destination;
    proof {
        if a.operation == b.operation && a.destination@ == b.destination@ {
            assert(a@ =~= b@);
        }
    }
    r
}

/// The state of one slot: whether an execution is in flight, the rotation
/// epoch of its token, and the token itself.
struct TaskEntry {
    key: TaskKey,
    running: bool,
    generation: u64,
    token: CancellationToken,
}

/// Index of the entry for key `k`, or -1 when there is none.
spec fn find_idx(s: Seq<TaskEntry>, k: TaskKeyView) -> int
    decreases s.len(),
{
    if s.len() == 0 {
        -1
    } else if s[0].key@ == k {
        0
    } else {
        let r = find_idx(s.drop_first(), k);
        if r == -1 {
            -1
        } else {
            1 + r
        }
    }
}

proof fn lemma_find_idx_props(s: Seq<TaskEntry>, k: TaskKeyView)
    ensures
        find_idx(s, k) == -1 || (0 <= find_idx(s, k) < s.len() && s[find_idx(s, k)].key@ == k),
    decreases s.len(),
{
    if s.len() == 0 {
    } else if s[0].key@ == k {
    } else {
        lemma_find_idx_props(s.drop_first(), k);
    }
}

proof fn lemma_find_idx_from_scan(s: Seq<TaskEntry>, k: TaskKeyView, i: int)
    requires
        0 <= i <= s.len(),
        forall|j: int| 0 <= j < i ==> s[j].key@ != k,
        i < s.len() ==> s[i].key@ == k,
    ensures
        i < s.len() ==> find_idx(s, k) == i,
        i == s.len() ==> find_idx(s, k) == -1,
    decreases i + 1,
{
    if s.len() == 0 {
    } else if s[0].key@ == k {
        assert(i == 0);
    } else {
        assert(i >= 1);
        let t = s.drop_first();
        assert(forall|j: int| 0 <= j < i - 1 ==> t[j] == s[j + 1] && t[j].key@ != k);
        if i - 1 < t.len() {
            assert(t[i - 1] == s[i as int]);
        }
        lemma_find_idx_from_scan(t, k, i - 1);
    }
}

proof fn lemma_find_idx_same_keys(s1: Seq<TaskEntry>, s2: Seq<TaskEntry>, k: TaskKeyView)
    requires
        s1.len() == s2.len(),
        forall|j: int| 0 <= j < s1.len() ==> s1[j].key@ == s2[j].key@,
    ensures
        find_idx(s1, k) == find_idx(s2, k),
    decreases s1.len(),
{
    if s1.len() == 0 {
    } else {
        let t1 = s1.drop_first();
        let t2 = s2.drop_first();
        assert(forall|j: int| 0 <= j < t1.len() ==> t1[j] == s1[j + 1] && t2[j] == s2[j + 1]);
        lemma_find_idx_same_keys(t1, t2, k);
    }
}

proof fn lemma_find_idx_push(s: Seq<TaskEntry>, e: TaskEntry, k: TaskKeyView)
    ensures
        find_idx(s, k) >= 0 ==> find_idx(s.push(e), k) == find_idx(s, k),
        find_idx(s, k) == -1 && e.key@ == k ==> find_idx(s.push(e), k) == s.len(),
        find_idx(s, k) == -1 && e.key@ != k ==> find_idx(s.push(e), k) == -1,
    decreases s.len(),
{
    let p = s.push(e);
    assert(p.len() == s.len() + 1);
    if s.len() == 0 {
        assert(p[0] == e);
        if e.key@ == k {
            assert(find_idx(p, k) == 0);
        } else {
            assert(p.drop_first() =~= Seq::<TaskEntry>::empty());
            assert(find_idx(p.drop_first(), k) == -1);
            assert(find_idx(p, k) == -1);
        }
    } else {
        assert(p[0] == s[0]);
        if s[0].key@ == k {
            assert(find_idx(s, k) == 0);
            assert(find_idx(p, k) == 0);
        } else {
            let sdf = s.drop_first();
            let r = find_idx(sdf, k);
            lemma_find_idx_props(sdf, k);
            assert(p.drop_first() =~= sdf.push(e));
            lemma_find_idx_push(sdf, e, k);
            let r2 = find_idx(sdf.push(e), k);
            assert(find_idx(p, k) == (if r2 == -1 {
                -1int
            } else {
                1 + r2
            }));
            if r >= 0 {
                assert(find_idx(s, k) == 1 + r);
                assert(r2 == r);
            } else {
                assert(find_idx(s, k) == -1);
                if e.key@ == k {
                    assert(r2 == sdf.len());
                    assert(find_idx(p, k) == s.len());
                } else {
                    assert(r2 == -1);
                    assert(find_idx(p, k) == -1);
                }
            }
        }
    }
}

/// What an admitted trigger receives: a clone of the slot's current token
/// and the rotation epoch it belongs to.
pub struct TaskGrant {
    pub token: CancellationToken,
    pub generation: u64,
}

/// Synchronous outcome of an admission request.
pub enum AdmitOutcome {
    Admitted(TaskGrant),
    Rejected,
}

/// The registry of admission slots. Entries are created lazily on first
/// admission and never removed.
pub struct TaskRegistry {
    entries: Vec<TaskEntry>,
}

impl TaskRegistry {
    /// A slot exists for `k` (it was admitted at least once).
    pub closed spec fn has_slot(self, k: TaskKeyView) -> bool {
        find_idx(self.entries@, k) >= 0
    }

    /// An execution for `k` is in flight.
    pub closed spec fn running_of(self, k: TaskKeyView) -> bool {
        let i = find_idx(self.entries@, k);
        i >= 0 && self.entries@[i].running
    }

    /// The rotation epoch of the token currently installed for `k`.
    pub closed spec fn gen_of(self, k: TaskKeyView) -> u64 {
        let i = find_idx(self.entries@, k);
        if i >= 0 {
            self.entries@[i].generation
        } else {
            0
        }
    }

    /// An admission request for `k` would succeed.
    pub open spec fn admit_accepts(self, k: TaskKeyView) -> bool {
        !self.running_of(k)
    }

    /// Every slot other than `k` reads the same in `post` as in `pre`.
    pub open spec fn slots_unchanged_except(pre: Self, post: Self, k: TaskKeyView) -> bool {
        forall|k2: TaskKeyView|
            k2 != k ==> post.running_of(k2) == pre.running_of(k2) && post.gen_of(k2) == pre.gen_of(
                k2,
            ) && post.has_slot(k2) == pre.has_slot(k2)
    }

    /// The effect of a successful admission for `k`.
    pub open spec fn admit_transition(pre: Self, post: Self, k: TaskKeyView) -> bool {
        &&& post.running_of(k)
        &&& post.has_slot(k)
        &&& post.gen_of(k) == pre.gen_of(k)
        &&& Self::slots_unchanged_except(pre, post, k)
    }

    /// The epoch installed by a rotation: the successor, wrapping at the
    /// top so that it always differs from its predecessor.
    pub open spec fn next_generation(g: u64) -> u64 {
        if g == u64::MAX {
            0
        } else {
            (g + 1) as u64
        }
    }

    /// The effect of a successful cancellation for `k`.
    pub open spec fn cancel_transition(pre: Self, post: Self, k: TaskKeyView) -> bool {
        &&& !post.running_of(k)
        &&& post.has_slot(k)
        &&& post.gen_of(k) == Self::next_generation(pre.gen_of(k))
        &&& Self::slots_unchanged_except(pre, post, k)
    }

    /// An empty registry: no slot exists and nothing is running.
    pub fn new() -> (r: TaskRegistry)
        ensures
            forall|k: TaskKeyView| !r.has_slot(k) && !r.running_of(k) && r.gen_of(k) == 0,
    {
        let r = TaskRegistry { entries: Vec::new() };
        proof {
            assert forall|k: TaskKeyView|
                !r.has_slot(k) && !r.running_of(k) && r.gen_of(k) == 0 by {
                assert(find_idx(r.entries@, k) == -1);
            }
        }
        r
    }

    fn find(&self, key: &TaskKey) -> (r: Option<usize>)
        ensures
            r matches Some(i) ==> i < self.entries@.len() && find_idx(self.entries@, key@)
                == i && self.entries@[i as int].key@ == key@,
            r is None ==> find_idx(self.entries@, key@) == -1,
    {
        let mut i: usize = 0;
        while i < self.entries.len()
            invariant
                i <= self.entries@.len(),
                forall|j: int| 0 <= j < i ==> self.entries@[j].key@ != key@,
            decreases self.entries@.len() - i,
        {
            if key_eq(&self.entries[i].key, key) {
                proof {
                    lemma_find_idx_from_scan(self.entries@, key@, i as int);
                }
                return Some(i);
            }
            i += 1;
        }
        proof {
            lemma_find_idx_from_scan(self.entries@, key@, i as int);
        }
        None
    }

    /// Race-tolerant snapshot: whether an execution for `key` is in flight
    /// right now.
    pub fn is_running(&self, key: &TaskKey) -> (r: bool)
        ensures
            r == self.running_of(key@),
    {
        match self.find(key) {
            Some(i) => self.entries[i].running,
            None => false,
        }
    }

    /// Atomic check-and-set admission: rejected without any change when an
    /// execution for `key` is in flight, otherwise the slot starts running
    /// and the caller receives a clone of the slot's current token together
    /// with its epoch.
    pub fn admit_task(&mut self, key: &TaskKey) -> (r: AdmitOutcome)
        ensures
            old(self).running_of(key@) ==> r is Rejected && *final(self) == *old(self),
            !old(self).running_of(key@) ==> r is Admitted && Self::admit_transition(
                *old(self),
                *final(self),
                key@,
            ),
            (r matches AdmitOutcome::Admitted(g) ==> g.generation == old(self).gen_of(key@)),
    {
        match self.find(key) {
            Some(i) => {
                if self.entries[i].running {
                    return AdmitOutcome::Rejected;
                }
                let grant_token = self.entries[i].token.clone();
                let generation = self.entries[i].generation;
                let ghost pre = *self;
                let e = &mut self.entries[i];
                e.running = true;
                proof {
                    let s1 = pre.entries@;
                    let s2 = self.entries@;
                    assert(forall|j: int| 0 <= j < s1.len() ==> s1[j].key@ == s2[j].key@);
                    assert forall|k2: TaskKeyView| find_idx(s2, k2) == find_idx(s1, k2) by {
                        lemma_find_idx_same_keys(s1, s2, k2);
                    }
                    assert forall|k2: TaskKeyView| k2 != key@ implies self.running_of(k2)
                        == pre.running_of(k2) && self.gen_of(k2) == pre.gen_of(k2) && self.has_slot(
                        k2,
                    ) == pre.has_slot(k2) by {
                        lemma_find_idx_props(s1, k2);
                        if find_idx(s1, k2) == i {
                            assert(s1[i as int].key@ == k2);
                        }
                    }
                }
                AdmitOutcome::Admitted(TaskGrant { token: grant_token, generation })
            },
            None => {
                let token = CancellationToken::new();
                let grant_token = token.clone();
                let ghost pre = *self;
                let entry = TaskEntry {
                    key: TaskKey {
                        operation: key.operation,
                        destination: key.destination.clone(),
                    },
                    running: true,
                    generation: 0,
                    token,
                };
                proof {
                    assert(entry.key@ =~= key@);
                }
                self.entries.push(entry);
                proof {
                    let s1 = pre.entries@;
                    let s2 = self.entries@;
                    assert(s2 == s1.push(entry));
                    lemma_find_idx_push(s1, entry, key@);
                    assert(find_idx(s2, key@) == s1.len());
                    assert forall|k2: TaskKeyView| k2 != key@ implies self.running_of(k2)
                        == pre.running_of(k2) && self.gen_of(k2) == pre.gen_of(k2) && self.has_slot(
                        k2,
                    ) == pre.has_slot(k2) by {
                        lemma_find_idx_push(s1, entry, k2);
                        lemma_find_idx_props(s1, k2);
                    }
                }
                AdmitOutcome::Admitted(TaskGrant { token: grant_token, generation: 0 })
            },
        }
    }

    /// Marks the slot idle. Idempotent: on a key that is not running it
    /// changes nothing, and it never creates a slot.
    pub fn release(&mut self, key: &TaskKey)
        ensures
            !final(self).running_of(key@),
            !old(self).running_of(key@) ==> *final(self) == *old(self),
            final(self).has_slot(key@) == old(self).has_slot(key@),
            final(self).gen_of(key@) == old(self).gen_of(key@),
            Self::slots_unchanged_except(*old(self), *final(self), key@),
    {
        match self.find(key) {
            Some(i) => {
                if !self.entries[i].running {
                    return;
                }
                let ghost pre = *self;
                let e = &mut self.entries[i];
                e.running = false;
                proof {
                    let s1 = pre.entries@;
                    let s2 = self.entries@;
                    assert(forall|j: int| 0 <= j < s1.len() ==> s1[j].key@ == s2[j].key@);
                    assert forall|k2: TaskKeyView| find_idx(s2, k2) == find_idx(s1, k2) by {
                        lemma_find_idx_same_keys(s1, s2, k2);
                    }
                    assert forall|k2: TaskKeyView| k2 != key@ implies self.running_of(k2)
                        == pre.running_of(k2) && self.gen_of(k2) == pre.gen_of(k2) && self.has_slot(
                        k2,
                    ) == pre.has_slot(k2) by {
                        lemma_find_idx_props(s1, k2);
                        if find_idx(s1, k2) == i {
                            assert(s1[i as int].key@ == k2);
                        }
                    }
                }
            },
            None => {},
        }
    }

    /// Cancels the in-flight execution for `key`, if any: fires the slot's
    /// token, marks the slot idle and installs a brand-new token under the
    /// next epoch. On a key that is not running it reports `false` and has
    /// no effect at all.
    pub fn cancel(&mut self, key: &TaskKey) -> (r: bool)
        ensures
            r == old(self).running_of(key@),
            !old(self).running_of(key@) ==> *final(self) == *old(self),
            old(self).running_of(key@) ==> Self::cancel_transition(*old(self), *final(self), key@),
    {
        match self.find(key) {
            Some(i) => {
                if !self.entries[i].running {
                    return false;
                }
                self.entries[i].token.cancel();
                let fresh = CancellationToken::new();
                let ghost pre = *self;
                let e = &mut self.entries[i];
                e.running = false;
                e.token = fresh;
                e.generation = if e.generation == u64::MAX {
                    0
                } else {
                    e.generation + 1
                };
                proof {
                    let s1 = pre.entries@;
                    let s2 = self.entries@;
                    assert(forall|j: int| 0 <= j < s1.len() ==> s1[j].key@ == s2[j].key@);
                    assert forall|k2: TaskKeyView| find_idx(s2, k2) == find_idx(s1, k2) by {
                        lemma_find_idx_same_keys(s1, s2, k2);
                    }
                    assert forall|k2: TaskKeyView| k2 != key@ implies self.running_of(k2)
                        == pre.running_of(k2) && self.gen_of(k2) == pre.gen_of(k2) && self.has_slot(
                        k2,
                    ) == pre.has_slot(k2) by {
                        lemma_find_idx_props(s1, k2);
                        if find_idx(s1, k2) == i {
                            assert(s1[i as int].key@ == k2);
                        }
                    }
                }
                true
            },
            None => false,
        }
    }
}

/// Of concurrent admissions for one key, linearized by the registry's lock,
/// exactly the first succeeds: a successful admission leaves the slot
/// running, so the registry rejects every further admission for that key,
/// and a rejection changes nothing, so it keeps rejecting until the slot is
/// released or cancelled.
pub proof fn lemma_admission_exclusive(pre: TaskRegistry, post: TaskRegistry, k: TaskKeyView)
    requires
        TaskRegistry::admit_transition(pre, post, k),
    ensures
        !post.admit_accepts(k),
{
}

/// After a successful cancellation the key admits again at once, and the
/// new grant belongs to a different epoch than the cancelled one: the fired
/// token of the old generation was replaced before any new admission, so
/// firing it again cannot reach the new execution.
pub proof fn lemma_cancel_rotates(pre: TaskRegistry, post: TaskRegistry, k: TaskKeyView)
    requires
        TaskRegistry::cancel_transition(pre, post, k),
    ensures
        post.admit_accepts(k),
        post.gen_of(k) != pre.gen_of(k),
{
}

} // verus!

