//! The identity-keyed handle registry with single-flight creation and
//! per-handle exclusive guards.
//!
//! The pool maps a stable identity key to one reusable handle.  First
//! access under a key installs a pending marker and asks exactly one caller
//! to create the handle; every concurrent caller for the same key joins
//! that pending creation instead of racing to its own, so one key never
//! yields two handles.  A slot also carries a holder count for outstanding
//! entries and an active flag for the one guard that may operate on the
//! handle at a time; removal defers teardown until the last holder lets go.
//!
//! The module states the registry as a transition system over a sequence of
//! [`SlotModel`]s: each `spec_*` function says exactly what one operation
//! does, the executable methods are proved to follow them, and the public
//! lemmas derive the single-flight, mutual-exclusion and reuse laws from
//! the transitions alone.

use vstd::prelude::*;

use crate::Error;
use crate::status::Status;
use crate::tag::RawTag;
use crate::tag::TagModel;
use crate::tag::tag_after_connect;
use crate::tag::tag_after_write;
use crate::tag::tag_created;
use crate::tag::tag_read_result;
use crate::tag::tag_status;
use crate::tag::tag_write_err;
use crate::tag::tag_write_ok;
use crate::tag::spec_is_system;

verus! {

/// Where one registry slot stands: creation still in flight, a usable
/// handle installed, or torn down.
pub enum SlotStateModel {
    Pending,
    Ready(TagModel),
    Closed,
}

/// Mathematical model of one registry slot.
#[verifier::ext_equal]
pub struct SlotModel {
    /// The identity key the slot is registered under.
    pub key: Seq<char>,
    /// Creation state, and the handle once created.
    pub st: SlotStateModel,
    /// Whether a guard is currently acquired for this handle.
    pub active: bool,
    /// Outstanding entry holders; the slot is torn down only at zero.
    pub holders: nat,
    /// Marked by a removal that found holders still outstanding.
    pub removed: bool,
}

/// A slot still answers for its key while creation is in flight or the
/// handle is installed; a closed slot frees the key.
pub open spec fn slot_live(s: SlotModel) -> bool {
    s.st is Pending || s.st is Ready
}

/// The handle a ready slot carries.
pub open spec fn slot_tag(s: SlotModel) -> TagModel {
    match s.st {
        SlotStateModel::Ready(t) => t,
        _ => arbitrary(),
    }
}

/// Well-formedness of one slot: a guard only on an installed handle, a
/// pending marker held by exactly its one creator, deferred removal only
/// while holders remain, and nothing outstanding on a closed slot.
pub open spec fn slot_wf(s: SlotModel) -> bool {
    &&& (s.st matches SlotStateModel::Ready(t) ==> t.wf())
    &&& (s.active ==> s.st is Ready)
    &&& (s.removed ==> s.st is Ready && (s.holders >= 1 || s.active))
    &&& (s.st is Pending ==> s.holders == 1 && !s.active && !s.removed)
    &&& (s.st is Closed ==> s.holders == 0 && !s.active && !s.removed)
}

/// Well-formedness of the registry: every slot well formed, and at most
/// one live slot per identity key.
pub open spec fn pool_wf(p: Seq<SlotModel>) -> bool {
    &&& (forall|i: int| 0 <= i < p.len() ==> slot_wf(#[trigger] p[i]))
    &&& (forall|i: int, j: int|
        #![trigger p[i], p[j]]
        0 <= i < p.len() && 0 <= j < p.len() && i != j && slot_live(p[i]) && slot_live(p[j])
            ==> p[i].key != p[j].key)
}

/// Whether some live slot answers for `key`.
pub open spec fn has_live_key(p: Seq<SlotModel>, key: Seq<char>) -> bool {
    exists|i: int| 0 <= i < p.len() && slot_live(#[trigger] p[i]) && p[i].key == key
}

/// The index of the live slot for `key`; unique in a well-formed pool.
pub open spec fn live_index(p: Seq<SlotModel>, key: Seq<char>) -> int {
    choose|i: int| 0 <= i < p.len() && slot_live(#[trigger] p[i]) && p[i].key == key
}

/// The pending marker installed for a first accessor, who is its one
/// holder until creation finishes or is aborted.
pub open spec fn fresh_pending(key: Seq<char>) -> SlotModel {
    SlotModel {
        key,
        st: SlotStateModel::Pending,
        active: false,
        holders: 1,
        removed: false,
    }
}

/// The first step of pool access, told apart for the caller: attach to an
/// installed handle, create the handle for a marker just installed, or
/// join a creation some other caller already has in flight.
#[derive(Clone, Copy, Debug, PartialEq, Eq, Structural)]
pub enum Begin {
    Attach(usize),
    MustCreate(usize),
    Join(usize),
}

/// The slot index a begin outcome names.
pub open spec fn begin_index(b: Begin) -> int {
    match b {
        Begin::Attach(i) => i as int,
        Begin::MustCreate(i) => i as int,
        Begin::Join(i) => i as int,
    }
}

/// What beginning access under `key` does.  An installed handle's slot is
/// named for attaching; a pending slot is joined; an unseen key gets a
/// fresh pending marker, whose one caller must perform the creation and is
/// counted as its holder.  Only the last case changes the registry: a
/// holder is taken by `spec_attach`, not here.
pub open spec fn spec_begin(p: Seq<SlotModel>, key: Seq<char>) -> (Seq<SlotModel>, Begin) {
    if has_live_key(p, key) {
        let i = live_index(p, key);
        if p[i].st is Pending {
            (p, Begin::Join(i as usize))
        } else {
            (p, Begin::Attach(i as usize))
        }
    } else {
        (p.push(fresh_pending(key)), Begin::MustCreate(p.len() as usize))
    }
}

/// What attaching to an installed handle does: its slot gains one holder.
pub open spec fn spec_attach(p: Seq<SlotModel>, i: int) -> Seq<SlotModel> {
    p.update(i, SlotModel { holders: p[i].holders + 1, ..p[i] })
}

/// What finishing a creation does: the pending slot's marker becomes the
/// created handle, published to everyone who joined.
pub open spec fn spec_finish(p: Seq<SlotModel>, i: int, t: TagModel) -> Seq<SlotModel> {
    p.update(i, SlotModel { st: SlotStateModel::Ready(t), ..p[i] })
}

/// What aborting a creation does: the pending marker is withdrawn, so a
/// later access under the key retries creation from scratch.
pub open spec fn spec_abort(p: Seq<SlotModel>, i: int) -> Seq<SlotModel> {
    p.update(i, SlotModel { st: SlotStateModel::Closed, holders: 0, ..p[i] })
}

/// Whether a guard can be acquired for slot `i`: the handle is installed
/// and no other guard is active.
pub open spec fn spec_acquire_ok(p: Seq<SlotModel>, i: int) -> bool {
    0 <= i < p.len() && p[i].st is Ready && !p[i].active
}

/// What a successful acquire does: the slot's one active flag is taken.
pub open spec fn spec_acquire(p: Seq<SlotModel>, i: int) -> Seq<SlotModel> {
    p.update(i, SlotModel { active: true, ..p[i] })
}

/// What releasing the guard does: the active flag is returned, unblocking
/// the next acquirer.  A guard counts as a holder: when it was the last
/// reference to a slot marked for removal, releasing it tears the slot
/// down.
pub open spec fn spec_release(p: Seq<SlotModel>, i: int) -> Seq<SlotModel> {
    if p[i].removed && p[i].holders == 0 {
        p.update(
            i,
            SlotModel {
                st: SlotStateModel::Closed,
                active: false,
                holders: 0,
                removed: false,
                ..p[i]
            },
        )
    } else {
        p.update(i, SlotModel { active: false, ..p[i] })
    }
}

/// What a connect attempt through the guard does to the slot's handle.
pub open spec fn spec_connect(p: Seq<SlotModel>, i: int) -> Seq<SlotModel> {
    p.update(
        i,
        SlotModel { st: SlotStateModel::Ready(tag_after_connect(slot_tag(p[i]))), ..p[i] },
    )
}

/// What a write through the guard does to the slot's handle.
pub open spec fn spec_write(p: Seq<SlotModel>, i: int, offset: int, value: i32) -> Seq<
    SlotModel,
> {
    p.update(
        i,
        SlotModel {
            st: SlotStateModel::Ready(tag_after_write(slot_tag(p[i]), offset, value)),
            ..p[i]
        },
    )
}

/// What a read through the guard returns.
pub open spec fn spec_read_result(p: Seq<SlotModel>, i: int, offset: int) -> Result<
    i32,
    Status,
> {
    tag_read_result(slot_tag(p[i]), offset)
}

/// Whether guard token state `i` is currently held on pool `p`.
pub open spec fn holds_guard(p: Seq<SlotModel>, i: int) -> bool {
    0 <= i < p.len() && p[i].st is Ready && p[i].active
}

/// Replacing a slot by a well-formed one under the same key, without
/// reviving a dead slot, keeps the registry well formed.
proof fn lemma_wf_update(p: Seq<SlotModel>, i: int, s: SlotModel)
    requires
        pool_wf(p),
        0 <= i < p.len(),
        slot_wf(s),
        s.key == p[i].key,
        slot_live(s) ==> slot_live(p[i]),
    ensures
        pool_wf(p.update(i, s)),
{
}

/// Appending a well-formed slot under an unseen key keeps the registry
/// well formed.
proof fn lemma_wf_push(p: Seq<SlotModel>, s: SlotModel)
    requires
        pool_wf(p),
        slot_wf(s),
        !has_live_key(p, s.key),
    ensures
        pool_wf(p.push(s)),
{
    let q = p.push(s);
    assert forall|i: int, j: int|
        #![trigger q[i], q[j]]
        0 <= i < q.len() && 0 <= j < q.len() && i != j && slot_live(q[i]) && slot_live(
            q[j],
        ) implies q[i].key != q[j].key by {
        if i == p.len() && 0 <= j < p.len() {
            if q[j].key == s.key {
                assert(slot_live(p[j]) && p[j].key == s.key);
                assert(has_live_key(p, s.key));
            }
        }
        if j == p.len() && 0 <= i < p.len() {
            if q[i].key == s.key {
                assert(slot_live(p[i]) && p[i].key == s.key);
                assert(has_live_key(p, s.key));
            }
        }
    }
}

/// Single-flight creation: on an unseen key exactly one caller is asked to
/// create.  While that creation is in flight every further access joins
/// the same pending slot and changes nothing, and once the creation
/// finishes every further access attaches to that same slot — so one key
/// never yields two handles.
pub proof fn lemma_single_flight(p: Seq<SlotModel>, key: Seq<char>, t: TagModel)
    requires
        pool_wf(p),
        !has_live_key(p, key),
        p.len() < usize::MAX,
    ensures
        ({
            let (p1, b1) = spec_begin(p, key);
            let (p2, b2) = spec_begin(p1, key);
            let p3 = spec_finish(p1, begin_index(b1), t);
            let (p4, b3) = spec_begin(p3, key);
            &&& b1 is MustCreate && begin_index(b1) == p.len()
            &&& b2 is Join && begin_index(b2) == begin_index(b1) && p2 == p1
            &&& b3 is Attach && begin_index(b3) == begin_index(b1)
        }),
{
    let (p1, b1) = spec_begin(p, key);
    let n = p.len() as int;
    assert(slot_live(p1[n]) && p1[n].key == key);
    assert(has_live_key(p1, key));
    let i1 = live_index(p1, key);
    if i1 != n {
        assert(slot_live(p[i1]) && p[i1].key == key);
        assert(has_live_key(p, key));
    }
    let p3 = spec_finish(p1, n, t);
    assert(slot_live(p3[n]) && p3[n].key == key);
    assert(has_live_key(p3, key));
    let i3 = live_index(p3, key);
    if i3 != n {
        assert(slot_live(p[i3]) && p[i3].key == key);
        assert(has_live_key(p, key));
    }
}

/// A failed creation is not remembered: aborting the pending marker frees
/// the key, and the next access under it is asked to create from scratch.
pub proof fn lemma_failed_creation_retries(p: Seq<SlotModel>, key: Seq<char>)
    requires
        pool_wf(p),
        !has_live_key(p, key),
        p.len() + 1 < usize::MAX,
    ensures
        ({
            let (p1, b1) = spec_begin(p, key);
            let p2 = spec_abort(p1, begin_index(b1));
            &&& spec_begin(p2, key).1 is MustCreate
            &&& !has_live_key(p2, key)
        }),
{
    let (p1, b1) = spec_begin(p, key);
    let p2 = spec_abort(p1, begin_index(b1));
    if has_live_key(p2, key) {
        let i = live_index(p2, key);
        assert(slot_live(p2[i]) && p2[i].key == key);
        assert(slot_live(p[i]) && p[i].key == key);
        assert(has_live_key(p, key));
    }
}

/// Mutual exclusion: once a guard is acquired for a handle, no further
/// acquire succeeds for that handle until the guard is released — and
/// releasing it lets the next acquire succeed.
pub proof fn lemma_mutual_exclusion(p: Seq<SlotModel>, i: int)
    requires
        pool_wf(p),
        spec_acquire_ok(p, i),
    ensures
        !spec_acquire_ok(spec_acquire(p, i), i),
        spec_acquire_ok(spec_release(spec_acquire(p, i), i), i),
{
}

/// Reuse persistence: a value written through one acquisition is exactly
/// what a read through a later acquisition of the same identity returns;
/// release and reacquire lose nothing.
pub proof fn lemma_reuse_persistence(p: Seq<SlotModel>, i: int, offset: usize, value: i32)
    requires
        pool_wf(p),
        spec_acquire_ok(p, i),
        slot_tag(p[i]).connected,
        (offset as int) < slot_tag(p[i]).cells.len(),
    ensures
        ({
            let p1 = spec_acquire(p, i);
            let p2 = spec_write(p1, i, offset as int, value);
            let p3 = spec_release(p2, i);
            &&& spec_acquire_ok(p3, i)
            &&& spec_read_result(spec_acquire(p3, i), i, offset as int) == Result::<
                i32,
                Status,
            >::Ok(value)
        }),
{
}

/// An outstanding claim on one pooled handle, returned by `entry`.  It
/// counts as a holder until given back through `release_entry`.
#[derive(Debug)]
pub struct PoolEntry {
    id: usize,
}

impl PoolEntry {
    /// The slot index this entry holds.
    pub closed spec fn spec_id(self) -> int {
        self.id as int
    }

    /// The slot index this entry holds.
    pub fn id(&self) -> (i: usize)
        ensures
            i as int == self.spec_id(),
    {
        self.id
    }
}

/// The exclusive-access token over one pooled handle: while it exists, it
/// is the sole path through which connect, read, write and status reach
/// the handle.  It is created only by a successful `acquire` and consumed
/// by `release`.
#[derive(Debug)]
pub struct TagRef {
    id: usize,
}

impl TagRef {
    /// The slot index this guard is bound to.
    pub closed spec fn spec_id(self) -> int {
        self.id as int
    }

    /// The slot index this guard is bound to.
    pub fn id(&self) -> (i: usize)
        ensures
            i as int == self.spec_id(),
    {
        self.id
    }
}

/// One registry slot: the identity key, the creation state with the handle
/// once installed, the guard flag, the holder count and the deferred
/// removal mark.
struct Slot {
    key: String,
    st: SlotState,
    active: bool,
    holders: u64,
    removed: bool,
}

enum SlotState {
    Pending,
    Ready(RawTag),
    Closed,
}

impl View for Slot {
    type V = SlotModel;

    closed spec fn view(&self) -> SlotModel {
        SlotModel {
            key: self.key@,
            st: match self.st {
                SlotState::Pending => SlotStateModel::Pending,
                SlotState::Ready(t) => SlotStateModel::Ready(t@),
                SlotState::Closed => SlotStateModel::Closed,
            },
            active: self.active,
            holders: self.holders as nat,
            removed: self.removed,
        }
    }
}

/// The identity-keyed registry of reusable handles.  The model is the
/// sequence of slot models, in insertion order.
pub struct Pool {
    slots: Vec<Slot>,
}

impl View for Pool {
    type V = Seq<SlotModel>;

    closed spec fn view(&self) -> Seq<SlotModel> {
        self.slots@.map_values(|s: Slot| s@)
    }
}

impl Pool {
    /// Well-formedness of the whole registry.
    pub open spec fn wf(&self) -> bool {
        pool_wf(self@)
    }

    /// An empty registry.
    pub fn new() -> (p: Pool)
        ensures
            p@ == Seq::<SlotModel>::empty(),
            p.wf(),
    {
        let p = Pool { slots: Vec::new() };
        proof {
            assert(p@ =~= Seq::<SlotModel>::empty());
        }
        p
    }

    /// The live slot answering for `key`, if any.
    fn find_live(&self, key: &String) -> (r: Option<usize>)
        requires
            self.wf(),
        ensures
            match r {
                Some(i) => has_live_key(self@, key@) && live_index(self@, key@) == i as int
                    && i < self@.len(),
                None => !has_live_key(self@, key@),
            },
    {
        let n = self.slots.len();
        let mut i: usize = 0;
        while i < n
            invariant
                self.wf(),
                n == self@.len(),
                0 <= i <= n,
                forall|j: int|
                    0 <= j < i ==> !(slot_live(#[trigger] self@[j]) && self@[j].key == key@),
            decreases n - i,
        {
            let live = match self.slots[i].st {
                SlotState::Pending => true,
                SlotState::Ready(_) => true,
                SlotState::Closed => false,
            };
            if live && self.slots[i].key == *key {
                proof {
                    assert(slot_live(self@[i as int]) && self@[i as int].key == key@);
                    let w = live_index(self@, key@);
                    if w != i as int {
                        assert(slot_live(self@[w]) && self@[w].key == key@);
                    }
                }
                return Some(i);
            }
            i += 1;
        }
        None
    }

    /// Begins access under `path` as both identity key and descriptor: an
    /// installed handle's slot is named for attaching, a creation already
    /// in flight is joined, or — on an unseen key — a pending marker is
    /// installed and this one caller is asked to create.
    pub fn entry_begin(&mut self, path: &str) -> (b: Begin)
        requires
            old(self).wf(),
        ensures
            final(self).wf(),
            final(self)@ == spec_begin(old(self)@, path@).0,
            b == spec_begin(old(self)@, path@).1,
    {
        let owned = path.to_owned();
        match self.find_live(&owned) {
            Some(i) => {
                let ghost p = self@;
                match self.slots[i].st {
                    SlotState::Pending => Begin::Join(i),
                    SlotState::Closed => {
                        proof {
                            assert(false);
                        }
                        Begin::Join(i)
                    },
                    SlotState::Ready(_) => Begin::Attach(i),
                }
            },
            None => {
                let ghost p = self@;
                let n = self.slots.len();
                self.slots.push(
                    Slot {
                        key: owned,
                        st: SlotState::Pending,
                        active: false,
                        holders: 1,
                        removed: false,
                    },
                );
                proof {
                    lemma_wf_push(p, fresh_pending(path@));
                    assert(self@ =~= spec_begin(p, path@).0);
                }
                Begin::MustCreate(n)
            },
        }
    }

    /// Takes a holder's claim on the installed handle at slot `id`, as a
    /// begin outcome named it.  Answers `None` when no handle is installed
    /// there (the slot was meanwhile torn down or is still pending), and
    /// fails only when the slot's holder counter is saturated, a machine
    /// limit.
    pub fn attach(&mut self, id: usize) -> (r: Result<Option<PoolEntry>, Error>)
        requires
            old(self).wf(),
        ensures
            final(self).wf(),
            match r {
                Result::Ok(Some(e)) => e.spec_id() == id as int && (id as int) < old(
                    self,
                )@.len() && old(self)@[id as int].st is Ready && final(self)@ == spec_attach(
                    old(self)@,
                    id as int,
                ),
                Result::Ok(None) => final(self)@ == old(self)@ && !((id as int) < old(
                    self,
                )@.len() && old(self)@[id as int].st is Ready),
                Result::Err(e) => e is Other && final(self)@ == old(self)@ && (id as int) < old(
                    self,
                )@.len() && old(self)@[id as int].st is Ready && old(self)@[id as int].holders
                    == u64::MAX,
            },
    {
        if id >= self.slots.len() {
            return Ok(None);
        }
        let ready = matches!(self.slots[id].st, SlotState::Ready(_));
        if !ready {
            return Ok(None);
        }
        if self.slots[id].holders == u64::MAX {
            return Err(Error::Other("pool holder count saturated".to_owned()));
        }
        let ghost p = self@;
        let ghost ii = id as int;
        self.slots[id].holders = self.slots[id].holders + 1;
        proof {
            lemma_wf_update(p, ii, SlotModel { holders: p[ii].holders + 1, ..p[ii] });
            assert(self@ =~= spec_attach(p, ii));
        }
        Ok(Some(PoolEntry { id }))
    }

    /// Publishes a created handle into the pending slot the creator was
    /// given, making it the one handle every waiter and later caller gets,
    /// and returns the creator's own entry — the holder counted since the
    /// marker was installed.
    pub fn entry_finish(&mut self, id: usize, tag: RawTag) -> (e: PoolEntry)
        requires
            old(self).wf(),
            (id as int) < old(self)@.len(),
            old(self)@[id as int].st is Pending,
            tag@.wf(),
        ensures
            final(self).wf(),
            final(self)@ == spec_finish(old(self)@, id as int, tag@),
            e.spec_id() == id as int,
    {
        let ghost p = self@;
        let ghost ii = id as int;
        self.slots[id].st = SlotState::Ready(tag);
        proof {
            lemma_wf_update(p, ii, SlotModel { st: self@[ii].st, ..p[ii] });
            assert(self@ =~= spec_finish(p, ii, tag@));
        }
        PoolEntry { id }
    }

    /// Whether slot `id` still holds the pending marker: the creator's
    /// check before publishing or aborting a creation.
    pub fn pending_at(&self, id: usize) -> (r: bool)
        ensures
            r == ((id as int) < self@.len() && self@[id as int].st is Pending),
    {
        if id >= self.slots.len() {
            return false;
        }
        matches!(self.slots[id].st, SlotState::Pending)
    }

    /// Withdraws the pending marker after a failed creation, so that a
    /// later access under the same key retries creation from scratch.
    pub fn entry_abort(&mut self, id: usize)
        requires
            old(self).wf(),
            (id as int) < old(self)@.len(),
            old(self)@[id as int].st is Pending,
        ensures
            final(self).wf(),
            final(self)@ == spec_abort(old(self)@, id as int),
    {
        let ghost p = self@;
        let ghost ii = id as int;
        self.slots[id].st = SlotState::Closed;
        self.slots[id].holders = 0;
        proof {
            lemma_wf_update(p, ii, SlotModel { st: SlotStateModel::Closed, holders: 0, ..p[ii] });
            assert(self@ =~= spec_abort(p, ii));
        }
    }

    /// Resolves `path` to an entry in one call, creating the handle when
    /// the key is unseen: the synchronous face of `entry_begin` and
    /// `entry_finish`.  It cannot wait, so it reports a creation another
    /// caller still has in flight as an error, like the saturated counter.
    pub fn entry(&mut self, path: &str) -> (r: Result<PoolEntry, Error>)
        requires
            old(self).wf(),
        ensures
            final(self).wf(),
            match r {
                Result::Ok(e) => {
                    let (p1, b) = spec_begin(old(self)@, path@);
                    &&& !(b is Join)
                    &&& e.spec_id() == begin_index(b)
                    &&& (b is Attach ==> final(self)@ == spec_attach(old(self)@, begin_index(b)))
                    &&& (b is MustCreate ==> final(self)@ == spec_finish(
                        p1,
                        begin_index(b),
                        tag_created(spec_is_system(path@)),
                    ))
                },
                Result::Err(e) => e is Other && final(self)@ == old(self)@ && has_live_key(
                    old(self)@,
                    path@,
                ) && (old(self)@[live_index(old(self)@, path@)].st is Pending || old(
                    self,
                )@[live_index(old(self)@, path@)].holders == u64::MAX),
            },
    {
        let n0 = self.slots.len();
        proof {
            assert(old(self)@.len() == n0);
        }
        match self.entry_begin(path) {
            Begin::Attach(i) => {
                match self.attach(i)? {
                    Some(e) => Ok(e),
                    None => {
                        proof {
                            assert(false);
                        }
                        Err(Error::Other("handle vanished before attach".to_owned()))
                    },
                }
            },
            Begin::MustCreate(i) => {
                proof {
                    assert(!has_live_key(old(self)@, path@));
                    assert(i == n0);
                    assert(self@[i as int] == fresh_pending(path@));
                }
                let tag = RawTag::new(path);
                Ok(self.entry_finish(i, tag))
            },
            Begin::Join(_) => Err(
                Error::Other("creation already in flight for this key".to_owned()),
            ),
        }
    }

    /// Acquires the exclusive guard for the entry's handle, or reports that
    /// another guard is active (or the slot holds no handle) by `None` —
    /// the caller's cue to wait and retry.
    pub fn acquire(&mut self, e: &PoolEntry) -> (r: Option<TagRef>)
        requires
            old(self).wf(),
        ensures
            final(self).wf(),
            r is Some <==> spec_acquire_ok(old(self)@, e.spec_id()),
            match r {
                Some(g) => g.spec_id() == e.spec_id() && final(self)@ == spec_acquire(
                    old(self)@,
                    e.spec_id(),
                ) && holds_guard(final(self)@, g.spec_id()),
                None => final(self)@ == old(self)@,
            },
    {
        let ghost p = self@;
        if e.id >= self.slots.len() {
            return None;
        }
        let ready = matches!(self.slots[e.id].st, SlotState::Ready(_));
        if !ready || self.slots[e.id].active {
            return None;
        }
        self.slots[e.id].active = true;
        proof {
            let ii = e.spec_id();
            lemma_wf_update(p, ii, SlotModel { active: true, ..p[ii] });
            assert(self@ =~= spec_acquire(p, ii));
        }
        Some(TagRef { id: e.id })
    }

    /// Releases the guard, unblocking the next acquirer.  Consuming the
    /// token guarantees release happens exactly once per acquisition.
    pub fn release(&mut self, g: TagRef)
        requires
            old(self).wf(),
            holds_guard(old(self)@, g.spec_id()),
        ensures
            final(self).wf(),
            final(self)@ == spec_release(old(self)@, g.spec_id()),
    {
        let ghost p = self@;
        let ghost ii = g.spec_id();
        self.slots[g.id].active = false;
        if self.slots[g.id].removed && self.slots[g.id].holders == 0 {
            self.slots[g.id].st = SlotState::Closed;
            self.slots[g.id].removed = false;
            proof {
                lemma_wf_update(
                    p,
                    ii,
                    SlotModel {
                        st: SlotStateModel::Closed,
                        active: false,
                        holders: 0,
                        removed: false,
                        ..p[ii]
                    },
                );
                assert(self@ =~= spec_release(p, ii));
            }
        } else {
            proof {
                lemma_wf_update(p, ii, SlotModel { active: false, ..p[ii] });
                assert(self@ =~= spec_release(p, ii));
            }
        }
    }

    /// One connect attempt on the guarded handle: succeeds exactly when
    /// the target is reachable, and reports the handle's own pending
    /// status otherwise.
    pub fn connect(&mut self, g: &TagRef) -> (r: Result<(), Error>)
        requires
            old(self).wf(),
            holds_guard(old(self)@, g.spec_id()),
        ensures
            final(self).wf(),
            final(self)@ == spec_connect(old(self)@, g.spec_id()),
            holds_guard(final(self)@, g.spec_id()),
            r is Ok <==> slot_tag(old(self)@[g.spec_id()]).reachable,
            r matches Result::Err(e) ==> e == Error::TagError(
                tag_status(tag_after_connect(slot_tag(old(self)@[g.spec_id()]))),
            ),
    {
        let ghost p = self@;
        let ghost ii = g.spec_id();
        let slot = &mut self.slots[g.id];
        let connected = match &mut slot.st {
            SlotState::Ready(tag) => tag.connect_attempt(),
            _ => false,
        };
        proof {
            lemma_wf_update(
                p,
                ii,
                SlotModel { st: SlotStateModel::Ready(tag_after_connect(slot_tag(p[ii]))), ..p[ii] },
            );
            assert(self@ =~= spec_connect(p, ii));
        }
        if connected {
            Ok(())
        } else {
            Err(Error::TagError(Status::pending()))
        }
    }

    /// Reads through the guard: the guarded handle's stored value, or
    /// exactly the handle's error when it is not connected or the offset
    /// is out of range.
    pub fn read_value(&self, g: &TagRef, offset: usize) -> (r: Result<i32, Error>)
        requires
            self.wf(),
            holds_guard(self@, g.spec_id()),
        ensures
            match spec_read_result(self@, g.spec_id(), offset as int) {
                Result::Ok(v) => r == Result::<i32, Error>::Ok(v),
                Result::Err(s) => r == Result::<i32, Error>::Err(Error::TagError(s)),
            },
    {
        let slot = &self.slots[g.id];
        match &slot.st {
            SlotState::Ready(tag) => match tag.read(offset) {
                Ok(v) => Ok(v),
                Err(s) => Err(Error::TagError(s)),
            },
            _ => Err(Error::TagError(Status::pending())),
        }
    }

    /// Writes through the guard: the guarded handle echoes the value to
    /// every later read, or reports exactly why it cannot.
    pub fn write_value(&mut self, g: &TagRef, offset: usize, value: i32) -> (r: Result<
        (),
        Error,
    >)
        requires
            old(self).wf(),
            holds_guard(old(self)@, g.spec_id()),
        ensures
            final(self).wf(),
            final(self)@ == spec_write(old(self)@, g.spec_id(), offset as int, value),
            holds_guard(final(self)@, g.spec_id()),
            r is Ok <==> tag_write_ok(slot_tag(old(self)@[g.spec_id()]), offset as int),
            r matches Result::Err(e) ==> e == Error::TagError(
                tag_write_err(slot_tag(old(self)@[g.spec_id()]), offset as int),
            ),
    {
        let ghost p = self@;
        let ghost ii = g.spec_id();
        let slot = &mut self.slots[g.id];
        let res = match &mut slot.st {
            SlotState::Ready(tag) => tag.write(offset, value),
            _ => Result::Err(Status::pending()),
        };
        proof {
            lemma_wf_update(
                p,
                ii,
                SlotModel {
                    st: SlotStateModel::Ready(tag_after_write(slot_tag(p[ii]), offset as int, value)),
                    ..p[ii]
                },
            );
            assert(self@ =~= spec_write(p, ii, offset as int, value));
        }
        match res {
            Ok(u) => Ok(u),
            Err(s) => Err(Error::TagError(s)),
        }
    }

    /// The status the guarded handle currently reports.
    pub fn status(&self, g: &TagRef) -> (s: Status)
        requires
            self.wf(),
            holds_guard(self@, g.spec_id()),
        ensures
            s == tag_status(slot_tag(self@[g.spec_id()])),
    {
        let slot = &self.slots[g.id];
        match &slot.st {
            SlotState::Ready(tag) => tag.status(),
            _ => Status::pending(),
        }
    }

    /// Removes the mapping for `key`.  The handle comes back only when no
    /// holder remains; otherwise the slot is marked and torn down when the
    /// last holder is released.  A key without an installed handle is not
    /// a mapping yet and is left alone.
    pub fn remove(&mut self, key: &str) -> (r: Option<RawTag>)
        requires
            old(self).wf(),
        ensures
            final(self).wf(),
            ({
                let found = has_live_key(old(self)@, key@) && old(self)@[live_index(
                    old(self)@,
                    key@,
                )].st is Ready;
                let i = live_index(old(self)@, key@);
                if found {
                    if old(self)@[i].holders == 0 && !old(self)@[i].active {
                        &&& r matches Some(t) && t@ == slot_tag(old(self)@[i])
                        &&& final(self)@ == old(self)@.update(
                            i,
                            SlotModel { st: SlotStateModel::Closed, ..old(self)@[i] },
                        )
                    } else {
                        &&& r is None
                        &&& final(self)@ == old(self)@.update(
                            i,
                            SlotModel { removed: true, ..old(self)@[i] },
                        )
                    }
                } else {
                    r is None && final(self)@ == old(self)@
                }
            }),
    {
        let owned = key.to_owned();
        match self.find_live(&owned) {
            Some(i) => {
                let ghost p = self@;
                let ghost ii = i as int;
                let is_ready = match self.slots[i].st {
                    SlotState::Ready(_) => true,
                    _ => false,
                };
                if !is_ready {
                    return None;
                }
                if self.slots[i].holders == 0 && !self.slots[i].active {
                    let t = match &self.slots[i].st {
                        SlotState::Ready(tag) => tag.duplicate(),
                        _ => RawTag::new(""),
                    };
                    self.slots[i].st = SlotState::Closed;
                    proof {
                        lemma_wf_update(p, ii, SlotModel { st: SlotStateModel::Closed, ..p[ii] });
                        assert(self@ =~= p.update(
                            ii,
                            SlotModel { st: SlotStateModel::Closed, ..p[ii] },
                        ));
                    }
                    Some(t)
                } else {
                    self.slots[i].removed = true;
                    proof {
                        lemma_wf_update(p, ii, SlotModel { removed: true, ..p[ii] });
                        assert(self@ =~= p.update(ii, SlotModel { removed: true, ..p[ii] }));
                    }
                    None
                }
            },
            None => None,
        }
    }

    /// Gives an entry back.  The slot loses one holder; if a removal was
    /// deferred and this was the last holder, the slot is torn down now —
    /// never earlier.
    pub fn release_entry(&mut self, e: PoolEntry)
        requires
            old(self).wf(),
            e.spec_id() < old(self)@.len(),
            old(self)@[e.spec_id()].st is Ready,
            old(self)@[e.spec_id()].holders >= 1,
        ensures
            final(self).wf(),
            ({
                let i = e.spec_id();
                let fewer = (old(self)@[i].holders - 1) as nat;
                if old(self)@[i].removed && fewer == 0 && !old(self)@[i].active {
                    final(self)@ == old(self)@.update(
                        i,
                        SlotModel {
                            st: SlotStateModel::Closed,
                            holders: 0,
                            removed: false,
                            ..old(self)@[i]
                        },
                    )
                } else {
                    final(self)@ == old(self)@.update(
                        i,
                        SlotModel { holders: fewer, ..old(self)@[i] },
                    )
                }
            }),
    {
        let ghost p = self@;
        let ghost ii = e.spec_id();
        self.slots[e.id].holders = self.slots[e.id].holders - 1;
        if self.slots[e.id].removed && self.slots[e.id].holders == 0 && !self.slots[e.id].active {
            self.slots[e.id].st = SlotState::Closed;
            self.slots[e.id].removed = false;
            proof {
                lemma_wf_update(
                    p,
                    ii,
                    SlotModel {
                        st: SlotStateModel::Closed,
                        holders: 0,
                        removed: false,
                        ..p[ii]
                    },
                );
                assert(self@ =~= p.update(
                    ii,
                    SlotModel {
                        st: SlotStateModel::Closed,
                        holders: 0,
                        removed: false,
                        ..p[ii]
                    },
                ));
            }
        } else {
            proof {
                lemma_wf_update(
                    p,
                    ii,
                    SlotModel { holders: (p[ii].holders - 1) as nat, ..p[ii] },
                );
                assert(self@ =~= p.update(
                    ii,
                    SlotModel { holders: (p[ii].holders - 1) as nat, ..p[ii] },
                ));
            }
        }
    }
}

} // verus!
