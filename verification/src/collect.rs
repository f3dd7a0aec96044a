use vstd::prelude::*;

verus! {

/// A block position.
pub type BlockPos = (i32, i32, i32);

/// The hash set of `hashbrown` of block positions.  Verus sees it only
/// through `pos_set_members` and the wrappers below.
#[verifier::external_body]
pub struct PosSet {
    set: hashbrown::HashSet<BlockPos>,
}

/// The positions a `PosSet` holds.
pub uninterp spec fn pos_set_members(set: PosSet) -> Set<BlockPos>;

impl PosSet {
    /// `hashbrown::HashSet::new`: an empty set.
    #[verifier::external_body]
    fn new() -> (fresh: PosSet)
        ensures
            (pos_set_members(fresh) == Set::<BlockPos>::empty()),
    {
        PosSet { set: hashbrown::HashSet::new() }
    }

    /// `hashbrown::HashSet::len`: the number of positions held.
    #[verifier::external_body]
    fn len(&self) -> (n: usize)
        requires
            pos_set_members(*self).finite(),
        ensures
            n == pos_set_members(*self).len(),
    {
        self.set.len()
    }

    /// `hashbrown::HashSet::contains`.
    #[verifier::external_body]
    fn contains(&self, pos: &BlockPos) -> (found: bool)
        ensures
            found == pos_set_members(*self).contains(*pos),
    {
        self.set.contains(pos)
    }

    /// `hashbrown::HashSet::insert`, the flag it returns dropped.
    #[verifier::external_body]
    fn insert(&mut self, pos: BlockPos)
        ensures
            pos_set_members(*final(self)) == pos_set_members(*old(self)).insert(pos),
    {
        self.set.insert(pos);
    }

    /// `hashbrown::HashSet::remove`, the flag it returns dropped.
    #[verifier::external_body]
    fn remove(&mut self, pos: &BlockPos)
        ensures
            pos_set_members(*final(self)) == pos_set_members(*old(self)).remove(*pos),
    {
        self.set.remove(pos);
    }

    /// `hashbrown::HashSet::iter` and the iterator's first item, copied:
    /// some position of the set, which one left unsaid (it depends on the
    /// hasher's seed), or none for an empty set.
    #[verifier::external_body]
    fn any(&self) -> (pos: Option<BlockPos>)
        ensures
            pos is None <==> pos_set_members(*self) == Set::<BlockPos>::empty(),
            pos matches Some(p) ==> pos_set_members(*self).contains(p),
    {
        self.set.iter().next().copied()
    }
}

/// The locks that open doors of a matching kind when collected.
#[derive(Clone, Copy, PartialEq, Eq, Structural, Debug)]
pub enum LockSprite {
    Keyhole,
    BoneKeyhole,
    HaniwaKeyhole,
    SahaginKeyhole,
    GlassKeyhole,
    KeyholeBars,
    TerracottaKeyhole,
}

/// The doors that such locks remove.
#[derive(Clone, Copy, PartialEq, Eq, Structural, Debug)]
pub enum DoorSprite {
    KeyDoor,
    BoneKeyDoor,
    HaniwaKeyDoor,
    SahaginKeyDoor,
    GlassBarrier,
    DoorBars,
    TerracottaKeyDoor,
}

pub open spec fn door_of_spec(lock: LockSprite) -> DoorSprite {
    match lock {
        LockSprite::Keyhole => DoorSprite::KeyDoor,
        LockSprite::BoneKeyhole => DoorSprite::BoneKeyDoor,
        LockSprite::HaniwaKeyhole => DoorSprite::HaniwaKeyDoor,
        LockSprite::SahaginKeyhole => DoorSprite::SahaginKeyDoor,
        LockSprite::GlassKeyhole => DoorSprite::GlassBarrier,
        LockSprite::KeyholeBars => DoorSprite::DoorBars,
        LockSprite::TerracottaKeyhole => DoorSprite::TerracottaKeyDoor,
    }
}

/// The kind of door a collected lock removes.
pub fn door_of(lock: LockSprite) -> (door: DoorSprite)
    ensures
        door == door_of_spec(lock),
{
    match lock {
        LockSprite::Keyhole => DoorSprite::KeyDoor,
        LockSprite::BoneKeyhole => DoorSprite::BoneKeyDoor,
        LockSprite::HaniwaKeyhole => DoorSprite::HaniwaKeyDoor,
        LockSprite::SahaginKeyhole => DoorSprite::SahaginKeyDoor,
        LockSprite::GlassKeyhole => DoorSprite::GlassBarrier,
        LockSprite::KeyholeBars => DoorSprite::DoorBars,
        LockSprite::TerracottaKeyhole => DoorSprite::TerracottaKeyDoor,
    }
}

/// The most door blocks one lock removes.
pub const MAX_DOOR_BLOCKS: usize = 450;

/// The `k`-th of the six face neighbours of a block: +x, -x, +y, -y, +z, -z.
pub open spec fn neighbor(p: BlockPos, k: int) -> BlockPos {
    if k == 0 {
        ((p.0 + 1) as i32, p.1, p.2)
    } else if k == 1 {
        ((p.0 - 1) as i32, p.1, p.2)
    } else if k == 2 {
        (p.0, (p.1 + 1) as i32, p.2)
    } else if k == 3 {
        (p.0, (p.1 - 1) as i32, p.2)
    } else if k == 4 {
        (p.0, p.1, (p.2 + 1) as i32)
    } else {
        (p.0, p.1, (p.2 - 1) as i32)
    }
}

/// `p` lies within `r` blocks of `c` along every axis.
pub open spec fn within_box(p: BlockPos, c: BlockPos, r: int) -> bool {
    &&& c.0 - r <= p.0 <= c.0 + r
    &&& c.1 - r <= p.1 <= c.1 + r
    &&& c.2 - r <= p.2 <= c.2 + r
}

/// `p` is a face neighbour of the lock.
pub open spec fn next_to_lock(lock_pos: BlockPos, p: BlockPos) -> bool {
    exists|k: int| 0 <= k < 6 && p == #[trigger] neighbor(lock_pos, k)
}

/// `p` is a face neighbour of one of the first `n` removed blocks.
pub open spec fn next_to_removed(removed: Seq<BlockPos>, n: int, p: BlockPos) -> bool {
    exists|j: int, k: int| 0 <= j < n && 0 <= k < 6 && p == #[trigger] neighbor(removed[j], k)
}

/// `p` is reached from the lock through the first `n` removed blocks.
pub open spec fn reached(lock_pos: BlockPos, removed: Seq<BlockPos>, n: int, p: BlockPos) -> bool {
    next_to_lock(lock_pos, p) || next_to_removed(removed, n, p)
}

proof fn lemma_reached_extend(
    lock_pos: BlockPos,
    r: Seq<BlockPos>,
    r2: Seq<BlockPos>,
    n: int,
    n2: int,
    p: BlockPos,
)
    requires
        reached(lock_pos, r, n, p),
        0 <= n <= n2,
        n <= r.len(),
        n <= r2.len(),
        forall|j: int| 0 <= j < n ==> r2[j] == r[j],
    ensures
        reached(lock_pos, r2, n2, p),
{
    if !next_to_lock(lock_pos, p) {
        let (j, k) = choose|j: int, k: int| 0 <= j < n && 0 <= k < 6 && p == #[trigger] neighbor(r[j], k);
        assert(r2[j] == r[j]);
        assert(p == neighbor(r2[j], k));
    }
}

fn step(p: BlockPos, k: usize) -> (n: BlockPos)
    requires
        k < 6,
        i32::MIN < p.0 < i32::MAX,
        i32::MIN < p.1 < i32::MAX,
        i32::MIN < p.2 < i32::MAX,
    ensures
        n == neighbor(p, k as int),
{
    if k == 0 {
        (p.0 + 1, p.1, p.2)
    } else if k == 1 {
        (p.0 - 1, p.1, p.2)
    } else if k == 2 {
        (p.0, p.1 + 1, p.2)
    } else if k == 3 {
        (p.0, p.1 - 1, p.2)
    } else if k == 4 {
        (p.0, p.1, p.2 + 1)
    } else {
        (p.0, p.1, p.2 - 1)
    }
}

/// Removes the doors that a collected lock at `lock_pos` opens: starting
/// from the lock's six neighbours, every block for which `is_door` says
/// yes is removed, and its neighbours are looked at in turn, until no
/// block is left to look at or `MAX_DOOR_BLOCKS` are removed.  Returns the
/// removed blocks in the order of removal.  Where fewer than the maximum
/// were removed, every neighbour of the lock and of a removed block was
/// removed too or was found to be no door.
pub fn doors_to_remove(lock_pos: BlockPos, is_door: impl Fn(BlockPos) -> bool) -> (removed: Vec<BlockPos>)
    requires
        forall|p: BlockPos| call_requires(is_door, (p,)),
        i32::MIN + 451 <= lock_pos.0 <= i32::MAX - 451,
        i32::MIN + 451 <= lock_pos.1 <= i32::MAX - 451,
        i32::MIN + 451 <= lock_pos.2 <= i32::MAX - 451,
    ensures
        removed@.len() <= MAX_DOOR_BLOCKS,
        forall|i: int| 0 <= i < removed@.len() ==> call_ensures(is_door, (#[trigger] removed@[i],), true),
        forall|i: int, j: int| 0 <= i < j < removed@.len() ==> removed@[i] != removed@[j],
        forall|i: int| 0 <= i < removed@.len() ==> reached(lock_pos, removed@, i, #[trigger] removed@[i]),
        removed@.len() < MAX_DOOR_BLOCKS ==> forall|k: int|
            0 <= k < 6 ==> removed@.contains(#[trigger] neighbor(lock_pos, k)) || call_ensures(
                is_door,
                (neighbor(lock_pos, k),),
                false,
            ),
        removed@.len() < MAX_DOOR_BLOCKS ==> forall|i: int, k: int|
            0 <= i < removed@.len() && 0 <= k < 6 ==> removed@.contains(#[trigger] neighbor(removed@[i], k))
                || call_ensures(is_door, (neighbor(removed@[i], k),), false),
{
    let mut destroyed = PosSet::new();
    let mut pending = PosSet::new();
    let mut removed: Vec<BlockPos> = Vec::new();
    let ghost mut rejected: Set<BlockPos> = Set::empty();
    let mut k: usize = 0;
    while k < 6
        invariant
            k <= 6,
            pos_set_members(pending).finite(),
            pos_set_members(pending).len() <= k,
            forall|p: BlockPos| pos_set_members(pending).contains(p) ==> within_box(p, lock_pos, 1),
            forall|j: int| 0 <= j < k ==> pos_set_members(pending).contains(#[trigger] neighbor(lock_pos, j)),
            forall|p: BlockPos| #[trigger] pos_set_members(pending).contains(p) ==> next_to_lock(lock_pos, p),
            removed@.len() == 0,
            i32::MIN + 451 <= lock_pos.0 <= i32::MAX - 451,
            i32::MIN + 451 <= lock_pos.1 <= i32::MAX - 451,
            i32::MIN + 451 <= lock_pos.2 <= i32::MAX - 451,
        decreases 6 - k,
    {
        let n = step(lock_pos, k);
        assert(n == neighbor(lock_pos, k as int));
        pending.insert(n);
        k = k + 1;
    }
    let mut exhausted = false;
    while !exhausted && destroyed.len() < MAX_DOOR_BLOCKS
        invariant
            forall|p: BlockPos| call_requires(is_door, (p,)),
            i32::MIN + 451 <= lock_pos.0 <= i32::MAX - 451,
            i32::MIN + 451 <= lock_pos.1 <= i32::MAX - 451,
            i32::MIN + 451 <= lock_pos.2 <= i32::MAX - 451,
            pos_set_members(pending).finite(),
            pos_set_members(destroyed).finite(),
            pos_set_members(destroyed).len() <= MAX_DOOR_BLOCKS,
            exhausted ==> pos_set_members(pending) == Set::<BlockPos>::empty(),
            removed@.len() == pos_set_members(destroyed).len(),
            forall|i: int| 0 <= i < removed@.len() ==> pos_set_members(destroyed).contains(#[trigger] removed@[i]),
            forall|p: BlockPos| pos_set_members(destroyed).contains(p) ==> removed@.contains(p),
            forall|i: int, j: int| 0 <= i < j < removed@.len() ==> removed@[i] != removed@[j],
            forall|i: int| 0 <= i < removed@.len() ==> call_ensures(is_door, (#[trigger] removed@[i],), true),
            forall|p: BlockPos| #[trigger] pos_set_members(pending).contains(p) ==> reached(
                lock_pos,
                removed@,
                removed@.len() as int,
                p,
            ),
            forall|i: int| 0 <= i < removed@.len() ==> reached(lock_pos, removed@, i, #[trigger] removed@[i]),
            forall|r: BlockPos| rejected.contains(r) ==> call_ensures(is_door, (r,), false),
            forall|p: BlockPos| pos_set_members(pending).contains(p) ==> within_box(
                p,
                lock_pos,
                pos_set_members(destroyed).len() as int + 1,
            ),
            forall|i: int| 0 <= i < removed@.len() ==> within_box(
                #[trigger] removed@[i],
                lock_pos,
                pos_set_members(destroyed).len() as int,
            ),
            forall|j: int| 0 <= j < 6 ==> {
                let n = #[trigger] neighbor(lock_pos, j);
                pos_set_members(pending).contains(n) || pos_set_members(destroyed).contains(n)
                    || rejected.contains(n)
            },
            forall|i: int, j: int| 0 <= i < removed@.len() && 0 <= j < 6 ==> {
                let n = #[trigger] neighbor(removed@[i], j);
                pos_set_members(pending).contains(n) || pos_set_members(destroyed).contains(n)
                    || rejected.contains(n)
            },
        decreases (MAX_DOOR_BLOCKS - pos_set_members(destroyed).len()) * 7 + pos_set_members(pending).len()
            + if exhausted {
            0int
        } else {
            1int
        },
    {
        match pending.any() {
            None => {
                exhausted = true;
            },
            Some(pos) => {
                let ghost old_pending = pos_set_members(pending);
                let ghost old_destroyed = pos_set_members(destroyed);
                let ghost old_removed = removed@;
                pending.remove(&pos);
                let already = destroyed.contains(&pos);
                if !already && is_door(pos) {
                    destroyed.insert(pos);
                    removed.push(pos);
                    proof {
                        assert forall|p: BlockPos| #[trigger] pos_set_members(pending).contains(p) implies reached(
                            lock_pos,
                            removed@,
                            removed@.len() as int,
                            p,
                        ) by {
                            assert(old_pending.contains(p));
                            lemma_reached_extend(
                                lock_pos,
                                old_removed,
                                removed@,
                                old_removed.len() as int,
                                removed@.len() as int,
                                p,
                            );
                        }
                        assert(old_pending.contains(pos));
                        lemma_reached_extend(
                            lock_pos,
                            old_removed,
                            removed@,
                            old_removed.len() as int,
                            old_removed.len() as int,
                            pos,
                        );
                    }
                    let mut k: usize = 0;
                    while k < 6
                        invariant
                            k <= 6,
                            pos_set_members(pending).finite(),
                            pos_set_members(pending).len() <= old_pending.len() - 1 + k,
                            within_box(pos, lock_pos, old_destroyed.len() as int + 1),
                            old_destroyed.len() < MAX_DOOR_BLOCKS,
                            i32::MIN + 451 <= lock_pos.0 <= i32::MAX - 451,
                            i32::MIN + 451 <= lock_pos.1 <= i32::MAX - 451,
                            i32::MIN + 451 <= lock_pos.2 <= i32::MAX - 451,
                            forall|p: BlockPos| old_pending.remove(pos).contains(p) ==> pos_set_members(pending).contains(p),
                            forall|p: BlockPos| pos_set_members(pending).contains(p) ==> within_box(
                                p,
                                lock_pos,
                                old_destroyed.len() as int + 2,
                            ),
                            forall|j: int| 0 <= j < k ==> pos_set_members(pending).contains(#[trigger] neighbor(pos, j)),
                            removed@ == old_removed.push(pos),
                            forall|p: BlockPos| #[trigger] pos_set_members(pending).contains(p) ==> reached(
                                lock_pos,
                                removed@,
                                removed@.len() as int,
                                p,
                            ),
                        decreases 6 - k,
                    {
                        let n = step(pos, k);
                        proof {
                            assert(removed@[old_removed.len() as int] == pos);
                            assert(n == neighbor(removed@[old_removed.len() as int], k as int));
                            assert(next_to_removed(removed@, removed@.len() as int, n));
                        }
                        pending.insert(n);
                        k = k + 1;
                    }
                    proof {
                        assert(removed@.last() == pos);
                        assert forall|i: int| 0 <= i < removed@.len() implies pos_set_members(destroyed).contains(
                            #[trigger] removed@[i],
                        ) by {
                            if i < old_removed.len() {
                                assert(removed@[i] == old_removed[i]);
                            }
                        }
                        assert forall|p: BlockPos| pos_set_members(destroyed).contains(p) implies removed@.contains(p) by {
                            if p != pos {
                                assert(old_removed.contains(p));
                                let i = choose|i: int| 0 <= i < old_removed.len() && old_removed[i] == p;
                                assert(removed@[i] == p);
                            } else {
                                assert(removed@[removed@.len() - 1] == p);
                            }
                        }
                        assert forall|i: int, j: int| 0 <= i < j < removed@.len() implies removed@[i] != removed@[j] by {
                            if j == removed@.len() - 1 {
                                assert(old_destroyed.contains(old_removed[i]));
                            } else {
                                assert(removed@[i] == old_removed[i]);
                                assert(removed@[j] == old_removed[j]);
                            }
                        }
                        assert forall|i: int| 0 <= i < removed@.len() implies call_ensures(
                            is_door,
                            (#[trigger] removed@[i],),
                            true,
                        ) by {
                            if i < old_removed.len() {
                                assert(removed@[i] == old_removed[i]);
                            }
                        }
                        assert forall|i: int| 0 <= i < removed@.len() implies reached(
                            lock_pos,
                            removed@,
                            i,
                            #[trigger] removed@[i],
                        ) by {
                            if i < old_removed.len() {
                                assert(removed@[i] == old_removed[i]);
                                lemma_reached_extend(lock_pos, old_removed, removed@, i, i, removed@[i]);
                            } else {
                                assert(removed@[i] == pos);
                            }
                        }
                        assert forall|i: int| 0 <= i < removed@.len() implies within_box(
                            #[trigger] removed@[i],
                            lock_pos,
                            pos_set_members(destroyed).len() as int,
                        ) by {
                            if i < old_removed.len() {
                                assert(removed@[i] == old_removed[i]);
                            }
                        }
                        assert forall|i: int, j: int| 0 <= i < removed@.len() && 0 <= j < 6 implies {
                            let n = #[trigger] neighbor(removed@[i], j);
                            pos_set_members(pending).contains(n) || pos_set_members(destroyed).contains(n)
                                || rejected.contains(n)
                        } by {
                            if i < old_removed.len() {
                                assert(removed@[i] == old_removed[i]);
                                let n = neighbor(old_removed[i], j);
                                if n == pos {
                                } else if old_pending.contains(n) {
                                    assert(old_pending.remove(pos).contains(n));
                                }
                            }
                        }
                        assert forall|j: int| 0 <= j < 6 implies {
                            let n = #[trigger] neighbor(lock_pos, j);
                            pos_set_members(pending).contains(n) || pos_set_members(destroyed).contains(n)
                                || rejected.contains(n)
                        } by {
                            let n = neighbor(lock_pos, j);
                            if n != pos && old_pending.contains(n) {
                                assert(old_pending.remove(pos).contains(n));
                            }
                        }
                    }
                } else {
                    proof {
                        if !already {
                            rejected = rejected.insert(pos);
                        }
                        assert forall|i: int, j: int| 0 <= i < removed@.len() && 0 <= j < 6 implies {
                            let n = #[trigger] neighbor(removed@[i], j);
                            pos_set_members(pending).contains(n) || pos_set_members(destroyed).contains(n)
                                || rejected.contains(n)
                        } by {
                            let n = neighbor(removed@[i], j);
                            if n != pos && old_pending.contains(n) {
                                assert(pos_set_members(pending).contains(n));
                            }
                        }
                        assert forall|j: int| 0 <= j < 6 implies {
                            let n = #[trigger] neighbor(lock_pos, j);
                            pos_set_members(pending).contains(n) || pos_set_members(destroyed).contains(n)
                                || rejected.contains(n)
                        } by {
                            let n = neighbor(lock_pos, j);
                            if n != pos && old_pending.contains(n) {
                                assert(pos_set_members(pending).contains(n));
                            }
                        }
                    }
                }
            },
        }
    }
    removed
}

} // verus!
