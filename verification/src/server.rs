use vstd::prelude::*;
use crate::invite::EntityId;

verus! {

/// The jobs of the slow job pool that the server limits.
#[derive(Clone, Copy, PartialEq, Eq, Structural, Debug)]
pub enum SlowJob {
    ChunkDrop,
    ChunkGenerator,
    ChunkSerializer,
    RtsimSave,
    Weather,
}

pub open spec fn slow_job_limit_spec(job: SlowJob, threads: u64) -> int {
    match job {
        SlowJob::ChunkDrop => 1,
        SlowJob::ChunkGenerator => threads / 2 + threads / 4,
        SlowJob::ChunkSerializer => (threads / 2) as int,
        SlowJob::RtsimSave => 1,
        SlowJob::Weather => 1,
    }
}

/// How many of the pool's `threads` a kind of job may use at once: chunk
/// generation three quarters (rounded down per half and quarter), chunk
/// serialisation half, the other jobs one thread.
pub fn slow_job_limit(job: SlowJob, threads: u64) -> (limit: u64)
    ensures
        limit == slow_job_limit_spec(job, threads),
{
    match job {
        SlowJob::ChunkDrop => 1,
        SlowJob::ChunkGenerator => threads / 2 + threads / 4,
        SlowJob::ChunkSerializer => threads / 2,
        SlowJob::RtsimSave => 1,
        SlowJob::Weather => 1,
    }
}

pub open spec fn slow_job_name_spec(job: SlowJob) -> Seq<char> {
    match job {
        SlowJob::ChunkDrop => "CHUNK_DROP"@,
        SlowJob::ChunkGenerator => "CHUNK_GENERATOR"@,
        SlowJob::ChunkSerializer => "CHUNK_SERIALIZER"@,
        SlowJob::RtsimSave => "RTSIM_SAVE"@,
        SlowJob::Weather => "WEATHER"@,
    }
}

/// The name under which the pool knows a kind of job.
pub fn slow_job_name(job: SlowJob) -> (name: &'static str)
    ensures
        name@ == slow_job_name_spec(job),
{
    match job {
        SlowJob::ChunkDrop => "CHUNK_DROP",
        SlowJob::ChunkGenerator => "CHUNK_GENERATOR",
        SlowJob::ChunkSerializer => "CHUNK_SERIALIZER",
        SlowJob::RtsimSave => "RTSIM_SAVE",
        SlowJob::Weather => "WEATHER",
    }
}

/// The build area that covers the whole world: from the world's corner at
/// the lowest altitude to the far corner at the highest, where the world
/// has `size` chunks of `chunk_size` blocks.
pub fn world_aabb(size: (u32, u32), chunk_size: (u32, u32)) -> (aabb: ((i32, i32, i32), (i32, i32, i32)))
    requires
        size.0 * chunk_size.0 <= i32::MAX,
        size.1 * chunk_size.1 <= i32::MAX,
    ensures
        aabb.0 == (0i32, 0i32, -32768i32),
        aabb.1.0 == size.0 * chunk_size.0,
        aabb.1.1 == size.1 * chunk_size.1,
        aabb.1.2 == 32767,
{
    let x: u64 = size.0 as u64 * chunk_size.0 as u64;
    let y: u64 = size.1 as u64 * chunk_size.1 as u64;
    ((0, 0, -32768), (x as i32, y as i32, 32767))
}

/// The squared distance between two chunk positions.
pub open spec fn distance_squared(a: (i32, i32), b: (i32, i32)) -> int {
    (a.0 - b.0) * (a.0 - b.0) + (a.1 - b.1) * (a.1 - b.1)
}

/// The first of the towns nearest to `center`, if there is a town.
pub open spec fn nearest_town(sites: Seq<(bool, (i32, i32))>, center: (i32, i32)) -> Option<(i32, i32)>
    decreases sites.len(),
{
    if sites.len() == 0 {
        None
    } else {
        let best = nearest_town(sites.drop_last(), center);
        let (is_town, pos) = sites.last();
        if !is_town {
            best
        } else {
            match best {
                None => Some(pos),
                Some(b) => if distance_squared(pos, center) < distance_squared(b, center) {
                    Some(pos)
                } else {
                    Some(b)
                },
            }
        }
    }
}

/// Where players without a waypoint spawn: the town nearest to the centre
/// of the world (the first of several equally near), or the centre itself
/// where there is no town.  Each site is given as whether it is a town,
/// and its centre.
pub fn spawn_chunk(sites: &Vec<(bool, (i32, i32))>, center: (i32, i32)) -> (chunk: (i32, i32))
    requires
        forall|i: int| 0 <= i < sites@.len() ==> distance_squared(#[trigger] sites@[i].1, center) <= i32::MAX,
    ensures
        chunk == match nearest_town(sites@, center) {
            Some(pos) => pos,
            None => center,
        },
{
    let mut best: Option<(i32, i32)> = None;
    let mut best_dist: i64 = 0;
    let mut i: usize = 0;
    while i < sites.len()
        invariant
            i <= sites.len(),
            forall|k: int| 0 <= k < sites@.len() ==> distance_squared(#[trigger] sites@[k].1, center) <= i32::MAX,
            best == nearest_town(sites@.take(i as int), center),
            best matches Some(b) ==> best_dist == distance_squared(b, center),
        decreases sites.len() - i,
    {
        let (is_town, pos) = sites[i];
        assert(sites@.take(i + 1).drop_last() =~= sites@.take(i as int));
        if is_town {
            let dx: i64 = pos.0 as i64 - center.0 as i64;
            let dy: i64 = pos.1 as i64 - center.1 as i64;
            assert(distance_squared(sites@[i as int].1, center) <= i32::MAX);
            assert(0 <= dx * dx <= i32::MAX && 0 <= dy * dy <= i32::MAX) by (nonlinear_arith)
                requires
                    dx * dx + dy * dy <= i32::MAX,
            ;
            let d: i64 = dx * dx + dy * dy;
            match best {
                None => {
                    best = Some(pos);
                    best_dist = d;
                },
                Some(_) => {
                    if d < best_dist {
                        best = Some(pos);
                        best_dist = d;
                    }
                },
            }
        }
        i = i + 1;
    }
    assert(sites@.take(sites.len() as int) =~= sites@);
    match best {
        Some(pos) => pos,
        None => center,
    }
}

/// What an entity is kept in the world by.
#[derive(Clone, Copy, PartialEq, Eq, Debug)]
pub enum Anchor {
    /// Its home chunk.
    Chunk((i32, i32)),
    /// Another entity.
    Entity(EntityId),
}

/// Whether `entity` has an anchor of its own.
pub open spec fn has_anchor(anchors: Seq<(EntityId, Anchor)>, entity: EntityId) -> bool {
    exists|i: int| 0 <= i < anchors.len() && (#[trigger] anchors[i]).0 == entity
}

/// The anchoring entities, among the first `n` anchors, that are
/// themselves anchored: chains that are not supported.
pub open spec fn chained_anchors(anchors: Seq<(EntityId, Anchor)>, n: int) -> Seq<EntityId>
    decreases n,
{
    if n <= 0 {
        Seq::empty()
    } else {
        let rest = chained_anchors(anchors, n - 1);
        match anchors[n - 1].1 {
            Anchor::Entity(target) => if has_anchor(anchors, target) {
                rest.push(target)
            } else {
                rest
            },
            Anchor::Chunk(_) => rest,
        }
    }
}

/// Whether some anchor belongs to `entity`.
fn anchor_present(anchors: &Vec<(EntityId, Anchor)>, entity: EntityId) -> (present: bool)
    ensures
        present == has_anchor(anchors@, entity),
{
    let mut i: usize = 0;
    while i < anchors.len()
        invariant
            i <= anchors.len(),
            forall|k: int| 0 <= k < i ==> (#[trigger] anchors@[k]).0 != entity,
        decreases anchors.len() - i,
    {
        if anchors[i].0 == entity {
            return true;
        }
        i = i + 1;
    }
    false
}

/// Finds the anchor entities that are themselves anchored, in the order
/// of the anchors that point at them; their anchors are to be removed.
pub fn anchored_anchor_entities(anchors: &Vec<(EntityId, Anchor)>) -> (chained: Vec<EntityId>)
    ensures
        chained@ == chained_anchors(anchors@, anchors@.len() as int),
{
    let mut chained: Vec<EntityId> = Vec::new();
    let mut i: usize = 0;
    while i < anchors.len()
        invariant
            i <= anchors.len(),
            chained@ == chained_anchors(anchors@, i as int),
        decreases anchors.len() - i,
    {
        match anchors[i].1 {
            Anchor::Entity(target) => {
                if anchor_present(anchors, target) {
                    chained.push(target);
                }
            },
            Anchor::Chunk(_) => {},
        }
        i = i + 1;
    }
    chained
}

/// Whether an entity outside every player's view is removed.  Only an
/// entity with a position and without a presence (no player or spectator
/// is behind it) is ever removed here: one anchored to a chunk goes once
/// both its current and its home chunk are unloaded; one anchored to an
/// entity goes once that entity is gone; any other goes once its chunk is
/// unloaded.  The current chunk is that of the entity's position, or of
/// the entity it rides, where it rides one.
pub fn should_unload_npc(
    has_pos: bool,
    has_presence: bool,
    anchor_kind: Option<Anchor>,
    chunk_loaded: bool,
    home_chunk_loaded: bool,
    anchor_entity_alive: bool,
) -> (unload: bool)
    ensures
        unload == (has_pos && !has_presence && match anchor_kind {
            Some(Anchor::Chunk(_)) => !chunk_loaded && !home_chunk_loaded,
            Some(Anchor::Entity(_)) => !anchor_entity_alive,
            None => !chunk_loaded,
        }),
        has_presence ==> !unload,
{
    if !has_pos || has_presence {
        return false;
    }
    match anchor_kind {
        Some(Anchor::Chunk(_)) => !chunk_loaded && !home_chunk_loaded,
        Some(Anchor::Entity(_)) => !anchor_entity_alive,
        None => !chunk_loaded,
    }
}

} // verus!
