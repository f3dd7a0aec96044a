use veloren_server::collect::{door_of, doors_to_remove, DoorSprite, LockSprite, MAX_DOOR_BLOCKS};
use veloren_server::server::{
    anchored_anchor_entities, should_unload_npc, slow_job_limit,
    slow_job_name, spawn_chunk, world_aabb, Anchor, SlowJob,
};
use std::collections::HashSet;

#[test]
fn slow_job_limits() {
    assert_eq!(slow_job_limit(SlowJob::ChunkGenerator, 8), 6);
    assert_eq!(slow_job_limit(SlowJob::ChunkGenerator, 3), 1);
    assert_eq!(slow_job_limit(SlowJob::ChunkSerializer, 7), 3);
    assert_eq!(slow_job_limit(SlowJob::ChunkDrop, 64), 1);
    assert_eq!(slow_job_limit(SlowJob::Weather, 0), 1);
    assert_eq!(slow_job_name(SlowJob::ChunkGenerator), "CHUNK_GENERATOR");
    assert_eq!(slow_job_name(SlowJob::RtsimSave), "RTSIM_SAVE");
}

#[test]
fn world_area() {
    assert_eq!(world_aabb((40, 40), (32, 32)), ((0, 0, -32768), (1280, 1280, 32767)));
}

#[test]
fn spawn_in_nearest_town() {
    let sites = vec![(true, (10, 10)), (false, (5, 5)), (true, (6, 4)), (true, (4, 6))];
    // (6,4) and (4,6) are equally near to (5,5): the first one wins.
    assert_eq!(spawn_chunk(&sites, (5, 5)), (6, 4));
    assert_eq!(spawn_chunk(&vec![(false, (1, 1))], (5, 5)), (5, 5));
    assert_eq!(spawn_chunk(&vec![], (5, 5)), (5, 5));
}

#[test]
fn anchor_chains_are_found() {
    let anchors = vec![(1, Anchor::Entity(2)), (2, Anchor::Chunk((0, 0))), (3, Anchor::Entity(4))];
    assert_eq!(anchored_anchor_entities(&anchors), vec![2]);
    assert!(anchored_anchor_entities(&vec![]).is_empty());
}

#[test]
fn npc_unloading() {
    assert!(should_unload_npc(true, false, None, false, true, true));
    assert!(!should_unload_npc(true, false, None, true, false, false));
    assert!(!should_unload_npc(true, false, Some(Anchor::Chunk((1, 1))), false, true, true));
    assert!(should_unload_npc(true, false, Some(Anchor::Chunk((1, 1))), false, false, true));
    assert!(should_unload_npc(true, false, Some(Anchor::Entity(3)), true, true, false));
    assert!(!should_unload_npc(true, false, Some(Anchor::Entity(3)), false, false, true));
    assert!(!should_unload_npc(true, true, None, false, false, false));
    assert!(!should_unload_npc(true, true, Some(Anchor::Entity(3)), false, false, false));
    assert!(!should_unload_npc(false, false, None, false, false, false));
}

#[test]
fn keyholes_open_their_doors() {
    assert_eq!(door_of(LockSprite::Keyhole), DoorSprite::KeyDoor);
    assert_eq!(door_of(LockSprite::GlassKeyhole), DoorSprite::GlassBarrier);
    assert_eq!(door_of(LockSprite::KeyholeBars), DoorSprite::DoorBars);
}

#[test]
fn doors_connected_to_lock_are_removed() {
    // A door column above the lock and a separate door far away.
    let doors: HashSet<(i32, i32, i32)> =
        [(0, 0, 1), (0, 0, 2), (0, 0, 3), (10, 10, 10)].into_iter().collect();
    let removed = doors_to_remove((0, 0, 0), |p| doors.contains(&p));
    let removed_set: HashSet<_> = removed.iter().copied().collect();
    assert_eq!(removed.len(), 3);
    assert_eq!(removed_set, [(0, 0, 1), (0, 0, 2), (0, 0, 3)].into_iter().collect());
}

#[test]
fn door_removal_is_capped() {
    let removed = doors_to_remove((0, 0, 0), |p: (i32, i32, i32)| p.2 >= 1 && p.2 <= 2);
    assert_eq!(removed.len(), MAX_DOOR_BLOCKS);
    let unique: HashSet<_> = removed.iter().copied().collect();
    assert_eq!(unique.len(), MAX_DOOR_BLOCKS);
    assert!(removed.iter().all(|p| p.2 >= 1 && p.2 <= 2));
}
