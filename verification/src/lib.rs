//! Verified core of a game server: configuration defaults, moderator
//! locations, battle-mode cooldown storage, invite, group and trade
//! bookkeeping, administrative role checks, item pickup and use, mining,
//! kill credit and loot, ban dates, the QUIC key files and the
//! level-of-detail zone grid.

pub mod config;
pub mod location;
pub mod battle_mode;
pub mod trade;
pub mod invite;
pub mod admin;
pub mod commands;
pub mod lod;
pub mod mounting;
pub mod data_dir;
pub mod text_order;
pub mod group;
pub mod player;
pub mod laws;
pub mod server;
pub mod collect;
pub mod death;
pub mod pickup;
pub mod tls;
pub mod ban;
pub mod item_use;
pub mod mine;
