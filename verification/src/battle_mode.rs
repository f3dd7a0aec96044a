use vstd::prelude::*;
use crate::commands::str_equal;

verus! {

/// Whether a character fights other players.
#[derive(Clone, Copy, PartialEq, Eq, Structural, Debug)]
pub enum BattleMode {
    PvP,
    PvE,
}

/// Reads the battle mode a chat command names: exactly `pvp` or `pve`.
pub fn parse_battle_mode(text: &str) -> (mode: Option<BattleMode>)
    ensures
        mode == (if text@ == "pvp"@ {
            Some(BattleMode::PvP)
        } else if text@ == "pve"@ {
            Some(BattleMode::PvE)
        } else {
            None
        }),
{
    if str_equal(text, "pvp") {
        Some(BattleMode::PvP)
    } else if str_equal(text, "pve") {
        Some(BattleMode::PvE)
    } else {
        None
    }
}

/// What is kept of a character that goes offline: its battle mode and the
/// bit pattern of the time at which it last changed.
pub type BattleModeSave = (BattleMode, u64);

/// The hash map of `hashbrown` from character ids to saved battle modes.
/// Verus sees it only through `battle_mode_table_entries` and the wrappers
/// below.
#[verifier::external_body]
pub struct BattleModeTable {
    map: hashbrown::HashMap<i64, BattleModeSave>,
}

/// The character-to-save entries that a `BattleModeTable` holds.
pub uninterp spec fn battle_mode_table_entries(table: BattleModeTable) -> Map<i64, BattleModeSave>;

impl BattleModeTable {
    /// `hashbrown::HashMap::new`: an empty map.
    #[verifier::external_body]
    fn new() -> (fresh: BattleModeTable)
        ensures
            (battle_mode_table_entries(fresh) == Map::<i64, BattleModeSave>::empty()),
    {
        BattleModeTable { map: hashbrown::HashMap::new() }
    }

    /// `hashbrown::HashMap::insert`, the displaced value dropped: afterwards
    /// `char_id` maps to `save`.
    #[verifier::external_body]
    fn insert(&mut self, char_id: i64, save: BattleModeSave)
        ensures
            battle_mode_table_entries(*final(self)) == battle_mode_table_entries(*old(self)).insert(char_id, save),
    {
        self.map.insert(char_id, save);
    }

    /// `hashbrown::HashMap::get`: the save under `char_id`, if any.
    #[verifier::external_body]
    fn get(&self, char_id: &i64) -> (save: Option<&BattleModeSave>)
        ensures
            save == (if battle_mode_table_entries(*self).contains_key(*char_id) {
                Some(&battle_mode_table_entries(*self)[*char_id])
            } else {
                None
            }),
    {
        self.map.get(char_id)
    }

    /// `hashbrown::HashMap::remove`: takes out the save under `char_id`, if
    /// any.
    #[verifier::external_body]
    fn remove(&mut self, char_id: &i64) -> (save: Option<BattleModeSave>)
        ensures
            save == (if battle_mode_table_entries(*old(self)).contains_key(*char_id) {
                Some(battle_mode_table_entries(*old(self))[*char_id])
            } else {
                None
            }),
            battle_mode_table_entries(*final(self)) == battle_mode_table_entries(*old(self)).remove(*char_id),
    {
        self.map.remove(char_id)
    }
}

/// The saves after `push(char_id, save)`.
pub open spec fn buffer_after_push(m: Map<i64, BattleModeSave>, char_id: i64, save: BattleModeSave) -> Map<
    i64,
    BattleModeSave,
> {
    m.insert(char_id, save)
}

/// The save that `get` finds, and `pop` takes out, under `char_id`.
pub open spec fn buffer_lookup(m: Map<i64, BattleModeSave>, char_id: i64) -> Option<BattleModeSave> {
    if m.contains_key(char_id) {
        Some(m[char_id])
    } else {
        None
    }
}

/// The saves after `pop(char_id)`.
pub open spec fn buffer_after_pop(m: Map<i64, BattleModeSave>, char_id: i64) -> Map<i64, BattleModeSave> {
    m.remove(char_id)
}

/// Battle-mode cooldowns of players kept while they are offline.
pub struct BattleModeBuffer {
    map: BattleModeTable,
}

impl View for BattleModeBuffer {
    type V = Map<i64, BattleModeSave>;

    closed spec fn view(&self) -> Map<i64, BattleModeSave> {
        battle_mode_table_entries(self.map)
    }
}

impl BattleModeBuffer {
    /// An empty buffer.
    pub fn new() -> (buffer: BattleModeBuffer)
        ensures
            (buffer@ == Map::<i64, BattleModeSave>::empty()),
    {
        BattleModeBuffer { map: BattleModeTable::new() }
    }

    /// Records the save of a character, replacing an earlier one.
    pub fn push(&mut self, char_id: i64, save: BattleModeSave)
        ensures
            final(self)@ == buffer_after_push(old(self)@, char_id, save),
    {
        self.map.insert(char_id, save);
    }

    /// The save recorded for a character, if any.
    pub fn get(&self, char_id: &i64) -> (save: Option<&BattleModeSave>)
        ensures
            save == (if self@.contains_key(*char_id) {
                Some(&self@[*char_id])
            } else {
                None
            }),
            (match save {
                Some(s) => buffer_lookup(self@, *char_id) == Some(*s),
                None => buffer_lookup(self@, *char_id) is None,
            }),
    {
        self.map.get(char_id)
    }

    /// Takes out the save recorded for a character, if any.
    pub fn pop(&mut self, char_id: &i64) -> (save: Option<BattleModeSave>)
        ensures
            save == (if old(self)@.contains_key(*char_id) {
                Some(old(self)@[*char_id])
            } else {
                None
            }),
            final(self)@ == old(self)@.remove(*char_id),
    {
        self.map.remove(char_id)
    }
}

impl Default for BattleModeBuffer {
    fn default() -> (buffer: BattleModeBuffer)
        ensures
            (buffer@ == Map::<i64, BattleModeSave>::empty()),
    {
        BattleModeBuffer::new()
    }
}

} // verus!
