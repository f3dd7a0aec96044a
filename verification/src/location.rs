use vstd::prelude::*;
use vstd::string::StringExecFns;
use crate::text_order::{sort_strings, texts_of, texts_sorted};

verus! {

/// A stored position: the bit patterns of the three coordinates, in the
/// order x, y, z.
pub type StoredPos = (u32, u32, u32);

/// The hash map of `hashbrown` from location names to positions.  Verus sees
/// it only through `location_table_entries` and the wrappers below.
#[verifier::external_body]
pub struct LocationTable {
    table: hashbrown::HashMap<String, StoredPos>,
}

/// The name-to-position entries that a `LocationTable` holds.
pub uninterp spec fn location_table_entries(table: LocationTable) -> Map<Seq<char>, StoredPos>;

impl LocationTable {
    /// `hashbrown::HashMap::new`: an empty map.
    #[verifier::external_body]
    fn new() -> (fresh: LocationTable)
        ensures
            (location_table_entries(fresh) == Map::<Seq<char>, StoredPos>::empty()),
    {
        LocationTable { table: hashbrown::HashMap::new() }
    }

    /// `hashbrown::HashMap::get`, copying the value out: the position stored
    /// under `name`, if any.
    #[verifier::external_body]
    fn get(&self, name: &str) -> (pos: Option<StoredPos>)
        ensures
            pos == (if location_table_entries(*self).contains_key(name@) {
                Some(location_table_entries(*self)[name@])
            } else {
                None
            }),
    {
        self.table.get(name).copied()
    }

    /// `hashbrown::HashMap::try_insert`: inserts only where the name is
    /// absent; otherwise leaves the map as it was and hands back the key
    /// already present.
    #[verifier::external_body]
    fn try_insert(&mut self, name: String, pos: StoredPos) -> (res: Result<(), String>)
        ensures
            !location_table_entries(*old(self)).contains_key(name@) ==> {
                &&& res is Ok
                &&& location_table_entries(*final(self)) == location_table_entries(*old(self)).insert(name@, pos)
            },
            location_table_entries(*old(self)).contains_key(name@) ==> {
                &&& res matches Err(key) && key@ == name@
                &&& location_table_entries(*final(self)) == location_table_entries(*old(self))
            },
    {
        self.table.try_insert(name, pos).map(|_| ()).map_err(|o| o.entry.key().clone())
    }

    /// `hashbrown::HashMap::remove`: removes the entry under `name` and
    /// returns its position, if there was one.
    #[verifier::external_body]
    fn remove(&mut self, name: &str) -> (pos: Option<StoredPos>)
        ensures
            pos == (if location_table_entries(*old(self)).contains_key(name@) {
                Some(location_table_entries(*old(self))[name@])
            } else {
                None
            }),
            location_table_entries(*final(self)) == location_table_entries(*old(self)).remove(name@),
    {
        self.table.remove(name)
    }

    /// `hashbrown::HashMap::keys`, each key cloned: every name once, in the
    /// map's own order.  The order itself is left unsaid: it depends on the
    /// hasher's seed.
    #[verifier::external_body]
    fn keys(&self) -> (names: Vec<String>)
        ensures
            names@.len() == location_table_entries(*self).dom().len(),
            forall|i: int| 0 <= i < names@.len() ==> location_table_entries(*self).contains_key(#[trigger] names@[i]@),
            forall|i: int, j: int| 0 <= i < j < names@.len() ==> names@[i]@ != names@[j]@,
            forall|name: Seq<char>| location_table_entries(*self).contains_key(name) ==>
                exists|i: int| 0 <= i < names@.len() && #[trigger] names@[i]@ == name,
    {
        self.table.keys().cloned().collect()
    }
}

/// Whether a location name is acceptable: every character is a lowercase
/// ASCII letter or an underscore.
pub open spec fn is_valid_location_name(name: Seq<char>) -> bool {
    forall|i: int| 0 <= i < name.len() ==> is_location_name_char(#[trigger] name[i])
}

/// A character that may appear in a location name.
pub open spec fn is_location_name_char(c: char) -> bool {
    ('a' <= c && c <= 'z') || c == '_'
}

/// Why an operation on the locations failed.  Each variant carries the
/// name it was asked about.
#[derive(Debug)]
pub enum LocationError {
    InvalidName(String),
    DuplicateName(String),
    DoesNotExist(String),
}

/// The text that describes a location error.
pub open spec fn location_error_text(err: LocationError) -> Seq<char> {
    match err {
        LocationError::InvalidName(name) => "Location name '"@ + name@
            + "' is invalid. Names may only contain lowercase ASCII and underscores"@,
        LocationError::DuplicateName(name) => "Location '"@ + name@
            + "' already exists, consider deleting it first"@,
        LocationError::DoesNotExist(name) => "Location '"@ + name@ + "' does not exist"@,
    }
}

impl LocationError {
    /// The text that describes this error to a user.
    pub fn message(&self) -> (text: String)
        ensures
            text@ == location_error_text(*self),
    {
        match self {
            LocationError::InvalidName(name) => {
                let mut text = String::from_str("Location name '");
                text.append(name.as_str());
                text.append(
                    "' is invalid. Names may only contain lowercase ASCII and underscores",
                );
                text
            },
            LocationError::DuplicateName(name) => {
                let mut text = String::from_str("Location '");
                text.append(name.as_str());
                text.append("' already exists, consider deleting it first");
                text
            },
            LocationError::DoesNotExist(name) => {
                let mut text = String::from_str("Location '");
                text.append(name.as_str());
                text.append("' does not exist");
                text
            },
        }
    }
}

/// Checks a location name character by character.
pub fn valid_location_name(name: &str) -> (valid: bool)
    ensures
        valid == is_valid_location_name(name@),
{
    let mut valid = true;
    for c in it: name.chars()
        invariant
            it.seq() == name@,
            valid == (forall|i: int| 0 <= i < it.index() ==> is_location_name_char(#[trigger] name@[i])),
    {
        if !(('a' <= c && c <= 'z') || c == '_') {
            valid = false;
        }
    }
    valid
}

/// Positions that moderators name so that players can teleport between
/// them.  They are not kept between server sessions.
pub struct Locations {
    locations: LocationTable,
}

impl View for Locations {
    type V = Map<Seq<char>, StoredPos>;

    closed spec fn view(&self) -> Map<Seq<char>, StoredPos> {
        location_table_entries(self.locations)
    }
}

/// The locations after `insert(name, pos)`: a valid, unused name is
/// added; otherwise nothing changes.
pub open spec fn locations_after_insert(
    m: Map<Seq<char>, StoredPos>,
    name: Seq<char>,
    pos: StoredPos,
) -> Map<Seq<char>, StoredPos> {
    if is_valid_location_name(name) && !m.contains_key(name) {
        m.insert(name, pos)
    } else {
        m
    }
}

/// The position `get(name)` finds, if any.
pub open spec fn location_lookup(m: Map<Seq<char>, StoredPos>, name: Seq<char>) -> Option<StoredPos> {
    if m.contains_key(name) {
        Some(m[name])
    } else {
        None
    }
}

/// The locations after `remove(name)`.
pub open spec fn locations_after_remove(m: Map<Seq<char>, StoredPos>, name: Seq<char>) -> Map<Seq<char>, StoredPos> {
    m.remove(name)
}

impl Locations {
    /// No locations.
    pub fn new() -> (locations: Locations)
        ensures
            (locations@ == Map::<Seq<char>, StoredPos>::empty()),
    {
        Locations { locations: LocationTable::new() }
    }

    /// Adds a location under a new, valid name.  An invalid name, or one
    /// already in use, is refused and nothing changes.
    pub fn insert(&mut self, name: String, pos: StoredPos) -> (res: Result<(), LocationError>)
        ensures
            is_valid_location_name(name@) && !old(self)@.contains_key(name@) ==> {
                &&& res is Ok
                &&& final(self)@ == old(self)@.insert(name@, pos)
            },
            !is_valid_location_name(name@) ==> {
                &&& res matches Err(LocationError::InvalidName(n)) && n@ == name@
                &&& final(self)@ == old(self)@
            },
            is_valid_location_name(name@) && old(self)@.contains_key(name@) ==> {
                &&& res matches Err(LocationError::DuplicateName(n)) && n@ == name@
                &&& final(self)@ == old(self)@
            },
            final(self)@ == locations_after_insert(old(self)@, name@, pos),
    {
        if valid_location_name(name.as_str()) {
            match self.locations.try_insert(name, pos) {
                Ok(()) => Ok(()),
                Err(existing) => Err(LocationError::DuplicateName(existing)),
            }
        } else {
            Err(LocationError::InvalidName(name))
        }
    }

    /// The position stored under `name`.
    pub fn get(&self, name: &str) -> (res: Result<StoredPos, LocationError>)
        ensures
            self@.contains_key(name@) ==> (res matches Ok(pos) && pos == self@[name@]),
            !self@.contains_key(name@) ==> (res matches Err(LocationError::DoesNotExist(n)) && n@ == name@),
            (match res {
                Ok(pos) => location_lookup(self@, name@) == Some(pos),
                Err(_) => location_lookup(self@, name@) is None,
            }),
    {
        match self.locations.get(name) {
            Some(pos) => Ok(pos),
            None => Err(LocationError::DoesNotExist(String::from_str(name))),
        }
    }

    /// The names of all locations, each once, in no particular order.
    pub fn iter(&self) -> (names: Vec<String>)
        ensures
            names@.len() == self@.dom().len(),
            forall|i: int| 0 <= i < names@.len() ==> self@.contains_key(#[trigger] names@[i]@),
            forall|i: int, j: int| 0 <= i < j < names@.len() ==> names@[i]@ != names@[j]@,
            forall|name: Seq<char>| self@.contains_key(name) ==>
                exists|i: int| 0 <= i < names@.len() && #[trigger] names@[i]@ == name,
    {
        self.locations.keys()
    }

    /// Removes the location stored under `name`.
    pub fn remove(&mut self, name: &str) -> (res: Result<(), LocationError>)
        ensures
            old(self)@.contains_key(name@) ==> res is Ok,
            !old(self)@.contains_key(name@) ==> (res matches Err(LocationError::DoesNotExist(n)) && n@ == name@),
            final(self)@ == locations_after_remove(old(self)@, name@),
    {
        match self.locations.remove(name) {
            Some(_) => Ok(()),
            None => Err(LocationError::DoesNotExist(String::from_str(name))),
        }
    }
}


/// Why a location command failed.
#[derive(Debug)]
pub enum LocationCommandError {
    /// No location name was given.
    Usage,
    /// The target's position is unknown.
    PositionUnavailable,
    /// The locations refused the request.
    Location(LocationError),
}

/// What `/location` answers.
#[derive(Debug)]
pub enum LocationAnswer {
    /// Move the target to this position.
    TeleportTo(StoredPos),
    /// All location names in ascending order (empty where there are none).
    Listing(Vec<String>),
}

/// `/location [name]`: with a name, where to move the target; without one,
/// the sorted list of all names.
pub fn handle_location(locations: &Locations, args: &Vec<String>) -> (res: Result<LocationAnswer, LocationError>)
    ensures
        args@.len() > 0 && locations@.contains_key(args@[0]@) ==> (res matches Ok(
            LocationAnswer::TeleportTo(pos),
        ) && pos == locations@[args@[0]@]),
        args@.len() > 0 && !locations@.contains_key(args@[0]@) ==> (res matches Err(
            LocationError::DoesNotExist(n),
        ) && n@ == args@[0]@),
        args@.len() == 0 ==> (res matches Ok(LocationAnswer::Listing(names)) && {
            &&& texts_sorted(texts_of(names@))
            &&& names@.len() == locations@.dom().len()
            &&& forall|i: int| 0 <= i < names@.len() ==> locations@.contains_key(#[trigger] names@[i]@)
            &&& forall|name: Seq<char>| locations@.contains_key(name) ==> texts_of(names@).contains(name)
        }),
{
    if args.len() > 0 {
        let pos = locations.get(args[0].as_str())?;
        Ok(LocationAnswer::TeleportTo(pos))
    } else {
        let names = locations.iter();
        let sorted = sort_strings(names);
        proof {
            let before = texts_of(names@);
            let after = texts_of(sorted@);
            vstd::seq_lib::to_multiset_len(before);
            vstd::seq_lib::to_multiset_len(after);
            assert forall|i: int| 0 <= i < sorted@.len() implies locations@.contains_key(
                #[trigger] sorted@[i]@,
            ) by {
                vstd::seq_lib::to_multiset_contains(after, after[i]);
                vstd::seq_lib::to_multiset_contains(before, after[i]);
                let j = choose|j: int| 0 <= j < before.len() && before[j] == after[i];
                assert(names@[j]@ == sorted@[i]@);
            }
            assert forall|name: Seq<char>| locations@.contains_key(name) implies after.contains(name) by {
                let j = choose|j: int| 0 <= j < names@.len() && #[trigger] names@[j]@ == name;
                assert(before[j] == name);
                vstd::seq_lib::to_multiset_contains(before, name);
                vstd::seq_lib::to_multiset_contains(after, name);
            }
        }
        Ok(LocationAnswer::Listing(sorted))
    }
}

/// `/create_location <name>`: records the target's position under the
/// name, and returns the name.
pub fn handle_create_location(
    locations: &mut Locations,
    args: &Vec<String>,
    target_pos: Option<StoredPos>,
) -> (res: Result<String, LocationCommandError>)
    ensures
        args@.len() == 0 ==> (res matches Err(LocationCommandError::Usage) && final(locations)@ == old(
            locations,
        )@),
        args@.len() > 0 && target_pos is None ==> (res matches Err(LocationCommandError::PositionUnavailable)
            && final(locations)@ == old(locations)@),
        args@.len() > 0 && target_pos is Some ==> {
            let name = args@[0]@;
            &&& is_valid_location_name(name) && !old(locations)@.contains_key(name) ==> (res matches Ok(n)
                && n@ == name && final(locations)@ == old(locations)@.insert(name, target_pos->0))
            &&& !is_valid_location_name(name) ==> (res matches Err(
                LocationCommandError::Location(LocationError::InvalidName(n)),
            ) && n@ == name && final(locations)@ == old(locations)@)
            &&& is_valid_location_name(name) && old(locations)@.contains_key(name) ==> (res matches Err(
                LocationCommandError::Location(LocationError::DuplicateName(n)),
            ) && n@ == name && final(locations)@ == old(locations)@)
        },
{
    if args.len() == 0 {
        return Err(LocationCommandError::Usage);
    }
    let name = args[0].clone();
    let pos = match target_pos {
        Some(pos) => pos,
        None => {
            return Err(LocationCommandError::PositionUnavailable);
        },
    };
    match locations.insert(name.clone(), pos) {
        Ok(()) => Ok(name),
        Err(e) => Err(LocationCommandError::Location(e)),
    }
}

/// `/delete_location <name>`: removes the location, and returns the name.
pub fn handle_delete_location(locations: &mut Locations, args: &Vec<String>) -> (res: Result<
    String,
    LocationCommandError,
>)
    ensures
        args@.len() == 0 ==> (res matches Err(LocationCommandError::Usage) && final(locations)@ == old(
            locations,
        )@),
        args@.len() > 0 ==> {
            let name = args@[0]@;
            &&& old(locations)@.contains_key(name) ==> (res matches Ok(n) && n@ == name)
            &&& !old(locations)@.contains_key(name) ==> (res matches Err(
                LocationCommandError::Location(LocationError::DoesNotExist(n)),
            ) && n@ == name)
            &&& final(locations)@ == old(locations)@.remove(name)
        },
{
    if args.len() == 0 {
        return Err(LocationCommandError::Usage);
    }
    let name = args[0].clone();
    match locations.remove(name.as_str()) {
        Ok(()) => Ok(name),
        Err(e) => Err(LocationCommandError::Location(e)),
    }
}

} // verus!
