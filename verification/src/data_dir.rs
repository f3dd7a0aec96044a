use vstd::prelude::*;

verus! {

/// Used so that different server frontends can share the same server
/// saves.
pub const DEFAULT_DATA_DIR_NAME: &'static str = "server";

/// Where maps, saves and server configuration are stored.
pub struct DataDir {
    pub path: String,
}

impl DataDir {
    /// The directory's path.
    pub fn as_path(&self) -> (path: &str)
        ensures
            path@ == self.path@,
    {
        self.path.as_str()
    }
}

} // verus!
