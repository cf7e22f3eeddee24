//! What the configuration file holds. Reading and writing it is the
//! program's business; the file is a JSON document of this shape.

use vstd::prelude::*;
use crate::alarm::Alarm;

verus! {

/// Contents of the saved configuration.
#[derive(Debug)]
pub struct ConfigFile {
    /// Schema version, bumped only for a breaking migration.
    pub version: u32,
    pub next_id: u64,
    pub alarms: Vec<Alarm>,
}

/// The schema version a file without one is read as.
pub fn default_version() -> (v: u32)
    ensures
        v == 1,
{
    1
}

impl Default for ConfigFile {
    /// The configuration of a first run, or of a file that could not be read.
    fn default() -> (c: Self)
        ensures
            c.version == 0,
            c.next_id == 0,
            c.alarms@.len() == 0,
    {
        ConfigFile { version: 0, next_id: 0, alarms: Vec::new() }
    }
}

} // verus!
