//! What somebody has configured.
use vstd::prelude::*;

use crate::path::{HostPath, PathView};

verus! {

/// Where saved content goes.
#[derive(Debug)]
pub enum SaveDestination {
    Downloads,
    Custom { path: HostPath },
}

/// Where saved content goes, as a value.
pub ghost enum DestinationView {
    Downloads,
    Custom { path: PathView },
}

impl View for SaveDestination {
    type V = DestinationView;

    open spec fn view(&self) -> DestinationView {
        match *self {
            SaveDestination::Downloads => DestinationView::Downloads,
            SaveDestination::Custom { path } => DestinationView::Custom { path: path@ },
        }
    }
}

impl Clone for SaveDestination {
    fn clone(&self) -> (r: Self)
        ensures
            r@ == self@,
    {
        match self {
            SaveDestination::Downloads => SaveDestination::Downloads,
            SaveDestination::Custom { path } => SaveDestination::Custom { path: path.clone() },
        }
    }
}

impl Default for SaveDestination {
    fn default() -> (r: Self)
        ensures
            r is Downloads,
    {
        SaveDestination::Downloads
    }
}

impl SaveDestination {
    /// A directory that was chosen; it must be named by an absolute path.
    pub fn custom(path: HostPath) -> (r: Result<Self, String>)
        ensures
            r is Ok <==> path.absolute,
            r matches Ok(destination) ==> destination@ == (DestinationView::Custom { path: path@ }),
            r matches Err(error) ==> error@ == "custom save destination must be absolute"@,
    {
        if !path.absolute {
            return Err("custom save destination must be absolute".to_owned());
        }
        Ok(SaveDestination::Custom { path })
    }

    /// The directory that was chosen, if one was.
    #[must_use]
    pub fn path(&self) -> (r: Option<&HostPath>)
        ensures
            match self@ {
                DestinationView::Downloads => r is None,
                DestinationView::Custom { path } => r matches Some(p) && p@ == path,
            },
    {
        match self {
            SaveDestination::Downloads => None,
            SaveDestination::Custom { path } => Some(path),
        }
    }
}

/// What somebody has configured.
#[derive(Debug)]
pub struct UserSettings {
    pub schema_version: u32,
    pub save_destination: SaveDestination,
}

/// The version of the settings that is written.
#[must_use]
pub fn settings_schema_version() -> (r: u32)
    ensures
        r == 1,
{
    1
}

impl Default for UserSettings {
    fn default() -> (r: Self)
        ensures
            r.schema_version == 1,
            r.save_destination is Downloads,
    {
        UserSettings {
            schema_version: settings_schema_version(),
            save_destination: SaveDestination::Downloads,
        }
    }
}

} // verus!
