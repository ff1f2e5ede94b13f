//! What every named track carries.

use vstd::prelude::*;
use crate::ident::new_uuid;
use crate::track::{TrackId, TrackType};

verus! {

/// The identity, name and kind of a track.
#[derive(Debug)]
pub struct BaseTrack {
    pub id: TrackId,
    pub name: String,
    pub track_type: TrackType,
}

impl BaseTrack {
    /// A track record under a fresh random identifier.
    pub fn new(name: &str, track_type: TrackType) -> (track: Self)
        ensures
            track.name@ == name@,
            track.track_type == track_type,
    {
        Self { id: TrackId::from(new_uuid()), name: name.to_owned(), track_type }
    }

    pub fn id(&self) -> (id: TrackId)
        ensures
            id == self.id,
    {
        self.id.duplicate()
    }

    pub fn name(&self) -> (name: &str)
        ensures
            name@ == self.name@,
    {
        self.name.as_str()
    }

    pub fn track_type(&self) -> (track_type: TrackType)
        ensures
            track_type == self.track_type,
    {
        self.track_type
    }
}

} // verus!
