use vstd::prelude::*;

verus! {

/// Whether an entity's whole-pixel location follows its transform or was set by hand.
#[derive(Clone, Copy, Debug, PartialEq, Eq)]
pub enum LocationState {
    /// Set by hand; the transform no longer moves it.
    Modified((i32, i32)),
    /// Follows the transform.
    Static((i32, i32)),
}

/// An entity's location in whole pixels.
#[derive(Clone, Copy, Debug, PartialEq, Eq)]
pub struct Location {
    pub state: LocationState,
}

impl Location {
    /// The location read from a transform's translation (already in whole pixels).
    pub fn from_translation(at: (i32, i32)) -> (r: Self)
        ensures
            r == (Location { state: LocationState::Static(at) }),
    {
        Location { state: LocationState::Static(at) }
    }

    /// The transform moved to `at`: a location that follows it moves too; one
    /// set by hand stays.
    pub fn update_location_state(&mut self, at: (i32, i32))
        ensures
            match old(self).state {
                LocationState::Static(_) => *final(self) == (Location { state: LocationState::Static(at) }),
                LocationState::Modified(_) => *final(self) == *old(self),
            },
    {
        match self.state {
            LocationState::Static(_) => {
                *self = Location::from_translation(at);
            },
            LocationState::Modified(_) => {},
        }
    }
}

/// Keeps entity locations in step with their transforms.
pub struct LocationPlugin;

} // verus!
