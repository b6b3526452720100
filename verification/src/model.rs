//! The keyframe model: the record shapes a camera path is made of, the
//! collection that holds them, and the library's error type.

use vstd::prelude::*;

verus! {

/// A world-space position. Coordinates are fixed-point integers in the
/// caller's scale; every operation on them is scale-free.
#[derive(Clone, Copy, PartialEq, Eq, Structural, Debug)]
pub struct Position {
    pub x: i64,
    pub y: i64,
    pub z: i64,
}

/// An orientation in engine angular units (182.04 units per degree).
/// Angle arithmetic wraps; no normalisation into a canonical range is done.
#[derive(Clone, Copy, PartialEq, Eq, Structural, Debug)]
pub struct Rotation {
    pub pitch: i32,
    pub roll: i32,
    pub yaw: i32,
}

/// One timed sample of the camera: field of view, derived frame index,
/// position, rotation, timestamp (microseconds) and blend weight.
///
/// The one cross-field invariant of interest is that `frame` equals the
/// frame index derived from `timestamp` at 30 frames per second; every
/// transform that writes `timestamp` rewrites `frame` in the same pass.
/// The invariant is not demanded of inputs.
#[derive(Clone, Copy, PartialEq, Eq, Structural, Debug)]
pub struct Keyframe {
    pub fov: i64,
    pub frame: i32,
    pub position: Position,
    pub rotation: Rotation,
    pub timestamp: i64,
    pub weight: i64,
}

/// A keyframe under its opaque string identifier.
#[derive(Debug)]
pub struct Entry {
    pub id: String,
    pub keyframe: Keyframe,
}

/// A keyframe collection: a mapping from identifier to keyframe, held as a
/// vector of entries. Key uniqueness is the only structural invariant; no
/// ordering is implied — transforms that need temporal order sort by
/// `timestamp` explicitly.
#[derive(Debug)]
pub struct CameraPath {
    pub entries: Vec<Entry>,
}

impl View for CameraPath {
    type V = Seq<Entry>;

    open spec fn view(&self) -> Seq<Entry> {
        self.entries@
    }
}

/// Identifiers are pairwise distinct — the shape the canonical serialized
/// form (an object keyed by identifier) guarantees at the parse boundary.
pub open spec fn unique_ids(s: Seq<Entry>) -> bool {
    forall|i: int, j: int| 0 <= i < j < s.len() ==> s[i].id@ != s[j].id@
}

impl CameraPath {
    /// Identifiers are pairwise distinct.
    pub open spec fn ids_unique(&self) -> bool {
        unique_ids(self@)
    }

    pub fn new() -> (out: CameraPath)
        ensures
            out@ == Seq::<Entry>::empty(),
    {
        let entries: Vec<Entry> = Vec::new();
        proof {
            assert(entries@ =~= Seq::<Entry>::empty());
        }
        CameraPath { entries }
    }

    pub fn push(&mut self, entry: Entry)
        ensures
            final(self)@ == old(self)@.push(entry),
    {
        self.entries.push(entry);
    }

    pub fn len(&self) -> (n: usize)
        ensures
            n == self@.len(),
    {
        self.entries.len()
    }
}

/// An exact ratio, standing in for a real-valued scale factor:
/// field-of-view multiply, position scale, speed.
#[derive(Clone, Copy, PartialEq, Eq, Structural, Debug)]
pub struct Ratio {
    pub num: i64,
    pub den: i64,
}

impl Ratio {
    /// A ratio denotes a number only when its denominator is nonzero.
    pub open spec fn is_valid(&self) -> bool {
        self.den != 0
    }
}

/// How a call fails. Every error is terminal for the call that raised it:
/// no retries, no partial application, no silent defaulting.
#[derive(Debug)]
pub enum TransformError {
    /// The supplied data does not have the expected keyframe-collection
    /// shape. Raised only at the parse boundary, outside this library.
    MalformedInput(String),
    /// A parameter value is semantically invalid; the payload names the
    /// offending value.
    InvalidParameter(String),
}

/// Clones an entry; the identifier string is copied character for character.
pub fn clone_entry(e: &Entry) -> (out: Entry)
    ensures
        out == *e,
{
    let out = Entry { id: e.id.clone(), keyframe: e.keyframe };
    proof {
        assert(out == *e);
    }
    out
}

} // verus!
