//! The client's local copy of the world.
//!
//! A snapshot from the server describes the whole world, so applying one
//! replaces whatever the store held before: the last snapshot applied wins.
use vstd::prelude::*;

verus! {

/// The local world: the snapshot last applied, if any.
#[derive(Debug)]
pub struct WorldStore {
    snapshot: Option<Vec<u8>>,
}

/// The world that results from applying `payload` to `world`.
pub open spec fn apply(world: Option<Seq<u8>>, payload: Seq<u8>) -> Option<Seq<u8>> {
    Some(payload)
}

impl View for WorldStore {
    type V = Option<Seq<u8>>;

    closed spec fn view(&self) -> Option<Seq<u8>> {
        match self.snapshot {
            Some(s) => Some(s@),
            None => None,
        }
    }
}

impl WorldStore {
    /// An empty world, before any snapshot has arrived.
    pub fn new() -> (r: WorldStore)
        ensures
            r@ == None::<Seq<u8>>,
    {
        WorldStore { snapshot: None }
    }

    /// Replaces the world with the one that `payload` describes.
    pub fn apply_snapshot(&mut self, payload: Vec<u8>)
        ensures
            final(self)@ == apply(old(self)@, payload@),
    {
        self.snapshot = Some(payload);
    }

    /// The snapshot that the world currently holds.
    pub fn snapshot(&self) -> (r: Option<&Vec<u8>>)
        ensures
            match r {
                Some(s) => self@ == Some(s@),
                None => self@ == None::<Seq<u8>>,
            },
    {
        match &self.snapshot {
            Some(s) => Some(s),
            None => None,
        }
    }

    /// Whether no snapshot has been applied yet.
    pub fn is_empty(&self) -> (r: bool)
        ensures
            r == (self@ is None),
    {
        self.snapshot.is_none()
    }
}

/// Applying a snapshot replaces the world whole: the result does not depend
/// on the prior world, and of two snapshots applied in turn only the second
/// shows.
pub proof fn lemma_last_snapshot_wins(
    world: Option<Seq<u8>>,
    other: Option<Seq<u8>>,
    first: Seq<u8>,
    second: Seq<u8>,
)
    ensures
        apply(world, second) == apply(other, second),
        apply(apply(world, first), second) == apply(world, second),
        apply(world, second) == Some(second),
{
}

} // verus!
