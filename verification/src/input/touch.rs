//! Touch-related items.

use vstd::prelude::*;
use vstd::std_specs::ops::SubSpec;
use vstd::std_specs::cmp::PartialOrdIs;
use std::cmp::Ordering;

verus! {

/// A type for uniquely identifying the source of a touch interaction.
#[derive(Copy, Clone, Debug, PartialEq, Eq, Structural, Ord, Hash)]
pub struct Id(u64);

impl PartialOrd for Id {
    fn partial_cmp(&self, other: &Id) -> (r: Option<Ordering>) {
        if self.0 < other.0 {
            Some(Ordering::Less)
        } else if self.0 == other.0 {
            Some(Ordering::Equal)
        } else {
            Some(Ordering::Greater)
        }
    }
}

impl vstd::std_specs::cmp::PartialOrdSpecImpl for Id {
    open spec fn obeys_partial_cmp_spec() -> bool {
        true
    }

    open spec fn partial_cmp_spec(&self, other: &Id) -> Option<Ordering> {
        if self.value() < other.value() {
            Some(Ordering::Less)
        } else if self.value() == other.value() {
            Some(Ordering::Equal)
        } else {
            Some(Ordering::Greater)
        }
    }
}

/// The stage of the touch interaction.
#[derive(Copy, Clone, Debug, PartialEq, Eq, Structural, Hash)]
pub enum Phase {
    /// The start of a touch interaction.
    Start,
    /// A touch moving across a surface.
    Move,
    /// The touch interaction was cancelled.
    Cancel,
    /// The end of a touch interaction.
    End,
}

impl Id {
    /// The identifier's inner value.
    pub closed spec fn value(self) -> u64 {
        self.0
    }

    /// Construct a new identifier.
    pub fn new(id: u64) -> (r: Self)
        ensures
            r.value() == id,
    {
        Id(id)
    }

    /// Two identifiers are equal exactly when they were made from the same value.
    pub proof fn lemma_value_injective(a: Self, b: Self)
        ensures
            a.value() == b.value() <==> a == b,
    {
    }

    /// Identifiers are ordered as the values they were made from.
    pub proof fn law_ordered_by_value(a: Self, b: Self)
        ensures
            a.is_lt(&b) <==> a.value() < b.value(),
            a.is_le(&b) <==> a.value() <= b.value(),
    {
    }
}

/// Represents a touch interaction.
///
/// Each time a user touches the surface with a new finger, a new series of `Touch` events
/// `Start`, each with a unique identifier. `S` is the scalar type of positions.
#[derive(Copy, Clone, Debug, PartialEq)]
pub struct Touch<S> {
    /// The stage of the touch interaction.
    pub phase: Phase,
    /// A unique identifier associated with the source of the touch interaction.
    pub id: Id,
    /// The location of the touch on the surface/screen.
    pub xy: [S; 2],
}

impl<S: Copy + std::ops::Sub<Output = S>> Touch<S> {
    /// Returns a copy of the `Touch` relative to the given `xy`.
    pub fn relative_to(&self, xy: [S; 2]) -> (r: Self)
        requires
            self.xy[0].sub_req(xy[0]),
            self.xy[1].sub_req(xy[1]),
        ensures
            r.phase == self.phase,
            r.id == self.id,
            S::obeys_sub_spec() ==> r.xy == [self.xy[0].sub_spec(xy[0]), self.xy[1].sub_spec(xy[1])],
    {
        Touch { phase: self.phase, id: self.id, xy: [self.xy[0] - xy[0], self.xy[1] - xy[1]] }
    }
}

} // verus!
