//! The axes of the plane, and the ways of positioning a widget along one of them.

use vstd::prelude::*;

verus! {

/// Represents either **Axis** in the 2-dimensional plane.
#[derive(Copy, Clone, Debug, PartialEq, Eq, Structural)]
pub enum Axis {
    /// The horizontal plane's Axis.
    X,
    /// The vertical plane's Axis.
    Y,
}

/// Directionally positioned, normally relative to some other widget.
#[derive(Copy, Clone, Debug, PartialEq, Eq, Structural)]
pub enum Direction {
    /// Positioned forwards (*positive* **Scalar**) along some **Axis**.
    Forwards,
    /// Positioned backwards (*negative* **Scalar**) along some **Axis**.
    Backwards,
}

/// The orientation of **Align**ment along some **Axis**.
#[derive(Copy, Clone, Debug, PartialEq, Eq, Structural)]
pub enum Align {
    /// **Align** our **Start** with the **Start** of some other widget along the **Axis**.
    Start,
    /// **Align** our **Middle** with the **Middle** of some other widget along the **Axis**.
    Middle,
    /// **Align** our **End** with the **End** of some other widget along the **Axis**.
    End,
}

/// The name under which a **Direction** is serialized.
pub open spec fn direction_name(d: Direction) -> Seq<char> {
    match d {
        Direction::Forwards => seq!['F', 'o', 'r', 'w', 'a', 'r', 'd', 's'],
        Direction::Backwards => seq!['B', 'a', 'c', 'k', 'w', 'a', 'r', 'd', 's'],
    }
}

/// The name under which an **Align** is serialized.
pub open spec fn align_name(a: Align) -> Seq<char> {
    match a {
        Align::Start => seq!['S', 't', 'a', 'r', 't'],
        Align::Middle => seq!['M', 'i', 'd', 'd', 'l', 'e'],
        Align::End => seq!['E', 'n', 'd'],
    }
}

impl Direction {
    /// Converts this **Direction** into a string representing it for use in theme serialization.
    pub fn into_json(self) -> (r: &'static str)
        ensures
            r@ == direction_name(self),
    {
        match self {
            Direction::Forwards => {
                proof {
                    reveal_strlit("Forwards");
                }
                "Forwards"
            },
            Direction::Backwards => {
                proof {
                    reveal_strlit("Backwards");
                }
                "Backwards"
            },
        }
    }
}

impl Align {
    /// Converts this **Align** into a string representing it, for use in JSON.
    pub fn into_json(self) -> (r: &'static str)
        ensures
            r@ == align_name(self),
    {
        match self {
            Align::Start => {
                proof {
                    reveal_strlit("Start");
                }
                "Start"
            },
            Align::Middle => {
                proof {
                    reveal_strlit("Middle");
                }
                "Middle"
            },
            Align::End => {
                proof {
                    reveal_strlit("End");
                }
                "End"
            },
        }
    }
}

/// Distinct **Direction**s are serialized under distinct names, so that a theme can be read back.
pub proof fn law_direction_names_distinct(a: Direction, b: Direction)
    requires
        a != b,
    ensures
        direction_name(a) != direction_name(b),
{
    assert(direction_name(Direction::Forwards).len() != direction_name(Direction::Backwards).len());
}

/// Distinct **Align**s are serialized under distinct names, so that a theme can be read back.
pub proof fn law_align_names_distinct(a: Align, b: Align)
    requires
        a != b,
    ensures
        align_name(a) != align_name(b),
{
    assert(align_name(Align::Start)[0] != align_name(Align::Middle)[0]);
    assert(align_name(Align::Start)[0] != align_name(Align::End)[0]);
    assert(align_name(Align::Middle)[0] != align_name(Align::End)[0]);
}

} // verus!
