//! Modifier keys (ctrl, shift, alt, gui) and the keyboard keys that drive them.

use vstd::prelude::*;

verus! {

/// The set of modifier keys that are held down, one bit per key.
#[derive(Clone, Copy, Debug, PartialEq, Eq, Structural)]
pub struct ModifierKey {
    /// The bits of the held keys: ctrl is `1`, shift `2`, alt `4` and gui `8`.
    pub bits: u8,
}

/// The code of the left ctrl key.
pub const KEY_LCTRL: u32 = 0x4000_00E0;
/// The code of the left shift key.
pub const KEY_LSHIFT: u32 = 0x4000_00E1;
/// The code of the left alt key.
pub const KEY_LALT: u32 = 0x4000_00E2;
/// The code of the left gui key.
pub const KEY_LGUI: u32 = 0x4000_00E3;
/// The code of the right ctrl key.
pub const KEY_RCTRL: u32 = 0x4000_00E4;
/// The code of the right shift key.
pub const KEY_RSHIFT: u32 = 0x4000_00E5;
/// The code of the right alt key.
pub const KEY_RALT: u32 = 0x4000_00E6;
/// The code of the right gui key.
pub const KEY_RGUI: u32 = 0x4000_00E7;

/// The bit of the modifier that the key with the given code drives, if it drives one.
pub open spec fn modifier_bit_of_key(key: u32) -> Option<u8> {
    if key == KEY_LCTRL || key == KEY_RCTRL {
        Some(1u8)
    } else if key == KEY_LSHIFT || key == KEY_RSHIFT {
        Some(2u8)
    } else if key == KEY_LALT || key == KEY_RALT {
        Some(4u8)
    } else if key == KEY_LGUI || key == KEY_RGUI {
        Some(8u8)
    } else {
        None
    }
}

impl ModifierKey {
    /// No modifier key held.
    pub fn no_modifier() -> (r: Self)
        ensures
            r.bits == 0,
    {
        ModifierKey { bits: 0 }
    }

    /// The ctrl key alone.
    pub fn ctrl() -> (r: Self)
        ensures
            r.bits == 1,
    {
        ModifierKey { bits: 1 }
    }

    /// The shift key alone.
    pub fn shift() -> (r: Self)
        ensures
            r.bits == 2,
    {
        ModifierKey { bits: 2 }
    }

    /// The alt key alone.
    pub fn alt() -> (r: Self)
        ensures
            r.bits == 4,
    {
        ModifierKey { bits: 4 }
    }

    /// The gui key alone.
    pub fn gui() -> (r: Self)
        ensures
            r.bits == 8,
    {
        ModifierKey { bits: 8 }
    }

    /// Adds the keys of `other` to the set.
    pub fn insert(&mut self, other: ModifierKey)
        ensures
            final(self).bits == old(self).bits | other.bits,
    {
        self.bits = self.bits | other.bits;
    }

    /// Removes the keys of `other` from the set.
    pub fn remove(&mut self, other: ModifierKey)
        ensures
            final(self).bits == old(self).bits & !other.bits,
    {
        self.bits = self.bits & !other.bits;
    }

    /// Whether every key of `other` is in the set.
    pub fn contains(&self, other: ModifierKey) -> (r: bool)
        ensures
            r == (self.bits & other.bits == other.bits),
    {
        self.bits & other.bits == other.bits
    }
}

/// The modifier that the key with the given code drives: ctrl, shift, alt or gui for the left and
/// right keys of each, and none for any other key.
pub fn get_modifier(key: u32) -> (r: Option<ModifierKey>)
    ensures
        r == (match modifier_bit_of_key(key) {
            Some(b) => Some(ModifierKey { bits: b }),
            None => None,
        }),
{
    if key == KEY_LCTRL || key == KEY_RCTRL {
        Some(ModifierKey::ctrl())
    } else if key == KEY_LSHIFT || key == KEY_RSHIFT {
        Some(ModifierKey::shift())
    } else if key == KEY_LALT || key == KEY_RALT {
        Some(ModifierKey::alt())
    } else if key == KEY_LGUI || key == KEY_RGUI {
        Some(ModifierKey::gui())
    } else {
        None
    }
}

/// Releasing a modifier that was not held before it was pressed restores the set of held
/// modifiers: for a single-key modifier `m` not in `s`, removing `m` from `s` with `m` added gives
/// `s` back.
pub proof fn law_remove_undoes_insert(s: u8, m: u8)
    requires
        m == 1 || m == 2 || m == 4 || m == 8,
        s & m == 0,
    ensures
        (s | m) & !m == s,
{
    assert((s & m == 0) ==> ((s | m) & !m == s)) by (bit_vector);
}

/// A key drives a modifier only if it is one of the eight modifier keys, and the modifier it
/// drives is always a single key.
pub proof fn law_modifier_is_single_key(key: u32)
    ensures
        modifier_bit_of_key(key) matches Some(b) ==> (b == 1 || b == 2 || b == 4 || b == 8),
        modifier_bit_of_key(key) is Some <==> (KEY_LCTRL <= key && key <= KEY_RGUI),
{
}

} // verus!
