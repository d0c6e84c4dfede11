//! This module provides the `texture::Id` and `texture::TextureMap` types.
//!
//! `Image` widgets are instantiated with a `texture::Id`, which can be later used to retrieve the
//! necessary `Texture` from the `TextureMap`.
//!
//! Conrod requires no trait bounds on the `TextureMap`'s `T` type in order to not constrain the
//! kinds of textures that the user can use in any way. `TextureMap` is solely a helper struct
//! to simplify the creation and mapping of `texture::Id`s to their respective texture `T`.

use vstd::prelude::*;
use std::collections::HashMap;

verus! {

broadcast use vstd::std_specs::hash::group_hash_axioms;

/// A unique identifier that represents some texture.
#[derive(Copy, Clone, Debug, Hash, PartialEq, Eq, Structural, PartialOrd, Ord)]
pub struct Id(usize);

impl Id {
    /// The inner `usize` of the `Id`.
    pub closed spec fn spec_index(self) -> usize {
        self.0
    }

    /// Returns the inner `usize` from the `Id`.
    pub fn index(self) -> (r: usize)
        ensures
            r == self.spec_index(),
    {
        self.0
    }
}

/// Mappings from `texture::Id`s to some texture type `T`.
pub struct TextureMap<T> {
    next_index: usize,
    map: HashMap<usize, T>,
}

impl<T> TextureMap<T> {
    /// The textures held by the map, by the index of their `Id`.
    pub closed spec fn textures(&self) -> Map<usize, T> {
        self.map@
    }

    /// The index that the next inserted texture's `Id` will take.
    pub closed spec fn next_id_index(&self) -> usize {
        self.next_index
    }

    /// `new` is `old` with `texture` inserted under the `Id` `id`.
    pub open spec fn inserted(old: Self, new: Self, texture: T, id: Id) -> bool {
        &&& id.spec_index() == old.next_id_index()
        &&& new.textures() == old.textures().insert(id.spec_index(), texture)
        &&& new.next_id_index() == (if old.next_id_index() == usize::MAX {
            0
        } else {
            (old.next_id_index() + 1) as usize
        })
    }

    /// Construct the new, empty `Map`.
    pub fn new() -> (m: Self)
        ensures
            m.textures() == Map::<usize, T>::empty(),
            m.next_id_index() == 0,
    {
        TextureMap { next_index: 0, map: HashMap::new() }
    }

    /// Borrow the texture associated with the given `texture::Id`.
    pub fn get(&self, id: Id) -> (r: Option<&T>)
        ensures
            match r {
                Some(t) => self.textures().contains_key(id.spec_index()) && *t == self.textures()[id.spec_index()],
                None => !self.textures().contains_key(id.spec_index()),
            },
    {
        self.map.get(&id.0)
    }

    /// Adds the given texture to the `Map` and returns a unique `Id` for it.
    pub fn insert(&mut self, texture: T) -> (id: Id)
        ensures
            Self::inserted(*old(self), *final(self), texture, id),
    {
        let index = self.next_index;
        self.next_index = index.wrapping_add(1);
        let id = Id(index);
        self.map.insert(index, texture);
        id
    }
}

/// Reading a texture back after inserting it gives the texture that was inserted, and leaves
/// every other texture of the map as it was.
pub proof fn law_get_after_insert<T>(old: TextureMap<T>, new: TextureMap<T>, texture: T, id: Id, other: usize)
    requires
        TextureMap::inserted(old, new, texture, id),
    ensures
        new.textures().contains_key(id.spec_index()),
        new.textures()[id.spec_index()] == texture,
        other != id.spec_index() ==> new.textures().contains_key(other) == old.textures().contains_key(other)
            && new.textures()[other] == old.textures()[other],
{
}

/// Two inserts in a row hand out distinct `Id`s, unless the index counter wraps around between
/// them.
pub proof fn law_successive_inserts_give_distinct_ids<T>(
    m0: TextureMap<T>,
    m1: TextureMap<T>,
    m2: TextureMap<T>,
    t0: T,
    t1: T,
    id0: Id,
    id1: Id,
)
    requires
        TextureMap::inserted(m0, m1, t0, id0),
        TextureMap::inserted(m1, m2, t1, id1),
        m0.next_id_index() < usize::MAX,
    ensures
        id0 != id1,
{
}

} // verus!
