//! The `font::Id` and `font::FontMap` types.

use vstd::prelude::*;
use std::collections::HashMap;
use vstd::std_specs::iter::IteratorSpec;

verus! {

broadcast use vstd::std_specs::hash::group_hash_axioms;

/// A font of the `rusttype` crate.
#[verifier::external_type_specification]
#[verifier::external_body]
pub struct ExFont<'a>(rusttype::Font<'a>);

/// The error that std's I/O operations report.
#[verifier::external_type_specification]
#[verifier::external_body]
pub struct ExIoError(std::io::Error);

/// A type-safe wrapper around the `FontId`.
///
/// This is used as both:
///
/// - The key for the `font::FontMap`'s inner `HashMap`.
/// - The `font_id` field for the rusttype::gpu_cache::Cache.
#[derive(Copy, Clone, Debug, Hash, PartialEq, Eq, Structural, PartialOrd, Ord)]
pub struct Id(usize);

/// A collection of mappings from `font::Id`s to `rusttype::Font`s.
pub struct FontMap {
    next_index: usize,
    map: HashMap<usize, rusttype::Font<'static>>,
}

/// An iterator yielding an `Id` for each new `rusttype::Font` inserted into the `FontMap`.
pub struct NewIds {
    index_range: std::ops::Range<usize>,
}

/// Yields the `Id` for each font within the `FontMap`.
pub struct Ids {
    ids: Vec<Id>,
    next: usize,
}

/// Returned when loading new fonts from file or bytes.
pub enum Error {
    /// Some error occurred while reading the font data from a file.
    IO(std::io::Error),
    /// No fonts could be yielded from the font data.
    NoFont,
}

/// Whether `rusttype` accepts the given bytes as the data of a font.
pub uninterp spec fn is_font_data(data: Seq<u8>) -> bool;

/// Calls `rusttype::Font::try_from_vec`, which parses owned font data.
///
/// Claims that a font comes back exactly when the data is font data (`is_font_data`), which
/// depends on the bytes alone. Which font comes back is not stated.
#[verifier::external_body]
fn font_try_from_vec(data: Vec<u8>) -> (r: Option<rusttype::Font<'static>>)
    ensures
        r is Some <==> is_font_data(data@),
{
    rusttype::Font::try_from_vec(data)
}

impl Id {
    /// The inner `usize` of the `Id`.
    pub closed spec fn spec_index(self) -> usize {
        self.0
    }

    /// Returns the inner `usize` from the `Id`.
    pub fn index(self) -> (r: usize)
        ensures
            r == self.spec_index(),
    {
        self.0
    }
}

impl NewIds {
    /// The indices of the `Id`s that are still to be yielded.
    pub closed spec fn remaining(&self) -> (usize, usize) {
        (self.index_range.start, self.index_range.end)
    }

    /// Yields the next `Id`, or `None` once every `Id` has been yielded.
    pub fn next(&mut self) -> (r: Option<Id>)
        ensures
            old(self).remaining().0 < old(self).remaining().1 ==> {
                &&& r matches Some(id) && id.spec_index() == old(self).remaining().0
                &&& final(self).remaining() == ((old(self).remaining().0 + 1) as usize, old(self).remaining().1)
            },
            old(self).remaining().0 >= old(self).remaining().1 ==> r is None && final(self).remaining()
                == old(self).remaining(),
    {
        if self.index_range.start < self.index_range.end {
            let i = self.index_range.start;
            self.index_range.start = i + 1;
            Some(Id(i))
        } else {
            None
        }
    }
}

impl Ids {
    /// The `Id`s that are still to be yielded, in order.
    pub closed spec fn remaining(&self) -> Seq<Id> {
        self.ids@.subrange(self.next as int, self.ids@.len() as int)
    }

    /// The iterator is well formed: its position lies within its `Id`s.
    pub closed spec fn wf(&self) -> bool {
        self.next <= self.ids@.len()
    }

    /// Yields the next `Id`, or `None` once every `Id` has been yielded.
    pub fn next(&mut self) -> (r: Option<Id>)
        requires
            old(self).wf(),
        ensures
            final(self).wf(),
            old(self).remaining().len() > 0 ==> r == Some(old(self).remaining()[0])
                && final(self).remaining() == old(self).remaining().drop_first(),
            old(self).remaining().len() == 0 ==> r is None && final(self).remaining()
                == old(self).remaining(),
    {
        if self.next < self.ids.len() {
            let id = self.ids[self.next];
            self.next = self.next + 1;
            assert(self.ids@.subrange(self.next as int, self.ids@.len() as int)
                =~= old(self).remaining().drop_first());
            Some(id)
        } else {
            None
        }
    }
}

impl FontMap {
    /// The fonts held by the map, by the index of their `Id`.
    pub closed spec fn fonts(&self) -> Map<usize, rusttype::Font<'static>> {
        self.map@
    }

    /// The index that the next inserted font's `Id` will take.
    pub closed spec fn next_id_index(&self) -> usize {
        self.next_index
    }

    /// `new` is `old` with `font` inserted under the `Id` `id`.
    pub open spec fn inserted(old: Self, new: Self, font: rusttype::Font<'static>, id: Id) -> bool {
        &&& id.spec_index() == old.next_id_index()
        &&& new.fonts() == old.fonts().insert(id.spec_index(), font)
        &&& new.next_id_index() == (if old.next_id_index() == usize::MAX {
            0
        } else {
            (old.next_id_index() + 1) as usize
        })
    }

    /// Construct the new, empty `FontMap`.
    pub fn new() -> (m: Self)
        ensures
            m.fonts() == Map::<usize, rusttype::Font<'static>>::empty(),
            m.next_id_index() == 0,
    {
        FontMap { next_index: 0, map: HashMap::new() }
    }

    /// Borrow the `rusttype::Font` associated with the given `font::Id`.
    pub fn get(&self, id: Id) -> (r: Option<&rusttype::Font<'static>>)
        ensures
            match r {
                Some(f) => self.fonts().contains_key(id.spec_index()) && *f == self.fonts()[id.spec_index()],
                None => !self.fonts().contains_key(id.spec_index()),
            },
    {
        self.map.get(&id.0)
    }

    /// Adds the given `rusttype::Font` to the `FontMap` and returns a unique `Id` for it.
    pub fn insert(&mut self, font: rusttype::Font<'static>) -> (id: Id)
        ensures
            Self::inserted(*old(self), *final(self), font, id),
    {
        let index = self.next_index;
        self.next_index = index.wrapping_add(1);
        let id = Id(index);
        self.map.insert(index, font);
        id
    }

    /// Produces an iterator yielding the `Id` for each font within the `FontMap`.
    ///
    /// Each `Id` of the map is yielded exactly once; the order is that of the map's keys.
    pub fn ids(&self) -> (ids: Ids)
        ensures
            ids.wf(),
            ids.remaining().len() == self.fonts().dom().len(),
            ids.remaining().no_duplicates(),
            forall|i: int|
                0 <= i < ids.remaining().len() ==> self.fonts().contains_key(
                    #[trigger] ids.remaining()[i].spec_index(),
                ),
            forall|k: usize| self.fonts().contains_key(k) ==> exists|i: int|
                0 <= i < ids.remaining().len() && #[trigger] ids.remaining()[i].spec_index() == k,
    {
        let ghost keys = vstd::std_specs::hash::spec_keys_iter(&self.map).remaining();
        proof {
            vstd::std_specs::hash::axiom_spec_keys_iter(&self.map);
        }
        let mut ids: Vec<Id> = Vec::new();
        for k in it: self.map.keys()
            invariant
                it.seq() == keys,
                ids@.len() == it.index(),
                forall|i: int| 0 <= i < ids@.len() ==> #[trigger] ids@[i].spec_index() == *keys[i],
        {
            ids.push(Id(*k));
        }
        let r = Ids { ids, next: 0 };
        assert(r.remaining() =~= ids@);
        assert forall|i: int, j: int| 0 <= i < j < ids@.len() implies ids@[i] != ids@[j] by {
            assert(keys.no_duplicates());
            assert(keys[i] != keys[j]);
            assert(ids@[i].spec_index() != ids@[j].spec_index());
        }
        assert forall|k: usize| self.fonts().contains_key(k) implies exists|i: int|
            0 <= i < ids@.len() && #[trigger] ids@[i].spec_index() == k by {
            assert(keys.unref().to_set().contains(k));
            let i = choose|i: int| 0 <= i < keys.unref().len() && keys.unref()[i] == k;
            assert(ids@[i].spec_index() == k);
        }
        assert forall|i: int| 0 <= i < ids@.len() implies self.fonts().contains_key(
            #[trigger] ids@[i].spec_index()) by {
            assert(keys.unref()[i] == *keys[i]);
            assert(keys.unref().to_set().contains(keys.unref()[i]));
        }
        r
    }
}

/// Load a single font from the given font data.
///
/// Returns `Error::NoFont` when the data holds no font.
pub fn from_bytes(data: Vec<u8>) -> (r: Result<rusttype::Font<'static>, Error>)
    ensures
        r is Ok <==> is_font_data(data@),
        r is Err ==> r matches Err(Error::NoFont),
{
    match font_try_from_vec(data) {
        Some(font) => Ok(font),
        None => Err(Error::NoFont),
    }
}

/// Reading a font back after inserting it gives the font that was inserted, and leaves every
/// other font of the map as it was.
pub proof fn law_get_after_insert(old: FontMap, new: FontMap, font: rusttype::Font<'static>, id: Id, other: usize)
    requires
        FontMap::inserted(old, new, font, id),
    ensures
        new.fonts().contains_key(id.spec_index()),
        new.fonts()[id.spec_index()] == font,
        other != id.spec_index() ==> new.fonts().contains_key(other) == old.fonts().contains_key(other)
            && new.fonts()[other] == old.fonts()[other],
{
}

/// Two inserts in a row hand out distinct `Id`s, unless the index counter wraps around between
/// them.
pub proof fn law_successive_inserts_give_distinct_ids(
    m0: FontMap,
    m1: FontMap,
    m2: FontMap,
    f0: rusttype::Font<'static>,
    f1: rusttype::Font<'static>,
    id0: Id,
    id1: Id,
)
    requires
        FontMap::inserted(m0, m1, f0, id0),
        FontMap::inserted(m1, m2, f1, id1),
        m0.next_id_index() < usize::MAX,
    ensures
        id0 != id1,
{
}

} // verus!
