//! A type used to manage a user's image data and map them to `Image` widgets:
//!
//! - [ImageMap](./struct.ImageMap.html)

use vstd::prelude::*;

verus! {

/// Unique image identifier.
///
/// Throughout conrod, images are referred to via their unique `Id`. By referring to images via
/// `Id`s, conrod can remain agnostic of the actual image or texture types used to represent each
/// image.
#[derive(Copy, Clone, Debug, Eq, PartialEq, Structural, Ord, PartialOrd, Hash)]
pub struct Id(u32);

impl Id {
    /// The inner index of the `Id`.
    pub closed spec fn spec_index(self) -> u32 {
        self.0
    }
}

/// The hasher of the `fnv` crate.
#[verifier::external_type_specification]
#[verifier::external_body]
pub struct ExFnvHasher(fnv::FnvHasher);

/// std's builder for hashers that are built with `Default`.
#[verifier::external_type_specification]
#[verifier::external_body]
#[verifier::reject_recursive_types(H)]
pub struct ExBuildHasherDefault<H>(std::hash::BuildHasherDefault<H>);

/// The type of `std::collections::HashMap` with `fnv::FnvHasher` used within the `ImageMap`,
/// keyed by the index of each image's `Id`.
pub type HashMap<Img> = fnv::FnvHashMap<u32, Img>;

/// Calls `HashMap::insert` on a map built with the `fnv` hasher.
///
/// Claims what std documents of `insert`: the key now maps to the value, and the value that the
/// key mapped to before (if any) is returned. The hasher plays no part in that behaviour.
#[verifier::external_body]
fn fnv_insert<Img>(map: &mut HashMap<Img>, key: u32, value: Img) -> (r: Option<Img>)
    ensures
        final(map)@ == old(map)@.insert(key, value),
        match r {
            Some(v) => old(map)@.contains_key(key) && v == old(map)@[key],
            None => !old(map)@.contains_key(key),
        },
{
    map.insert(key, value)
}

/// Calls `HashMap::remove` on a map built with the `fnv` hasher.
///
/// Claims what std documents of `remove`: the key no longer maps to anything, and the value that
/// it mapped to before (if any) is returned.
#[verifier::external_body]
fn fnv_remove<Img>(map: &mut HashMap<Img>, key: u32) -> (r: Option<Img>)
    ensures
        final(map)@ == old(map)@.remove(key),
        match r {
            Some(v) => old(map)@.contains_key(key) && v == old(map)@[key],
            None => !old(map)@.contains_key(key),
        },
{
    map.remove(&key)
}

/// Calls `HashMap::get` on a map built with the `fnv` hasher.
///
/// Claims what std documents of `get`: a reference to the value that the key maps to, if any.
#[verifier::external_body]
fn fnv_get<Img>(map: &HashMap<Img>, key: u32) -> (r: Option<&Img>)
    ensures
        match r {
            Some(v) => map@.contains_key(key) && *v == map@[key],
            None => !map@.contains_key(key),
        },
{
    map.get(&key)
}

/// Calls `HashMap::get_mut` on a map built with the `fnv` hasher.
///
/// Claims what std documents of `get_mut`: a mutable reference to the value that the key maps
/// to, if any; whatever is written through it becomes the key's value.
#[verifier::external_body]
fn fnv_get_mut<Img>(map: &mut HashMap<Img>, key: u32) -> (r: Option<&mut Img>)
    ensures
        match r {
            Some(v) => {
                &&& old(map)@.contains_key(key)
                &&& *v == old(map)@[key]
                &&& final(map)@ == old(map)@.insert(key, *final(v))
            },
            None => !old(map)@.contains_key(key) && final(map)@ == old(map)@,
        },
{
    map.get_mut(&key)
}

/// A type used to map the `widget::Id` of `Image` widgets to their associated `Img` data.
///
/// The `ImageMap` type is usually instantiated and loaded during the "setup" stage of the
/// application before the main loop begins.
pub struct ImageMap<Img> {
    next_index: u32,
    map: HashMap<Img>,
    /// Whether or not the `ImageMap` will trigger a redraw the next time `Ui::draw` is called.
    ///
    /// This is automatically set to `true` when any method that takes `&mut self` is called.
    pub trigger_redraw: bool,
}

/// An iterator yielding an `Id` for each new `Img` inserted into the `ImageMap` via the `extend`
/// method.
pub struct NewIds {
    index_range: std::ops::Range<u32>,
}

impl NewIds {
    /// The indices of the `Id`s that are still to be yielded.
    pub closed spec fn remaining(&self) -> (u32, u32) {
        (self.index_range.start, self.index_range.end)
    }

    /// Yields the next `Id`, or `None` once every `Id` has been yielded.
    pub fn next(&mut self) -> (r: Option<Id>)
        ensures
            old(self).remaining().0 < old(self).remaining().1 ==> {
                &&& r matches Some(id) && id.spec_index() == old(self).remaining().0
                &&& final(self).remaining() == ((old(self).remaining().0 + 1) as u32, old(self).remaining().1)
            },
            old(self).remaining().0 >= old(self).remaining().1 ==> r is None && final(self).remaining()
                == old(self).remaining(),
    {
        if self.index_range.start < self.index_range.end {
            let i = self.index_range.start;
            self.index_range.start = i + 1;
            Some(Id(i))
        } else {
            None
        }
    }

    /// The number of `Id`s that are still to be yielded.
    pub fn len(&self) -> (r: usize)
        ensures
            r == (if self.remaining().0 < self.remaining().1 {
                self.remaining().1 - self.remaining().0
            } else {
                0
            }),
    {
        if self.index_range.start < self.index_range.end {
            (self.index_range.end - self.index_range.start) as usize
        } else {
            0
        }
    }
}

impl<Img> ImageMap<Img> {
    /// The images held by the map, by the index of their `Id`.
    pub closed spec fn images(&self) -> Map<u32, Img> {
        self.map@
    }

    /// Whether the map will trigger a redraw (the `trigger_redraw` field).
    pub closed spec fn redraw_triggered(&self) -> bool {
        self.trigger_redraw
    }

    /// The index that the next inserted image's `Id` will take.
    pub closed spec fn next_id_index(&self) -> u32 {
        self.next_index
    }

    /// Every image is held under an index below the next index, so that the next index is one
    /// that no image uses yet.
    pub open spec fn ids_below_next(&self) -> bool {
        forall|k: u32| #[trigger] self.images().contains_key(k) ==> k < self.next_id_index()
    }

    /// `new` is `old` with `img` inserted under the `Id` `id`.
    pub open spec fn inserted(old: Self, new: Self, img: Img, id: Id) -> bool {
        &&& id.spec_index() == old.next_id_index()
        &&& new.images() == old.images().insert(id.spec_index(), img)
        &&& new.next_id_index() == (if old.next_id_index() == u32::MAX {
            0
        } else {
            (old.next_id_index() + 1) as u32
        })
        &&& new.redraw_triggered()
    }

    /// Construct a new, empty `ImageMap`.
    pub fn new() -> (m: Self)
        ensures
            m.images() == Map::<u32, Img>::empty(),
            m.next_id_index() == 0,
            m.redraw_triggered(),
            m.ids_below_next(),
    {
        ImageMap { next_index: 0, map: HashMap::<Img>::default(), trigger_redraw: true }
    }

    /// Borrow the `Img` associated with the given image `Id`.
    pub fn get(&self, id: Id) -> (r: Option<&Img>)
        ensures
            match r {
                Some(img) => self.images().contains_key(id.spec_index()) && *img == self.images()[id.spec_index()],
                None => !self.images().contains_key(id.spec_index()),
            },
    {
        fnv_get(&self.map, id.0)
    }

    /// Uniquely borrow the `Img` associated with the given image `Id`.
    ///
    /// Note: Calling this will trigger a redraw the next time `Ui::draw_if_changed` is called.
    pub fn get_mut(&mut self, id: Id) -> (r: Option<&mut Img>)
        ensures
            final(self).redraw_triggered(),
            final(self).next_id_index() == old(self).next_id_index(),
            match r {
                Some(img) => {
                    &&& old(self).images().contains_key(id.spec_index())
                    &&& *img == old(self).images()[id.spec_index()]
                    &&& final(self).images() == old(self).images().insert(id.spec_index(), *final(img))
                },
                None => !old(self).images().contains_key(id.spec_index()) && final(self).images()
                    == old(self).images(),
            },
            old(self).ids_below_next() ==> final(self).ids_below_next(),
    {
        self.trigger_redraw = true;
        fnv_get_mut(&mut self.map, id.0)
    }

    /// Inserts the given image into the map, returning its associated `image::Id`. The user *must*
    /// store the returned `image::Id` in order to use, modify or remove the inserted image.
    ///
    /// Note: Calling this will trigger a redraw the next time `Ui::draw_if_changed` is called.
    pub fn insert(&mut self, img: Img) -> (id: Id)
        ensures
            Self::inserted(*old(self), *final(self), img, id),
            old(self).ids_below_next() && old(self).next_id_index() < u32::MAX ==> {
                &&& !old(self).images().contains_key(id.spec_index())
                &&& final(self).ids_below_next()
            },
    {
        self.trigger_redraw = true;
        let index = self.next_index;
        self.next_index = index.wrapping_add(1);
        let id = Id(index);
        fnv_insert(&mut self.map, index, img);
        id
    }

    /// Replaces the given image in the map if it exists. Returns the image or None.
    ///
    /// Note: Calling this will trigger a redraw the next time `Ui::draw_if_changed` is called.
    pub fn replace(&mut self, id: Id, img: Img) -> (r: Option<Img>)
        ensures
            final(self).redraw_triggered(),
            final(self).next_id_index() == old(self).next_id_index(),
            final(self).images() == old(self).images().insert(id.spec_index(), img),
            old(self).ids_below_next() && id.spec_index() < old(self).next_id_index()
                ==> final(self).ids_below_next(),
            match r {
                Some(prev) => old(self).images().contains_key(id.spec_index()) && prev == old(self).images()[id.spec_index()],
                None => !old(self).images().contains_key(id.spec_index()),
            },
    {
        self.trigger_redraw = true;
        let r = fnv_insert(&mut self.map, id.0, img);
        assert forall|k: u32| #[trigger] self.images().contains_key(k) && old(self).ids_below_next() && id.spec_index()
            < old(self).next_id_index() implies k < self.next_id_index() by {
            if k != id.spec_index() {
                assert(old(self).images().contains_key(k));
            }
        }
        r
    }

    /// Removes the given image from the map if it exists. Returns the image or None.
    ///
    /// Any future use of the given `image::Id` will be invalid.
    ///
    /// Note: Calling this will trigger a redraw the next time `Ui::draw_if_changed` is called.
    pub fn remove(&mut self, id: Id) -> (r: Option<Img>)
        ensures
            final(self).redraw_triggered(),
            final(self).next_id_index() == old(self).next_id_index(),
            final(self).images() == old(self).images().remove(id.spec_index()),
            old(self).ids_below_next() ==> final(self).ids_below_next(),
            match r {
                Some(prev) => old(self).images().contains_key(id.spec_index()) && prev == old(self).images()[id.spec_index()],
                None => !old(self).images().contains_key(id.spec_index()),
            },
    {
        self.trigger_redraw = true;
        let r = fnv_remove(&mut self.map, id.0);
        assert forall|k: u32| #[trigger] self.images().contains_key(k) && old(self).ids_below_next()
            implies k < self.next_id_index() by {
            assert(old(self).images().contains_key(k));
        }
        r
    }

    /// Insert each of the given images and produce an iterator yielding their generated `Id`s in
    /// the same order.
    ///
    /// The images take the indices from the map's next index on, and the next index moves past
    /// them.
    ///
    /// Note: Calling this will trigger a redraw the next time `Ui::draw_if_changed` is called.
    pub fn extend(&mut self, images: Vec<Img>) -> (ids: NewIds)
        requires
            old(self).next_id_index() + images@.len() <= u32::MAX,
        ensures
            final(self).redraw_triggered(),
            final(self).next_id_index() == old(self).next_id_index() + images@.len(),
            old(self).ids_below_next() ==> final(self).ids_below_next(),
            ids.remaining() == (old(self).next_id_index(), (old(self).next_id_index() + images@.len()) as u32),
            final(self).images().dom() == old(self).images().dom().union(
                Set::new(|k: u32| old(self).next_id_index() <= k < old(self).next_id_index() + images@.len()),
            ),
            forall|k: u32|
                old(self).next_id_index() <= k < old(self).next_id_index() + images@.len()
                    ==> #[trigger] final(self).images()[k] == images@[k - old(self).next_id_index()],
            forall|k: u32|
                !(old(self).next_id_index() <= k < old(self).next_id_index() + images@.len())
                    && old(self).images().contains_key(k) ==> #[trigger] final(self).images()[k]
                    == old(self).images()[k],
    {
        self.trigger_redraw = true;
        let start_index = self.next_index;
        let mut end_index = start_index;
        let ghost old_images = self.map@;
        let ghost all = images@;
        let total: usize = images.len();
        let mut images = images;
        let mut reversed: Vec<Img> = Vec::new();
        while images.len() > 0
            invariant
                images@.len() + reversed@.len() == total,
                total == all.len(),
                forall|j: int| 0 <= j < images@.len() ==> #[trigger] images@[j] == all[j],
                forall|j: int| 0 <= j < reversed@.len() ==> #[trigger] reversed@[j] == all[total - 1 - j],
            decreases images@.len(),
        {
            let image = images.pop().unwrap();
            reversed.push(image);
        }
        let mut images = reversed;
        let mut i: usize = 0;
        while i < total
            invariant
                start_index == old(self).next_id_index(),
                self.next_index == start_index,
                self.trigger_redraw,
                i <= total,
                total == all.len(),
                end_index == start_index + i,
                start_index + total <= u32::MAX,
                images@.len() == total - i,
                forall|j: int| 0 <= j < images@.len() ==> #[trigger] images@[j] == all[total - 1 - j],
                self.map@.dom() == old_images.dom().union(
                    Set::new(|k: u32| start_index <= k < end_index),
                ),
                forall|k: u32| start_index <= k < end_index ==> #[trigger] self.map@[k] == all[k - start_index],
                forall|k: u32|
                    !(start_index <= k < end_index) && old_images.contains_key(k) ==> #[trigger] self.map@[k]
                        == old_images[k],
            decreases total - i,
        {
            let image = images.pop().unwrap();
            fnv_insert(&mut self.map, end_index, image);
            end_index = end_index + 1;
            i = i + 1;
        }
        self.next_index = end_index;
        assert forall|k: u32| #[trigger] self.images().contains_key(k) && old(self).ids_below_next()
            implies k < self.next_id_index() by {
            assert(self.map@.dom().contains(k));
            if !(start_index <= k < end_index) {
                assert(old_images.dom().contains(k));
                assert(old_images == old(self).images());
                assert(old(self).images().contains_key(k));
            }
        }
        NewIds { index_range: start_index..end_index }
    }
}

/// An image inserted into the map is what the map gives for its `Id`, and the other images are
/// as they were.
pub proof fn law_get_after_insert<Img>(old: ImageMap<Img>, new: ImageMap<Img>, img: Img, id: Id, other: u32)
    requires
        ImageMap::inserted(old, new, img, id),
    ensures
        new.images().contains_key(id.spec_index()),
        new.images()[id.spec_index()] == img,
        other != id.spec_index() ==> new.images().contains_key(other) == old.images().contains_key(other)
            && new.images()[other] == old.images()[other],
{
}

/// Two inserts in a row hand out distinct `Id`s, unless the index counter wraps around between
/// them.
pub proof fn law_successive_inserts_give_distinct_ids<Img>(
    m0: ImageMap<Img>,
    m1: ImageMap<Img>,
    m2: ImageMap<Img>,
    i0: Img,
    i1: Img,
    id0: Id,
    id1: Id,
)
    requires
        ImageMap::inserted(m0, m1, i0, id0),
        ImageMap::inserted(m1, m2, i1, id1),
        m0.next_id_index() < u32::MAX,
    ensures
        id0 != id1,
{
}

/// Removing an image leaves no image under its `Id`, and the other images as they were.
pub proof fn law_remove_clears<Img>(images: Map<u32, Img>, id: Id, other: u32)
    ensures
        !images.remove(id.spec_index()).contains_key(id.spec_index()),
        other != id.spec_index() ==> images.remove(id.spec_index()).contains_key(other)
            == images.contains_key(other) && images.remove(id.spec_index())[other] == images[other],
{
}

} // verus!
