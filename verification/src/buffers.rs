use vstd::prelude::*;
use crate::entities::Building;

verus! {

/// What an upload has to do on the graphics card.
#[derive(PartialEq, Eq, Structural, Clone, Copy, Debug)]
pub enum UploadAction {
    /// Nothing was waiting: nothing to draw.
    Nothing,
    /// The items fit: write them into the existing buffer.
    Write,
    /// The items do not fit: make a new buffer of this many items and fill it.
    Resize(usize),
}

/// The bookkeeping of a growable buffer of instances on the graphics card: items pushed during
/// a frame wait here until they are uploaded; the card's buffer has room for `capacity` items
/// and holds `len` of them.
#[derive(Debug)]
pub struct DynamicBuffer<T> {
    capacity: usize,
    len: usize,
    waiting: Vec<T>,
}

impl<T> DynamicBuffer<T> {
    pub closed spec fn capacity_spec(&self) -> usize {
        self.capacity
    }

    pub closed spec fn len_spec(&self) -> usize {
        self.len
    }

    pub closed spec fn waiting_spec(&self) -> Seq<T> {
        self.waiting@
    }

    pub fn new(base_capacity: usize) -> (buffer: Self)
        ensures
            buffer.capacity_spec() == base_capacity,
            buffer.len_spec() == 0,
            buffer.waiting_spec() == Seq::<T>::empty(),
    {
        DynamicBuffer { capacity: base_capacity, len: 0, waiting: Vec::new() }
    }

    pub fn capacity(&self) -> (capacity: usize)
        ensures
            capacity == self.capacity_spec(),
    {
        self.capacity
    }

    pub fn push(&mut self, item: T)
        ensures
            final(self).waiting_spec() == old(self).waiting_spec().push(item),
            final(self).capacity_spec() == old(self).capacity_spec(),
            final(self).len_spec() == old(self).len_spec(),
    {
        self.waiting.push(item);
    }

    pub fn len_waiting(&self) -> (len: usize)
        ensures
            len == self.waiting_spec().len(),
    {
        self.waiting.len()
    }

    /// Hands over the waiting items for upload. The buffer then holds exactly those items;
    /// when they do not fit, its capacity at least doubles, and more if needed.
    pub fn upload(&mut self) -> (upload: (UploadAction, Vec<T>))
        requires
            old(self).waiting_spec().len() > old(self).capacity_spec() ==> old(self).capacity_spec()
                * 2 <= usize::MAX,
        ensures
            upload.1@ == old(self).waiting_spec(),
            final(self).waiting_spec() == Seq::<T>::empty(),
            final(self).len_spec() == old(self).waiting_spec().len(),
            ({
                let n = old(self).waiting_spec().len() as int;
                let c = old(self).capacity_spec() as int;
                if n == 0 {
                    upload.0 == UploadAction::Nothing && final(self).capacity_spec() == c
                } else if n <= c {
                    upload.0 == UploadAction::Write && final(self).capacity_spec() == c
                } else {
                    &&& final(self).capacity_spec() == if c * 2 >= n {
                        c * 2
                    } else {
                        n
                    }
                    &&& upload.0 == UploadAction::Resize(final(self).capacity_spec())
                }
            }),
            final(self).capacity_spec() >= old(self).capacity_spec(),
            final(self).len_spec() <= final(self).capacity_spec(),
    {
        let mut items = Vec::new();
        std::mem::swap(&mut items, &mut self.waiting);
        let n = items.len();
        self.len = n;
        if n == 0 {
            (UploadAction::Nothing, items)
        } else if n <= self.capacity {
            (UploadAction::Write, items)
        } else {
            let doubled = self.capacity * 2;
            self.capacity = if doubled >= n {
                doubled
            } else {
                n
            };
            (UploadAction::Resize(self.capacity), items)
        }
    }

    /// How many items the buffer on the card holds, when there are any.
    pub fn get(&self) -> (count: Option<u32>)
        ensures
            match count {
                Some(n) => self.len_spec() > 0 && n == self.len_spec() as u32,
                None => self.len_spec() == 0,
            },
    {
        if self.len > 0 {
            Some(self.len as u32)
        } else {
            None
        }
    }
}

/// The building the player is about to place, if any.
#[derive(PartialEq, Eq, Structural, Clone, Copy, Debug)]
pub struct BuildingPlan {
    building: Option<Building>,
}

impl BuildingPlan {
    pub closed spec fn building_spec(&self) -> Option<Building> {
        self.building
    }

    pub fn new() -> (plan: Self)
        ensures
            plan.building_spec() is None,
    {
        BuildingPlan { building: None }
    }

    pub fn clear(&mut self)
        ensures
            final(self).building_spec() is None,
    {
        self.building = None;
    }

    pub fn set(&mut self, building: Building)
        ensures
            final(self).building_spec() == Some(building),
    {
        self.building = Some(building);
    }

    pub fn get(&self) -> (building: Option<Building>)
        ensures
            building == self.building_spec(),
    {
        self.building
    }
}

} // verus!
