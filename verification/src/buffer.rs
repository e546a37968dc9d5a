//! A buffer of a limited number of items that forgets the oldest ones first.
use vstd::prelude::*;

verus! {

/// The most recent items pushed, the oldest first, and a position in them that counts from the
/// newest.
#[derive(Debug, Clone)]
pub struct LimitedBuffer<T> {
    pub offset: usize,
    pub buffer: Vec<T>,
    pub capacity: usize,
}

impl<T> View for LimitedBuffer<T> {
    type V = Seq<T>;

    open spec fn view(&self) -> Seq<T> {
        self.buffer@
    }
}

/// The items after one more push: where the capacity is reached, the oldest one makes room.
pub open spec fn pushed<T>(items: Seq<T>, capacity: int, value: T) -> Seq<T> {
    if items.len() == capacity && items.len() > 0 {
        items.skip(1).push(value)
    } else {
        items.push(value)
    }
}

/// The items after all of `values` have been pushed in order.
pub open spec fn pushed_all<T>(items: Seq<T>, capacity: int, values: Seq<T>) -> Seq<T>
    decreases values.len(),
{
    if values.len() == 0 {
        items
    } else {
        pushed(pushed_all(items, capacity, values.drop_last()), capacity, values.last())
    }
}

impl<T> LimitedBuffer<T> {
    /// The buffer keeps to its capacity (a capacity of zero sets no limit), and the position
    /// lies in it.
    pub open spec fn wf(self) -> bool {
        &&& self.capacity > 0 ==> self@.len() <= self.capacity
        &&& self.offset <= self@.len()
    }

    /// The items, the oldest first.
    pub fn as_slice(&self) -> (r: &[T])
        ensures
            r@ == self@,
    {
        self.buffer.as_slice()
    }

    /// Whether there is no item.
    pub fn is_empty(&self) -> (r: bool)
        ensures
            r == (self@.len() == 0),
    {
        self.buffer.is_empty()
    }

    /// The number of items.
    pub fn len(&self) -> (r: usize)
        ensures
            r == self@.len(),
    {
        self.buffer.len()
    }

    /// An empty buffer for `capacity` items.
    pub fn new(capacity: usize) -> (r: Self)
        ensures
            r@ == Seq::<T>::empty(),
            r.offset == 0,
            r.capacity == capacity,
            r.wf(),
    {
        Self { offset: 0, buffer: Vec::new(), capacity }
    }

    /// Adds an item; where the capacity is reached, the oldest one makes room.
    pub fn push(&mut self, value: T)
        ensures
            final(self)@ == pushed(old(self)@, old(self).capacity as int, value),
            final(self).offset == old(self).offset,
            final(self).capacity == old(self).capacity,
            old(self).wf() ==> final(self).wf(),
    {
        if self.buffer.len() == self.capacity && self.capacity > 0 {
            self.buffer.remove(0);
            assert(self.buffer@ == old(self).buffer@.skip(1));
        }
        self.buffer.push(value);
    }
}

/// A buffer holds what was pushed last, in the order in which it was pushed, up to its capacity.
pub proof fn law_keeps_latest<T>(capacity: int, values: Seq<T>)
    requires
        capacity > 0,
    ensures
        pushed_all(Seq::<T>::empty(), capacity, values) == (if values.len() <= capacity {
            values
        } else {
            values.skip(values.len() - capacity)
        }),
    decreases values.len(),
{
    if values.len() > 0 {
        law_keeps_latest(capacity, values.drop_last());
        let kept = pushed_all(Seq::<T>::empty(), capacity, values.drop_last());
        let all = pushed(kept, capacity, values.last());
        if values.len() <= capacity {
            assert(all =~= values);
        } else {
            assert(all =~= values.skip(values.len() - capacity));
        }
    } else {
        assert(values =~= Seq::<T>::empty());
    }
}

/// A push appends the item. All items from before stay, in order, but for the oldest one where
/// the capacity has been reached.
pub proof fn law_push<T>(items: Seq<T>, capacity: int, value: T)
    requires
        0 <= capacity,
    ensures
        items.len() < capacity || capacity == 0 ==> pushed(items, capacity, value) == items.push(
            value,
        ),
        items.len() > capacity ==> pushed(items, capacity, value) == items.push(value),
        items.len() == capacity && capacity > 0 ==> pushed(items, capacity, value).len()
            == items.len() && pushed(items, capacity, value) == items.subrange(
            1,
            items.len() as int,
        ).push(value),
{
    assert(items.len() > 0 ==> items.skip(1) =~= items.subrange(1, items.len() as int));
}

/// A buffer is well formed exactly where it keeps to a capacity above zero and its position lies
/// in it.
pub proof fn law_well_formed_buffer<T>(buffer: LimitedBuffer<T>)
    ensures
        buffer@ == buffer.buffer@,
        buffer.wf() <==> (buffer.capacity == 0 || buffer.buffer@.len() <= buffer.capacity)
            && buffer.offset <= buffer.buffer@.len(),
{
}

} // verus!
