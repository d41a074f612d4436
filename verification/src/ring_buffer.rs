//! A fixed-capacity buffer that keeps the most recent items.

use vstd::prelude::*;

verus! {

/// The logical contents after appending `item` to `items` in a buffer that
/// holds at most `capacity` items: the oldest item falls out when it is full.
pub open spec fn pushed_contents<T>(items: Seq<T>, item: T, capacity: nat) -> Seq<T> {
    let grown = items.push(item);
    if grown.len() > capacity {
        grown.subrange(grown.len() - capacity, grown.len() as int)
    } else {
        grown
    }
}

/// The most recent item is the one pushed last: after a push into a buffer
/// of non-zero capacity, the newest item is the pushed one.
pub proof fn lemma_push_then_latest<T>(items: Seq<T>, item: T, capacity: nat)
    requires
        capacity > 0,
    ensures
        pushed_contents(items, item, capacity).len() > 0,
        pushed_contents(items, item, capacity).last() == item,
{
}

/// Until the buffer is full, a push appends and keeps every earlier item in
/// insertion order.
pub proof fn lemma_push_keeps_order_until_full<T>(items: Seq<T>, item: T, capacity: nat)
    requires
        items.len() < capacity,
    ensures
        pushed_contents(items, item, capacity) == items.push(item),
{
}

/// Once the buffer is full, a push drops exactly the oldest item.
pub proof fn lemma_push_drops_oldest_when_full<T>(items: Seq<T>, item: T, capacity: nat)
    requires
        capacity > 0,
        items.len() == capacity,
    ensures
        pushed_contents(items, item, capacity) == items.drop_first().push(item),
{
    assert(pushed_contents(items, item, capacity) =~= items.drop_first().push(item));
}

/// For `0 <= x < 2c`, reducing modulo `c` subtracts `c` at most once.
proof fn lemma_mod_range(x: int, c: int)
    requires
        c > 0,
        0 <= x < 2 * c,
    ensures
        x % c == (if x < c { x } else { x - c }),
{
    if x < c {
        vstd::arithmetic::div_mod::lemma_small_mod(x as nat, c as nat);
    } else {
        vstd::arithmetic::div_mod::lemma_small_mod((x - c) as nat, c as nat);
        vstd::arithmetic::div_mod::lemma_mod_sub_multiples_vanish(x, c);
    }
}

/// A ring buffer of a fixed, non-zero capacity. Once full, every push
/// replaces the oldest item.
#[derive(Debug, Clone)]
pub struct RingBuffer<T> {
    items: Vec<Option<T>>,
    next: usize,
    len: usize,
}

impl<T> RingBuffer<T> {
    /// Physical slot that holds the oldest item.
    pub closed spec fn start(&self) -> int {
        (self.next + self.items.len() - self.len) % (self.items.len() as int)
    }

    /// Physical slot of the `i`-th oldest item.
    pub closed spec fn slot(&self, i: int) -> int {
        (self.start() + i) % (self.items.len() as int)
    }

    pub closed spec fn well_formed(&self) -> bool {
        &&& self.items.len() > 0
        &&& self.next < self.items.len()
        &&& self.len <= self.items.len()
        &&& forall|i: int| 0 <= i < self.len ==> (#[trigger] self.items@[self.slot(i)]) is Some
    }

    /// The items held, oldest first.
    pub closed spec fn contents(&self) -> Seq<T> {
        Seq::new(self.len as nat, |i: int| self.items@[self.slot(i)]->Some_0)
    }

    pub closed spec fn spec_capacity(&self) -> nat {
        self.items.len() as nat
    }

    /// Creates an empty buffer that holds at most `capacity` items.
    pub fn new(capacity: usize) -> (buffer: Self)
        requires
            capacity > 0,
        ensures
            buffer.well_formed(),
            buffer.contents() == Seq::<T>::empty(),
            buffer.spec_capacity() == capacity,
    {
        let mut items: Vec<Option<T>> = Vec::with_capacity(capacity);
        let mut i: usize = 0;
        while i < capacity
            invariant
                i <= capacity,
                items.len() == i,
            decreases capacity - i,
        {
            items.push(None);
            i = i + 1;
        }
        let buffer = RingBuffer { items, next: 0, len: 0 };
        assert(buffer.contents() =~= Seq::<T>::empty());
        buffer
    }

    pub fn capacity(&self) -> (capacity: usize)
        requires
            self.well_formed(),
        ensures
            capacity == self.spec_capacity(),
            capacity > 0,
    {
        self.items.len()
    }

    pub fn len(&self) -> (len: usize)
        requires
            self.well_formed(),
        ensures
            len == self.contents().len(),
    {
        self.len
    }

    pub fn is_empty(&self) -> (empty: bool)
        requires
            self.well_formed(),
        ensures
            empty == (self.contents().len() == 0),
    {
        self.len == 0
    }

    pub fn is_full(&self) -> (full: bool)
        requires
            self.well_formed(),
        ensures
            full == (self.contents().len() == self.spec_capacity()),
    {
        self.len == self.items.len()
    }

    /// Drops every item; the capacity stays as it was.
    pub fn clear(&mut self)
        requires
            old(self).well_formed(),
        ensures
            final(self).well_formed(),
            final(self).contents() == Seq::<T>::empty(),
            final(self).spec_capacity() == old(self).spec_capacity(),
    {
        let cap = self.items.len();
        let mut i: usize = 0;
        while i < cap
            invariant
                i <= cap,
                self.items.len() == cap,
                cap > 0,
            decreases cap - i,
        {
            self.items.set(i, None);
            i = i + 1;
        }
        self.next = 0;
        self.len = 0;
        assert(self.contents() =~= Seq::<T>::empty());
    }

    /// Appends `item`; a full buffer loses its oldest item.
    pub fn push(&mut self, item: T)
        requires
            old(self).well_formed(),
        ensures
            final(self).well_formed(),
            final(self).spec_capacity() == old(self).spec_capacity(),
            final(self).contents() == pushed_contents(old(self).contents(), item, old(self).spec_capacity()),
    {
        let ghost old_self: RingBuffer<T> = *self;
        let ghost before = self.contents();
        let ghost old_start = self.start();
        let ghost old_len = self.len as int;
        let cap = self.items.len();
        let at = self.next;
        self.items.set(at, Some(item));
        self.next = if self.next + 1 == cap { 0 } else { self.next + 1 };
        if self.len < cap {
            self.len = self.len + 1;
        }
        let ghost c = cap as int;
        proof {
            let new_start = self.start();
            lemma_mod_range(at + c - old_len, c);
            lemma_mod_range(old_start + old_len, c);
            assert(at as int == (old_start + old_len) % c);
            if old_len < c {
                lemma_mod_range(self.next + c - (old_len + 1), c);
                assert(new_start == old_start);
                assert forall|i: int| 0 <= i < self.len implies
                    (#[trigger] self.items@[self.slot(i)]) is Some
                    && self.items@[self.slot(i)]->Some_0 == before.push(item)[i] by {
                    lemma_mod_range(old_start + i, c);
                    if i < old_len {
                        assert(old_self.slot(i) == self.slot(i));
                        assert(old_self.items@[old_self.slot(i)] is Some);
                        assert(before[i] == old_self.items@[old_self.slot(i)]->Some_0);
                    }
                }
                assert(self.contents() =~= pushed_contents(before, item, c as nat));
            } else {
                lemma_mod_range(self.next + c - c, c);
                lemma_mod_range(old_start + 1, c);
                assert(new_start == (old_start + 1) % c);
                assert forall|i: int| 0 <= i < self.len implies
                    (#[trigger] self.items@[self.slot(i)]) is Some
                    && self.items@[self.slot(i)]->Some_0 == before.push(item)[i + 1] by {
                    lemma_mod_range(new_start + i, c);
                    lemma_mod_range(old_start + i + 1, c);
                    if i + 1 < old_len {
                        assert(old_self.slot(i + 1) == self.slot(i));
                        assert(old_self.items@[old_self.slot(i + 1)] is Some);
                        assert(before[i + 1] == old_self.items@[old_self.slot(i + 1)]->Some_0);
                    }
                }
                assert(self.contents() =~= pushed_contents(before, item, c as nat));
            }
        }
    }

    /// The most recently pushed item still held, if any.
    pub fn latest(&self) -> (latest: Option<&T>)
        requires
            self.well_formed(),
        ensures
            self.contents().len() == 0 ==> latest is None,
            self.contents().len() > 0 ==> latest == Some(&self.contents().last()),
    {
        if self.len == 0 {
            return None;
        }
        let cap = self.items.len();
        let latest_index = if self.next == 0 { cap - 1 } else { self.next - 1 };
        proof {
            let c = cap as int;
            let l = self.len as int;
            lemma_mod_range(self.next + c - l, c);
            lemma_mod_range(self.start() + l - 1, c);
            assert(self.slot(l - 1) == latest_index as int);
            assert(self.items@[self.slot(l - 1)] is Some);
        }
        self.items[latest_index].as_ref()
    }

    /// The items held, oldest first.
    pub fn iter(&self) -> (items: Vec<&T>)
        requires
            self.well_formed(),
        ensures
            items.len() == self.contents().len(),
            forall|i: int| 0 <= i < items.len() ==> *items@[i] == self.contents()[i],
    {
        let cap = self.items.len();
        let start = if self.next >= self.len { self.next - self.len } else { self.next + (cap - self.len) };
        proof {
            lemma_mod_range(self.next + cap - self.len, cap as int);
        }
        let mut out: Vec<&T> = Vec::with_capacity(self.len);
        let mut index: usize = 0;
        while index < self.len
            invariant
                self.well_formed(),
                cap == self.items.len(),
                start == self.start(),
                index <= self.len,
                out.len() == index,
                forall|i: int| 0 <= i < index ==> *out@[i] == self.contents()[i],
            decreases self.len - index,
        {
            let ghost c = cap as int;
            proof {
                lemma_mod_range(self.next + c - self.len, c);
                lemma_mod_range(start + index, c);
            }
            let physical = if index < cap - start { start + index } else { index - (cap - start) };
            assert(physical as int == self.slot(index as int));
            assert(self.items@[self.slot(index as int)] is Some);
            match self.items[physical].as_ref() {
                Some(item) => out.push(item),
                None => {},
            }
            index = index + 1;
        }
        out
    }

    /// A well-formed buffer has a positive capacity and never holds more
    /// items than it.
    pub proof fn lemma_contents_within_capacity(&self)
        requires
            self.well_formed(),
        ensures
            self.spec_capacity() > 0,
            self.contents().len() <= self.spec_capacity(),
    {
    }

    /// What a push does to a well-formed buffer: the pushed item becomes the
    /// latest, the length grows by one up to the capacity, and the earlier
    /// items keep their order, the oldest dropped exactly when the buffer
    /// was full.
    pub proof fn lemma_push_law(&self, item: T)
        requires
            self.well_formed(),
        ensures
            ({
                let after = pushed_contents(self.contents(), item, self.spec_capacity());
                &&& after.len() > 0
                &&& after.last() == item
                &&& after.len() == (if self.contents().len() < self.spec_capacity() {
                    self.contents().len() + 1
                } else {
                    self.spec_capacity()
                })
                &&& after == (if self.contents().len() < self.spec_capacity() {
                    self.contents().push(item)
                } else {
                    self.contents().drop_first().push(item)
                })
            }),
    {
        let before = self.contents();
        let cap = self.spec_capacity();
        if before.len() < cap {
            lemma_push_keeps_order_until_full(before, item, cap);
        } else {
            lemma_push_drops_oldest_when_full(before, item, cap);
        }
    }
}

} // verus!
