//! Models of the managed IL2CPP collections: fixed-size arrays, generic
//! lists and dictionaries, holding the element values that were read from
//! the runtime.

use vstd::prelude::*;

verus! {

/// Length and lower bound of one dimension of a multi-dimensional array.
pub struct ArrayBounds {
    /// Length of the dimension
    pub length: usize,
    /// Lower bound of the dimension
    pub lower_bound: i32,
}

/// A managed `T[]`: a fixed number of elements behind an object header.
pub struct Il2cppArray<T> {
    /// Address of the array class
    pub klass: usize,
    /// Address of the monitor
    pub monitor: usize,
    /// Address of the bounds of a multi-dimensional array (0 when none)
    pub bounds: usize,
    /// The elements, in order; their number is the array's `max_length`
    pub data: Vec<T>,
}

impl<T> View for Il2cppArray<T> {
    type V = Seq<T>;

    open spec fn view(&self) -> Seq<T> {
        self.data@
    }
}

/// The elements after `Il2cppArray::insert(arr, size, index)` on
/// `before`: the copied prefix of `arr` replaces the elements from
/// `index` on.
pub open spec fn inserted<T>(before: Seq<T>, arr: Seq<T>, size: nat, index: nat) -> Seq<T> {
    let k = insert_count(before.len(), arr.len(), size, index);
    if k == 0 {
        before
    } else {
        before.take(index as int) + arr.take(k as int) + before.skip((index + k) as int)
    }
}

/// How many elements `Il2cppArray::insert` copies.
pub open spec fn insert_count(len: nat, arr_len: nat, size: nat, index: nat) -> nat {
    let available: nat = if index <= len { (len - index) as nat } else { 0 };
    let a: nat = if available <= size { available } else { size };
    if a <= arr_len { a } else { arr_len }
}

/// How many elements `Il2cppArray::remove_range` removes.
pub open spec fn removed_count(len: nat, index: nat, count: nat) -> nat {
    if index >= len {
        0
    } else if count <= len - index {
        count
    } else {
        (len - index) as nat
    }
}

impl<T: Copy> Il2cppArray<T> {
    /// An array with the given header addresses and elements.
    pub fn from_elements(klass: usize, monitor: usize, bounds: usize, data: Vec<T>) -> (r: Self)
        ensures
            r@ == data@,
            r.klass == klass,
            r.monitor == monitor,
            r.bounds == bounds,
    {
        Il2cppArray { klass, monitor, bounds, data }
    }

    /// Returns the number of elements in the array (its `max_length`).
    pub fn len(&self) -> (r: usize)
        ensures
            r == self@.len(),
    {
        self.data.len()
    }

    /// Returns true if this array has no elements.
    pub fn is_empty(&self) -> (r: bool)
        ensures
            r == (self@.len() == 0),
    {
        self.data.len() == 0
    }

    /// Gets the element at the specified index.
    pub fn get(&self, index: usize) -> (r: T)
        requires
            index < self@.len(),
        ensures
            r == self@[index as int],
    {
        self.data[index]
    }

    /// Alias for `get`.
    pub fn at(&self, index: usize) -> (r: T)
        requires
            index < self@.len(),
        ensures
            r == self@[index as int],
    {
        self.get(index)
    }

    /// Sets the element at the specified index.
    pub fn set(&mut self, index: usize, value: T)
        requires
            index < old(self)@.len(),
        ensures
            final(self)@ == old(self)@.update(index as int, value),
            final(self).klass == old(self).klass,
            final(self).monitor == old(self).monitor,
            final(self).bounds == old(self).bounds,
    {
        self.data.set(index, value);
    }

    /// Copies `min(len - index, size, arr.len())` elements of `arr` into
    /// the array from `index` on (nothing when `index` is past the end).
    pub fn insert(&mut self, arr: &[T], size: usize, index: usize)
        ensures
            final(self)@ == inserted(old(self)@, arr@, size as nat, index as nat),
            final(self).klass == old(self).klass,
            final(self).monitor == old(self).monitor,
            final(self).bounds == old(self).bounds,
    {
        let len = self.data.len();
        let available: usize = if index <= len { len - index } else { 0 };
        let a: usize = if available <= size { available } else { size };
        let copy_len: usize = if a <= arr.len() { a } else { arr.len() };
        if copy_len == 0 {
            return;
        }
        let ghost old_data = self.data@;
        let mut i: usize = 0;
        while i < copy_len
            invariant
                copy_len <= arr@.len(),
                index + copy_len <= len,
                len == old_data.len(),
                self.data@.len() == len,
                self.klass == old(self).klass,
                self.monitor == old(self).monitor,
                self.bounds == old(self).bounds,
                i <= copy_len,
                forall|k: int|
                    0 <= k < len ==> #[trigger] self.data@[k] == if index <= k < index + i {
                        arr@[k - index]
                    } else {
                        old_data[k]
                    },
            decreases copy_len - i,
        {
            self.data.set(index + i, arr[i]);
            i = i + 1;
        }
        assert(self.data@ =~= old_data.take(index as int) + arr@.take(copy_len as int)
            + old_data.skip(index + copy_len));
    }

    /// Sets every element to `value`.
    pub fn fill(&mut self, value: T)
        ensures
            final(self)@.len() == old(self)@.len(),
            forall|k: int| 0 <= k < final(self)@.len() ==> #[trigger] final(self)@[k] == value,
            final(self).klass == old(self).klass,
            final(self).monitor == old(self).monitor,
            final(self).bounds == old(self).bounds,
    {
        let len = self.data.len();
        let mut i: usize = 0;
        while i < len
            invariant
                self.data@.len() == len,
                self.klass == old(self).klass,
                self.monitor == old(self).monitor,
                self.bounds == old(self).bounds,
                i <= len,
                forall|k: int| 0 <= k < i ==> #[trigger] self.data@[k] == value,
            decreases len - i,
        {
            self.data.set(i, value);
            i = i + 1;
        }
    }

    /// Removes the element at `index` by shifting the later elements one
    /// place to the left. The length stays the same: the last slot keeps
    /// its former value. Nothing changes when `index` is out of bounds.
    pub fn remove_at(&mut self, index: usize)
        ensures
            final(self)@.len() == old(self)@.len(),
            forall|k: int|
                0 <= k < old(self)@.len() ==> #[trigger] final(self)@[k] == if k < index
                    || index >= old(self)@.len() || k == old(self)@.len() - 1 {
                    old(self)@[k]
                } else {
                    old(self)@[k + 1]
                },
            final(self).klass == old(self).klass,
            final(self).monitor == old(self).monitor,
            final(self).bounds == old(self).bounds,
    {
        let len = self.data.len();
        if index >= len {
            return;
        }
        let ghost old_data = self.data@;
        let mut k: usize = index;
        while k + 1 < len
            invariant
                index <= k < len,
                len == old_data.len(),
                self.data@.len() == len,
                self.klass == old(self).klass,
                self.monitor == old(self).monitor,
                self.bounds == old(self).bounds,
                forall|m: int|
                    0 <= m < len ==> #[trigger] self.data@[m] == if index <= m < k {
                        old_data[m + 1]
                    } else {
                        old_data[m]
                    },
            decreases len - k,
        {
            let next = self.data[k + 1];
            self.data.set(k, next);
            k = k + 1;
        }
    }

    /// Removes `count` elements from `index` on (clamped to the end) by
    /// shifting the tail left. The length stays the same: the vacated tail
    /// slots keep their former values. Nothing changes when `index` is out
    /// of bounds or `count` is 0.
    pub fn remove_range(&mut self, index: usize, count: usize)
        ensures
            final(self)@.len() == old(self)@.len(),
            ({
                let c = removed_count(old(self)@.len(), index as nat, count as nat);
                let tail = old(self)@.len() - index - c;
                forall|k: int|
                    0 <= k < old(self)@.len() ==> #[trigger] final(self)@[k] == if c > 0 && index
                        <= k < index + tail {
                        old(self)@[k + c]
                    } else {
                        old(self)@[k]
                    }
            }),
            final(self).klass == old(self).klass,
            final(self).monitor == old(self).monitor,
            final(self).bounds == old(self).bounds,
    {
        let len = self.data.len();
        if index >= len {
            return;
        }
        if count == 0 {
            return;
        }
        let c: usize = if count <= len - index { count } else { len - index };
        let tail = len - index - c;
        let ghost old_data = self.data@;
        let mut i: usize = 0;
        while i < tail
            invariant
                index + c + tail == len,
                len == old_data.len(),
                self.data@.len() == len,
                self.klass == old(self).klass,
                self.monitor == old(self).monitor,
                self.bounds == old(self).bounds,
                c > 0,
                i <= tail,
                forall|m: int|
                    0 <= m < len ==> #[trigger] self.data@[m] == if index <= m < index + i {
                        old_data[m + c]
                    } else {
                        old_data[m]
                    },
            decreases tail - i,
        {
            let moved = self.data[index + c + i];
            self.data.set(index + i, moved);
            i = i + 1;
        }
    }

    /// Clearing a fixed-size managed array is not supported: this leaves
    /// the array unchanged.
    pub fn remove_all(&mut self)
        ensures
            final(self)@ == old(self)@,
    {
    }

    /// The elements, in order, as a `Vec`.
    pub fn to_vector(&self) -> (r: Vec<T>)
        ensures
            r@ == self@,
    {
        let mut r: Vec<T> = Vec::new();
        let mut i: usize = 0;
        while i < self.data.len()
            invariant
                i <= self.data@.len(),
                r@ == self.data@.take(i as int),
            decreases self.data.len() - i,
        {
            r.push(self.data[i]);
            i = i + 1;
            assert(r@ =~= self.data@.take(i as int));
        }
        assert(self.data@.take(self.data@.len() as int) =~= self.data@);
        r
    }
}

/// `List<T>` as `size`, clamped below at 0.
pub open spec fn clamped_len(size: i32) -> nat {
    if size < 0 {
        0
    } else {
        size as nat
    }
}

/// A managed `List<T>`: a backing array of which the first `size` slots
/// are in use.
pub struct Il2cppList<T> {
    /// Address of the list class
    pub klass: usize,
    /// Address of the monitor
    pub monitor: usize,
    /// The backing array, when the list has one
    pub items: Option<Il2cppArray<T>>,
    /// Number of elements in the list
    pub size: i32,
    /// Version of the list
    pub version: i32,
}

impl<T: Copy> Il2cppList<T> {
    /// The elements of the list that its backing array holds: the first
    /// `min(len, items.len())` slots.
    pub open spec fn elements(&self) -> Seq<T> {
        match self.items {
            Some(a) => if clamped_len(self.size) <= a@.len() {
                a@.take(clamped_len(self.size) as int)
            } else {
                a@
            },
            None => Seq::empty(),
        }
    }

    /// Returns the logical list length, clamping a negative size to zero.
    pub fn len(&self) -> (r: usize)
        ensures
            r == clamped_len(self.size),
    {
        if self.size < 0 {
            0
        } else {
            self.size as usize
        }
    }

    /// Returns true if this list has no logical elements.
    pub fn is_empty(&self) -> (r: bool)
        ensures
            r == (clamped_len(self.size) == 0),
    {
        self.len() == 0
    }

    fn bounded_len(&self) -> (r: usize)
        ensures
            r == self.elements().len(),
    {
        match &self.items {
            Some(arr) => {
                let l = self.len();
                if l <= arr.len() {
                    l
                } else {
                    arr.len()
                }
            },
            None => 0,
        }
    }

    /// The backing array, if any.
    pub fn items_array(&self) -> (r: Option<&Il2cppArray<T>>)
        ensures
            r matches Some(a) ==> self.items == Some(*a),
            r is None ==> self.items is None,
    {
        match &self.items {
            Some(a) => Some(a),
            None => None,
        }
    }

    /// The backing array, if any, to change in place: what is written
    /// through the returned reference is the list's array afterwards.
    pub fn items_array_mut(&mut self) -> (r: Option<&mut Il2cppArray<T>>)
        ensures
            r is None <==> old(self).items is None,
            r is None ==> *final(self) == *old(self),
            r matches Some(a) ==> *a == old(self).items.unwrap() && *final(self) == (Il2cppList {
                items: Some(*final(a)),
                ..*old(self)
            }),
    {
        match &mut self.items {
            Some(a) => Some(a),
            None => None,
        }
    }

    /// The element at `index`, when `index` is below both the list length
    /// and the backing array's length.
    pub fn get(&self, index: usize) -> (r: Option<T>)
        ensures
            r == (if index < self.elements().len() {
                Some(self.elements()[index as int])
            } else {
                None
            }),
    {
        if index >= self.len() {
            return None;
        }
        match &self.items {
            Some(arr) => if index < arr.len() {
                Some(arr.get(index))
            } else {
                None
            },
            None => None,
        }
    }

    /// The element at `index`; the index must be in range.
    pub fn at(&self, index: usize) -> (r: T)
        requires
            index < self.elements().len(),
        ensures
            r == self.elements()[index as int],
    {
        let arr = self.items.as_ref().unwrap();
        arr.get(index)
    }

    /// Sets the element at `index`; returns false, changing nothing, when
    /// `index` is out of range or there is no backing array.
    pub fn set(&mut self, index: usize, value: T) -> (r: bool)
        ensures
            r == (index < old(self).elements().len()),
            r ==> final(self).items is Some && final(self).items.unwrap()@ == old(
                self,
            ).items.unwrap()@.update(index as int, value),
            !r ==> final(self).items == old(self).items,
            final(self).size == old(self).size,
            final(self).klass == old(self).klass,
            final(self).monitor == old(self).monitor,
            final(self).version == old(self).version,
    {
        if index >= self.len() {
            return false;
        }
        match &mut self.items {
            Some(arr) => {
                if index >= arr.len() {
                    return false;
                }
                arr.set(index, value);
                true
            },
            None => false,
        }
    }

    /// The list's elements as a `Vec`.
    pub fn to_vec(&self) -> (r: Vec<T>)
        ensures
            r@ == self.elements(),
    {
        let n = self.bounded_len();
        let mut r: Vec<T> = Vec::new();
        let mut i: usize = 0;
        while i < n
            invariant
                n == self.elements().len(),
                i <= n,
                r@ == self.elements().take(i as int),
            decreases n - i,
        {
            match self.get(i) {
                Some(x) => r.push(x),
                None => {},
            }
            i = i + 1;
            assert(r@ =~= self.elements().take(i as int));
        }
        assert(self.elements().take(n as int) =~= self.elements());
        r
    }

    /// The list's elements in order (what iterating the list yields).
    pub fn iter(&self) -> (r: Vec<T>)
        ensures
            r@ == self.elements(),
    {
        self.to_vec()
    }
}

/// A managed `Dictionary<K, V>`, with the key and value arrays that were read.
pub struct Il2cppDictionary<K, V> {
    /// Address of the dictionary class
    pub klass: usize,
    /// Address of the monitor
    pub monitor: usize,
    /// Address of the array of bucket indices
    pub buckets: usize,
    /// Address of the array of entries
    pub entries: usize,
    /// Array of keys, when present
    pub keys: Option<Il2cppArray<K>>,
    /// Array of values, when present
    pub values: Option<Il2cppArray<V>>,
    /// Number of touched slots
    pub touched_slots: i32,
    /// Index of the first empty slot
    pub empty_slot: i32,
    /// Number of elements in the dictionary
    pub count: i32,
}

impl<K: Copy, V: Copy> Il2cppDictionary<K, V> {
    /// The keys array, if any.
    pub fn keys_array(&self) -> (r: Option<&Il2cppArray<K>>)
        ensures
            r matches Some(a) ==> self.keys == Some(*a),
            r is None ==> self.keys is None,
    {
        match &self.keys {
            Some(a) => Some(a),
            None => None,
        }
    }

    /// The values array, if any.
    pub fn values_array(&self) -> (r: Option<&Il2cppArray<V>>)
        ensures
            r matches Some(a) ==> self.values == Some(*a),
            r is None ==> self.values is None,
    {
        match &self.values {
            Some(a) => Some(a),
            None => None,
        }
    }

    /// All keys, in array order; empty when there is no keys array.
    pub fn get_keys(&self) -> (r: Vec<K>)
        ensures
            r@ == match self.keys {
                Some(a) => a@,
                None => Seq::empty(),
            },
    {
        match &self.keys {
            Some(a) => a.to_vector(),
            None => Vec::new(),
        }
    }

    /// All values, in array order; empty when there is no values array.
    pub fn get_values(&self) -> (r: Vec<V>)
        ensures
            r@ == match self.values {
                Some(a) => a@,
                None => Seq::empty(),
            },
    {
        match &self.values {
            Some(a) => a.to_vector(),
            None => Vec::new(),
        }
    }
}

/// A successful `Il2cppList::set` is read back by `Il2cppList::get`: the
/// list keeps its length, holds `value` at `index`, and every other element
/// is unchanged.
pub proof fn law_list_set_then_get<T: Copy>(before: Il2cppList<T>, after: Il2cppList<T>, index: int, value: T)
    requires
        0 <= index < before.elements().len(),
        before.items is Some,
        after.items is Some,
        after.items.unwrap()@ == before.items.unwrap()@.update(index, value),
        after.size == before.size,
    ensures
        after.elements().len() == before.elements().len(),
        after.elements()[index] == value,
        forall|j: int|
            0 <= j < before.elements().len() && j != index ==> #[trigger] after.elements()[j]
                == before.elements()[j],
{
}

/// `Il2cppArray::set` is read back by `Il2cppArray::get`: when `after` is
/// `before` after `set(index, value)`, `get(index)` gives `value`, `get`
/// of any other index gives what it gave before, and the length is kept.
pub proof fn law_array_set_then_get<T>(
    before: Il2cppArray<T>,
    after: Il2cppArray<T>,
    index: int,
    value: T,
)
    requires
        0 <= index < before@.len(),
        after@ == before@.update(index, value),
    ensures
        after@.len() == before@.len(),
        after@[index] == value,
        forall|j: int|
            0 <= j < before@.len() && j != index ==> #[trigger] after@[j] == before@[j],
{
}

/// Managed arrays are fixed-size: when `after` is `before` after
/// `Il2cppArray::insert`, whatever was given, it has the length it had.
pub proof fn law_insert_keeps_length<T>(
    before: Il2cppArray<T>,
    after: Il2cppArray<T>,
    arr: Seq<T>,
    size: nat,
    index: nat,
)
    requires
        after@ == inserted(before@, arr, size, index),
    ensures
        after@.len() == before@.len(),
{
}

} // verus!
