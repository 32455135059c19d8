//! Columns of values of a type of the user's own, and the builder of a list
//! column over them.

use vstd::prelude::*;
use crate::series::{ArrayView, ChunkedArray};

verus! {

/// A type whose values can stand in a column.
pub trait PolarsObject: Clone + Send + Sync {

}

/// A column of values of a type of the user's own.
pub type ObjectChunked<T> = ChunkedArray<T>;

/// Whether `b` is a clone of `a`: missing where `a` is missing, and else a
/// clone of the value in `a`.
pub open spec fn option_cloned<T: Clone>(a: Option<T>, b: Option<T>) -> bool {
    match (a, b) {
        (None, None) => true,
        (Some(x), Some(y)) => cloned::<T>(x, y),
        _ => false,
    }
}

/// Collects the elements of an [`ObjectChunked`] one by one.
pub struct ObjectChunkedBuilder<T> {
    name: String,
    values: Vec<Option<T>>,
}

impl<T> View for ObjectChunkedBuilder<T> {
    type V = ArrayView<T>;

    closed spec fn view(&self) -> ArrayView<T> {
        ArrayView { name: self.name@, values: self.values@ }
    }
}

impl<T: PolarsObject> Default for ObjectChunkedBuilder<T> {
    /// An empty builder of a column without a name.
    fn default() -> (r: Self)
        ensures
            r@ == (ArrayView { name: Seq::<char>::empty(), values: Seq::<Option<T>>::empty() }),
    {
        ObjectChunkedBuilder { name: String::new(), values: Vec::new() }
    }
}

impl<T: PolarsObject> ObjectChunkedBuilder<T> {
    /// An empty builder of a column called `name`, with room for `capacity`
    /// elements where that much memory can be had.
    pub fn new(name: &str, capacity: usize) -> (r: Self)
        ensures
            r@ == (ArrayView { name: name@, values: Seq::<Option<T>>::empty() }),
    {
        let mut values: Vec<Option<T>> = Vec::new();
        let _ = values.try_reserve(capacity);
        ObjectChunkedBuilder { name: name.to_owned(), values }
    }

    pub fn append_option(&mut self, opt: Option<T>)
        ensures
            final(self)@ == (ArrayView { values: old(self)@.values.push(opt), ..old(self)@ }),
    {
        self.values.push(opt);
    }

    pub fn append_null(&mut self)
        ensures
            final(self)@ == (ArrayView { values: old(self)@.values.push(None), ..old(self)@ }),
    {
        self.values.push(None);
    }

    pub fn finish(self) -> (r: ObjectChunked<T>)
        ensures
            r@ == self@,
    {
        ChunkedArray { name: self.name, values: self.values }
    }
}

/// What a list column over objects holds: the items of all its lists laid
/// end to end, and where each list starts and ends among them.
pub struct ListView<T> {
    pub name: Seq<char>,
    pub values: Seq<Option<T>>,
    /// List `i` is the items from `offsets[i]` up to `offsets[i + 1]`.
    pub offsets: Seq<i64>,
    /// Whether no list is known to be empty, so that the lists can be laid
    /// out row by row without a look at their lengths.
    pub fast_explode: bool,
}

impl<T> ListView<T> {
    /// Whether the offsets cut the items into lists: they start at 0, never
    /// fall, and end at the number of items; and rise strictly where
    /// `fast_explode` is set.
    pub open spec fn well_formed(self) -> bool {
        &&& self.offsets.len() >= 1
        &&& self.offsets[0] == 0
        &&& forall|i: int, j: int| 0 <= i <= j < self.offsets.len() ==> self.offsets[i] <= self.offsets[j]
        &&& self.offsets.last() == self.values.len()
        &&& self.fast_explode ==> forall|i: int, j: int|
            0 <= i < j < self.offsets.len() ==> self.offsets[i] < self.offsets[j]
    }

    /// The list without lists under that name.
    pub open spec fn empty(name: Seq<char>) -> ListView<T> {
        ListView { name, values: Seq::empty(), offsets: seq![0i64], fast_explode: true }
    }
}

/// A column whose elements are lists of objects.
#[derive(Debug, PartialEq, Eq)]
pub struct ListChunked<T> {
    pub name: String,
    pub values: Vec<Option<T>>,
    pub offsets: Vec<i64>,
    pub fast_explode: bool,
}

impl<T> View for ListChunked<T> {
    type V = ListView<T>;

    open spec fn view(&self) -> ListView<T> {
        ListView {
            name: self.name@,
            values: self.values@,
            offsets: self.offsets@,
            fast_explode: self.fast_explode,
        }
    }
}

/// Builds a list column over objects, one list at a time.
pub struct ExtensionListBuilder<T> {
    values_builder: ObjectChunkedBuilder<T>,
    offsets: Vec<i64>,
    fast_explode: bool,
}

impl<T> View for ExtensionListBuilder<T> {
    type V = ListView<T>;

    closed spec fn view(&self) -> ListView<T> {
        ListView {
            name: self.values_builder@.name,
            values: self.values_builder@.values,
            offsets: self.offsets@,
            fast_explode: self.fast_explode,
        }
    }
}

impl<T: PolarsObject> ObjectChunked<T> {
    /// A builder of a list column called `name` over objects of this type.
    pub fn get_list_builder(name: &str, values_capacity: usize, list_capacity: usize) -> (r:
        ExtensionListBuilder<T>)
        ensures
            r@ == ListView::<T>::empty(name@),
    {
        ExtensionListBuilder::<T>::new(name, values_capacity, list_capacity)
    }
}

impl<T: PolarsObject> ExtensionListBuilder<T> {
    /// A builder without lists, with room for `values_capacity` items and
    /// `list_capacity` lists where that much memory can be had.
    pub fn new(name: &str, values_capacity: usize, list_capacity: usize) -> (r: Self)
        ensures
            r@ == ListView::<T>::empty(name@),
            r@.well_formed(),
    {
        let mut offsets: Vec<i64> = Vec::new();
        let _ = offsets.try_reserve(list_capacity.saturating_add(1));
        offsets.push(0);
        Self {
            values_builder: ObjectChunkedBuilder::new(name, values_capacity),
            offsets,
            fast_explode: true,
        }
    }

    /// Appends one list: clones of the elements of `s`, in their order. An
    /// empty list clears `fast_explode`.
    pub fn append_series(&mut self, s: &ObjectChunked<T>)
        requires
            old(self)@.well_formed(),
            old(self)@.values.len() + s.values@.len() <= i64::MAX,
        ensures
            final(self)@.well_formed(),
            final(self)@.name == old(self)@.name,
            final(self)@.values.len() == old(self)@.values.len() + s.values@.len(),
            final(self)@.values.take(old(self)@.values.len() as int) == old(self)@.values,
            forall|i: int|
                0 <= i < s.values@.len() ==> option_cloned(
                    s.values@[i],
                    #[trigger] final(self)@.values[old(self)@.values.len() + i],
                ),
            final(self)@.offsets == old(self)@.offsets.push(
                (old(self)@.values.len() + s.values@.len()) as i64,
            ),
            final(self)@.fast_explode == (old(self)@.fast_explode && s.values@.len() > 0),
    {
        let ghost before = self@;
        let mut k: usize = 0;
        while k < s.values.len()
            invariant
                0 <= k <= s.values@.len(),
                self@.name == before.name,
                self@.offsets == before.offsets,
                self@.fast_explode == before.fast_explode,
                self@.values.len() == before.values.len() + k,
                self@.values.take(before.values.len() as int) == before.values,
                forall|i: int|
                    0 <= i < k ==> option_cloned(
                        s.values@[i],
                        #[trigger] self@.values[before.values.len() + i],
                    ),
            decreases s.values@.len() - k,
        {
            let ghost so_far = self@.values;
            let v: Option<T> = s.values[k].clone();
            self.values_builder.append_option(v);
            proof {
                assert(self@.values.take(before.values.len() as int) == so_far.take(
                    before.values.len() as int,
                ));
                assert forall|i: int| 0 <= i < k + 1 implies option_cloned(
                    s.values@[i],
                    #[trigger] self@.values[before.values.len() + i],
                ) by {}
            }
            k = k + 1;
        }
        if s.is_empty() {
            self.fast_explode = false;
        }
        let len_so_far: i64 = self.offsets[self.offsets.len() - 1];
        self.offsets.push(len_so_far + s.len() as i64);
    }

    /// Appends one list that holds a single missing element.
    pub fn append_null(&mut self)
        requires
            old(self)@.well_formed(),
            old(self)@.values.len() < i64::MAX,
        ensures
            final(self)@.well_formed(),
            final(self)@ == (ListView {
                values: old(self)@.values.push(None),
                offsets: old(self)@.offsets.push((old(self)@.values.len() + 1) as i64),
                ..old(self)@
            }),
    {
        self.values_builder.append_null();
        let len_so_far: i64 = self.offsets[self.offsets.len() - 1];
        self.offsets.push(len_so_far + 1);
    }

    /// Hands out the list column built so far. Values and offsets move into
    /// the column: the builder is left with a default values builder and
    /// without offsets, its flag as it was, so that nothing more can be
    /// appended to it.
    pub fn finish(&mut self) -> (r: ListChunked<T>)
        requires
            old(self)@.well_formed(),
        ensures
            r@ == old(self)@,
            r@.well_formed(),
            final(self)@ == (ListView {
                name: Seq::<char>::empty(),
                values: Seq::<Option<T>>::empty(),
                offsets: Seq::<i64>::empty(),
                fast_explode: old(self)@.fast_explode,
            }),
            !final(self)@.well_formed(),
    {
        let mut values_builder: ObjectChunkedBuilder<T> = ObjectChunkedBuilder::default();
        std::mem::swap(&mut self.values_builder, &mut values_builder);
        let mut offsets: Vec<i64> = Vec::new();
        std::mem::swap(&mut self.offsets, &mut offsets);
        let ca: ObjectChunked<T> = values_builder.finish();
        ListChunked { name: ca.name, values: ca.values, offsets, fast_explode: self.fast_explode }
    }
}

} // verus!
