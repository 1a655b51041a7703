//! What the metadata of a contract node holds under one field type: a
//! single value or several.

use core::fmt::Debug;
use vstd::prelude::*;

verus! {

/// The values found under one field type.
#[derive(Clone, Debug, PartialEq)]
pub enum FieldData<T> where T: Clone + Debug + PartialEq {
    /// The one value of the field.
    Item(T),
    /// The values of the field, where there are several.
    Many(Vec<T>),
}

impl<T> FieldData<T> where T: Clone + Debug + PartialEq {
    /// The values, in their order.
    pub open spec fn items(&self) -> Seq<T> {
        match self {
            FieldData::Item(item) => seq![*item],
            FieldData::Many(set) => set@,
        }
    }

    /// The first of the values. A row that is handed out holds at least one
    /// value; an empty one has no first value to give.
    pub fn deref(&self) -> (first: &T)
        requires
            self.items().len() > 0,
        ensures
            *first == self.items()[0],
    {
        match self {
            FieldData::Item(item) => item,
            FieldData::Many(set) => &set[0],
        }
    }

    /// The values as a vector, given away.
    pub fn into_vec(self) -> (values: Vec<T>)
        ensures
            values@ == self.items(),
    {
        match self {
            FieldData::Item(item) => {
                let mut values: Vec<T> = Vec::new();
                values.push(item);
                assert(values@ =~= seq![item]);
                values
            },
            FieldData::Many(set) => set,
        }
    }

    /// Clones of the values as a vector: as many as there are values, each
    /// the clone of the value at its place.
    pub fn to_vec(&self) -> (values: Vec<T>)
        ensures
            values@.len() == self.items().len(),
            forall|i: int|
                0 <= i < values@.len() ==> cloned(self.items()[i], #[trigger] values@[i]),
    {
        match self {
            FieldData::Item(item) => {
                let mut values: Vec<T> = Vec::new();
                values.push(item.clone());
                values
            },
            FieldData::Many(set) => {
                let mut values: Vec<T> = Vec::new();
                let mut i: usize = 0;
                while i < set.len()
                    invariant
                        i <= set.len(),
                        values@.len() == i,
                        forall|j: int| 0 <= j < i ==> cloned(set@[j], #[trigger] values@[j]),
                    decreases set.len() - i,
                {
                    values.push(set[i].clone());
                    i += 1;
                }
                values
            },
        }
    }
}

} // verus!
