use vstd::prelude::*;

verus! {

/// Value held under a single key: either one item, or an ordered list of
/// items that share the key.
#[derive(Debug, PartialEq)]
pub enum OneOrMany<T> {
    One(T),
    Many(Vec<T>),
}

impl<T> OneOrMany<T> {
    /// All items held, in order; a `One` holds a single-item sequence.
    pub open spec fn values(self) -> Seq<T> {
        match self {
            OneOrMany::One(v) => seq![v],
            OneOrMany::Many(vec) => vec@,
        }
    }

    /// A reference to the item (if `One`) or to the first item of the list
    /// (if `Many`); `None` when a `Many` holds no items.
    pub fn value(&self) -> (r: Option<&T>)
        ensures
            self.values().len() > 0 ==> (r matches Some(v) && *v == self.values()[0]),
            self.values().len() == 0 ==> r is None,
    {
        match self {
            OneOrMany::One(val) => Some(val),
            OneOrMany::Many(vect) => {
                if vect.len() > 0 {
                    Some(&vect[0])
                } else {
                    None
                }
            },
        }
    }

    /// A mutable reference to the item (if `One`) or to the first item
    /// of the list (if `Many`); `None` when a `Many` holds no items.
    /// Writing through the reference replaces the first item and leaves
    /// the variant and every other item unchanged.
    pub fn value_mut(&mut self) -> (r: Option<&mut T>)
        ensures
            old(self).values().len() == 0 ==> r is None && *final(self) == *old(self),
            old(self).values().len() > 0 ==> (r matches Some(v) && *v == old(self).values()[0]
                && final(self).values() == old(self).values().update(0, *final(v))),
            (*final(self) is One) <==> (*old(self) is One),
    {
        match self {
            OneOrMany::One(val) => Some(val),
            OneOrMany::Many(vect) => {
                if vect.len() > 0 {
                    Some(&mut vect[0])
                } else {
                    None
                }
            },
        }
    }

    /// Replace the item at `index`, counting across the held items in order.
    pub fn set_at(&mut self, index: usize, value: T)
        requires
            index < old(self).values().len(),
        ensures
            final(self).values() == old(self).values().update(index as int, value),
    {
        match self {
            OneOrMany::One(val) => {
                *val = value;
            },
            OneOrMany::Many(vect) => {
                vect[index] = value;
            },
        }
    }

    /// Consume `self` and return the item (if `One`) or the first item of
    /// the list (if `Many`); `None` when a `Many` holds no items.
    pub fn into_value(self) -> (r: Option<T>)
        ensures
            self.values().len() > 0 ==> (r matches Some(v) && v == self.values()[0]),
            self.values().len() == 0 ==> r is None,
    {
        match self {
            OneOrMany::One(val) => Some(val),
            OneOrMany::Many(mut vect) => {
                if vect.len() > 0 {
                    Some(vect.remove(0))
                } else {
                    None
                }
            },
        }
    }

    /// Consume `self` and return every item it holds, in order.
    pub fn into_values(self) -> (r: Vec<T>)
        ensures
            r@ == self.values(),
    {
        match self {
            OneOrMany::One(val) => vec![val],
            OneOrMany::Many(vect) => vect,
        }
    }

    /// True exactly when `self` is `One`.
    pub fn is_one(&self) -> (r: bool)
        ensures
            r == (self is One),
    {
        match self {
            OneOrMany::One(_) => true,
            _ => false,
        }
    }

    /// True exactly when `self` is `Many`.
    pub fn is_many(&self) -> (r: bool)
        ensures
            r == (self is Many),
    {
        match self {
            OneOrMany::Many(_) => true,
            _ => false,
        }
    }
}

} // verus!
