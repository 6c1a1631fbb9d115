//! Items that can either occur once or multiple times.
//!
//! Especially useful for configuration data where, for convenience, the
//! user may either give a single item directly or a list of items.

use vstd::prelude::*;

verus! {

/// A wrapper for a value that can either occur once or multiple times.
#[derive(Debug, PartialEq, Eq)]
pub enum Multi<T> {
    /// One item, given directly.
    Single(T),
    /// A list of items.
    Multiple(Vec<T>),
}

impl<T> View for Multi<T> {
    type V = Seq<T>;

    /// The items, in order.
    open spec fn view(&self) -> Seq<T> {
        match self {
            Multi::Single(item) => seq![*item],
            Multi::Multiple(items) => items@,
        }
    }
}

impl<T: Clone> Clone for Multi<T> {
    /// A `Multi` of the same shape whose items are clones of the items.
    fn clone(&self) -> (copy: Self)
        ensures
            copy is Multiple == self is Multiple,
            copy@.len() == self@.len(),
            forall|i: int| 0 <= i < self@.len() ==> cloned::<T>(self@[i], #[trigger] copy@[i]),
    {
        match self {
            Multi::Single(item) => Multi::Single(item.clone()),
            Multi::Multiple(items) => Multi::Multiple(items.clone()),
        }
    }
}

impl<T> Multi<T> {
    /// Whether this is a list of items.
    pub fn is_multiple(&self) -> (multiple: bool)
        ensures
            multiple == self is Multiple,
    {
        match *self {
            Multi::Multiple(_) => true,
            Multi::Single(_) => false,
        }
    }

    /// Whether this is one item given directly.
    pub fn is_single(&self) -> (single: bool)
        ensures
            single == self is Single,
    {
        !self.is_multiple()
    }

    /// The items of a `Multiple`.
    pub fn unwrap_multiple(self) -> (items: Vec<T>)
        requires
            self is Multiple,
        ensures
            items == self->Multiple_0,
    {
        match self {
            Multi::Multiple(items) => items,
            Multi::Single(_) => unreached(),
        }
    }

    /// The item of a `Single`.
    pub fn unwrap_single(self) -> (item: T)
        requires
            self is Single,
        ensures
            item == self->Single_0,
    {
        match self {
            Multi::Single(item) => item,
            Multi::Multiple(_) => unreached(),
        }
    }

    /// An iterator over references of the items.
    pub fn iter(&self) -> (iter: Iter<'_, T>)
        ensures
            iter@ == self@,
    {
        Iter { source: self, position: 0 }
    }

    /// An iterator over mutable references of the items.  What is written
    /// through them is found in the `Multi` once the iterator is gone.
    pub fn iter_mut(&mut self) -> (iter: IterMut<'_, T>)
        ensures
            iter.position == 0,
            *iter.source == *old(self),
            *final(iter.source) == *final(self),
    {
        IterMut { source: self, position: 0 }
    }

    /// An iterator over the items.
    pub fn into_iter(self) -> (iter: IntoIter<T>)
        ensures
            iter@ == self@,
    {
        let mut stack: Vec<T> = Vec::new();
        match self {
            Multi::Single(item) => {
                stack.push(item);
            },
            Multi::Multiple(items) => {
                let mut items = items;
                let ghost all = items@;
                while items.len() > 0
                    invariant
                        items@ + stack@.reverse() == all,
                    decreases items.len(),
                {
                    let item = items.pop().unwrap();
                    stack.push(item);
                }
            },
        }
        IntoIter { stack }
    }
}

/// An iterator over references of a `Multi`s values.
#[derive(Debug)]
pub struct Iter<'a, T> {
    source: &'a Multi<T>,
    position: usize,
}

impl<'a, T> View for Iter<'a, T> {
    type V = Seq<T>;

    /// The items yet to come.
    closed spec fn view(&self) -> Seq<T> {
        self.source@.skip(self.position as int)
    }
}

impl<'a, T> Iter<'a, T> {
    #[verifier::type_invariant]
    spec fn in_bounds(self) -> bool {
        self.position <= self.source@.len()
    }

    /// The next item, if one is left.
    pub fn next(&mut self) -> (item: Option<&'a T>)
        ensures
            match item {
                Some(first) => old(self)@.len() > 0 && *first == old(self)@.first() && final(self)@
                    == old(self)@.drop_first(),
                None => old(self)@.len() == 0 && final(self)@ == old(self)@,
            },
    {
        proof {
            use_type_invariant(&*self);
        }
        let source: &'a Multi<T> = self.source;
        let found: Option<&'a T> = match source {
            Multi::Single(item) => if self.position == 0 {
                Some(item)
            } else {
                None
            },
            Multi::Multiple(items) => if self.position < items.len() {
                Some(&items[self.position])
            } else {
                None
            },
        };
        if found.is_some() {
            self.position = self.position + 1;
        }
        found
    }

    /// The number of items left, as a lower and an upper bound.
    pub fn size_hint(&self) -> (bounds: (usize, Option<usize>))
        ensures
            bounds.0 == self@.len(),
            bounds.1 == Some(bounds.0),
    {
        let left: usize = self.len();
        (left, Some(left))
    }

    /// The number of items left.
    pub fn len(&self) -> (left: usize)
        ensures
            left == self@.len(),
    {
        proof {
            use_type_invariant(self);
        }
        match self.source {
            Multi::Single(_) => 1 - self.position,
            Multi::Multiple(items) => items.len() - self.position,
        }
    }
}

/// An iterator over mutable references of a `Multi`s values.
///
/// It lends one item at a time: the reference that `next` gives is to be
/// let go of before the next call.
#[derive(Debug)]
pub struct IterMut<'a, T> {
    /// The `Multi` whose items are handed out.
    pub source: &'a mut Multi<T>,
    /// The number of items handed out so far.
    pub position: usize,
}

impl<'a, T> View for IterMut<'a, T> {
    type V = Seq<T>;

    /// The items yet to come.
    open spec fn view(&self) -> Seq<T> {
        if self.position <= self.source@.len() {
            self.source@.skip(self.position as int)
        } else {
            Seq::empty()
        }
    }
}

impl<'a, T> IterMut<'a, T> {
    /// The next item, if one is left.  The items behind it stay as they
    /// are; the item itself becomes what the caller leaves in it.
    pub fn next(&mut self) -> (item: Option<&mut T>)
        ensures
            *final(final(self).source) == *final(old(self).source),
            (*final(self).source is Multiple) == (*old(self).source is Multiple),
            match item {
                Some(first) => {
                    &&& old(self)@.len() > 0
                    &&& *first == old(self)@.first()
                    &&& final(self).position == old(self).position + 1
                    &&& final(self).source@ == old(self).source@.update(
                        old(self).position as int,
                        *final(first),
                    )
                },
                None => {
                    &&& old(self)@.len() == 0
                    &&& final(self).position == old(self).position
                    &&& *final(self).source == *old(self).source
                },
            },
    {
        let position: usize = self.position;
        match &mut *self.source {
            Multi::Single(item) => if position == 0 {
                self.position = 1;
                Some(item)
            } else {
                None
            },
            Multi::Multiple(items) => if position < items.len() {
                self.position = position + 1;
                Some(&mut items[position])
            } else {
                None
            },
        }
    }

    /// The number of items left, as a lower and an upper bound.
    pub fn size_hint(&self) -> (bounds: (usize, Option<usize>))
        ensures
            bounds.0 == self@.len(),
            bounds.1 == Some(bounds.0),
    {
        let left: usize = self.len();
        (left, Some(left))
    }

    /// The number of items left.
    pub fn len(&self) -> (left: usize)
        ensures
            left == self@.len(),
    {
        let all: usize = match &*self.source {
            Multi::Single(_) => 1,
            Multi::Multiple(items) => items.len(),
        };
        if self.position <= all {
            all - self.position
        } else {
            0
        }
    }
}

/// An iterator over a `Multi`s values.
#[derive(Debug)]
pub struct IntoIter<T> {
    stack: Vec<T>,
}

impl<T> View for IntoIter<T> {
    type V = Seq<T>;

    /// The items yet to come.
    closed spec fn view(&self) -> Seq<T> {
        self.stack@.reverse()
    }
}

impl<T> IntoIter<T> {
    /// The next item, if one is left.
    pub fn next(&mut self) -> (item: Option<T>)
        ensures
            match item {
                Some(first) => old(self)@.len() > 0 && first == old(self)@.first() && final(self)@
                    == old(self)@.drop_first(),
                None => old(self)@.len() == 0 && final(self)@ == old(self)@,
            },
    {
        self.stack.pop()
    }

    /// The number of items left, as a lower and an upper bound.
    pub fn size_hint(&self) -> (bounds: (usize, Option<usize>))
        ensures
            bounds.0 == self@.len(),
            bounds.1 == Some(bounds.0),
    {
        (self.stack.len(), Some(self.stack.len()))
    }

    /// The number of items left.
    pub fn len(&self) -> (left: usize)
        ensures
            left == self@.len(),
    {
        self.stack.len()
    }
}

} // verus!
