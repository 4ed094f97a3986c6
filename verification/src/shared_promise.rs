//! A value that one party promises and any number of others wait for.

use vstd::prelude::*;

verus! {

/// What the waiters of a promise see.
pub enum Promised<T> {
    /// The value is not there yet.
    Pending,
    /// The value.
    Fulfilled(T),
    /// The party that promised is gone without a value.
    Broken,
}

/// The right to fulfil a promise, once.
pub struct Swear<T> {
    promised: core::marker::PhantomData<T>,
}

/// A promise that any number of parties may read.
pub struct SharedPromise<T> {
    cell: Promised<T>,
}

/// A promise that is pending, and the right to fulfil it.
pub fn shared_promise_pair<T>() -> (pair: (Swear<T>, SharedPromise<T>))
    ensures
        pair.1@ is Pending,
{
    (Swear { promised: core::marker::PhantomData }, SharedPromise { cell: Promised::Pending })
}

impl<T> Swear<T> {
    /// Fulfils `promise` with `value`: from now on every reader sees it. A
    /// promise that is settled already stays as it is, and `false` is
    /// returned.
    pub fn fulfill(self, promise: &mut SharedPromise<T>, value: T) -> (done: bool)
        ensures
            done == (old(promise)@ is Pending),
            final(promise)@ == if done {
                Promised::Fulfilled(value)
            } else {
                old(promise)@
            },
    {
        match promise.cell {
            Promised::Pending => {
                promise.cell = Promised::Fulfilled(value);
                true
            },
            _ => false,
        }
    }

    /// Gives the promise up: from now on every reader sees that no value
    /// will come. A promise that is settled already stays as it is.
    pub fn abandon(self, promise: &mut SharedPromise<T>)
        ensures
            final(promise)@ == if old(promise)@ is Pending {
                Promised::Broken
            } else {
                old(promise)@
            },
    {
        match promise.cell {
            Promised::Pending => {
                promise.cell = Promised::Broken;
            },
            _ => {},
        }
    }
}

impl<T> SharedPromise<T> {
    /// What the readers see.
    pub closed spec fn view(&self) -> Promised<T> {
        self.cell
    }

    /// Reads the promise: `None` while it is pending, else the value, or
    /// `None` inside where no value will come. Every reader of a settled
    /// promise gets the same.
    pub fn recv(&self) -> (r: Option<Option<&T>>)
        ensures
            match self@ {
                Promised::Pending => r is None,
                Promised::Fulfilled(value) => r == Some(Some(&value)),
                Promised::Broken => r == Some(None::<&T>),
            },
    {
        match &self.cell {
            Promised::Pending => None,
            Promised::Fulfilled(value) => Some(Some(value)),
            Promised::Broken => Some(None),
        }
    }
}

} // verus!
