//! Identifier generation: a counter drawing one fresh identifier after
//! another, behind a small trait so other sources can stand in.
use vstd::prelude::*;

verus! {

/// A source of identifiers of type `Value`.
pub trait Identifier<Value> {
    /// The kind of identifier this source draws.
    type Value;

    /// Whether another identifier can still be drawn.
    spec fn ready(&self) -> bool;

    /// How one draw relates the source's old state, its new state and the
    /// drawn value.
    spec fn drawn(pre: &Self, post: &Self, value: &Value) -> bool;

    /// Draws the next identifier.
    fn next(&mut self) -> (value: Value)
        requires
            old(self).ready(),
        ensures
            Self::drawn(old(self), final(self), &value),
    ;
}

/// A counting identifier source: each draw yields the next integer, starting
/// at one.
#[derive(Debug, Clone, Copy, PartialEq, Eq, PartialOrd, Ord, Hash, Structural)]
pub struct Counter(pub u64);

impl Default for Counter {
    /// A fresh counter starts at zero; its first draw yields one.
    fn default() -> (r: Self)
        ensures
            r.0 == 0,
    {
        Counter(0)
    }
}

impl Identifier<u64> for Counter {
    type Value = u64;

    /// A counter can draw until its integer would wrap.
    open spec fn ready(&self) -> bool {
        self.0 < u64::MAX
    }

    /// A draw advances the count by one and yields the new count.
    open spec fn drawn(pre: &Self, post: &Self, value: &u64) -> bool {
        post.0 == pre.0 + 1 && *value == post.0
    }

    fn next(&mut self) -> (value: u64) {
        self.0 = self.0 + 1;
        self.0
    }
}

/// An identifier source of type `T`, drawing identifiers of type `U`.
#[derive(Debug, PartialEq, Eq, Hash)]
pub struct Id<T: Identifier<U>, U> {
    /// The underlying source.
    pub id: T,
    /// Marks the drawn identifier type.
    pub _phantom: core::marker::PhantomData<U>,
}

impl<T: Identifier<U>, U> Id<T, U> {
    /// Draws the next identifier from the underlying source.
    pub fn next(&mut self) -> (value: U)
        requires
            old(self).id.ready(),
        ensures
            T::drawn(&old(self).id, &final(self).id, &value),
    {
        self.id.next()
    }
}

impl Id<Counter, u64> {
    /// A counting identifier source, starting at zero.
    pub fn counter() -> (r: Self)
        ensures
            r.id.0 == 0,
    {
        let id = Counter::default();
        let _phantom = core::marker::PhantomData;
        Id { id, _phantom }
    }
}

} // verus!
