//! Attributes of entities, looked up by entity.

use vstd::prelude::*;
use crate::components::entity::Entity;

verus! {

/// Anything in which the values of one attribute can be looked up by
/// entity.
pub trait HasStorage<T> {
    /// The attribute as a map from the entities that have it to their
    /// values.
    spec fn contents(&self) -> Map<Entity, T>;

    /// Whether `entity` has the attribute.
    fn check(&self, entity: Entity) -> (b: bool)
        ensures
            b == self.contents().contains_key(entity),
    ;

    /// The attribute of `entity`, if it has it.
    fn get(&self, entity: Entity) -> (r: Option<&T>)
        ensures
            r is Some <==> self.contents().contains_key(entity),
            r is Some ==> *r.unwrap() == self.contents()[entity],
    ;
}

/// The values of one attribute, for the entities that have it. The values
/// lie in a table indexed by the number of the entity.
pub struct Store<T> {
    pub slots: Vec<Option<T>>,
}

impl<T> View for Store<T> {
    type V = Map<Entity, T>;

    /// The attribute as a map from the entities that have it to their
    /// values.
    open spec fn view(&self) -> Map<Entity, T> {
        Map::new(
            |e: Entity| e.id < self.slots@.len() && self.slots@[e.id as int] is Some,
            |e: Entity| self.slots@[e.id as int].unwrap(),
        )
    }
}

impl<T> Store<T> {
    /// A store in which no entity has the attribute.
    pub fn new() -> (s: Store<T>)
        ensures
            s@ == Map::<Entity, T>::empty(),
    {
        let s = Store { slots: Vec::new() };
        assert(s@ =~= Map::<Entity, T>::empty());
        s
    }

    /// Gives `entity` the attribute with the given value, and returns the
    /// value it had.
    pub fn insert(&mut self, entity: Entity, value: T) -> (former: Option<T>)
        ensures
            final(self)@ == old(self)@.insert(entity, value),
            former is Some <==> old(self)@.contains_key(entity),
            former is Some ==> former.unwrap() == old(self)@[entity],
    {
        let i = entity.id as usize;
        while self.slots.len() <= i
            invariant
                i == entity.id,
                self@ =~= old(self)@,
            decreases i + 1 - self.slots.len(),
        {
            self.slots.push(None);
        }
        let former = self.slots[i].take();
        self.slots[i] = Some(value);
        assert(self@ =~= old(self)@.insert(entity, value));
        former
    }

    /// Takes the attribute from `entity`, and returns the value it had.
    pub fn remove(&mut self, entity: Entity) -> (former: Option<T>)
        ensures
            final(self)@ == old(self)@.remove(entity),
            former is Some <==> old(self)@.contains_key(entity),
            former is Some ==> former.unwrap() == old(self)@[entity],
    {
        let i = entity.id as usize;
        if i < self.slots.len() {
            let former = self.slots[i].take();
            assert(self@ =~= old(self)@.remove(entity));
            former
        } else {
            assert(self@ =~= old(self)@.remove(entity));
            None
        }
    }
}

impl<T> HasStorage<T> for Store<T> {
    open spec fn contents(&self) -> Map<Entity, T> {
        self@
    }

    fn check(&self, entity: Entity) -> (b: bool) {
        let i = entity.id as usize;
        i < self.slots.len() && self.slots[i].is_some()
    }

    fn get(&self, entity: Entity) -> (r: Option<&T>) {
        let i = entity.id as usize;
        if i < self.slots.len() {
            self.slots[i].as_ref()
        } else {
            None
        }
    }
}

} // verus!
