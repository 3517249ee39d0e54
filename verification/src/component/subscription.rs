use vstd::prelude::*;

verus! {

/// Identifier of a state.
pub type Id = usize;

/// The states a component watches.
#[derive(Default, Debug)]
pub struct Subscription {
    data: Vec<Id>,
}

impl Subscription {
    /// The watched states, in the order they were added.
    pub closed spec fn ids(&self) -> Seq<Id> {
        self.data@
    }

    /// Watches nothing.
    pub fn new() -> (r: Self)
        ensures
            r.ids() == Seq::<Id>::empty(),
    {
        Self { data: Vec::new() }
    }

    /// Watches `data`.
    pub fn with_data(data: Vec<Id>) -> (r: Self)
        ensures
            r.ids() == data@,
    {
        Self { data }
    }

    /// Also watches `id`.
    pub fn push(&mut self, id: Id)
        ensures
            final(self).ids() == old(self).ids().push(id),
    {
        self.data.push(id)
    }

    /// The watched states.
    pub fn data(&self) -> (r: &Vec<Id>)
        ensures
            r@ == self.ids(),
    {
        &self.data
    }
}

} // verus!
