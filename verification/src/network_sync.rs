use vstd::prelude::*;

verus! {

/// Ownership and identity of a replicated object.
pub trait NetworkSync {
    /// The owner id as a mathematical value.
    spec fn owner(&self) -> i32;

    /// The object id as a mathematical value.
    spec fn object_id(&self) -> i32;

    fn get_owner(&self) -> (id: i32)
        ensures
            id == self.owner(),
    ;

    fn set_owner(&mut self, owner_id: i32)
        ensures
            final(self).owner() == owner_id,
            final(self).object_id() == old(self).object_id(),
    ;

    fn get_object_id(&self) -> (id: i32)
        ensures
            id == self.object_id(),
    ;

    fn set_object_id(&mut self, object_id: i32)
        ensures
            final(self).object_id() == object_id,
            final(self).owner() == old(self).owner(),
    ;
}

} // verus!
