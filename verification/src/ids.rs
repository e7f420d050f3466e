use vstd::prelude::*;

verus! {

/// Identifier of a project.
pub type ProjectId = u32;

/// Identifier of an image.
pub type ImageId = u32;

/// Identifier of a marker.
pub type MarkerId = u32;

/// A source of fresh numeric identifiers: hands out 1, 2, 3, ... in turn.
pub struct IdGenerator {
    pub(crate) next_id: u32,
}

impl IdGenerator {
    pub closed spec fn peek(&self) -> u32 {
        self.next_id
    }

    /// A generator whose first identifier is 1.
    pub fn new() -> (g: Self)
        ensures
            g.peek() == 1,
    {
        IdGenerator { next_id: 1 }
    }

    /// Hands out the current identifier and advances (wrapping after `u32::MAX`).
    pub fn next(&mut self) -> (id: u32)
        ensures
            id == old(self).peek(),
            final(self).peek() == (if id == u32::MAX { 0 } else { (id + 1) as u32 }),
    {
        let id = self.next_id;
        self.next_id = id.wrapping_add(1);
        id
    }
}

} // verus!
