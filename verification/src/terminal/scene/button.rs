use vstd::prelude::*;

verus! {

/// A button of a scene: which piece of the scene's text it is, and which
/// scene it leads to (a negative index leads out of the program).
#[derive(PartialEq, Eq, Structural, Debug)]
pub struct Button {
    pub content_id: usize,
    pub next_scene_id: isize,
}

impl Button {
    pub fn new(content_id: usize, next_scene_id: isize) -> (b: Self)
        ensures
            b == (Button { content_id, next_scene_id }),
    {
        Button { content_id, next_scene_id }
    }

    pub fn clone(&self) -> (b: Self)
        ensures
            b == *self,
    {
        Button { content_id: self.content_id, next_scene_id: self.next_scene_id }
    }
}

} // verus!
