//! The pages of the application.
use vstd::prelude::*;

verus! {

#[derive(Clone, Copy, PartialEq, Eq, Structural, Debug)]
pub enum MainRoute {
    Login,
    Register,
    Dashboard,
    ViewPost(i64),
    Editor(i64),
    About,
    ListPosts,
    Main,
}

impl Default for MainRoute {
    /// The main page.
    fn default() -> (r: Self)
        ensures
            r == MainRoute::Main,
    {
        MainRoute::Main
    }
}

} // verus!
