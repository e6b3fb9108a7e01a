use vstd::prelude::*;

pub mod home;

verus! {

use crate::event::Event;
use crate::renderer::Renderer;

/// A full-screen unit of application state. The screen loop drives the
/// lifecycle: `init` once when the view becomes active, one `update` per
/// delivered event, one `render` per tick, `close` when it is retired.
pub trait View where Self: Sized {
    /// The view's own well-formedness; every lifecycle hook keeps it.
    spec fn wf(&self) -> bool;

    fn init(&mut self) -> (r: Result<(), Error>)
        requires
            old(self).wf(),
        ensures
            final(self).wf(),
    ;

    fn update(&mut self, event: &Event) -> (r: Result<(), Error>)
        requires
            old(self).wf(),
        ensures
            final(self).wf(),
    ;

    fn render<R: Renderer>(&mut self, renderer: &mut R) -> (r: Result<(), Error>)
        requires
            old(self).wf(),
        ensures
            final(self).wf(),
    ;

    fn close(&mut self) -> (r: Result<(), Error>)
        requires
            old(self).wf(),
        ensures
            final(self).wf(),
    ;
}

/// A view lifecycle failure. The loop discards these results either way.
#[derive(Debug)]
pub enum Error {
    Failed,
}

} // verus!
