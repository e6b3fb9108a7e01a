use vstd::prelude::*;

verus! {

use crate::event::Event;
use crate::event::Key;
use crate::view::View;

/// The backend seam of the screen loop: setting the terminal up, polling
/// one tick, drawing one frame, tearing the terminal down. A backend
/// implements this; the loop drives it.
pub trait ScreenApi<L> where Self: Sized {
    fn new() -> Result<Self, Error>;

    fn update<V: View>(&mut self, view: &mut V) -> Result<UpdateAction<L>, Error>;

    fn render<V: View>(&mut self, view: &mut V);

    fn close(&mut self) -> Result<(), Error>;
}

/// What one tick of the screen decided: whether the loop keeps running,
/// and an optional loader for a replacement view.
pub struct UpdateAction<L> {
    keep_running: bool,
    view_loader: Option<L>,
}

impl<L> UpdateAction<L> {
    pub closed spec fn keep_running(&self) -> bool {
        self.keep_running
    }

    pub closed spec fn view_loader(&self) -> Option<L> {
        self.view_loader
    }

    pub fn from(keep_running: bool, view_loader: Option<L>) -> (r: Self)
        ensures
            r.keep_running() == keep_running,
            r.view_loader() == view_loader,
    {
        Self { keep_running, view_loader }
    }

    pub fn get_keep_running(&self) -> (r: bool)
        ensures
            r == self.keep_running(),
    {
        self.keep_running
    }

    pub fn get_view_loader(&self) -> (r: Option<L>) where L: Copy
        ensures
            r == self.view_loader(),
    {
        self.view_loader
    }
}

/// Decide one tick from the (at most one) event the backend polled.
///
/// An escape-class event always stops the loop, whatever the active view
/// is; any event that was polled, escape included, is first delivered to
/// the view's `update`, whose result the loop discards.
pub fn screen_tick<V: View, L>(view: &mut V, event: Option<Event>) -> (r: UpdateAction<L>)
    requires
        old(view).wf(),
    ensures
        final(view).wf(),
        r.keep_running() <==> !match event {
            Some(evt) => evt.key() is ESC,
            None => false,
        },
        r.view_loader() is None,
{
    match event {
        Some(evt) => {
            let _ = view.update(&evt);
            match evt.get_key() {
                Key::ESC => UpdateAction::from(false, None),
                _ => UpdateAction::from(true, None),
            }
        },
        None => UpdateAction::from(true, None),
    }
}

#[verifier::external_type_specification]
#[verifier::external_body]
pub struct ExIoError(std::io::Error);

/// Failure of the screen backend: terminal setup or teardown went wrong.
#[derive(Debug)]
pub enum Error {
    IOError(std::io::Error),
}

impl From<std::io::Error> for Error {
    fn from(err: std::io::Error) -> (r: Self) {
        Error::IOError(err)
    }
}

impl vstd::std_specs::convert::FromSpecImpl<std::io::Error> for Error {
    open spec fn obeys_from_spec() -> bool {
        true
    }

    open spec fn from_spec(err: std::io::Error) -> Self {
        Error::IOError(err)
    }
}

} // verus!
