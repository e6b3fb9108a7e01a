use vstd::prelude::*;

pub mod event;
pub mod renderer;
pub mod screen;
pub mod ui;
pub mod view;

verus! {

/// Top-level failure of the application loop. Only backend setup and
/// teardown can fail fatally; per-frame render failures are swallowed.
#[derive(Debug)]
pub enum Error {
    ScreenError(crate::screen::Error),
}

impl From<crate::screen::Error> for Error {
    fn from(value: crate::screen::Error) -> (r: Self) {
        Error::ScreenError(value)
    }
}

impl vstd::std_specs::convert::FromSpecImpl<crate::screen::Error> for Error {
    open spec fn obeys_from_spec() -> bool {
        true
    }

    open spec fn from_spec(value: crate::screen::Error) -> Self {
        Error::ScreenError(value)
    }
}

} // verus!
