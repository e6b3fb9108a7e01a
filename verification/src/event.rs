use vstd::prelude::*;

verus! {

/// One translated input event. All concrete key codes collapse to two
/// abstract keys: only the escape key is told apart from every other key.
pub struct Event {
    key: Key,
}

/// The two abstract keys the composition core distinguishes.
pub enum Key {
    ESC,
    ENTER,
}

impl Event {
    pub closed spec fn key(&self) -> Key {
        self.key
    }

    pub fn from(key: Key) -> (r: Self)
        ensures
            r.key() == key,
    {
        Self { key }
    }

    pub fn get_key(&self) -> (r: &Key)
        ensures
            *r == self.key(),
    {
        &self.key
    }
}

} // verus!
