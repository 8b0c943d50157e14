//! Locators: a selector within a frame.

use vstd::prelude::*;

verus! {

/// A way to find elements: a selector, resolved within one frame each time
/// it is used.
#[derive(Debug, Clone, PartialEq, Eq)]
pub struct Locator {
    frame: String,
    selector: String,
}

/// What a locator holds.
pub struct LocatorView {
    /// The guid of the frame.
    pub frame: Seq<char>,
    /// The selector.
    pub selector: Seq<char>,
}

impl View for Locator {
    type V = LocatorView;

    closed spec fn view(&self) -> LocatorView {
        LocatorView { frame: self.frame@, selector: self.selector@ }
    }
}

impl Locator {
    /// A locator for `selector` within the frame with the guid `frame`.
    pub fn new(frame: String, selector: String) -> (locator: Locator)
        ensures
            locator@ == (LocatorView { frame: frame@, selector: selector@ }),
    {
        Locator { frame, selector }
    }

    /// The selector.
    pub fn selector(&self) -> (selector: &str)
        ensures
            selector@ == self@.selector,
    {
        self.selector.as_str()
    }

    /// The guid of the frame in which the selector is resolved.
    pub fn frame(&self) -> (frame: &str)
        ensures
            frame@ == self@.frame,
    {
        self.frame.as_str()
    }
}

} // verus!
