//! The DOM handles of hosts without a browser or native document.

use vstd::prelude::*;

verus! {

/// A document handle of a host without a DOM, for tests and headless use.
#[derive(Clone, Debug, Default, PartialEq)]
pub struct Document {
    _private: bool,
}

impl Document {
    /// The handle that every mock document is: all mocks are one and the
    /// same handle.
    pub closed spec fn mock_handle() -> Document {
        Document { _private: false }
    }

    /// The active document: a host without a DOM has none.
    pub fn current() -> (r: Option<Self>)
        ensures
            r is None,
    {
        None
    }

    /// A document handle for tests.
    pub fn mock() -> (d: Self)
        ensures
            d == Document::mock_handle(),
    {
        Document { _private: false }
    }
}

/// An element handle of a host without a DOM, for tests and headless use.
#[derive(Clone, Debug, Default, PartialEq)]
pub struct Element {
    _private: bool,
}

impl Element {
    /// The handle that every mock element is: all mocks are one and the
    /// same handle.
    pub closed spec fn mock_handle() -> Element {
        Element { _private: false }
    }

    /// An element handle for tests.
    pub fn mock() -> (e: Self)
        ensures
            e == Element::mock_handle(),
    {
        Element { _private: false }
    }
}

} // verus!
