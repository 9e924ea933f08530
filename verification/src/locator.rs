//! Locators name where a peer can be dialled: a transport name, a
//! designator that the transport understands, and optional hints. A
//! sturdy-ref locator adds a swiss number, naming one capability at that
//! node.

use vstd::prelude::*;

verus! {

/// A transport name plus a designator, with optional hints.
#[derive(Clone, Debug)]
pub struct Locator {
    pub transport: String,
    pub designator: String,
    pub hints: Vec<(String, String)>,
}

impl Locator {
    /// A locator with no hints.
    pub fn new(designator: String, transport: String) -> (r: Locator)
        ensures
            r.transport@ == transport@,
            r.designator@ == designator@,
            r.hints@.len() == 0,
    {
        Locator { transport, designator, hints: Vec::new() }
    }
}

/// A locator plus a swiss number: one capability at one node.
#[derive(Clone, Debug)]
pub struct SturdyRefLocator {
    pub locator: Locator,
    pub swiss: Vec<u8>,
}

impl SturdyRefLocator {
    /// Pairs a locator with a swiss number.
    pub fn new(locator: Locator, swiss: Vec<u8>) -> (r: SturdyRefLocator)
        ensures
            r.locator == locator,
            r.swiss@ == swiss@,
    {
        SturdyRefLocator { locator, swiss }
    }
}

} // verus!
