//! The netlayer manager: a uniform face over one or more named transports.
//! Registering a transport publishes its locators and hands back a binding
//! number under which the embedder runs that transport's accept and connect
//! loops; dialling selects the binding by the locator's transport name.

use vstd::prelude::*;
use crate::keymap::StrMap;
use crate::locator::Locator;

verus! {

/// Whether two locators carry the same values.
pub open spec fn loc_matches(a: Locator, b: Locator) -> bool {
    &&& a.transport@ == b.transport@
    &&& a.designator@ == b.designator@
    &&& a.hints@.len() == b.hints@.len()
    &&& forall|h: int|
        0 <= h < a.hints@.len() ==> (#[trigger] a.hints@[h]).0@ == b.hints@[h].0@
            && a.hints@[h].1@ == b.hints@[h].1@
}

impl Locator {
    /// A copy of the locator.
    pub fn dup(&self) -> (r: Locator)
        ensures
            loc_matches(r, *self),
            loc_matches(*self, r),
    {
        let mut hints: Vec<(String, String)> = Vec::new();
        let mut i: usize = 0;
        while i < self.hints.len()
            invariant
                i <= self.hints@.len(),
                hints@.len() == i,
                forall|h: int|
                    0 <= h < i ==> (#[trigger] hints@[h]).0@ == self.hints@[h].0@ && hints@[h].1@
                        == self.hints@[h].1@,
            decreases self.hints@.len() - i,
        {
            hints.push((self.hints[i].0.clone(), self.hints[i].1.clone()));
            i = i + 1;
        }
        Locator {
            transport: self.transport.clone(),
            designator: self.designator.clone(),
            hints,
        }
    }
}

/// Why a dial request could not even be handed to a transport.
#[derive(Debug, PartialEq, Eq)]
pub enum ConnectError {
    /// The locator names a transport that was never registered.
    UnregisteredTransport(String),
    /// The transport failed to reach the node; the embedder surfaces the
    /// transport's own words.
    Netlayer(String),
}

/// One registered transport: its binding number and its published locators.
#[derive(Debug)]
pub struct NetlayerBinding {
    pub binding: usize,
    pub locators: Vec<Locator>,
}

/// Whether `loc` carries the values of a locator that some registered
/// transport of `m` published.
pub open spec fn published(m: Map<Seq<char>, NetlayerBinding>, loc: Locator) -> bool {
    exists|t: Seq<char>, j: int|
        {
            &&& m.dom().contains(t)
            &&& 0 <= j < m[t].locators@.len()
            &&& loc_matches(loc, m[t].locators@[j])
        }
}

/// Whether some element of `r` carries the values of `target`.
pub open spec fn appears(r: Seq<Locator>, target: Locator) -> bool {
    exists|i: int| 0 <= i < r.len() && loc_matches(#[trigger] r[i], target)
}

/// The registry of transports.
pub struct NetlayerManager {
    layers: StrMap<NetlayerBinding>,
    next_binding: usize,
}

impl NetlayerManager {
    /// Per transport name, its binding.
    pub closed spec fn layers_view(&self) -> Map<Seq<char>, NetlayerBinding> {
        self.layers@
    }

    /// The binding number the next registration gets.
    pub closed spec fn spec_next_binding(&self) -> nat {
        self.next_binding as nat
    }

    /// Every issued binding number is below the next one.
    pub open spec fn wf(&self) -> bool {
        forall|t: Seq<char>|
            self.layers_view().dom().contains(t) ==> (#[trigger] self.layers_view()[t]).binding
                < self.spec_next_binding()
    }

    /// An empty registry.
    pub fn new() -> (r: NetlayerManager)
        ensures
            r.wf(),
            r.layers_view() == Map::<Seq<char>, NetlayerBinding>::empty(),
            r.spec_next_binding() == 0,
    {
        NetlayerManager { layers: StrMap::new(), next_binding: 0 }
    }

    /// Registers a transport under `transport`, publishing `locators`;
    /// idempotent for the name, overwriting an earlier binding. The fresh
    /// binding number is returned; the embedder runs the transport's accept
    /// and connect loops under it.
    pub fn register(&mut self, transport: String, locators: Vec<Locator>) -> (r: usize)
        requires
            old(self).wf(),
            old(self).spec_next_binding() < usize::MAX,
        ensures
            final(self).wf(),
            r == old(self).spec_next_binding(),
            final(self).spec_next_binding() == old(self).spec_next_binding() + 1,
            final(self).layers_view().dom() == old(self).layers_view().dom().insert(transport@),
            forall|t: Seq<char>|
                t != transport@ && old(self).layers_view().dom().contains(t)
                    ==> #[trigger] final(self).layers_view()[t] == old(self).layers_view()[t],
            final(self).layers_view()[transport@].binding == r,
            final(self).layers_view()[transport@].locators == locators,
    {
        let binding = self.next_binding;
        self.layers.insert(transport, NetlayerBinding { binding, locators });
        self.next_binding = self.next_binding + 1;
        proof {
            assert(final(self).layers_view().dom() =~= old(self).layers_view().dom().insert(
                transport@,
            ));
        }
        binding
    }

    /// Selects the transport that `locator` names. Succeeds exactly when
    /// one is registered under that name; the dial itself is the
    /// transport's work, and its errors are surfaced to the requesting
    /// caller.
    pub fn request_connect(&self, locator: &Locator) -> (r: Result<usize, ConnectError>)
        ensures
            match r {
                Ok(b) => self.layers_view().dom().contains(locator.transport@) && b
                    == self.layers_view()[locator.transport@].binding,
                Err(e) => !self.layers_view().dom().contains(locator.transport@) && (e matches
                    ConnectError::UnregisteredTransport(t) && t@ == locator.transport@),
            },
    {
        match self.layers.get(&locator.transport) {
            Some(b) => Ok(b.binding),
            None => Err(ConnectError::UnregisteredTransport(locator.transport.clone())),
        }
    }

    /// Every locator that the registered transports publish: each returned
    /// locator is one some registered transport published, and every
    /// published locator is returned.
    pub fn locators(&self) -> (r: Vec<Locator>)
        ensures
            forall|i: int|
                0 <= i < r@.len() ==> published(self.layers_view(), #[trigger] r@[i]),
            forall|t: Seq<char>, j: int|
                #![trigger self.layers_view()[t].locators@[j]]
                self.layers_view().dom().contains(t) && 0 <= j
                    < self.layers_view()[t].locators@.len() ==> appears(
                    r@,
                    self.layers_view()[t].locators@[j],
                ),
    {
        let entries = self.layers.entries_ref();
        let mut r: Vec<Locator> = Vec::new();
        let ghost mut origin: Seq<(int, int)> = Seq::empty();
        let ghost mut starts: Seq<int> = Seq::empty();
        let mut i: usize = 0;
        while i < entries.len()
            invariant
                i <= entries@.len(),
                forall|t: int|
                    0 <= t < entries@.len() ==> self.layers_view().contains_pair(
                        #[trigger] entries@[t].0@,
                        entries@[t].1,
                    ),
                origin.len() == r@.len(),
                forall|p: int|
                    #![trigger origin[p]]
                    0 <= p < origin.len() ==> {
                        &&& 0 <= origin[p].0 < entries@.len()
                        &&& 0 <= origin[p].1 < entries@[origin[p].0].1.locators@.len()
                        &&& loc_matches(r@[p], entries@[origin[p].0].1.locators@[origin[p].1])
                    },
                starts.len() == i,
                forall|t: int|
                    #![trigger starts[t]]
                    0 <= t < i ==> {
                        &&& 0 <= starts[t]
                        &&& starts[t] + entries@[t].1.locators@.len() <= r@.len()
                        &&& forall|j: int|
                            0 <= j < entries@[t].1.locators@.len() ==> loc_matches(
                                #[trigger] r@[starts[t] + j],
                                entries@[t].1.locators@[j],
                            )
                    },
            decreases entries@.len() - i,
        {
            proof {
                starts = starts.push(r@.len() as int);
            }
            let list = &entries[i].1.locators;
            let mut j: usize = 0;
            while j < list.len()
                invariant
                    0 <= i < entries@.len(),
                    j <= list@.len(),
                    list == &entries@[i as int].1.locators,
                    origin.len() == r@.len(),
                    forall|p: int|
                        #![trigger origin[p]]
                        0 <= p < origin.len() ==> {
                            &&& 0 <= origin[p].0 < entries@.len()
                            &&& 0 <= origin[p].1 < entries@[origin[p].0].1.locators@.len()
                            &&& loc_matches(r@[p], entries@[origin[p].0].1.locators@[origin[p].1])
                        },
                    starts.len() == i + 1,
                    starts[i as int] + j == r@.len(),
                    forall|t: int|
                        #![trigger starts[t]]
                        0 <= t < i ==> {
                            &&& 0 <= starts[t]
                            &&& starts[t] + entries@[t].1.locators@.len() <= r@.len()
                            &&& forall|j2: int|
                                0 <= j2 < entries@[t].1.locators@.len() ==> loc_matches(
                                    #[trigger] r@[starts[t] + j2],
                                    entries@[t].1.locators@[j2],
                                )
                        },
                    0 <= starts[i as int],
                    forall|j2: int|
                        0 <= j2 < j ==> loc_matches(
                            #[trigger] r@[starts[i as int] + j2],
                            entries@[i as int].1.locators@[j2],
                        ),
                decreases list@.len() - j,
            {
                let loc = list[j].dup();
                proof {
                    assert(loc_matches(loc, entries@[i as int].1.locators@[j as int]));
                }
                r.push(loc);
                proof {
                    origin = origin.push((i as int, j as int));
                }
                j = j + 1;
            }
            i = i + 1;
        }
        proof {
            assert forall|p: int| 0 <= p < r@.len() implies published(
                self.layers_view(),
                #[trigger] r@[p],
            ) by {
                let (ti, j) = origin[p];
                let t = entries@[ti].0@;
                assert(self.layers_view().contains_pair(entries@[ti].0@, entries@[ti].1));
                assert(self.layers_view().dom().contains(t));
                assert(self.layers_view()[t] == entries@[ti].1);
                assert(loc_matches(r@[p], self.layers_view()[t].locators@[j]));
            }
            assert forall|t: Seq<char>, j: int|
                #![trigger self.layers_view()[t].locators@[j]]
                self.layers_view().dom().contains(t) && 0 <= j
                    < self.layers_view()[t].locators@.len() implies appears(
                r@,
                self.layers_view()[t].locators@[j],
            ) by {
                assert(exists|ti2: int|
                    0 <= ti2 < entries@.len() && #[trigger] entries@[ti2].0@ == t);
                let ti = choose|ti: int|
                    0 <= ti < entries@.len() && #[trigger] entries@[ti].0@ == t;
                assert(self.layers_view().contains_pair(entries@[ti].0@, entries@[ti].1));
                assert(entries@[ti].1 == self.layers_view()[t]);
                let p = starts[ti] + j;
                assert(loc_matches(r@[p], entries@[ti].1.locators@[j]));
            }
        }
        r
    }
}

} // verus!
