//! A store of clients keyed by handles that are never reused.
use vstd::prelude::*;

verus! {

/// An opaque reference to a registered client.
#[derive(Clone, Copy, PartialEq, Eq, Debug)]
pub struct Handle {
    id: usize,
}

impl Handle {
    /// The position of the handle's entry in its registry.
    pub closed spec fn index(self) -> nat {
        self.id as nat
    }

    /// The number that identifies this handle.
    pub fn id(&self) -> (r: usize)
        ensures
            r as nat == self.index(),
    {
        self.id
    }

    /// Rebuilds a handle from the number that `id` returned.
    pub fn from_id(id: usize) -> (r: Handle)
        ensures
            r.index() == id as nat,
    {
        Handle { id }
    }
}

/// Why a handle could not be resolved.
#[derive(Clone, Copy, PartialEq, Eq, Debug)]
pub enum RegistryError {
    NotFound,
}

/// Clients in the order they were registered; the handle of each is its position.
pub struct Registry<C> {
    entries: Vec<C>,
}

/// Whether `h` was issued by a registry whose entries are `entries`.
pub open spec fn issued<C>(entries: Seq<C>, h: Handle) -> bool {
    h.index() < entries.len()
}

/// The entries and the handle after registering `c` in `entries`.
pub open spec fn spec_register<C>(entries: Seq<C>, c: C) -> (Seq<C>, nat) {
    (entries.push(c), entries.len())
}

impl<C> View for Registry<C> {
    type V = Seq<C>;

    closed spec fn view(&self) -> Seq<C> {
        self.entries@
    }
}

impl<C> Registry<C> {
    /// An empty registry.
    pub fn new() -> (r: Registry<C>)
        ensures
            r@ == Seq::<C>::empty(),
    {
        Registry { entries: Vec::new() }
    }

    /// The number of registered clients.
    pub fn len(&self) -> (r: usize)
        ensures
            r as nat == self@.len(),
    {
        self.entries.len()
    }

    /// Stores `client` under a handle that no earlier call returned.
    pub fn register(&mut self, client: C) -> (h: Handle)
        ensures
            final(self)@ == spec_register(old(self)@, client).0,
            h.index() == spec_register(old(self)@, client).1,
            !issued(old(self)@, h),
            issued(final(self)@, h),
            final(self)@[h.index() as int] == client,
    {
        let id = self.entries.len();
        self.entries.push(client);
        Handle { id }
    }

    /// The client registered under `h`, or `NotFound` for a handle this registry never issued.
    pub fn resolve(&self, h: &Handle) -> (r: Result<&C, RegistryError>)
        ensures
            issued(self@, *h) ==> r == Ok::<&C, RegistryError>(&self@[h.index() as int]),
            !issued(self@, *h) ==> r == Err::<&C, RegistryError>(RegistryError::NotFound),
    {
        if h.id < self.entries.len() {
            Ok(&self.entries[h.id])
        } else {
            Err(RegistryError::NotFound)
        }
    }
}

/// Two registrations in a row return two distinct handles, each fresh when
/// it is issued, and the registry then holds both clients under them.
pub proof fn lemma_register_twice_distinct<C>(entries: Seq<C>, c1: C, c2: C)
    ensures
        ({
            let (e1, h1) = spec_register(entries, c1);
            let (e2, h2) = spec_register(e1, c2);
            &&& h1 != h2
            &&& h1 >= entries.len() && h2 >= entries.len()
            &&& e2.len() == entries.len() + 2
            &&& e2[h1 as int] == c1
            &&& e2[h2 as int] == c2
        }),
{
}

} // verus!
