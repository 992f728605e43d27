//! A registry of mailboxes: each insertion files a mailbox under a fresh address.
use vstd::prelude::*;

use super::{AddressBook, Mailbox};

verus! {

/// The address of a mailbox in a [`Registry`].
pub type Address = usize;

/// The mailboxes filed under each address, at most one of each type per address.
#[verifier::external_body]
#[verifier::reject_recursive_types(A)]
pub struct Slots<A> {
    inner: std::collections::HashMap<A, anymap::Map<dyn anymap::any::Any + Send>>,
}

/// The addresses under which `Slots` holds a typed map of mailboxes (possibly an emptied one).
pub uninterp spec fn slot_addresses(slots: Slots<usize>) -> Set<usize>;

impl Slots<usize> {
    /// No address holds anything: `std::collections::HashMap::new`.
    #[verifier::external_body]
    fn new() -> (r: Self)
        ensures
            slot_addresses(r) == Set::<usize>::empty(),
    {
        Slots { inner: std::collections::HashMap::new() }
    }

    /// Files `mailbox` under `id`, replacing a mailbox of the same type there
    /// (`HashMap::entry(..).or_insert(anymap::Map::new())` then `anymap::Map::insert`).
    /// Claimed: the address `id` holds a typed map afterwards; nothing else changes addresses.
    #[verifier::external_body]
    fn file<M: 'static + Send>(&mut self, id: usize, mailbox: M)
        ensures
            slot_addresses(*final(self)) == slot_addresses(*old(self)).insert(id),
    {
        self.inner.entry(id).or_insert(anymap::Map::new()).insert(mailbox);
    }

    /// The mailbox of type `M` under `id` (`HashMap::get` then `anymap::Map::get`).
    /// Claimed: nothing is found under an address that holds no typed map. Which mailbox is
    /// found is keyed by its type, which no contract here can name.
    #[verifier::external_body]
    fn find<M: 'static + Send>(&self, id: usize) -> (r: Option<&M>)
        ensures
            !slot_addresses(*self).contains(id) ==> r is None,
    {
        self.inner.get(&id).and_then(|slot| slot.get::<M>())
    }

    /// Takes out the mailbox of type `M` under `id` (`HashMap::get_mut` then
    /// `anymap::Map::remove`). Claimed: the addresses are unchanged (an emptied typed map stays),
    /// and nothing is taken from an address that holds no typed map.
    #[verifier::external_body]
    fn take<M: 'static + Send>(&mut self, id: usize) -> (r: Option<M>)
        ensures
            slot_addresses(*final(self)) == slot_addresses(*old(self)),
            !slot_addresses(*old(self)).contains(id) ==> r is None,
    {
        self.inner.get_mut(&id).and_then(|slot| slot.remove::<M>())
    }
}

/// Mailboxes filed under addresses handed out in sequence.
#[verifier::reject_recursive_types(A)]
pub struct Registry<A: std::hash::Hash + PartialEq + Eq> {
    gen: usize,
    map: Slots<A>,
}

impl Default for Registry<Address> {
    /// No mailboxes; the first address handed out is 0.
    fn default() -> (r: Self)
        ensures
            r.next_address() == 0,
            r.addresses() == Set::<usize>::empty(),
            r.wf(),
    {
        Registry { gen: 0, map: Slots::new() }
    }
}

impl<A: std::hash::Hash + PartialEq + Eq> Registry<A> {
    /// The address that the next insertion hands out.
    pub closed spec fn next_address(&self) -> usize {
        self.gen
    }
}

impl Registry<Address> {
    /// The addresses that hold mailboxes.
    pub closed spec fn addresses(&self) -> Set<usize> {
        slot_addresses(self.map)
    }

    /// Every address in use was handed out before the next one.
    pub open spec fn wf(&self) -> bool {
        forall|id: usize| #[trigger] self.addresses().contains(id) ==> id < self.next_address()
    }
}

impl AddressBook for Registry<Address> {
    type Identifier = Address;

    /// Files `mailbox` under the next address, hands that address out and moves on to the next
    /// (wrapping around after `usize::MAX`).
    fn insert<M: 'static + Mailbox + Send>(&mut self, mailbox: M) -> (id: Address)
        ensures
            id == old(self).next_address(),
            final(self).addresses() == old(self).addresses().insert(id),
            final(self).next_address() == if old(self).next_address() < usize::MAX {
                (old(self).next_address() + 1) as usize
            } else {
                0
            },
            old(self).wf() && old(self).next_address() < usize::MAX ==> {
                &&& !old(self).addresses().contains(id)
                &&& final(self).wf()
            },
    {
        let id = self.gen;
        self.map.file(id, mailbox);
        self.gen = self.gen.wrapping_add(1);
        id
    }

    /// The mailbox of type `M` filed under `id`, if any.
    fn get<M: 'static + Mailbox + Send>(&self, id: Address) -> (r: Option<&M>)
        ensures
            !self.addresses().contains(id) ==> r is None,
    {
        self.map.find::<M>(id)
    }

    /// Takes out the mailbox of type `M` filed under `id`, if any; the address stays in use.
    fn remove<M: 'static + Mailbox + Send>(&mut self, id: Address) -> (r: Option<M>)
        ensures
            final(self).addresses() == old(self).addresses(),
            final(self).next_address() == old(self).next_address(),
            !old(self).addresses().contains(id) ==> r is None,
    {
        self.map.take::<M>(id)
    }
}

} // verus!
