use vstd::prelude::*;

use crate::kitty::{combine_dna, combined_dna, copy_bytes, AccountId, Kitty, KittyId, KittyView,
    DNA_LEN, NAME_LEN};
use crate::store::Store;

verus! {

/// Why an operation was rejected.  Every rejection rolls the whole
/// operation back.
#[derive(Clone, Copy, Debug, PartialEq, Eq)]
pub enum Error {
    /// A referenced identifier has no record, or the allocator cannot
    /// issue another identifier.
    InvalidKittyId,
    /// Breeding was attempted with two identical parent references.
    SameKittyId,
    /// The caller does not own the record it tries to act on.
    NotOwner,
    /// A listing already exists for the identifier.
    AlreadyOnSale,
    /// No listing exists for the identifier.
    NoOnSale,
    /// The buyer already owns the record.
    AlreadyOwner,
}

/// The notification a successful operation emits.
#[derive(Debug, PartialEq, Eq)]
pub enum Event {
    KittyCreated { who: AccountId, kitty_id: KittyId, kitty: Kitty },
    KittyBreed { who: AccountId, kitty_id: KittyId, kitty: Kitty },
    KittyTransferred { who: AccountId, to: AccountId, kitty_id: KittyId },
    KittyOnSale { who: AccountId, kitty_id: KittyId },
    KittyBought { who: AccountId, kitty_id: KittyId },
}

/// The mathematical content of a notification.
pub enum EventView {
    KittyCreated { who: AccountId, kitty_id: KittyId, kitty: KittyView },
    KittyBreed { who: AccountId, kitty_id: KittyId, kitty: KittyView },
    KittyTransferred { who: AccountId, to: AccountId, kitty_id: KittyId },
    KittyOnSale { who: AccountId, kitty_id: KittyId },
    KittyBought { who: AccountId, kitty_id: KittyId },
}

impl View for Event {
    type V = EventView;

    open spec fn view(&self) -> EventView {
        match self {
            Event::KittyCreated { who, kitty_id, kitty } => EventView::KittyCreated {
                who: *who,
                kitty_id: *kitty_id,
                kitty: kitty@,
            },
            Event::KittyBreed { who, kitty_id, kitty } => EventView::KittyBreed {
                who: *who,
                kitty_id: *kitty_id,
                kitty: kitty@,
            },
            Event::KittyTransferred { who, to, kitty_id } => EventView::KittyTransferred {
                who: *who,
                to: *to,
                kitty_id: *kitty_id,
            },
            Event::KittyOnSale { who, kitty_id } => EventView::KittyOnSale {
                who: *who,
                kitty_id: *kitty_id,
            },
            Event::KittyBought { who, kitty_id } => EventView::KittyBought {
                who: *who,
                kitty_id: *kitty_id,
            },
        }
    }
}

impl Clone for Event {
    fn clone(&self) -> (r: Self)
        ensures
            r@ == self@,
    {
        match self {
            Event::KittyCreated { who, kitty_id, kitty } => Event::KittyCreated {
                who: *who,
                kitty_id: *kitty_id,
                kitty: kitty.clone(),
            },
            Event::KittyBreed { who, kitty_id, kitty } => Event::KittyBreed {
                who: *who,
                kitty_id: *kitty_id,
                kitty: kitty.clone(),
            },
            Event::KittyTransferred { who, to, kitty_id } => Event::KittyTransferred {
                who: *who,
                to: *to,
                kitty_id: *kitty_id,
            },
            Event::KittyOnSale { who, kitty_id } => Event::KittyOnSale {
                who: *who,
                kitty_id: *kitty_id,
            },
            Event::KittyBought { who, kitty_id } => Event::KittyBought {
                who: *who,
                kitty_id: *kitty_id,
            },
        }
    }
}

/// The whole ledger state: allocator counter, record store, ownership
/// index, parentage index, marketplace listings, and the notifications
/// emitted so far.  Every operation applies atomically: it either performs
/// all of its effects and emits one notification, or rejects and leaves
/// the state untouched.
pub struct Ledger {
    next_kitty_id: u32,
    kitties: Store<Kitty>,
    owners: Store<AccountId>,
    parents: Store<(KittyId, KittyId)>,
    on_sale: Store<()>,
    events: Vec<Event>,
    breed_requires_parent_ownership: bool,
}

impl Ledger {
    /// The next identifier the allocator will issue.
    pub closed spec fn next_id(self) -> u32 {
        self.next_kitty_id
    }

    /// The record store: identifier to genome and label.
    pub closed spec fn kitties_map(self) -> Map<KittyId, KittyView> {
        Map::new(
            |id: KittyId| self.kitties.as_map().contains_key(id),
            |id: KittyId| self.kitties.as_map()[id]@,
        )
    }

    /// The ownership index: identifier to owning account.
    pub closed spec fn owners_map(self) -> Map<KittyId, AccountId> {
        self.owners.as_map()
    }

    /// The parentage index: identifier to the pair of parent identifiers,
    /// present exactly for records produced by breeding.
    pub closed spec fn parents_map(self) -> Map<KittyId, (KittyId, KittyId)> {
        self.parents.as_map()
    }

    /// The identifiers currently listed for sale.
    pub closed spec fn listed(self) -> Set<KittyId> {
        self.on_sale.as_map().dom()
    }

    /// The notifications emitted so far, oldest first.
    pub closed spec fn events_seq(self) -> Seq<EventView> {
        Seq::new(self.events@.len(), |i: int| self.events@[i]@)
    }

    /// Whether breeding demands that the caller own both parents; a policy
    /// decision, off by default.
    pub closed spec fn breeding_needs_ownership(self) -> bool {
        self.breed_requires_parent_ownership
    }

    /// Internal consistency: every record has exactly one owner, parentage
    /// and listings refer to existing records, parents are distinct
    /// existing records, every record is well-formed, and every issued
    /// identifier lies below the allocator counter.
    pub closed spec fn wf(self) -> bool {
        &&& self.kitties.wf()
        &&& self.owners.wf()
        &&& self.parents.wf()
        &&& self.on_sale.wf()
        &&& forall|id: KittyId|
            #[trigger] self.kitties.as_map().contains_key(id) ==> self.kitties.as_map()[id].wf()
        &&& forall|id: KittyId|
            #[trigger] self.kitties.as_map().contains_key(id)
                ==> self.owners.as_map().contains_key(id)
        &&& forall|id: KittyId|
            #[trigger] self.owners.as_map().contains_key(id)
                ==> self.kitties.as_map().contains_key(id)
        &&& forall|id: KittyId|
            #[trigger] self.parents.as_map().contains_key(id) ==> {
                &&& self.kitties.as_map().contains_key(id)
                &&& self.kitties.as_map().contains_key(self.parents.as_map()[id].0)
                &&& self.kitties.as_map().contains_key(self.parents.as_map()[id].1)
                &&& self.parents.as_map()[id].0 != self.parents.as_map()[id].1
            }
        &&& forall|id: KittyId|
            #[trigger] self.on_sale.as_map().contains_key(id)
                ==> self.kitties.as_map().contains_key(id)
        &&& forall|id: KittyId|
            #[trigger] self.kitties.as_map().contains_key(id) ==> id < self.next_kitty_id
    }

    /// The identifiers issued so far are exactly those below the allocator
    /// counter: no gaps, no repeats.
    pub open spec fn ids_dense(self) -> bool {
        forall|id: KittyId| #[trigger] self.kitties_map().contains_key(id) <==> id < self.next_id()
    }

    /// An empty ledger with the default breeding policy: callers need not
    /// own the parents they breed from.
    pub fn new() -> (l: Ledger)
        ensures
            l.wf(),
            l.ids_dense(),
            l.next_id() == 0,
            l.kitties_map() == Map::<KittyId, KittyView>::empty(),
            l.owners_map() == Map::<KittyId, AccountId>::empty(),
            l.parents_map() == Map::<KittyId, (KittyId, KittyId)>::empty(),
            l.listed() == Set::<KittyId>::empty(),
            l.events_seq() == Seq::<EventView>::empty(),
            !l.breeding_needs_ownership(),
    {
        Self::with_breeding_policy(false)
    }

    /// An empty ledger with an explicit breeding-ownership policy.
    pub fn with_breeding_policy(require_parent_ownership: bool) -> (l: Ledger)
        ensures
            l.wf(),
            l.ids_dense(),
            l.next_id() == 0,
            l.kitties_map() == Map::<KittyId, KittyView>::empty(),
            l.owners_map() == Map::<KittyId, AccountId>::empty(),
            l.parents_map() == Map::<KittyId, (KittyId, KittyId)>::empty(),
            l.listed() == Set::<KittyId>::empty(),
            l.events_seq() == Seq::<EventView>::empty(),
            l.breeding_needs_ownership() == require_parent_ownership,
    {
        let l = Ledger {
            next_kitty_id: 0,
            kitties: Store::new(),
            owners: Store::new(),
            parents: Store::new(),
            on_sale: Store::new(),
            events: Vec::new(),
            breed_requires_parent_ownership: require_parent_ownership,
        };
        proof {
            assert(l.kitties_map() =~= Map::<KittyId, KittyView>::empty());
            assert(l.listed() =~= Set::<KittyId>::empty());
            assert(l.events_seq() =~= Seq::<EventView>::empty());
        }
        l
    }

    /// The identifier allocator: issue the current counter value and
    /// advance the counter, so that no identifier is ever reused.  Rejected
    /// exactly when the counter already holds its maximum value, and the
    /// counter is then left unchanged.
    fn allocate(&mut self) -> (r: Result<KittyId, Error>)
        requires
            old(self).wf(),
        ensures
            final(self).wf(),
            r.is_ok() <==> old(self).next_id() < u32::MAX,
            r.is_err() ==> r == Err::<KittyId, Error>(Error::InvalidKittyId) && *final(self)
                == *old(self),
            r.is_ok() ==> {
                &&& r == Ok::<KittyId, Error>(old(self).next_id())
                &&& final(self).next_id() == old(self).next_id() + 1
                &&& final(self).kitties_map() == old(self).kitties_map()
                &&& final(self).owners_map() == old(self).owners_map()
                &&& final(self).parents_map() == old(self).parents_map()
                &&& final(self).listed() == old(self).listed()
                &&& final(self).events_seq() == old(self).events_seq()
                &&& final(self).breeding_needs_ownership() == old(self).breeding_needs_ownership()
            },
    {
        if self.next_kitty_id == u32::MAX {
            return Err(Error::InvalidKittyId);
        }
        let id = self.next_kitty_id;
        self.next_kitty_id = id + 1;
        proof {
            assert(self.kitties_map() =~= old(self).kitties_map());
            assert(self.events_seq() =~= old(self).events_seq());
        }
        Ok(id)
    }

    /// Create a record owned by `who`.  The genome is the sixteen bytes
    /// handed in by the randomness provider; the record gets the next
    /// identifier and no parentage.  Rejected only when the allocator is
    /// exhausted.
    pub fn create(&mut self, who: AccountId, name: Vec<u8>, dna: Vec<u8>) -> (r: Result<
        KittyId,
        Error,
    >)
        requires
            old(self).wf(),
            dna@.len() == DNA_LEN,
            name@.len() == NAME_LEN,
        ensures
            final(self).wf(),
            r.is_ok() <==> old(self).next_id() < u32::MAX,
            r.is_err() ==> r == Err::<KittyId, Error>(Error::InvalidKittyId) && *final(self)
                == *old(self),
            r.is_ok() ==> {
                &&& r == Ok::<KittyId, Error>(old(self).next_id())
                &&& final(self).next_id() == old(self).next_id() + 1
                &&& final(self).kitties_map() == old(self).kitties_map().insert(
                    old(self).next_id(),
                    (KittyView { dna: dna@, name: name@ }),
                )
                &&& final(self).owners_map() == old(self).owners_map().insert(
                    old(self).next_id(),
                    who,
                )
                &&& final(self).parents_map() == old(self).parents_map()
                &&& final(self).listed() == old(self).listed()
                &&& final(self).events_seq() == old(self).events_seq().push(
                    (EventView::KittyCreated {
                        who,
                        kitty_id: old(self).next_id(),
                        kitty: KittyView { dna: dna@, name: name@ },
                    }),
                )
                &&& final(self).breeding_needs_ownership() == old(self).breeding_needs_ownership()
            },
    {
        let id = match self.allocate() {
            Ok(id) => id,
            Err(e) => {
                return Err(e);
            },
        };
        let kitty = Kitty { dna, name };
        let ev_kitty = kitty.clone();
        self.kitties.insert(id, kitty);
        self.owners.insert(id, who);
        self.events.push(Event::KittyCreated { who, kitty_id: id, kitty: ev_kitty });
        proof {
            assert(self.kitties_map() =~= old(self).kitties_map().insert(
                id,
                (KittyView { dna: dna@, name: name@ }),
            ));
            assert(self.events_seq() =~= old(self).events_seq().push(
                (EventView::KittyCreated {
                    who,
                    kitty_id: id,
                    kitty: KittyView { dna: dna@, name: name@ },
                }),
            ));
        }
        Ok(id)
    }

    /// Breed a child from two distinct existing parents.  The child's
    /// genome combines the parent genomes bit by bit under the selector
    /// handed in by the randomness provider; the child gets the next
    /// identifier, `who` as owner, and the pair of parents recorded as
    /// its parentage.  When the ownership policy is on, the caller must
    /// own both parents.
    pub fn breed(
        &mut self,
        who: AccountId,
        kitty_id_1: KittyId,
        kitty_id_2: KittyId,
        name: Vec<u8>,
        selector: Vec<u8>,
    ) -> (r: Result<KittyId, Error>)
        requires
            old(self).wf(),
            selector@.len() == DNA_LEN,
            name@.len() == NAME_LEN,
        ensures
            final(self).wf(),
            r.is_err() ==> *final(self) == *old(self),
            (!old(self).kitties_map().contains_key(kitty_id_1) || !old(
                self,
            ).kitties_map().contains_key(kitty_id_2)) ==> r == Err::<KittyId, Error>(
                Error::InvalidKittyId,
            ),
            (old(self).kitties_map().contains_key(kitty_id_1) && old(
                self,
            ).kitties_map().contains_key(kitty_id_2) && kitty_id_1 == kitty_id_2) ==> r == Err::<
                KittyId,
                Error,
            >(Error::SameKittyId),
            (old(self).kitties_map().contains_key(kitty_id_1) && old(
                self,
            ).kitties_map().contains_key(kitty_id_2) && kitty_id_1 != kitty_id_2 && !old(
                self,
            ).breeding_allows(who, kitty_id_1, kitty_id_2)) ==> r == Err::<KittyId, Error>(
                Error::NotOwner,
            ),
            (old(self).kitties_map().contains_key(kitty_id_1) && old(
                self,
            ).kitties_map().contains_key(kitty_id_2) && kitty_id_1 != kitty_id_2 && old(
                self,
            ).breeding_allows(who, kitty_id_1, kitty_id_2) && old(self).next_id() == u32::MAX)
                ==> r == Err::<KittyId, Error>(Error::InvalidKittyId),
            r.is_ok() <==> (old(self).kitties_map().contains_key(kitty_id_1) && old(
                self,
            ).kitties_map().contains_key(kitty_id_2) && kitty_id_1 != kitty_id_2 && old(
                self,
            ).breeding_allows(who, kitty_id_1, kitty_id_2) && old(self).next_id() < u32::MAX),
            r.is_ok() ==> {
                let child = (KittyView {
                    dna: combined_dna(
                        old(self).kitties_map()[kitty_id_1].dna,
                        old(self).kitties_map()[kitty_id_2].dna,
                        selector@,
                    ),
                    name: name@,
                });
                &&& r == Ok::<KittyId, Error>(old(self).next_id())
                &&& final(self).next_id() == old(self).next_id() + 1
                &&& final(self).kitties_map() == old(self).kitties_map().insert(
                    old(self).next_id(),
                    child,
                )
                &&& final(self).owners_map() == old(self).owners_map().insert(
                    old(self).next_id(),
                    who,
                )
                &&& final(self).parents_map() == old(self).parents_map().insert(
                    old(self).next_id(),
                    (kitty_id_1, kitty_id_2),
                )
                &&& final(self).listed() == old(self).listed()
                &&& final(self).events_seq() == old(self).events_seq().push(
                    (EventView::KittyBreed {
                        who,
                        kitty_id: old(self).next_id(),
                        kitty: child,
                    }),
                )
                &&& final(self).breeding_needs_ownership() == old(self).breeding_needs_ownership()
            },
    {
        let dna1 = match self.kitties.get(kitty_id_1) {
            Some(k) => copy_bytes(&k.dna),
            None => {
                return Err(Error::InvalidKittyId);
            },
        };
        let dna2 = match self.kitties.get(kitty_id_2) {
            Some(k) => copy_bytes(&k.dna),
            None => {
                return Err(Error::InvalidKittyId);
            },
        };
        if kitty_id_1 == kitty_id_2 {
            return Err(Error::SameKittyId);
        }
        if self.breed_requires_parent_ownership {
            let owns_both = self.owned_by(who, kitty_id_1) && self.owned_by(who, kitty_id_2);
            if !owns_both {
                return Err(Error::NotOwner);
            }
        }
        let id = match self.allocate() {
            Ok(id) => id,
            Err(e) => {
                return Err(e);
            },
        };
        let child_dna = combine_dna(&dna1, &dna2, &selector);
        let kitty = Kitty { dna: child_dna, name };
        let ev_kitty = kitty.clone();
        self.kitties.insert(id, kitty);
        self.owners.insert(id, who);
        self.parents.insert(id, (kitty_id_1, kitty_id_2));
        self.events.push(Event::KittyBreed { who, kitty_id: id, kitty: ev_kitty });
        proof {
            let child = (KittyView {
                dna: combined_dna(
                    old(self).kitties_map()[kitty_id_1].dna,
                    old(self).kitties_map()[kitty_id_2].dna,
                    selector@,
                ),
                name: name@,
            });
            assert(self.kitties_map() =~= old(self).kitties_map().insert(id, child));
            assert(self.events_seq() =~= old(self).events_seq().push(
                (EventView::KittyBreed { who, kitty_id: id, kitty: child }),
            ));
        }
        Ok(id)
    }

    /// Whether the breeding-ownership policy lets `who` breed from the two
    /// parents: it always does while the policy is off, and demands that
    /// `who` own both parents while it is on.
    pub open spec fn breeding_allows(
        self,
        who: AccountId,
        kitty_id_1: KittyId,
        kitty_id_2: KittyId,
    ) -> bool {
        self.breeding_needs_ownership() ==> {
            &&& self.owners_map().contains_key(kitty_id_1)
            &&& self.owners_map()[kitty_id_1] == who
            &&& self.owners_map().contains_key(kitty_id_2)
            &&& self.owners_map()[kitty_id_2] == who
        }
    }

    /// Whether `who` currently owns the record under `kitty_id`.
    fn owned_by(&self, who: AccountId, kitty_id: KittyId) -> (r: bool)
        requires
            self.wf(),
        ensures
            r == (self.owners_map().contains_key(kitty_id) && self.owners_map()[kitty_id] == who),
    {
        match self.owners.get(kitty_id) {
            Some(o) => *o == who,
            None => false,
        }
    }

    /// Transfer ownership of `kitty_id` from `who` to `to`.  Any
    /// active listing for the record is cleared, a deliberate design
    /// choice preserving the invariant that a listing never outlives the
    /// lister's ownership.
    pub fn transfer(&mut self, who: AccountId, to: AccountId, kitty_id: KittyId) -> (r: Result<
        (),
        Error,
    >)
        requires
            old(self).wf(),
        ensures
            final(self).wf(),
            r.is_err() ==> *final(self) == *old(self),
            !old(self).owners_map().contains_key(kitty_id) ==> r == Err::<(), Error>(
                Error::InvalidKittyId,
            ),
            (old(self).owners_map().contains_key(kitty_id) && old(self).owners_map()[kitty_id]
                != who) ==> r == Err::<(), Error>(Error::NotOwner),
            r.is_ok() <==> (old(self).owners_map().contains_key(kitty_id) && old(
                self,
            ).owners_map()[kitty_id] == who),
            r.is_ok() ==> {
                &&& r == Ok::<(), Error>(())
                &&& final(self).owners_map() == old(self).owners_map().insert(kitty_id, to)
                &&& final(self).listed() == old(self).listed().remove(kitty_id)
                &&& final(self).kitties_map() == old(self).kitties_map()
                &&& final(self).parents_map() == old(self).parents_map()
                &&& final(self).next_id() == old(self).next_id()
                &&& final(self).events_seq() == old(self).events_seq().push(
                    (EventView::KittyTransferred { who, to, kitty_id }),
                )
                &&& final(self).breeding_needs_ownership() == old(self).breeding_needs_ownership()
            },
    {
        let owner = match self.owners.get(kitty_id) {
            Some(o) => *o,
            None => {
                return Err(Error::InvalidKittyId);
            },
        };
        if owner != who {
            return Err(Error::NotOwner);
        }
        self.owners.insert(kitty_id, to);
        self.on_sale.remove(kitty_id);
        self.events.push(Event::KittyTransferred { who, to, kitty_id });
        proof {
            assert(self.kitties_map() =~= old(self).kitties_map());
            assert(self.listed() =~= old(self).listed().remove(kitty_id));
            assert(self.events_seq() =~= old(self).events_seq().push(
                (EventView::KittyTransferred { who, to, kitty_id }),
            ));
        }
        Ok(())
    }

    /// Offer the record under `kitty_id` for sale.  Only the owner may
    /// list it, and only once.
    pub fn sale(&mut self, who: AccountId, kitty_id: KittyId) -> (r: Result<(), Error>)
        requires
            old(self).wf(),
        ensures
            final(self).wf(),
            r.is_err() ==> *final(self) == *old(self),
            !old(self).owners_map().contains_key(kitty_id) ==> r == Err::<(), Error>(
                Error::InvalidKittyId,
            ),
            (old(self).owners_map().contains_key(kitty_id) && old(self).owners_map()[kitty_id]
                != who) ==> r == Err::<(), Error>(Error::NotOwner),
            (old(self).owners_map().contains_key(kitty_id) && old(self).owners_map()[kitty_id]
                == who && old(self).listed().contains(kitty_id)) ==> r == Err::<(), Error>(
                Error::AlreadyOnSale,
            ),
            r.is_ok() <==> (old(self).owners_map().contains_key(kitty_id) && old(
                self,
            ).owners_map()[kitty_id] == who && !old(self).listed().contains(kitty_id)),
            r.is_ok() ==> {
                &&& r == Ok::<(), Error>(())
                &&& final(self).listed() == old(self).listed().insert(kitty_id)
                &&& final(self).owners_map() == old(self).owners_map()
                &&& final(self).kitties_map() == old(self).kitties_map()
                &&& final(self).parents_map() == old(self).parents_map()
                &&& final(self).next_id() == old(self).next_id()
                &&& final(self).events_seq() == old(self).events_seq().push(
                    (EventView::KittyOnSale { who, kitty_id }),
                )
                &&& final(self).breeding_needs_ownership() == old(self).breeding_needs_ownership()
            },
    {
        let owner = match self.owners.get(kitty_id) {
            Some(o) => *o,
            None => {
                return Err(Error::InvalidKittyId);
            },
        };
        if owner != who {
            return Err(Error::NotOwner);
        }
        if self.on_sale.contains_key(kitty_id) {
            return Err(Error::AlreadyOnSale);
        }
        self.on_sale.insert(kitty_id, ());
        self.events.push(Event::KittyOnSale { who, kitty_id });
        proof {
            assert(self.kitties_map() =~= old(self).kitties_map());
            assert(self.listed() =~= old(self).listed().insert(kitty_id));
            assert(self.events_seq() =~= old(self).events_seq().push(
                (EventView::KittyOnSale { who, kitty_id }),
            ));
        }
        Ok(())
    }

    /// Buy the record under `kitty_id`: the listing is cleared and
    /// ownership moves to the caller.  The caller must not already own
    /// the record, and a listing must exist.
    pub fn buy(&mut self, who: AccountId, kitty_id: KittyId) -> (r: Result<(), Error>)
        requires
            old(self).wf(),
        ensures
            final(self).wf(),
            r.is_err() ==> *final(self) == *old(self),
            !old(self).owners_map().contains_key(kitty_id) ==> r == Err::<(), Error>(
                Error::InvalidKittyId,
            ),
            (old(self).owners_map().contains_key(kitty_id) && old(self).owners_map()[kitty_id]
                == who) ==> r == Err::<(), Error>(Error::AlreadyOwner),
            (old(self).owners_map().contains_key(kitty_id) && old(self).owners_map()[kitty_id]
                != who && !old(self).listed().contains(kitty_id)) ==> r == Err::<(), Error>(
                Error::NoOnSale,
            ),
            r.is_ok() <==> (old(self).owners_map().contains_key(kitty_id) && old(
                self,
            ).owners_map()[kitty_id] != who && old(self).listed().contains(kitty_id)),
            r.is_ok() ==> {
                &&& r == Ok::<(), Error>(())
                &&& final(self).owners_map() == old(self).owners_map().insert(kitty_id, who)
                &&& final(self).listed() == old(self).listed().remove(kitty_id)
                &&& final(self).kitties_map() == old(self).kitties_map()
                &&& final(self).parents_map() == old(self).parents_map()
                &&& final(self).next_id() == old(self).next_id()
                &&& final(self).events_seq() == old(self).events_seq().push(
                    (EventView::KittyBought { who, kitty_id }),
                )
                &&& final(self).breeding_needs_ownership() == old(self).breeding_needs_ownership()
            },
    {
        let owner = match self.owners.get(kitty_id) {
            Some(o) => *o,
            None => {
                return Err(Error::InvalidKittyId);
            },
        };
        if owner == who {
            return Err(Error::AlreadyOwner);
        }
        if !self.on_sale.contains_key(kitty_id) {
            return Err(Error::NoOnSale);
        }
        self.on_sale.remove(kitty_id);
        self.owners.insert(kitty_id, who);
        self.events.push(Event::KittyBought { who, kitty_id });
        proof {
            assert(self.kitties_map() =~= old(self).kitties_map());
            assert(self.listed() =~= old(self).listed().remove(kitty_id));
            assert(self.events_seq() =~= old(self).events_seq().push(
                (EventView::KittyBought { who, kitty_id }),
            ));
        }
        Ok(())
    }

    /// The next identifier the allocator will issue.
    pub fn next_kitty_id(&self) -> (r: KittyId)
        ensures
            r == self.next_id(),
    {
        self.next_kitty_id
    }

    /// The record stored under `kitty_id`, if any.
    pub fn kitties(&self, kitty_id: KittyId) -> (r: Option<Kitty>)
        requires
            self.wf(),
        ensures
            match r {
                Some(k) => self.kitties_map().contains_key(kitty_id) && k@
                    == self.kitties_map()[kitty_id],
                None => !self.kitties_map().contains_key(kitty_id),
            },
    {
        match self.kitties.get(kitty_id) {
            Some(k) => Some(k.clone()),
            None => None,
        }
    }

    /// The account owning the record under `kitty_id`, if the record
    /// exists.
    pub fn kitty_owner(&self, kitty_id: KittyId) -> (r: Option<AccountId>)
        requires
            self.wf(),
        ensures
            r == (if self.owners_map().contains_key(kitty_id) {
                Some(self.owners_map()[kitty_id])
            } else {
                None::<AccountId>
            }),
    {
        match self.owners.get(kitty_id) {
            Some(o) => Some(*o),
            None => None,
        }
    }

    /// The parents recorded for the record under `kitty_id`; present
    /// exactly when it was produced by breeding.
    pub fn kitty_parents(&self, kitty_id: KittyId) -> (r: Option<(KittyId, KittyId)>)
        requires
            self.wf(),
        ensures
            r == (if self.parents_map().contains_key(kitty_id) {
                Some(self.parents_map()[kitty_id])
            } else {
                None::<(KittyId, KittyId)>
            }),
    {
        match self.parents.get(kitty_id) {
            Some(p) => Some(*p),
            None => None,
        }
    }

    /// The listing marker for the record under `kitty_id`, if it is
    /// currently offered for sale.
    pub fn kitty_on_sale(&self, kitty_id: KittyId) -> (r: Option<()>)
        requires
            self.wf(),
        ensures
            r == (if self.listed().contains(kitty_id) {
                Some(())
            } else {
                None::<()>
            }),
    {
        match self.on_sale.get(kitty_id) {
            Some(_) => Some(()),
            None => None,
        }
    }

    /// Seed the allocator counter, as the hosting environment may when it
    /// installs state; the counter can only move forward, past every
    /// issued identifier.
    pub fn set_next_kitty_id(&mut self, value: KittyId)
        requires
            old(self).wf(),
            value >= old(self).next_id(),
        ensures
            final(self).wf(),
            final(self).next_id() == value,
            final(self).kitties_map() == old(self).kitties_map(),
            final(self).owners_map() == old(self).owners_map(),
            final(self).parents_map() == old(self).parents_map(),
            final(self).listed() == old(self).listed(),
            final(self).events_seq() == old(self).events_seq(),
            final(self).breeding_needs_ownership() == old(self).breeding_needs_ownership(),
    {
        self.next_kitty_id = value;
        proof {
            assert(self.kitties_map() =~= old(self).kitties_map());
            assert(self.events_seq() =~= old(self).events_seq());
        }
    }

    /// How many notifications have been emitted.
    pub fn events_count(&self) -> (r: usize)
        ensures
            r == self.events_seq().len(),
    {
        self.events.len()
    }

    /// The `i`-th notification emitted, oldest first.
    pub fn event_at(&self, i: usize) -> (r: Event)
        requires
            i < self.events_seq().len(),
        ensures
            r@ == self.events_seq()[i as int],
    {
        self.events[i].clone()
    }

    /// The most recent notification, if any operation has succeeded yet.
    pub fn last_event(&self) -> (r: Option<Event>)
        ensures
            match r {
                Some(e) => self.events_seq().len() > 0 && e@ == self.events_seq().last(),
                None => self.events_seq().len() == 0,
            },
    {
        if self.events.len() == 0 {
            None
        } else {
            Some(self.events[self.events.len() - 1].clone())
        }
    }

    /// Whether breeding currently demands that the caller own both
    /// parents.
    pub fn breeding_policy(&self) -> (r: bool)
        ensures
            r == self.breeding_needs_ownership(),
    {
        self.breed_requires_parent_ownership
    }
}

/// Law: issued identifiers stay gap-free.  If the identifiers issued so
/// far are exactly those below the allocator counter, then after one
/// successful create or breed — which stores the new record under the
/// counter's value and advances the counter by one — they are exactly
/// those below the new counter.  Together with `Ledger::new`, which
/// starts dense, this shows that any sequence of successful create and
/// breed calls issues exactly the identifiers `0, 1, …, n-1`.
pub proof fn lemma_issue_preserves_density(pre: Ledger, post: Ledger, child: KittyView)
    requires
        pre.ids_dense(),
        pre.next_id() < u32::MAX,
        post.next_id() == pre.next_id() + 1,
        post.kitties_map() == pre.kitties_map().insert(pre.next_id(), child),
    ensures
        post.ids_dense(),
{
    assert forall|id: KittyId| #[trigger] post.kitties_map().contains_key(id) <==> id
        < post.next_id() by {
        assert(post.kitties_map().contains_key(id) == (id == pre.next_id()
            || pre.kitties_map().contains_key(id)));
    }
}

/// Law: operations that issue nothing keep identifiers gap-free.
/// Transfer, listing and purchase leave the record store and the
/// allocator counter unchanged, so density carries over.
pub proof fn lemma_stable_ops_preserve_density(pre: Ledger, post: Ledger)
    requires
        pre.ids_dense(),
        post.next_id() == pre.next_id(),
        post.kitties_map() == pre.kitties_map(),
    ensures
        post.ids_dense(),
{
}

/// Law: a dense ledger's issued identifiers are exactly the set
/// `{0, 1, …, next_id - 1}`.
pub proof fn lemma_dense_ids_are_initial_segment(l: Ledger)
    requires
        l.ids_dense(),
    ensures
        l.kitties_map().dom() =~= Set::new(|id: KittyId| id < l.next_id()),
{
    assert forall|id: KittyId| #[trigger] l.kitties_map().dom().contains(id) <==> id
        < l.next_id() by {
        assert(l.kitties_map().contains_key(id) == l.kitties_map().dom().contains(id));
    }
}

} // verus!
