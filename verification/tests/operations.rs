use kitties::ledger::{Error, Event, Ledger};

fn dna(b: u8) -> Vec<u8> {
    vec![b; 16]
}

fn has_event(ledger: &Ledger, expected: &Event) -> bool {
    let n = ledger.events_count();
    let mut i = 0;
    while i < n {
        if ledger.event_at(i) == *expected {
            return true;
        }
        i += 1;
    }
    false
}

#[test]
fn create_kitty_works() {
    let mut ledger = Ledger::new();
    let kitty_id = 0;
    let account_id = 1;
    let name: Vec<u8> = b"testcat1".to_vec();

    assert_eq!(ledger.next_kitty_id(), kitty_id);
    assert!(ledger.create(account_id, name.clone(), dna(0x11)).is_ok());

    assert_eq!(ledger.next_kitty_id(), kitty_id + 1);
    assert_eq!(ledger.kitties(kitty_id).is_some(), true);
    assert_eq!(ledger.kitty_owner(kitty_id), Some(account_id));
    assert_eq!(ledger.kitty_parents(kitty_id), None);

    let expected = Event::KittyCreated {
        who: account_id,
        kitty_id,
        kitty: ledger.kitties(kitty_id).unwrap(),
    };
    assert!(has_event(&ledger, &expected));
    assert_eq!(ledger.last_event(), Some(expected));

    ledger.set_next_kitty_id(u32::MAX);
    assert_eq!(
        ledger.create(account_id, name.clone(), dna(0x22)),
        Err(Error::InvalidKittyId)
    );
}

#[test]
fn breed_kitty_works() {
    let mut ledger = Ledger::new();
    let kitty_id = 0;
    let account_id = 1;
    let name1: Vec<u8> = b"testcat1".to_vec();
    let name2: Vec<u8> = b"testcat1".to_vec();
    let name3: Vec<u8> = b"testcat1".to_vec();

    assert_eq!(
        ledger.breed(account_id, kitty_id, kitty_id, name1.clone(), dna(0xaa)),
        Err(Error::InvalidKittyId)
    );

    assert!(ledger.create(account_id, name1, dna(0x11)).is_ok());
    assert!(ledger.create(account_id, name2, dna(0x22)).is_ok());

    assert_eq!(
        ledger.breed(account_id, kitty_id, kitty_id, name3.clone(), dna(0xaa)),
        Err(Error::SameKittyId)
    );

    assert_eq!(ledger.next_kitty_id(), kitty_id + 2);

    assert!(ledger
        .breed(account_id, kitty_id, kitty_id + 1, name3, dna(0xaa))
        .is_ok());

    let breed_kitty_id = 2;
    assert_eq!(ledger.next_kitty_id(), breed_kitty_id + 1);
    assert_eq!(ledger.kitties(breed_kitty_id).is_some(), true);
    assert_eq!(ledger.kitty_owner(breed_kitty_id), Some(account_id));
    assert_eq!(
        ledger.kitty_parents(breed_kitty_id),
        Some((kitty_id, kitty_id + 1))
    );

    let expected = Event::KittyBreed {
        who: account_id,
        kitty_id: breed_kitty_id,
        kitty: ledger.kitties(breed_kitty_id).unwrap(),
    };
    assert_eq!(ledger.last_event(), Some(expected));
}

#[test]
fn transfer_kitty_works() {
    let mut ledger = Ledger::new();
    let kitty_id = 0;
    let account_id = 1;
    let to = 2;
    let name: Vec<u8> = b"testcat1".to_vec();

    assert!(ledger.create(account_id, name, dna(0x11)).is_ok());
    assert_eq!(ledger.kitty_owner(kitty_id), Some(account_id));

    assert_eq!(
        ledger.transfer(to, account_id, kitty_id),
        Err(Error::NotOwner)
    );

    assert!(ledger.transfer(account_id, to, kitty_id).is_ok());

    assert_eq!(ledger.kitty_owner(kitty_id), Some(to));

    assert_eq!(
        ledger.last_event(),
        Some(Event::KittyTransferred { who: account_id, to, kitty_id })
    );

    assert!(ledger.transfer(to, account_id, kitty_id).is_ok());

    assert_eq!(ledger.kitty_owner(kitty_id), Some(account_id));

    assert_eq!(
        ledger.last_event(),
        Some(Event::KittyTransferred { who: to, to: account_id, kitty_id })
    );
}

#[test]
fn sale_kitty_works() {
    let mut ledger = Ledger::new();
    let kitty_id = 0;
    let account_id = 1;
    let to = 2;
    let name: Vec<u8> = b"testcat1".to_vec();

    assert!(ledger.create(account_id, name, dna(0x11)).is_ok());
    assert_eq!(ledger.kitty_owner(kitty_id), Some(account_id));

    assert_eq!(ledger.sale(to, kitty_id), Err(Error::NotOwner));

    assert!(ledger.sale(account_id, kitty_id).is_ok());

    assert_eq!(
        ledger.last_event(),
        Some(Event::KittyOnSale { who: account_id, kitty_id })
    );

    assert_eq!(ledger.kitty_on_sale(kitty_id).is_some(), true);

    assert_eq!(ledger.sale(account_id, kitty_id), Err(Error::AlreadyOnSale));
}

#[test]
fn buy_kitty_works() {
    let mut ledger = Ledger::new();
    let kitty_id = 0;
    let account_id = 1;
    let to = 2;
    let name: Vec<u8> = b"testcat1".to_vec();

    assert!(ledger.create(account_id, name, dna(0x11)).is_ok());
    assert_eq!(ledger.kitty_owner(kitty_id), Some(account_id));

    assert_eq!(ledger.buy(account_id, kitty_id), Err(Error::AlreadyOwner));

    assert_eq!(ledger.buy(to, kitty_id), Err(Error::NoOnSale));

    assert!(ledger.sale(account_id, kitty_id).is_ok());

    assert!(ledger.buy(to, kitty_id).is_ok());

    assert_eq!(
        ledger.last_event(),
        Some(Event::KittyBought { who: to, kitty_id })
    );

    assert_eq!(ledger.kitty_owner(kitty_id), Some(to));
}

#[test]
fn two_creates_issue_consecutive_identifiers() {
    let mut ledger = Ledger::new();
    assert_eq!(ledger.create(1, b"testcat1".to_vec(), dna(0x11)), Ok(0));
    assert_eq!(ledger.create(1, b"testcat1".to_vec(), dna(0x22)), Ok(1));
    assert_eq!(ledger.kitty_owner(0), Some(1));
    assert_eq!(ledger.kitty_owner(1), Some(1));
    assert_eq!(ledger.kitty_parents(0), None);
    assert_eq!(ledger.kitty_parents(1), None);
}

#[test]
fn create_stores_provided_genome() {
    let mut ledger = Ledger::new();
    let genome: Vec<u8> = (0u8..16u8).collect();
    assert_eq!(ledger.create(7, b"testcat1".to_vec(), genome.clone()), Ok(0));
    let kitty = ledger.kitties(0).unwrap();
    assert_eq!(kitty.dna, genome);
    assert_eq!(kitty.name, b"testcat1".to_vec());
}

#[test]
fn breeding_takes_each_bit_from_a_parent() {
    let mut ledger = Ledger::new();
    // Parent 0 carries all-ones, parent 1 all-zeroes, so the child genome
    // must equal the selector bits exactly.
    assert_eq!(ledger.create(1, b"testcat1".to_vec(), dna(0xff)), Ok(0));
    assert_eq!(ledger.create(1, b"testcat1".to_vec(), dna(0x00)), Ok(1));
    let selector: Vec<u8> = (100u8..116u8).collect();
    assert_eq!(ledger.breed(1, 0, 1, b"testcat1".to_vec(), selector.clone()), Ok(2));
    assert_eq!(ledger.kitties(2).unwrap().dna, selector);

    // With arbitrary parents, every child byte agrees with a parent on
    // each bit position picked by the selector.
    let mut other = Ledger::new();
    assert_eq!(other.create(1, b"testcat1".to_vec(), dna(0x5a)), Ok(0));
    assert_eq!(other.create(1, b"testcat1".to_vec(), dna(0xc3)), Ok(1));
    assert_eq!(other.breed(1, 0, 1, b"testcat1".to_vec(), dna(0x0f)), Ok(2));
    let child = other.kitties(2).unwrap().dna;
    for i in 0..16 {
        assert_eq!(child[i], (0x5au8 & 0x0f) | (0xc3u8 & 0xf0));
    }
}

#[test]
fn issued_identifiers_have_no_gaps() {
    let mut ledger = Ledger::new();
    assert_eq!(ledger.create(1, b"testcat1".to_vec(), dna(0x01)), Ok(0));
    assert_eq!(ledger.create(2, b"testcat1".to_vec(), dna(0x02)), Ok(1));
    assert_eq!(ledger.breed(3, 0, 1, b"testcat1".to_vec(), dna(0x03)), Ok(2));
    assert_eq!(ledger.create(1, b"testcat1".to_vec(), dna(0x04)), Ok(3));
    for id in 0..4 {
        assert!(ledger.kitties(id).is_some());
    }
    assert!(ledger.kitties(4).is_none());
    assert_eq!(ledger.next_kitty_id(), 4);
}

#[test]
fn allocator_rejects_only_at_its_maximum() {
    let mut ledger = Ledger::new();
    ledger.set_next_kitty_id(u32::MAX - 1);
    assert_eq!(
        ledger.create(1, b"testcat1".to_vec(), dna(0x11)),
        Ok(u32::MAX - 1)
    );
    assert_eq!(ledger.next_kitty_id(), u32::MAX);
    assert_eq!(
        ledger.create(1, b"testcat1".to_vec(), dna(0x22)),
        Err(Error::InvalidKittyId)
    );
    // The counter is left unchanged by the rejection.
    assert_eq!(ledger.next_kitty_id(), u32::MAX);
}

#[test]
fn operations_reject_unknown_identifiers() {
    let mut ledger = Ledger::new();
    assert_eq!(ledger.transfer(1, 2, 9), Err(Error::InvalidKittyId));
    assert_eq!(ledger.sale(1, 9), Err(Error::InvalidKittyId));
    assert_eq!(ledger.buy(1, 9), Err(Error::InvalidKittyId));
    assert_eq!(ledger.breed(1, 0, 9, b"testcat1".to_vec(), dna(0x01)), Err(Error::InvalidKittyId));
    // No notification is emitted by a rejected operation.
    assert_eq!(ledger.last_event(), None);
}

#[test]
fn transfer_clears_active_listing() {
    let mut ledger = Ledger::new();
    assert_eq!(ledger.create(1, b"testcat1".to_vec(), dna(0x11)), Ok(0));
    assert!(ledger.sale(1, 0).is_ok());
    assert!(ledger.kitty_on_sale(0).is_some());
    assert!(ledger.transfer(1, 2, 0).is_ok());
    assert!(ledger.kitty_on_sale(0).is_none());
    // The buyer path clears the listing as well.
    assert!(ledger.sale(2, 0).is_ok());
    assert!(ledger.buy(3, 0).is_ok());
    assert!(ledger.kitty_on_sale(0).is_none());
    assert_eq!(ledger.kitty_owner(0), Some(3));
}

#[test]
fn breeding_ownership_policy_is_enforced_when_enabled() {
    let mut ledger = Ledger::with_breeding_policy(true);
    assert!(ledger.breeding_policy());
    assert_eq!(ledger.create(1, b"testcat1".to_vec(), dna(0x11)), Ok(0));
    assert_eq!(ledger.create(2, b"testcat1".to_vec(), dna(0x22)), Ok(1));
    assert_eq!(
        ledger.breed(1, 0, 1, b"testcat1".to_vec(), dna(0x0f)),
        Err(Error::NotOwner)
    );
    assert!(ledger.transfer(2, 1, 1).is_ok());
    assert_eq!(ledger.breed(1, 0, 1, b"testcat1".to_vec(), dna(0x0f)), Ok(2));

    // The default policy lets any caller breed from any parents.
    let mut open_ledger = Ledger::new();
    assert!(!open_ledger.breeding_policy());
    assert_eq!(open_ledger.create(1, b"testcat1".to_vec(), dna(0x11)), Ok(0));
    assert_eq!(open_ledger.create(2, b"testcat1".to_vec(), dna(0x22)), Ok(1));
    assert_eq!(open_ledger.breed(5, 0, 1, b"testcat1".to_vec(), dna(0x0f)), Ok(2));
}
