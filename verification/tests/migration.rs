use kitties::migration::{decode_kitty, decode_old_kitty, encode_kitty, migrate, migrate_record};
use kitties::store::Store;

fn old_value(seed: u8) -> Vec<u8> {
    // Sixteen genome bytes followed by four label bytes, the old layout.
    let mut v: Vec<u8> = (0..16).map(|i| seed.wrapping_add(i)).collect();
    v.extend_from_slice(b"old0");
    v
}

#[test]
fn migrate_is_a_noop_outside_the_version_window() {
    let mut store: Store<Vec<u8>> = Store::new();
    store.insert(0, old_value(0x10));
    store.insert(1, old_value(0x20));

    for (on_chain, current) in [(0u16, 2u16), (2, 2), (1, 1), (1, 3), (3, 7)] {
        // However often it is invoked, nothing changes and no cost accrues.
        for _ in 0..3 {
            assert_eq!(migrate(&mut store, on_chain, current), 0);
            assert_eq!(store.get(0), Some(&old_value(0x10)));
            assert_eq!(store.get(1), Some(&old_value(0x20)));
        }
    }
}

#[test]
fn migrate_rewrites_every_record_in_place() {
    let mut store: Store<Vec<u8>> = Store::new();
    store.insert(0, old_value(0x10));
    store.insert(1, old_value(0x20));
    store.insert(7, old_value(0x30));

    assert_eq!(migrate(&mut store, 1, 2), 0);

    for (id, seed) in [(0u32, 0x10u8), (1, 0x20), (7, 0x30)] {
        let value = store.get(id).expect("record must survive migration");
        assert_eq!(value.len(), 24);
        // The genome is preserved verbatim.
        let expected_genome: Vec<u8> = (0..16).map(|i| seed.wrapping_add(i)).collect();
        assert_eq!(&value[..16], &expected_genome[..]);
        // The label is the fixed placeholder, the old content discarded.
        assert_eq!(&value[16..], b"kitty_v1");
    }
    assert!(store.get(2).is_none());
}

#[test]
fn migrate_record_preserves_genome_and_replaces_label() {
    let encoded = old_value(0x40);
    let decoded = decode_old_kitty(&encoded).expect("twenty bytes decode");
    assert_eq!(decoded.dna, encoded[..16].to_vec());
    assert_eq!(decoded.name, b"old0".to_vec());

    let rewritten = migrate_record(&decoded);
    assert_eq!(rewritten.dna, decoded.dna);
    assert_eq!(rewritten.name, b"kitty_v1".to_vec());

    let bytes = encode_kitty(&rewritten);
    assert_eq!(bytes.len(), 24);
    let round = decode_kitty(&bytes).expect("twenty-four bytes decode");
    assert_eq!(round.dna, rewritten.dna);
    assert_eq!(round.name, rewritten.name);
}

#[test]
fn decoders_reject_values_of_the_wrong_length() {
    assert!(decode_old_kitty(&vec![0u8; 19]).is_none());
    assert!(decode_old_kitty(&vec![0u8; 21]).is_none());
    assert!(decode_old_kitty(&vec![0u8; 24]).is_none());
    assert!(decode_kitty(&vec![0u8; 20]).is_none());
    assert!(decode_kitty(&vec![0u8; 25]).is_none());
    assert!(decode_old_kitty(&vec![0u8; 20]).is_some());
    assert!(decode_kitty(&vec![0u8; 24]).is_some());
}

#[test]
fn store_holds_one_value_per_key() {
    let mut store: Store<Vec<u8>> = Store::new();
    assert!(store.get(3).is_none());
    store.insert(3, vec![1, 2, 3]);
    assert_eq!(store.get(3), Some(&vec![1, 2, 3]));
    store.insert(3, vec![4, 5]);
    assert_eq!(store.get(3), Some(&vec![4, 5]));
    assert!(store.contains_key(3));
    store.remove(3);
    assert!(!store.contains_key(3));
    store.insert(8, vec![9]);
    store.insert(2, vec![7]);
    let mut keys = store.keys();
    keys.sort();
    assert_eq!(keys, vec![2, 8]);
}
