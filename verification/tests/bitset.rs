use tuber::bitset::EntitiesBitset;
use tuber::ecs::ComponentStore;

#[test]
fn bits_set_and_clear() {
    let mut bits = EntitiesBitset::new();
    assert_eq!(bits.bit_count(), 65536);
    assert!(!bits.bit(0));
    bits.set_bit(0);
    bits.set_bit(63);
    bits.set_bit(64);
    bits.set_bit(65535);
    assert!(bits.bit(0));
    assert!(bits.bit(63));
    assert!(bits.bit(64));
    assert!(bits.bit(65535));
    assert!(!bits.bit(1));
    assert!(!bits.bit(65534));
    bits.unset_bit(63);
    assert!(!bits.bit(63));
    assert!(bits.bit(64));
}

#[test]
fn clearing_undoes_setting() {
    let mut bits = EntitiesBitset::new();
    bits.set_bit(5);
    bits.set_bit(700);
    bits.unset_bit(700);
    for i in 0..1000 {
        assert_eq!(bits.bit(i), i == 5);
    }
}

#[test]
fn component_store_slots() {
    let mut store: ComponentStore<&str> = ComponentStore::with_size(3);
    assert!(!store.has_entity(0));
    assert!(store.get(2).is_none());
    store.add_to_entity("a", 2);
    assert!(store.has_entity(2));
    assert_eq!(store.get(2), Some(&"a"));
    store.remove_from_entity(2);
    assert!(!store.has_entity(2));
    assert!(store.get(2).is_none());
}
