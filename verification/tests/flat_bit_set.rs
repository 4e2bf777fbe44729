use nitric_component::bit_set::BitSet;
use nitric_component::impls::FlatBitSet;

#[test]
fn empty() {
    let empty = FlatBitSet::new();

    for i in 0..100 {
        assert_eq!(empty.contains(i), false);
    }
}

#[test]
fn ensure_size() {
    let mut empty = FlatBitSet::new();

    assert_eq!(empty.as_words().len(), 0);
    empty.ensure_size(5);
    assert_eq!(empty.as_words().len(), 5);
    empty.ensure_size(3);
    assert_eq!(empty.as_words().len(), 5);
}

#[test]
fn add() {
    let mut bitset = FlatBitSet::new();

    bitset.add(0);
    assert_eq!(bitset.as_words()[0], 0x1);

    for i in 0..64 {
        bitset.add(i);
    }

    assert_eq!(bitset.as_words()[0], !0);
}

#[test]
fn flat_bit_set_remove() {
    let mut bitset = FlatBitSet::new();

    bitset.add(5);
    bitset.remove(5);

    assert_eq!(bitset.as_words()[0], 0);

    bitset.add(555);
    bitset.remove(555);

    assert!(bitset.as_words().iter().all(|n| *n == 0));

    for i in 0..64 {
        bitset.add(i);
    }

    bitset.remove(5);

    assert_eq!(bitset.as_words()[0], !0b100000);
}

#[test]
fn contains() {
    let mut bitset = FlatBitSet::new();

    bitset.add(123);
    assert_eq!(bitset.contains(123), true);
    assert_eq!(bitset.contains(122), false);
    assert_eq!(bitset.contains(124), false);

    bitset.remove(123);
    assert_eq!(bitset.contains(123), false);
}
